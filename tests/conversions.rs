use repr_c::{IpcError, One, OneFfi, ReprC, StringError, TextFfi, Two, TwoFfi, VecFfi};

fn sample_two() -> Two {
    Two {
        a: "SomeString".to_string(),
        b: vec![10, 20, 30, 40, 50],
        c: vec![
            One { a: "one_1".to_string() },
            One { a: "one_2".to_string() },
            One { a: "one_3".to_string() },
        ],
        d: One { a: "Hello".to_string() },
    }
}

fn one_texts(v: &[One]) -> Vec<String> {
    v.iter().map(|o| o.a.clone()).collect()
}

#[test]
fn text_round_trip() {
    let mut c = "hello".to_string().into_repr_c().unwrap();
    assert_eq!(c.buf.as_ref().unwrap(), &b"hello\0".to_vec());
    let s = String::from_repr_c_owned(&mut c).unwrap();
    assert_eq!(s, "hello");
    assert!(!c.is_live());
}

#[test]
fn text_round_trip_multibyte() {
    let text = "h\u{e9}llo \u{2713} \u{1F600}".to_string();
    let mut c = text.clone().into_repr_c().unwrap();
    assert_eq!(c.buf.as_ref().unwrap().len(), text.len() + 1);
    assert_eq!(String::from_repr_c_owned(&mut c).unwrap(), text);
}

#[test]
fn empty_text_round_trip() {
    let mut c = String::new().into_repr_c().unwrap();
    assert_eq!(c.buf.as_ref().unwrap(), &vec![0u8]);
    assert_eq!(String::from_repr_c_owned(&mut c).unwrap(), "");
}

#[test]
fn interior_terminator_rejected() {
    let r = "ab\0c".to_string().into_repr_c();
    assert!(matches!(r, Err(StringError::Null(2))));
}

#[test]
fn interior_terminator_offset_counts_bytes() {
    let r = "\u{e9}\0".to_string().into_repr_c();
    assert!(matches!(r, Err(StringError::Null(2))));
}

#[test]
fn malformed_foreign_text_rejected_and_freed() {
    let mut c = TextFfi::from_bytes(vec![0xff, 0xfe, 0]);
    let r = String::from_repr_c_owned(&mut c);
    assert_eq!(r, Err(StringError::Utf8));
    assert!(c.buf.is_none());
}

#[test]
fn malformed_foreign_text_cloned_keeps_buffer() {
    let c = TextFfi::from_bytes(vec![b'a', 0xc3, 0]);
    assert_eq!(String::from_repr_c_cloned(&c), Err(StringError::Utf8));
    assert_eq!(c.buf, Some(vec![b'a', 0xc3, 0]));
}

#[test]
fn foreign_text_ends_at_first_terminator() {
    let mut c = TextFfi::from_bytes(vec![b'a', 0, b'b', 0]);
    assert_eq!(String::from_repr_c_cloned(&c).unwrap(), "a");
    assert_eq!(String::from_repr_c_owned(&mut c).unwrap(), "a");
}

#[test]
fn cloned_reconstruction_does_not_consume() {
    let mut c = "kept".to_string().into_repr_c().unwrap();
    let first = String::from_repr_c_cloned(&c).unwrap();
    let second = String::from_repr_c_cloned(&c).unwrap();
    assert_eq!(first, "kept");
    assert_eq!(first, second);
    assert!(c.is_live());
    assert_eq!(String::from_repr_c_owned(&mut c).unwrap(), "kept");
}

#[test]
fn bytes_round_trip() {
    let mut c = vec![1u8, 0, 255, 7].into_repr_c().unwrap();
    assert_eq!(Vec::<u8>::from_repr_c_cloned(&c).unwrap(), vec![1, 0, 255, 7]);
    assert_eq!(Vec::<u8>::from_repr_c_owned(&mut c).unwrap(), vec![1, 0, 255, 7]);
    assert!(!c.is_live());
}

#[test]
fn empty_bytes_round_trip() {
    let mut c = Vec::<u8>::new().into_repr_c().unwrap();
    assert_eq!(Vec::<u8>::from_repr_c_owned(&mut c).unwrap(), Vec::<u8>::new());
}

#[test]
fn sequence_round_trip_keeps_order() {
    let v = vec!["x".to_string(), "yy".to_string(), "".to_string(), "zzz".to_string()];
    let mut c = v.clone().into_repr_c().unwrap();
    assert_eq!(c.data.as_ref().unwrap().len(), 4);
    assert_eq!(Vec::<String>::from_repr_c_cloned(&c).unwrap(), v);
    assert_eq!(Vec::<String>::from_repr_c_owned(&mut c).unwrap(), v);
    assert!(!c.is_live());
}

#[test]
fn nested_sequence_round_trip() {
    let v = vec![vec!["a".to_string()], vec![], vec!["b".to_string(), "c".to_string()]];
    let mut c = v.clone().into_repr_c().unwrap();
    assert_eq!(Vec::<Vec<String>>::from_repr_c_owned(&mut c).unwrap(), v);
}

#[test]
fn sequence_conversion_stops_at_first_failure() {
    let v = vec!["ok".to_string(), "a\0b".to_string(), "\0".to_string()];
    assert!(matches!(v.into_repr_c(), Err(StringError::Null(1))));
}

#[test]
fn sequence_reconstruction_reports_first_failure() {
    let items = vec![
        TextFfi::from_bytes(vec![b'o', b'k', 0]),
        TextFfi::from_bytes(vec![0x80, 0]),
        TextFfi::from_bytes(vec![b'z', 0]),
    ];
    let mut c = VecFfi::from_vec(items);
    assert_eq!(Vec::<String>::from_repr_c_cloned(&c), Err(StringError::Utf8));
    assert!(c.is_live());
    assert_eq!(Vec::<String>::from_repr_c_owned(&mut c), Err(StringError::Utf8));
    assert!(!c.is_live());
}

#[test]
fn one_round_trip() {
    let mut c = One { a: "solo".to_string() }.into_repr_c().unwrap();
    assert_eq!(One::from_repr_c_cloned(&c).unwrap().a, "solo");
    assert_eq!(One::from_repr_c_owned(&mut c).unwrap().a, "solo");
    assert!(!c.a.is_live());
}

#[test]
fn one_rejects_interior_terminator() {
    let r = One { a: "x\0".to_string() }.into_repr_c();
    assert!(matches!(r, Err(IpcError::StringError(StringError::Null(1)))));
}

#[test]
fn aggregate_round_trip() {
    let mut c = sample_two().into_repr_c().unwrap();
    let back = Two::from_repr_c_owned(&mut c).unwrap();
    let orig = sample_two();
    assert_eq!(back.a, orig.a);
    assert_eq!(back.b, orig.b);
    assert_eq!(one_texts(&back.c), one_texts(&orig.c));
    assert_eq!(back.d.a, orig.d.a);
}

#[test]
fn example_scenario() {
    let mut c = sample_two().into_repr_c().unwrap();
    assert_eq!(c.b.data.as_ref().unwrap(), &vec![10u8, 20, 30, 40, 50]);
    let cloned = Two::from_repr_c_cloned(&c).unwrap();
    let back = Two::from_repr_c_owned(&mut c).unwrap();
    for t in [&cloned, &back] {
        assert_eq!(t.a, "SomeString");
        assert_eq!(t.b, vec![10, 20, 30, 40, 50]);
        assert_eq!(one_texts(&t.c), vec!["one_1", "one_2", "one_3"]);
        assert_eq!(t.d.a, "Hello");
    }
}

#[test]
fn explicit_reconstruction_then_hook_fires_nothing() {
    let mut c = sample_two().into_repr_c().unwrap();
    assert!(!c.is_reclaimed());
    let _ = Two::from_repr_c_owned(&mut c).unwrap();
    assert!(c.is_reclaimed());
    assert!(!c.reclaim());
    assert!(c.is_reclaimed());
}

#[test]
fn hook_reclaims_live_record_once() {
    let mut c = sample_two().into_repr_c().unwrap();
    assert!(c.reclaim());
    assert!(c.is_reclaimed());
    assert!(!c.reclaim());
}

#[test]
fn live_record_dropped_without_reconstruction() {
    let c = sample_two().into_repr_c().unwrap();
    assert!(!c.is_reclaimed());
    drop(c);
}

#[test]
fn aggregate_conversion_reports_first_failing_field() {
    let mut two = sample_two();
    two.c[1].a = "bad\0".to_string();
    two.d.a = "\0".to_string();
    assert!(matches!(
        two.into_repr_c(),
        Err(IpcError::StringError(StringError::Null(3)))
    ));
    let mut two = sample_two();
    two.a = "\0x".to_string();
    assert!(matches!(
        two.into_repr_c(),
        Err(IpcError::StringError(StringError::Null(0)))
    ));
}

#[test]
fn aggregate_owned_failure_reclaims_every_field() {
    let mut c = TwoFfi {
        a: TextFfi::from_bytes(vec![0xff, 0]),
        b: VecFfi::from_vec(vec![1, 2]),
        c: VecFfi::from_vec(vec![OneFfi { a: TextFfi::from_bytes(vec![b'q', 0]) }]),
        d: OneFfi { a: TextFfi::from_bytes(vec![b'r', 0]) },
    };
    assert!(matches!(
        Two::from_repr_c_owned(&mut c),
        Err(IpcError::StringError(StringError::Utf8))
    ));
    assert!(c.is_reclaimed());
    assert!(!c.reclaim());
}

#[test]
fn aggregate_cloned_failure_in_nested_record() {
    let c = TwoFfi {
        a: TextFfi::from_bytes(vec![b'p', 0]),
        b: VecFfi::from_vec(vec![]),
        c: VecFfi::from_vec(vec![]),
        d: OneFfi { a: TextFfi::from_bytes(vec![0xc0, 0x80, 0]) },
    };
    assert!(matches!(
        Two::from_repr_c_cloned(&c),
        Err(IpcError::StringError(StringError::Utf8))
    ));
    assert!(!c.is_reclaimed());
}
