use crate::repr::ReprC;
use vstd::prelude::*;
use vstd::string::StrSliceExecFns;
use vstd::utf8::*;

verus! {

/// Why text could not cross the boundary.
#[derive(Debug, PartialEq, Eq, Structural)]
pub enum StringError {
    /// The foreign bytes before the terminator are not valid UTF-8.
    Utf8,
    /// The native text holds a terminator byte, at this byte offset.
    Null(usize),
}

/// Foreign form of text: a buffer of UTF-8 bytes ending with a terminator
/// byte `0`. `None` once the buffer has been reclaimed.
pub struct TextFfi {
    pub buf: Option<Vec<u8>>,
}

/// The buffer holds a terminator byte.
pub open spec fn has_terminator(b: Seq<u8>) -> bool {
    exists|i: int| 0 <= i < b.len() && b[i] == 0
}

/// `k` is the offset of the first terminator byte in `b`.
pub open spec fn is_first_terminator(b: Seq<u8>, k: int) -> bool {
    0 <= k < b.len() && b[k] == 0 && forall|j: int| 0 <= j < k ==> b[j] != 0
}

/// The offset of the first terminator byte, or the length where there is none.
pub open spec fn terminator_offset(b: Seq<u8>) -> int {
    if has_terminator(b) {
        choose|k: int| is_first_terminator(b, k)
    } else {
        b.len() as int
    }
}

/// The text bytes of a foreign buffer: those before its first terminator.
pub open spec fn text_bytes(b: Seq<u8>) -> Seq<u8> {
    b.take(terminator_offset(b))
}

/// What the bytes of a foreign buffer decode to.
pub open spec fn decode_text(b: Seq<u8>) -> Result<Seq<char>, StringError> {
    if valid_utf8(text_bytes(b)) {
        Ok(decode_utf8(text_bytes(b)))
    } else {
        Err(StringError::Utf8)
    }
}

/// Whether text converts to a foreign buffer, and the error when it does not.
pub open spec fn convert_text(s: Seq<char>) -> Result<(), StringError> {
    if has_terminator(encode_utf8(s)) {
        Err(StringError::Null(terminator_offset(encode_utf8(s)) as usize))
    } else {
        Ok(())
    }
}

proof fn lemma_first_terminator_unique(b: Seq<u8>, k: int)
    requires
        is_first_terminator(b, k),
    ensures
        has_terminator(b),
        terminator_offset(b) == k,
{
    let c = choose|c: int| is_first_terminator(b, c);
    assert(is_first_terminator(b, c));
    if c < k {
        assert(b[c] != 0);
    } else if k < c {
        assert(b[k] != 0);
    }
}

/// Finds the first terminator byte of `b`, or its length where there is none.
fn find_terminator(b: &Vec<u8>) -> (r: usize)
    ensures
        r == terminator_offset(b@),
        r <= b@.len(),
        r == b@.len() <==> !has_terminator(b@),
        r < b@.len() ==> is_first_terminator(b@, r as int),
{
    let mut i: usize = 0;
    while i < b.len()
        invariant
            i <= b@.len(),
            forall|j: int| 0 <= j < i ==> b@[j] != 0,
        decreases b@.len() - i,
    {
        if b[i] == 0 {
            proof {
                lemma_first_terminator_unique(b@, i as int);
            }
            return i;
        }
        i = i + 1;
    }
    assert(!has_terminator(b@));
    i
}

/// Relies on `String::from_utf8`: it accepts exactly the valid UTF-8
/// sequences, and the string it returns has those bytes.
#[verifier::external_body]
fn string_from_utf8(bytes: Vec<u8>) -> (r: Option<String>)
    ensures
        r is Some <==> valid_utf8(bytes@),
        r is Some ==> encode_utf8(r->Some_0@) == bytes@,
{
    String::from_utf8(bytes).ok()
}

/// Decodes the text bytes of a foreign buffer.
fn decode_bytes(bytes: Vec<u8>) -> (r: Result<String, StringError>)
    ensures
        match r {
            Ok(s) => valid_utf8(bytes@) && s@ == decode_utf8(bytes@),
            Err(e) => !valid_utf8(bytes@) && e == StringError::Utf8,
        },
{
    match string_from_utf8(bytes) {
        Some(s) => {
            proof {
                encode_utf8_decode_utf8(s@);
            }
            Ok(s)
        },
        None => Err(StringError::Utf8),
    }
}

proof fn lemma_scalar_terminator(c: char)
    ensures
        has_terminator(encode_scalar(c as u32)) <==> c == '\0',
{
    let v = c as u32;
    char_is_scalar(c);
    let e = encode_scalar(v);
    if has_width_1_encoding(v) {
        assert(((v & 0x7F) as u8 == 0) <==> v == 0) by (bit_vector)
            requires
                v <= 0x7F,
        ;
        assert(e[0] == leading_byte_width_1(v));
        if v == 0 {
            char_u32_cast(c, v);
            assert(e[0] == 0);
        }
    } else {
        assert(v != 0);
        assert(forall|i: int| 0 <= i < e.len() ==> e[i] >= 0x80) by {
            let b2 = leading_byte_width_2(v);
            let b3 = leading_byte_width_3(v);
            let b4 = leading_byte_width_4(v);
            let l1 = last_continuation_byte(v);
            let l2 = second_last_continuation_byte(v);
            let l3 = third_last_continuation_byte(v);
            assert(0xC0 | ((v >> 6) & 0x1F) as u8 >= 0x80) by (bit_vector);
            assert(0xE0 | ((v >> 12) & 0x0F) as u8 >= 0x80) by (bit_vector);
            assert(0xF0 | ((v >> 18) & 0x7) as u8 >= 0x80) by (bit_vector);
            assert(0x80 | (v & 0x3F) as u8 >= 0x80) by (bit_vector);
            assert(0x80 | ((v >> 6) & 0x3F) as u8 >= 0x80) by (bit_vector);
            assert(0x80 | ((v >> 12) & 0x3F) as u8 >= 0x80) by (bit_vector);
        }
    }
}

proof fn lemma_encode_terminator(s: Seq<char>)
    ensures
        has_terminator(encode_utf8(s)) <==> s.contains('\0'),
    decreases s.len(),
{
    if s.len() > 0 {
        let e = encode_scalar(s[0] as u32);
        let rest = s.drop_first();
        let r = encode_utf8(rest);
        lemma_encode_terminator(rest);
        lemma_scalar_terminator(s[0]);
        assert(encode_utf8(s) == e + r);
        if has_terminator(e + r) {
            let i = choose|i: int| 0 <= i < (e + r).len() && (e + r)[i] == 0;
            if i >= e.len() {
                assert(r[i - e.len()] == 0);
            }
        }
        if has_terminator(e) {
            let i = choose|i: int| 0 <= i < e.len() && e[i] == 0;
            assert((e + r)[i] == 0);
        }
        if has_terminator(r) {
            let i = choose|i: int| 0 <= i < r.len() && r[i] == 0;
            assert((e + r)[e.len() + i] == 0);
        }
        if s.contains('\0') {
            let i = choose|i: int| 0 <= i < s.len() && s[i] == '\0';
            if i > 0 {
                assert(rest[i - 1] == '\0');
            }
        }
        if rest.contains('\0') {
            let i = choose|i: int| 0 <= i < rest.len() && rest[i] == '\0';
            assert(s[i + 1] == '\0');
        }
    }
}

/// Text converts to foreign form exactly when it holds no terminator
/// character; text that holds one is rejected with the terminator error.
pub proof fn lemma_text_converts(s: Seq<char>)
    ensures
        <String as ReprC>::converted(s) is Ok <==> !s.contains('\0'),
        s.contains('\0') ==> <String as ReprC>::converted(s) matches Err(StringError::Null(_)),
{
    lemma_encode_terminator(s);
}

impl TextFfi {
    /// A foreign handle that owns `buf`.
    pub fn from_bytes(buf: Vec<u8>) -> (r: TextFfi)
        ensures
            r.buf == Some(buf),
    {
        TextFfi { buf: Some(buf) }
    }

    /// Whether the handle still owns its buffer.
    pub fn is_live(&self) -> (r: bool)
        ensures
            r == self.buf is Some,
    {
        self.buf.is_some()
    }
}

impl ReprC for String {
    type C = TextFfi;

    type Error = StringError;

    open spec fn live(c: &TextFfi) -> bool {
        c.buf is Some && has_terminator(c.buf->Some_0@)
    }

    open spec fn reclaimed(c: &TextFfi) -> bool {
        c.buf is None
    }

    open spec fn decoded(c: &TextFfi) -> Result<Seq<char>, StringError> {
        decode_text(c.buf->Some_0@)
    }

    open spec fn converted(v: Seq<char>) -> Result<(), StringError> {
        convert_text(v)
    }

    fn from_repr_c_owned(c: &mut TextFfi) -> (r: Result<String, StringError>) {
        let mut bytes = c.buf.take().unwrap();
        let n = find_terminator(&bytes);
        bytes.truncate(n);
        decode_bytes(bytes)
    }

    fn from_repr_c_cloned(c: &TextFfi) -> (r: Result<String, StringError>) {
        let buf = c.buf.as_ref().unwrap();
        let n = find_terminator(buf);
        let mut bytes: Vec<u8> = Vec::with_capacity(n);
        let mut i: usize = 0;
        while i < n
            invariant
                n <= buf@.len(),
                i <= n,
                bytes@ == buf@.take(i as int),
            decreases n - i,
        {
            bytes.push(buf[i]);
            i = i + 1;
            assert(bytes@ =~= buf@.take(i as int));
        }
        decode_bytes(bytes)
    }

    fn into_repr_c(self) -> (r: Result<TextFfi, StringError>)
        ensures
            r is Ok ==> r->Ok_0.buf is Some && r->Ok_0.buf->Some_0@ == encode_utf8(self@).push(0u8),
    {
        let mut bytes = self.as_str().as_bytes_vec();
        let n = find_terminator(&bytes);
        if n < bytes.len() {
            return Err(StringError::Null(n));
        }
        let ghost text = bytes@;
        bytes.push(0);
        proof {
            assert(bytes@[n as int] == 0);
            assert(is_first_terminator(bytes@, n as int));
            lemma_first_terminator_unique(bytes@, n as int);
            assert(text_bytes(bytes@) =~= text);
            encode_utf8_valid_utf8(self@);
            encode_utf8_decode_utf8(self@);
        }
        Ok(TextFfi { buf: Some(bytes) })
    }
}

} // verus!
