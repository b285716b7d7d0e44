use crate::repr::ReprC;
use crate::sequence::{lemma_seq_converts, VecFfi};
use crate::text::{lemma_text_converts, StringError, TextFfi};
use vstd::prelude::*;

verus! {

/// Why a record could not cross the boundary: the error of its first field
/// that failed.
#[derive(Debug, PartialEq, Eq, Structural)]
pub enum IpcError {
    StringError(StringError),
    U8Error,
}

/// A record with one text field.
#[derive(Clone)]
pub struct One {
    pub a: String,
}

/// Foreign form of [`One`].
pub struct OneFfi {
    pub a: TextFfi,
}

impl DeepView for One {
    type V = Seq<char>;

    open spec fn deep_view(&self) -> Seq<char> {
        self.a@
    }
}

/// Lifts a text result into the record error domain.
pub open spec fn lift_text<V>(r: Result<V, StringError>) -> Result<V, IpcError> {
    match r {
        Ok(v) => Ok(v),
        Err(e) => Err(IpcError::StringError(e)),
    }
}

impl ReprC for One {
    type C = OneFfi;

    type Error = IpcError;

    open spec fn live(c: &OneFfi) -> bool {
        <String as ReprC>::live(&c.a)
    }

    open spec fn reclaimed(c: &OneFfi) -> bool {
        <String as ReprC>::reclaimed(&c.a)
    }

    open spec fn decoded(c: &OneFfi) -> Result<Seq<char>, IpcError> {
        lift_text(<String as ReprC>::decoded(&c.a))
    }

    open spec fn converted(v: Seq<char>) -> Result<(), IpcError> {
        lift_text(<String as ReprC>::converted(v))
    }

    fn from_repr_c_owned(c: &mut OneFfi) -> (r: Result<One, IpcError>) {
        match String::from_repr_c_owned(&mut c.a) {
            Ok(a) => Ok(One { a }),
            Err(e) => Err(IpcError::StringError(e)),
        }
    }

    fn from_repr_c_cloned(c: &OneFfi) -> (r: Result<One, IpcError>) {
        match String::from_repr_c_cloned(&c.a) {
            Ok(a) => Ok(One { a }),
            Err(e) => Err(IpcError::StringError(e)),
        }
    }

    fn into_repr_c(self) -> (r: Result<OneFfi, IpcError>) {
        match self.a.into_repr_c() {
            Ok(a) => Ok(OneFfi { a }),
            Err(e) => Err(IpcError::StringError(e)),
        }
    }
}

/// A record with a text field, a byte buffer, a sequence of records and a
/// nested record.
pub struct Two {
    pub a: String,
    pub b: Vec<u8>,
    pub c: Vec<One>,
    pub d: One,
}

/// The model of a [`Two`]: its fields' models.
pub ghost struct TwoModel {
    pub a: Seq<char>,
    pub b: Seq<u8>,
    pub c: Seq<Seq<char>>,
    pub d: Seq<char>,
}

impl DeepView for Two {
    type V = TwoModel;

    open spec fn deep_view(&self) -> TwoModel {
        TwoModel {
            a: self.a@,
            b: self.b.deep_view(),
            c: self.c.deep_view(),
            d: self.d.deep_view(),
        }
    }
}

/// Foreign form of [`Two`]: each field inline, in declaration order, the
/// nested record with no extra indirection.
pub struct TwoFfi {
    pub a: TextFfi,
    pub b: VecFfi<u8>,
    pub c: VecFfi<OneFfi>,
    pub d: OneFfi,
}

impl ReprC for Two {
    type C = TwoFfi;

    type Error = IpcError;

    open spec fn live(c: &TwoFfi) -> bool {
        <String as ReprC>::live(&c.a) && <Vec<u8> as ReprC>::live(&c.b) && <Vec<One> as ReprC>::live(
            &c.c,
        ) && <One as ReprC>::live(&c.d)
    }

    open spec fn reclaimed(c: &TwoFfi) -> bool {
        <String as ReprC>::reclaimed(&c.a) && <Vec<u8> as ReprC>::reclaimed(&c.b) && <Vec<
            One,
        > as ReprC>::reclaimed(&c.c) && <One as ReprC>::reclaimed(&c.d)
    }

    open spec fn decoded(c: &TwoFfi) -> Result<TwoModel, IpcError> {
        match <String as ReprC>::decoded(&c.a) {
            Err(e) => Err(IpcError::StringError(e)),
            Ok(a) => match <Vec<u8> as ReprC>::decoded(&c.b) {
                Err(_) => Err(IpcError::U8Error),
                Ok(b) => match <Vec<One> as ReprC>::decoded(&c.c) {
                    Err(e) => Err(e),
                    Ok(cs) => match <One as ReprC>::decoded(&c.d) {
                        Err(e) => Err(e),
                        Ok(d) => Ok(TwoModel { a, b, c: cs, d }),
                    },
                },
            },
        }
    }

    open spec fn converted(v: TwoModel) -> Result<(), IpcError> {
        match <String as ReprC>::converted(v.a) {
            Err(e) => Err(IpcError::StringError(e)),
            Ok(_) => match <Vec<u8> as ReprC>::converted(v.b) {
                Err(_) => Err(IpcError::U8Error),
                Ok(_) => match <Vec<One> as ReprC>::converted(v.c) {
                    Err(e) => Err(e),
                    Ok(_) => <One as ReprC>::converted(v.d),
                },
            },
        }
    }

    /// Fields are reconstructed in declaration order. After a failure the
    /// fields not reached are released unread, so that the handle is
    /// reclaimed whatever the outcome.
    fn from_repr_c_owned(c: &mut TwoFfi) -> (r: Result<Two, IpcError>) {
        let a = match String::from_repr_c_owned(&mut c.a) {
            Ok(a) => a,
            Err(e) => {
                c.release_from_b();
                return Err(IpcError::StringError(e));
            },
        };
        let b = match Vec::<u8>::from_repr_c_owned(&mut c.b) {
            Ok(b) => b,
            Err(_) => {
                c.release_from_c();
                return Err(IpcError::U8Error);
            },
        };
        let cs = match Vec::<One>::from_repr_c_owned(&mut c.c) {
            Ok(cs) => cs,
            Err(e) => {
                c.d.a.buf = None;
                return Err(e);
            },
        };
        let d = match One::from_repr_c_owned(&mut c.d) {
            Ok(d) => d,
            Err(e) => {
                return Err(e);
            },
        };
        Ok(Two { a, b, c: cs, d })
    }

    fn from_repr_c_cloned(c: &TwoFfi) -> (r: Result<Two, IpcError>) {
        let a = match String::from_repr_c_cloned(&c.a) {
            Ok(a) => a,
            Err(e) => {
                return Err(IpcError::StringError(e));
            },
        };
        let b = match Vec::<u8>::from_repr_c_cloned(&c.b) {
            Ok(b) => b,
            Err(_) => {
                return Err(IpcError::U8Error);
            },
        };
        let cs = match Vec::<One>::from_repr_c_cloned(&c.c) {
            Ok(cs) => cs,
            Err(e) => {
                return Err(e);
            },
        };
        let d = match One::from_repr_c_cloned(&c.d) {
            Ok(d) => d,
            Err(e) => {
                return Err(e);
            },
        };
        Ok(Two { a, b, c: cs, d })
    }

    /// Fields are converted in declaration order. After a failure the fields
    /// already in foreign form are dropped with the partial result, and those
    /// not reached with the native value.
    fn into_repr_c(self) -> (r: Result<TwoFfi, IpcError>) {
        let Two { a, b, c, d } = self;
        let a = match a.into_repr_c() {
            Ok(a) => a,
            Err(e) => {
                return Err(IpcError::StringError(e));
            },
        };
        let b = match b.into_repr_c() {
            Ok(b) => b,
            Err(_) => {
                return Err(IpcError::U8Error);
            },
        };
        let c = match c.into_repr_c() {
            Ok(c) => c,
            Err(e) => {
                return Err(e);
            },
        };
        let d = match d.into_repr_c() {
            Ok(d) => d,
            Err(e) => {
                return Err(e);
            },
        };
        Ok(TwoFfi { a, b, c, d })
    }
}

/// A record converts exactly when none of its texts, the nested ones
/// included, holds a terminator character.
pub proof fn lemma_record_converts(m: TwoModel)
    ensures
        <Two as ReprC>::converted(m) is Ok <==> {
            &&& !m.a.contains('\0')
            &&& forall|i: int| 0 <= i < m.c.len() ==> !(#[trigger] m.c[i]).contains('\0')
            &&& !m.d.contains('\0')
        },
{
    lemma_text_converts(m.a);
    lemma_text_converts(m.d);
    lemma_seq_converts::<One>(m.c);
    assert forall|i: int| 0 <= i < m.c.len() implies (<One as ReprC>::converted(#[trigger] m.c[i]) is Ok
        <==> !m.c[i].contains('\0')) by {
        lemma_text_converts(m.c[i]);
    }
}

impl TwoFfi {
    fn release_from_c(&mut self)
        ensures
            final(self).a == old(self).a,
            final(self).b == old(self).b,
            <Vec<One> as ReprC>::reclaimed(&final(self).c),
            <One as ReprC>::reclaimed(&final(self).d),
        opens_invariants none
        no_unwind
    {
        self.c.data = None;
        self.d.a.buf = None;
    }

    fn release_from_b(&mut self)
        ensures
            final(self).a == old(self).a,
            <Vec<u8> as ReprC>::reclaimed(&final(self).b),
            <Vec<One> as ReprC>::reclaimed(&final(self).c),
            <One as ReprC>::reclaimed(&final(self).d),
        opens_invariants none
        no_unwind
    {
        self.b.data = None;
        self.release_from_c();
    }

    /// Whether every field has been reclaimed.
    pub fn is_reclaimed(&self) -> (r: bool)
        ensures
            r == <Two as ReprC>::reclaimed(self),
        opens_invariants none
        no_unwind
    {
        matches!(self.a.buf, None) && matches!(self.b.data, None) && matches!(self.c.data, None)
            && matches!(self.d.a.buf, None)
    }

    /// The reclaim hook: releases whatever the handle still owns, and
    /// nothing once it has been reclaimed. Returns whether it released
    /// anything.
    pub fn reclaim(&mut self) -> (r: bool)
        ensures
            <Two as ReprC>::reclaimed(final(self)),
            r == !<Two as ReprC>::reclaimed(old(self)),
        opens_invariants none
        no_unwind
    {
        let fired = !self.is_reclaimed();
        self.a.buf = None;
        self.release_from_b();
        fired
    }
}

/// A foreign record that goes out of scope unreclaimed releases what it owns;
/// one already reclaimed releases nothing.
impl Drop for TwoFfi {
    fn drop(&mut self)
        ensures
            <Two as ReprC>::reclaimed(final(self)),
        opens_invariants none
        no_unwind
    {
        self.reclaim();
    }
}

} // verus!
