use crate::repr::ReprC;
use vstd::prelude::*;

verus! {

/// Foreign form of a sequence: its elements, each in foreign form, in one
/// block. `None` once the block has been reclaimed.
pub struct VecFfi<E> {
    pub data: Option<Vec<E>>,
}

impl<E> VecFfi<E> {
    /// A foreign handle that owns `data`.
    pub fn from_vec(data: Vec<E>) -> (r: VecFfi<E>)
        ensures
            r.data == Some(data),
    {
        VecFfi { data: Some(data) }
    }

    /// Whether the handle still owns its block.
    pub fn is_live(&self) -> (r: bool)
        ensures
            r == self.data is Some,
    {
        self.data.is_some()
    }
}

/// What a block of foreign elements decodes to: each element in order, or
/// the error of the first that fails.
pub open spec fn decode_seq<T: ReprC>(s: Seq<T::C>) -> Result<Seq<T::V>, T::Error>
    decreases s.len(),
{
    if s.len() == 0 {
        Ok(Seq::empty())
    } else {
        match decode_seq::<T>(s.drop_last()) {
            Ok(p) => match T::decoded(&s.last()) {
                Ok(v) => Ok(p.push(v)),
                Err(e) => Err(e),
            },
            Err(e) => Err(e),
        }
    }
}

/// Whether every element converts, and the error of the first that does not.
pub open spec fn convert_seq<T: ReprC>(vs: Seq<T::V>) -> Result<(), T::Error>
    decreases vs.len(),
{
    if vs.len() == 0 {
        Ok(())
    } else {
        match convert_seq::<T>(vs.drop_last()) {
            Ok(_) => T::converted(vs.last()),
            Err(e) => Err(e),
        }
    }
}

proof fn lemma_decode_prefix_err<T: ReprC>(s: Seq<T::C>, i: int)
    requires
        0 <= i <= s.len(),
        decode_seq::<T>(s.take(i)) is Err,
    ensures
        decode_seq::<T>(s) == decode_seq::<T>(s.take(i)),
    decreases s.len() - i,
{
    if i < s.len() {
        assert(s.take(i + 1).drop_last() =~= s.take(i));
        lemma_decode_prefix_err::<T>(s, i + 1);
    } else {
        assert(s.take(i) =~= s);
    }
}

proof fn lemma_convert_prefix_err<T: ReprC>(vs: Seq<T::V>, i: int)
    requires
        0 <= i <= vs.len(),
        convert_seq::<T>(vs.take(i)) is Err,
    ensures
        convert_seq::<T>(vs) == convert_seq::<T>(vs.take(i)),
    decreases vs.len() - i,
{
    if i < vs.len() {
        assert(vs.take(i + 1).drop_last() =~= vs.take(i));
        lemma_convert_prefix_err::<T>(vs, i + 1);
    } else {
        assert(vs.take(i) =~= vs);
    }
}

/// A sequence converts exactly when each of its elements converts.
pub proof fn lemma_seq_converts<T: ReprC>(vs: Seq<T::V>)
    ensures
        convert_seq::<T>(vs) is Ok <==> forall|i: int|
            0 <= i < vs.len() ==> T::converted(#[trigger] vs[i]) is Ok,
    decreases vs.len(),
{
    if vs.len() > 0 {
        let p = vs.drop_last();
        lemma_seq_converts::<T>(p);
        if forall|i: int| 0 <= i < vs.len() ==> T::converted(#[trigger] vs[i]) is Ok {
            assert forall|i: int| 0 <= i < p.len() implies T::converted(#[trigger] p[i]) is Ok by {
                assert(p[i] == vs[i]);
            }
            assert(T::converted(vs[vs.len() - 1]) is Ok);
        }
        if convert_seq::<T>(vs) is Ok {
            assert(convert_seq::<T>(p) is Ok);
            assert forall|i: int| 0 <= i < vs.len() implies T::converted(#[trigger] vs[i]) is Ok by {
                if i < vs.len() - 1 {
                    assert(p[i] == vs[i]);
                }
            }
        }
    }
}

/// A block of foreign elements, each decoding to its value, decodes to the
/// sequence of those values in the same order.
pub proof fn lemma_seq_decodes<T: ReprC>(cs: Seq<T::C>, vs: Seq<T::V>)
    requires
        cs.len() == vs.len(),
        forall|i: int| 0 <= i < cs.len() ==> T::decoded(&cs[i]) == Ok::<T::V, T::Error>(vs[i]),
    ensures
        decode_seq::<T>(cs) == Ok::<Seq<T::V>, T::Error>(vs),
    decreases cs.len(),
{
    if cs.len() > 0 {
        lemma_seq_decodes::<T>(cs.drop_last(), vs.drop_last());
        assert(vs.drop_last().push(vs.last()) =~= vs);
    } else {
        assert(vs =~= Seq::<T::V>::empty());
    }
}

/// A sequence of convertible elements converts element by element, in
/// order; the first failure ends the conversion.
impl<T: ReprC + Clone> ReprC for Vec<T> {
    type C = VecFfi<T::C>;

    type Error = T::Error;

    open spec fn live(c: &VecFfi<T::C>) -> bool {
        c.data is Some && forall|i: int|
            0 <= i < c.data->Some_0@.len() ==> T::live(#[trigger] &c.data->Some_0@[i])
    }

    open spec fn reclaimed(c: &VecFfi<T::C>) -> bool {
        c.data is None
    }

    open spec fn decoded(c: &VecFfi<T::C>) -> Result<Seq<T::V>, T::Error> {
        decode_seq::<T>(c.data->Some_0@)
    }

    open spec fn converted(v: Seq<T::V>) -> Result<(), T::Error> {
        convert_seq::<T>(v)
    }

    fn from_repr_c_owned(c: &mut VecFfi<T::C>) -> (r: Result<Vec<T>, T::Error>) {
        let data = c.data.take().unwrap();
        let ghost items = data@;
        let mut v: Vec<T> = Vec::with_capacity(data.len());
        proof {
            broadcast use vstd::std_specs::vec::axiom_spec_into_iter;
        }
        assert(items.take(0) =~= Seq::<T::C>::empty());
        assert(v.deep_view() =~= Seq::<T::V>::empty());
        for elt in it: data.into_iter()
            invariant
                it.seq() == items,
                old(c).data->Some_0@ == items,
                c.data is None,
                forall|j: int| 0 <= j < items.len() ==> T::live(#[trigger] &items[j]),
                v@.len() == it.index(),
                decode_seq::<T>(items.take(it.index() as int)) == Ok::<Seq<T::V>, T::Error>(v.deep_view()),
        {
            let ghost i = it.index();
            assert(elt == items[i]);
            assert(items.take(i + 1).drop_last() =~= items.take(i as int));
            assert(items.take(i + 1).last() == items[i as int]);
            let mut elt = elt;
            let ghost old_dv = v.deep_view();
            match T::from_repr_c_owned(&mut elt) {
                Ok(x) => {
                    v.push(x);
                    assert(v.deep_view() =~= old_dv.push(x.deep_view()));
                },
                Err(e) => {
                    proof {
                        assert(decode_seq::<T>(items.take(i + 1)) == Err::<Seq<T::V>, T::Error>(e));
                        lemma_decode_prefix_err::<T>(items, i + 1);
                    }
                    return Err(e);
                },
            }
        }
        assert(items.take(items.len() as int) =~= items);
        Ok(v)
    }

    fn from_repr_c_cloned(c: &VecFfi<T::C>) -> (r: Result<Vec<T>, T::Error>) {
        let data = c.data.as_ref().unwrap();
        let ghost items = data@;
        let mut v: Vec<T> = Vec::with_capacity(data.len());
        let n = data.len();
        let mut i: usize = 0;
        assert(items.take(0) =~= Seq::<T::C>::empty());
        assert(v.deep_view() =~= Seq::<T::V>::empty());
        while i < n
            invariant
                n == items.len(),
                items == data@,
                items == c.data->Some_0@,
                i <= n,
                forall|j: int| 0 <= j < n ==> T::live(#[trigger] &items[j]),
                v@.len() == i,
                decode_seq::<T>(items.take(i as int)) == Ok::<Seq<T::V>, T::Error>(v.deep_view()),
            decreases n - i,
        {
            assert(items.take(i + 1).drop_last() =~= items.take(i as int));
            assert(items.take(i + 1).last() == items[i as int]);
            let ghost old_dv = v.deep_view();
            match T::from_repr_c_cloned(&data[i]) {
                Ok(x) => {
                    v.push(x);
                    assert(v.deep_view() =~= old_dv.push(x.deep_view()));
                },
                Err(e) => {
                    proof {
                        assert(decode_seq::<T>(items.take(i + 1)) == Err::<Seq<T::V>, T::Error>(e));
                        lemma_decode_prefix_err::<T>(items, i + 1);
                    }
                    return Err(e);
                },
            }
            i = i + 1;
        }
        assert(items.take(n as int) =~= items);
        Ok(v)
    }

    fn into_repr_c(self) -> (r: Result<VecFfi<T::C>, T::Error>) {
        let ghost vs = self.deep_view();
        let ghost elems = self@;
        let mut out: Vec<T::C> = Vec::with_capacity(self.len());
        proof {
            broadcast use vstd::std_specs::vec::axiom_spec_into_iter;
        }
        assert(vs.take(0) =~= Seq::<T::V>::empty());
        assert(out@ =~= Seq::<T::C>::empty());
        for elt in it: self.into_iter()
            invariant
                it.seq() == elems,
                vs == self.deep_view(),
                elems == self@,
                out@.len() == it.index(),
                forall|j: int| 0 <= j < out@.len() ==> T::live(#[trigger] &out@[j]),
                convert_seq::<T>(vs.take(it.index() as int)) == Ok::<(), T::Error>(()),
                decode_seq::<T>(out@) == Ok::<Seq<T::V>, T::Error>(vs.take(it.index() as int)),
        {
            let ghost i = it.index();
            assert(elt.deep_view() == vs[i]);
            assert(vs.take(i + 1).drop_last() =~= vs.take(i as int));
            assert(vs.take(i + 1).last() == vs[i]);
            let ghost old_out = out@;
            match elt.into_repr_c() {
                Ok(x) => {
                    out.push(x);
                    assert(out@.drop_last() =~= old_out);
                    assert(vs.take(i + 1) =~= vs.take(i as int).push(vs[i]));
                },
                Err(e) => {
                    proof {
                        assert(convert_seq::<T>(vs.take(i + 1)) == Err::<(), T::Error>(e));
                        lemma_convert_prefix_err::<T>(vs, i + 1);
                    }
                    return Err(e);
                },
            }
        }
        assert(vs.take(vs.len() as int) =~= vs);
        Ok(VecFfi { data: Some(out) })
    }
}

} // verus!
