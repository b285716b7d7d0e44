use crate::repr::ReprC;
use crate::sequence::VecFfi;
use vstd::prelude::*;

verus! {

/// Raw bytes are already in foreign form: converting them only moves the
/// buffer, with no per-byte work and no failure.
impl ReprC for Vec<u8> {
    type C = VecFfi<u8>;

    type Error = ();

    open spec fn live(c: &VecFfi<u8>) -> bool {
        c.data is Some
    }

    open spec fn reclaimed(c: &VecFfi<u8>) -> bool {
        c.data is None
    }

    open spec fn decoded(c: &VecFfi<u8>) -> Result<Seq<u8>, ()> {
        Ok(c.data->Some_0@)
    }

    open spec fn converted(v: Seq<u8>) -> Result<(), ()> {
        Ok(())
    }

    fn from_repr_c_owned(c: &mut VecFfi<u8>) -> (r: Result<Vec<u8>, ()>) {
        let v = c.data.take().unwrap();
        assert(v.deep_view() =~= v@);
        Ok(v)
    }

    fn from_repr_c_cloned(c: &VecFfi<u8>) -> (r: Result<Vec<u8>, ()>) {
        let v = c.data.as_ref().unwrap().clone();
        assert(v.deep_view() =~= v@);
        Ok(v)
    }

    fn into_repr_c(self) -> (r: Result<VecFfi<u8>, ()>) {
        assert(self.deep_view() =~= self@);
        Ok(VecFfi { data: Some(self) })
    }
}

} // verus!
