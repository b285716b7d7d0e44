use vstd::prelude::*;

verus! {

/// A value that can cross a foreign boundary.
///
/// The foreign form `C` owns its data while it is live. Owned reconstruction
/// takes that data out of the handle, so that a handle is reclaimed exactly
/// once; cloned reconstruction only reads it.
pub trait ReprC: Sized + DeepView {
    type C;

    type Error;

    /// The handle still owns a well-formed foreign representation.
    spec fn live(c: &Self::C) -> bool;

    /// The handle owns nothing any more: reclaiming it again frees nothing.
    spec fn reclaimed(c: &Self::C) -> bool;

    /// What reconstruction yields from a live handle: the model of the
    /// native value, or the first error met.
    spec fn decoded(c: &Self::C) -> Result<Self::V, Self::Error>;

    /// Whether conversion of a native value with model `v` succeeds, and
    /// with which error it fails.
    spec fn converted(v: Self::V) -> Result<(), Self::Error>;

    fn from_repr_c_owned(c: &mut Self::C) -> (r: Result<Self, Self::Error>)
        requires
            Self::live(old(c)),
        ensures
            Self::reclaimed(final(c)),
            match r {
                Ok(v) => Self::decoded(old(c)) == Ok::<Self::V, Self::Error>(v.deep_view()),
                Err(e) => Self::decoded(old(c)) == Err::<Self::V, Self::Error>(e),
            },
    ;

    fn from_repr_c_cloned(c: &Self::C) -> (r: Result<Self, Self::Error>)
        requires
            Self::live(c),
        ensures
            match r {
                Ok(v) => Self::decoded(c) == Ok::<Self::V, Self::Error>(v.deep_view()),
                Err(e) => Self::decoded(c) == Err::<Self::V, Self::Error>(e),
            },
    ;

    fn into_repr_c(self) -> (r: Result<Self::C, Self::Error>)
        ensures
            match r {
                Ok(c) => Self::converted(self.deep_view()) == Ok::<(), Self::Error>(())
                    && Self::live(&c) && Self::decoded(&c) == Ok::<Self::V, Self::Error>(
                    self.deep_view(),
                ),
                Err(e) => Self::converted(self.deep_view()) == Err::<(), Self::Error>(e),
            },
    ;
}

/// `r` is what reconstruction from a handle that decodes to `d` returns: a
/// native value with that model, or that error, as the contracts of
/// [`ReprC`] state it.
pub open spec fn reconstructs<T: ReprC>(d: Result<T::V, T::Error>, r: Result<T, T::Error>) -> bool {
    match r {
        Ok(v) => d == Ok::<T::V, T::Error>(v.deep_view()),
        Err(e) => d == Err::<T::V, T::Error>(e),
    }
}

/// Cloned reconstruction is repeatable: it leaves the handle as it was, and
/// two reconstructions from one handle agree, in their value or their error.
pub proof fn lemma_cloned_repeatable<T: ReprC>(
    c: T::C,
    first: Result<T, T::Error>,
    second: Result<T, T::Error>,
)
    requires
        T::live(&c),
        reconstructs::<T>(T::decoded(&c), first),
        reconstructs::<T>(T::decoded(&c), second),
    ensures
        first is Ok <==> second is Ok,
        first is Ok ==> first->Ok_0.deep_view() == second->Ok_0.deep_view(),
        first is Err ==> first->Err_0 == second->Err_0,
{
}

} // verus!
