//! The attribute list of the neighbour, neighbour table and route messages:
//! a small vector of the `smallvec` crate, with room for four attributes
//! before it allocates.
use vstd::prelude::*;

verus! {

/// A list of attributes kept in a `smallvec::SmallVec<[T; 4]>`.
#[verifier::external_body]
#[verifier::reject_recursive_types(T)]
#[derive(Debug, PartialEq, Eq)]
pub struct NlaVec<T> {
    inner: smallvec::SmallVec<[T; 4]>,
}

impl<T: Clone> Clone for NlaVec<T> {
    /// Relies on the `Clone` impl of `smallvec::SmallVec`.
    #[verifier::external_body]
    fn clone(&self) -> Self {
        NlaVec { inner: self.inner.clone() }
    }
}

/// The attributes that a route message's list holds, in order.
pub uninterp spec fn route_nla_items(v: NlaVec<crate::route::Nla>) -> Seq<crate::route::Nla>;

/// The attributes that a neighbour message's list holds, in order.
pub uninterp spec fn neighbour_nla_items(v: NlaVec<crate::neighbour::Nla>) -> Seq<
    crate::neighbour::Nla,
>;

/// The attributes that a neighbour table message's list holds, in order.
pub uninterp spec fn neighbour_table_nla_items(v: NlaVec<crate::neighbour_table::Nla>) -> Seq<
    crate::neighbour_table::Nla,
>;

impl NlaVec<crate::route::Nla> {
    /// Relies on `SmallVec::from_vec`: the small vector holds the items of
    /// the vector, in order.
    #[verifier::external_body]
    pub(crate) fn from_vec(v: Vec<crate::route::Nla>) -> (r: NlaVec<crate::route::Nla>)
        ensures
            route_nla_items(r) == v@,
    {
        NlaVec { inner: smallvec::SmallVec::from_vec(v) }
    }

    /// Relies on `SmallVec::as_slice`: a slice of all the items, in order.
    #[verifier::external_body]
    pub(crate) fn as_slice(&self) -> (r: &[crate::route::Nla])
        ensures
            r@ == route_nla_items(*self),
    {
        self.inner.as_slice()
    }
}

impl NlaVec<crate::neighbour::Nla> {
    /// Relies on `SmallVec::from_vec`: the small vector holds the items of
    /// the vector, in order.
    #[verifier::external_body]
    pub(crate) fn from_vec(v: Vec<crate::neighbour::Nla>) -> (r: NlaVec<crate::neighbour::Nla>)
        ensures
            neighbour_nla_items(r) == v@,
    {
        NlaVec { inner: smallvec::SmallVec::from_vec(v) }
    }

    /// Relies on `SmallVec::as_slice`: a slice of all the items, in order.
    #[verifier::external_body]
    pub(crate) fn as_slice(&self) -> (r: &[crate::neighbour::Nla])
        ensures
            r@ == neighbour_nla_items(*self),
    {
        self.inner.as_slice()
    }
}

impl NlaVec<crate::neighbour_table::Nla> {
    /// Relies on `SmallVec::from_vec`: the small vector holds the items of
    /// the vector, in order.
    #[verifier::external_body]
    pub(crate) fn from_vec(v: Vec<crate::neighbour_table::Nla>) -> (r: NlaVec<
        crate::neighbour_table::Nla,
    >)
        ensures
            neighbour_table_nla_items(r) == v@,
    {
        NlaVec { inner: smallvec::SmallVec::from_vec(v) }
    }

    /// Relies on `SmallVec::as_slice`: a slice of all the items, in order.
    #[verifier::external_body]
    pub(crate) fn as_slice(&self) -> (r: &[crate::neighbour_table::Nla])
        ensures
            r@ == neighbour_table_nla_items(*self),
    {
        self.inner.as_slice()
    }
}

} // verus!
