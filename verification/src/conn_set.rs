//! Small sets of connections, by their number in the pool, kept in the order they came.

use vstd::prelude::*;

use smallvec::SmallVec;

verus! {

/// A list of connections that stays off the heap while it holds two or fewer.
///
/// It is a `smallvec::SmallVec`, whose contents the functions below speak of by `conn_items`.
#[verifier::external_body]
pub struct ConnSet {
    items: SmallVec<[usize; 2]>,
}

/// The connections in the list, first to last.
pub uninterp spec fn conn_items(set: ConnSet) -> Seq<usize>;

impl View for ConnSet {
    type V = Seq<usize>;

    open spec fn view(&self) -> Seq<usize> {
        conn_items(*self)
    }
}

impl ConnSet {
    /// `SmallVec::new`: the list is empty.
    #[verifier::external_body]
    pub(crate) fn new() -> (r: ConnSet)
        ensures
            conn_items(r) == Seq::<usize>::empty(),
    {
        ConnSet { items: SmallVec::new() }
    }

    /// `SmallVec::push`: the connection stands behind all others.
    #[verifier::external_body]
    pub(crate) fn push(&mut self, conn: usize)
        ensures
            conn_items(*final(self)) == conn_items(*old(self)).push(conn),
    {
        self.items.push(conn)
    }

    /// `SmallVec::is_empty`: whether no connection is in the list.
    #[verifier::external_body]
    pub(crate) fn is_empty(&self) -> (r: bool)
        ensures
            r == (conn_items(*self).len() == 0),
    {
        self.items.is_empty()
    }

    /// `SmallVec::drain` over the full range: takes out all connections and hands them over, first
    /// to last. The list is empty afterwards.
    #[verifier::external_body]
    pub(crate) fn drain(&mut self) -> (r: Vec<usize>)
        ensures
            conn_items(*final(self)) == Seq::<usize>::empty(),
            r@ == conn_items(*old(self)),
    {
        self.items.drain(..).collect()
    }

    /// `SmallVec::into_vec`: the connections, first to last.
    #[verifier::external_body]
    pub(crate) fn into_vec(self) -> (r: Vec<usize>)
        ensures
            r@ == conn_items(self),
    {
        self.items.into_vec()
    }
}

} // verus!
