//! The persistent entry list that state snapshots share.
//!
//! Snapshots hold their entries in `im_rc::Vector`, a structurally shared
//! persistent vector, so that pushing a snapshot costs far less than
//! copying the whole list. The vector is opaque to verification: its
//! contents are named by `packs_of`, and the few operations the reducer
//! needs are trusted wrappers whose contracts speak over that name.

use vstd::prelude::*;

use crate::parsers::scenery_packs::SceneryPack;

verus! {

#[verifier::external_type_specification]
#[verifier::external_body]
#[verifier::reject_recursive_types(A)]
pub struct ExVector<A>(im_rc::Vector<A>);

/// The entries that a persistent pack list holds, in order.
pub uninterp spec fn packs_of(v: im_rc::Vector<SceneryPack>) -> Seq<SceneryPack>;

/// Declares im_rc::Vector::clone so that derived clones of state types are
/// accepted; nothing is promised of it. Verified code goes through
/// `pack_list_clone` instead, whose contract names the contents.
pub assume_specification<A: Clone>[ <im_rc::Vector<A> as Clone>::clone ](
    v: &im_rc::Vector<A>,
) -> im_rc::Vector<A>
;

/// Relies on im_rc::Vector::new: a freshly constructed vector is empty.
#[verifier::external_body]
pub(crate) fn pack_list_new() -> (v: im_rc::Vector<SceneryPack>)
    ensures
        packs_of(v) == Seq::<SceneryPack>::empty(),
{
    im_rc::Vector::new()
}

/// Relies on im_rc::Vector::len: the number of entries held.
#[verifier::external_body]
pub(crate) fn pack_list_len(v: &im_rc::Vector<SceneryPack>) -> (n: usize)
    ensures
        n == packs_of(*v).len(),
{
    v.len()
}

/// Relies on im_rc::Vector::clone: the clone holds the same entries in the
/// same order (sharing structure with the original).
#[verifier::external_body]
pub(crate) fn pack_list_clone(v: &im_rc::Vector<SceneryPack>) -> (r: im_rc::Vector<SceneryPack>)
    ensures
        packs_of(r) == packs_of(*v),
{
    v.clone()
}

/// Relies on im_rc::Vector::set: replaces the entry at `index`, leaving
/// every other entry as it was.
#[verifier::external_body]
pub(crate) fn pack_list_set(v: &mut im_rc::Vector<SceneryPack>, index: usize, value: SceneryPack)
    requires
        index < packs_of(*old(v)).len(),
    ensures
        packs_of(*final(v)) == packs_of(*old(v)).update(index as int, value),
{
    v.set(index, value);
}

} // verus!
