//! Asset identifiers and the handles that keep assets alive.
use vstd::prelude::*;

use core::marker::PhantomData;
use std::sync::Arc;

use crossbeam::channel::Sender;

use crate::channel::{clone_sender, send_signal};
use crate::Asset;

verus! {

/// Identifier of one asset inside the storage for asset type `A`.
#[derive(Debug)]
pub struct HandleId<A: Asset> {
    id: u32,
    phantom: PhantomData<A>,
}

impl<A: Asset> HandleId<A> {
    /// The sequence number this id stands for.
    pub closed spec fn spec_value(&self) -> u32 {
        self.id
    }

    pub fn from_id(id: u32) -> (r: Self)
        ensures
            r.spec_value() == id,
    {
        HandleId { id, phantom: PhantomData }
    }

    #[verifier::when_used_as_spec(spec_value)]
    pub fn value(&self) -> (r: u32)
        ensures
            r == self.spec_value(),
    {
        self.id
    }

    /// Returns the current id and advances the generator to the next one.
    pub fn get_next(&mut self) -> (r: Self)
        requires
            old(self).spec_value() < u32::MAX,
        ensures
            r.spec_value() == old(self).spec_value(),
            final(self).spec_value() == old(self).spec_value() + 1,
    {
        let current = HandleId { id: self.id, phantom: PhantomData };
        self.id = self.id + 1;
        current
    }
}

impl<A: Asset> Clone for HandleId<A> {
    fn clone(&self) -> (r: Self)
        ensures
            r.spec_value() == self.spec_value(),
    {
        HandleId { id: self.id, phantom: PhantomData }
    }
}

impl<A: Asset> Copy for HandleId<A> {
}

impl<A: Asset> PartialEq for HandleId<A> {
    fn eq(&self, other: &Self) -> (r: bool) {
        self.id == other.id
    }
}

impl<A: Asset> vstd::std_specs::cmp::PartialEqSpecImpl for HandleId<A> {
    open spec fn obeys_eq_spec() -> bool {
        true
    }

    open spec fn eq_spec(&self, other: &Self) -> bool {
        self.spec_value() == other.spec_value()
    }
}

impl<A: Asset> Eq for HandleId<A> {
}

/// Relies on Hash for u32, which feeds the integer to the hasher; nothing is
/// claimed about the hasher's state afterwards.
pub assume_specification<H: core::hash::Hasher>[ <u32 as core::hash::Hash>::hash::<H> ](
    data: &u32,
    state: &mut H,
);

impl<A: Asset> core::hash::Hash for HandleId<A> {
    fn hash<H: core::hash::Hasher>(&self, state: &mut H) {
        self.id.hash(state);
    }
}

/// A lifecycle announcement from a handle to its storage.
pub enum ReferenceCountSignal<A: Asset> {
    /// A handle for this id was created.
    Increase(HandleId<A>),
    /// A handle for this id was dropped.
    Decrease(HandleId<A>),
}

/// A shared reference to one loaded asset of type `A`.
///
/// Creating or cloning a handle announces one more live reference on the
/// storage's channel; dropping it announces one less. The storage counts
/// these announcements during maintenance.
#[derive(Debug)]
#[verifier::reject_recursive_types(A)]
pub struct Handle<A: Asset> {
    id: HandleId<A>,
    sender: Sender<ReferenceCountSignal<A>>,
    asset: Arc<A>,
}

impl<A: Asset> Handle<A> {
    /// The id of the asset this handle refers to.
    pub closed spec fn spec_id(&self) -> HandleId<A> {
        self.id
    }

    /// The raw id of the asset this handle refers to.
    pub closed spec fn spec_key(&self) -> u32 {
        self.id.spec_value()
    }

    /// The asset this handle refers to.
    pub closed spec fn spec_asset(&self) -> A {
        *self.asset
    }

    /// Wraps shared asset data in a handle and announces it on the channel.
    ///
    /// The announcement is lost only when the storage's receiver is already
    /// gone, in which case nobody is left to count it.
    pub(crate) fn new(id: HandleId<A>, sender: Sender<ReferenceCountSignal<A>>, asset: Arc<A>) -> (r: Self)
        ensures
            r.spec_key() == id.spec_value(),
            r.spec_asset() == *asset,
    {
        let _ = send_signal(&sender, ReferenceCountSignal::Increase(id));
        Handle { id, sender, asset }
    }

    pub fn id(&self) -> (r: HandleId<A>)
        ensures
            r.spec_value() == self.spec_key(),
    {
        self.id
    }

    pub fn inner(&self) -> (r: &A)
        ensures
            *r == self.spec_asset(),
    {
        &*self.asset
    }
}

impl<A: Asset> Clone for Handle<A> {
    fn clone(&self) -> (r: Self)
        ensures
            r.spec_key() == self.spec_key(),
            r.spec_asset() == self.spec_asset(),
    {
        Handle::new(self.id, clone_sender(&self.sender), self.asset.clone())
    }
}

impl<A: Asset> PartialEq for Handle<A> {
    fn eq(&self, other: &Self) -> (r: bool) {
        self.id.id == other.id.id
    }
}

impl<A: Asset> vstd::std_specs::cmp::PartialEqSpecImpl for Handle<A> {
    open spec fn obeys_eq_spec() -> bool {
        true
    }

    open spec fn eq_spec(&self, other: &Self) -> bool {
        self.spec_key() == other.spec_key()
    }
}

impl<A: Asset> From<Handle<A>> for HandleId<A> {
    fn from(value: Handle<A>) -> (r: HandleId<A>) {
        value.id
    }
}

impl<A: Asset> vstd::std_specs::convert::FromSpecImpl<Handle<A>> for HandleId<A> {
    open spec fn obeys_from_spec() -> bool {
        true
    }

    open spec fn from_spec(value: Handle<A>) -> HandleId<A> {
        value.spec_id()
    }
}

impl<A: Asset> Drop for Handle<A> {
    /// Announces that this handle is gone. A storage that no longer exists
    /// cannot count the announcement, and nothing is lost by dropping it.
    fn drop(&mut self)
        opens_invariants none
        no_unwind
    {
        let _ = send_signal(&self.sender, ReferenceCountSignal::Decrease(self.id));
    }
}

} // verus!
