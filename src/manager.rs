//! One registry for the storages of every asset type, so that a single
//! periodic call maintains them all.
use vstd::prelude::*;

use std::any::TypeId;

use crate::asset_storage::{AssetStorage, MaintenanceError};
use crate::Asset;

verus! {

#[verifier::external_type_specification]
#[verifier::external_body]
pub struct ExTypeId(TypeId);

/// Relies on std::any::TypeId::of: the identifier of type `T`.
#[verifier::external_body]
fn type_id_of<T: ?Sized + 'static>() -> TypeId {
    TypeId::of::<T>()
}

/// Relies on PartialEq for std::any::TypeId: two ids are equal exactly when
/// they identify the same type.
#[verifier::external_body]
fn same_type(a: &TypeId, b: &TypeId) -> (r: bool)
    ensures
        r == (*a == *b),
{
    *a == *b
}

/// The maintenance entry point of one storage, with its asset type erased.
pub trait AssetStorageAccess: Send + Sync + 'static {
    /// Runs one maintenance pass over the storage.
    fn update_handles(&mut self) -> Result<(), MaintenanceError>;
}

impl<A: Asset, C: Send + Sync + 'static> AssetStorageAccess for AssetStorage<A, C> {
    fn update_handles(&mut self) -> Result<(), MaintenanceError> {
        AssetStorage::update_handles(self)
    }
}

/// The registered storages, at most one per asset type.
pub struct AssetManager {
    type_ids: Vec<TypeId>,
    storages: Vec<Box<dyn AssetStorageAccess>>,
}

impl AssetManager {
    /// The asset types with a registered storage, in registration order.
    pub closed spec fn spec_types(&self) -> Seq<TypeId> {
        self.type_ids@
    }

    /// Every registered type has exactly one storage.
    pub closed spec fn wf(&self) -> bool {
        self.type_ids@.len() == self.storages@.len()
    }

    pub fn new() -> (r: Self)
        ensures
            r.wf(),
            r.spec_types() == Seq::<TypeId>::empty(),
    {
        AssetManager { type_ids: Vec::new(), storages: Vec::new() }
    }

    /// Whether a storage is registered for the type identified by `id`.
    pub fn is_registered(&self, id: &TypeId) -> (r: bool)
        ensures
            r == self.spec_types().contains(*id),
    {
        let mut i: usize = 0;
        while i < self.type_ids.len()
            invariant
                i <= self.type_ids@.len(),
                forall|j: int| 0 <= j < i ==> self.type_ids@[j] != *id,
            decreases self.type_ids@.len() - i,
        {
            if same_type(&self.type_ids[i], id) {
                return true;
            }
            i = i + 1;
        }
        false
    }

    /// Registers `storage` as the storage of the type identified by `id`;
    /// refused when that type already has one.
    pub fn register_storage_with_id(&mut self, id: TypeId, storage: Box<dyn AssetStorageAccess>) -> (r:
        Result<(), ()>)
        requires
            old(self).wf(),
        ensures
            final(self).wf(),
            r is Err <==> old(self).spec_types().contains(id),
            r is Ok ==> final(self).spec_types() == old(self).spec_types().push(id),
            r is Err ==> final(self).spec_types() == old(self).spec_types(),
    {
        if self.is_registered(&id) {
            Err(())
        } else {
            self.type_ids.push(id);
            let ghost before = self.storages@;
            self.storages.push(storage);
            proof {
                vstd::seq::axiom_seq_push_len(before, storage);
            }
            Ok(())
        }
    }

    /// Registers `storage` as the storage of asset type `A`; refused exactly
    /// when `A` already has one, identified by its type id.
    pub fn register_storage<A: Asset>(&mut self, storage: Box<dyn AssetStorageAccess>) -> (r: Result<
        (),
        (),
    >)
        requires
            old(self).wf(),
        ensures
            final(self).wf(),
            exists|id: TypeId|
                {
                    &&& (r is Err <==> old(self).spec_types().contains(id))
                    &&& (r is Ok ==> final(self).spec_types() == old(self).spec_types().push(id))
                    &&& (r is Err ==> final(self).spec_types() == old(self).spec_types())
                },
    {
        let id = type_id_of::<A>();
        let r = self.register_storage_with_id(id, storage);
        assert((r is Err <==> old(self).spec_types().contains(id)) && (r is Ok ==> self.spec_types()
            == old(self).spec_types().push(id)) && (r is Err ==> self.spec_types() == old(
            self,
        ).spec_types()));
        r
    }

    /// Runs one maintenance pass on every registered storage, in
    /// registration order, stopping at the first that reports a broken
    /// invariant. With nothing registered there is nothing to fail.
    pub fn update_handles(&mut self) -> (r: Result<(), MaintenanceError>)
        requires
            old(self).wf(),
        ensures
            final(self).wf(),
            final(self).spec_types() == old(self).spec_types(),
            old(self).spec_types().len() == 0 ==> r == Ok::<(), MaintenanceError>(()),
    {
        let mut i: usize = 0;
        while i < self.storages.len()
            invariant
                self.type_ids@ == old(self).type_ids@,
                self.storages@.len() == old(self).storages@.len(),
                old(self).wf(),
            decreases self.storages@.len() - i,
        {
            match self.storages[i].update_handles() {
                Ok(()) => {},
                Err(e) => return Err(e),
            }
            i = i + 1;
        }
        Ok(())
    }
}

} // verus!
