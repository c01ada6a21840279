//! The store's entry points, each on an explicitly shared store.
use vstd::prelude::*;
use std::sync::Arc;
use crate::container::Container;
use crate::model::{copy_spec, create_spec, move_spec, StoreView};
use crate::order::{lists_exactly, sorted_names};
use crate::storage::EmbeddedStorage;
use crate::store::stats_post;
use crate::types::{
    fails_with, outcome_of, result_view, BlobstoreError, BlobstoreResult, ContainerName, ErrorView, ObjectId,
};

verus! {

/// Counts over a whole store.
#[derive(Debug, Clone)]
pub struct BlobstoreStats {
    pub container_count: usize,
    pub total_object_count: usize,
    pub total_data_size: u64,
}

/// A new, empty store to share among handles.
pub fn reset_blobstore() -> (r: Arc<EmbeddedStorage>) {
    Arc::new(EmbeddedStorage::new())
}

/// Creates an empty container and returns a handle on it.
pub fn create_container(storage: &Arc<EmbeddedStorage>, name: ContainerName) -> (r: BlobstoreResult<
    Container,
>)
    ensures
        r is Ok ==> r->Ok_0@ == name@,
        exists|m: StoreView, t: u64| #[trigger] create_spec(m, name@, t).1 == outcome_of(r),
{
    let created = storage.create_container(name.clone());
    let r = match created {
        Ok(()) => Ok(Container::new(name, storage.clone())),
        Err(e) => Err(e),
    };
    proof {
        let (m, t) = choose|m: StoreView, t: u64| #[trigger] create_spec(m, name@, t).1 == result_view(
            created,
        );
        assert(create_spec(m, name@, t).1 == outcome_of(r));
    }
    r
}

/// A handle on an existing container.
pub fn get_container(storage: &Arc<EmbeddedStorage>, name: ContainerName) -> (r: BlobstoreResult<
    Container,
>)
    ensures
        r is Ok ==> r->Ok_0@ == name@,
        r is Err ==> fails_with(r, ErrorView::ContainerNotFound(name@)),
        exists|m: StoreView| #[trigger] m.contains_key(name@) == r is Ok,
{
    if !storage.container_exists(&name) {
        return Err(BlobstoreError::ContainerNotFound(name));
    }
    Ok(Container::new(name, storage.clone()))
}

/// Deletes a container together with its objects: the objects are cleared
/// first, then the emptied container is removed.
pub fn delete_container(storage: &Arc<EmbeddedStorage>, name: ContainerName) -> (r: BlobstoreResult<()>)
    ensures
        r is Ok || fails_with(r, ErrorView::ContainerNotFound(name@)) || fails_with(
            r,
            ErrorView::ContainerNotEmpty(name@),
        ),
{
    match storage.clear_container(&name) {
        Err(e) => {
            return Err(e);
        },
        Ok(()) => {},
    }
    storage.delete_container(&name)
}

/// Whether a container of that name exists.
pub fn container_exists(storage: &Arc<EmbeddedStorage>, name: ContainerName) -> (r: BlobstoreResult<bool>)
    ensures
        r is Ok,
        exists|m: StoreView| #[trigger] m.contains_key(name@) == r->Ok_0,
{
    Ok(storage.container_exists(&name))
}

/// Copies an object to the same or another container, replacing any object
/// at the destination. A missing destination container is reported before
/// anything else is looked at.
pub fn copy_object(storage: &Arc<EmbeddedStorage>, src: ObjectId, dest: ObjectId) -> (r: BlobstoreResult<()>)
    ensures
        fails_with(r, ErrorView::ContainerNotFound(dest.container@)) || exists|m: StoreView, t: u64| #[trigger]
            copy_spec(m, src@, dest@, t).1 == result_view(r),
{
    if !storage.container_exists(&dest.container) {
        return Err(BlobstoreError::ContainerNotFound(dest.container));
    }
    storage.copy_object(&src, &dest)
}

/// Moves or renames an object to the same or another container, replacing
/// any object at the destination. A missing destination container is
/// reported before anything else is looked at.
pub fn move_object(storage: &Arc<EmbeddedStorage>, src: ObjectId, dest: ObjectId) -> (r: BlobstoreResult<()>)
    ensures
        fails_with(r, ErrorView::ContainerNotFound(dest.container@)) || exists|m: StoreView, t: u64| #[trigger]
            move_spec(m, src@, dest@, t).1 == result_view(r),
{
    if !storage.container_exists(&dest.container) {
        return Err(BlobstoreError::ContainerNotFound(dest.container));
    }
    storage.move_object(&src, &dest)
}

/// Names of all containers, in ascending order.
pub fn list_containers(storage: &Arc<EmbeddedStorage>) -> (r: BlobstoreResult<Vec<ContainerName>>)
    ensures
        r is Ok,
        sorted_names(r->Ok_0@),
        exists|m: StoreView| #[trigger] lists_exactly(r->Ok_0@, m.dom()),
{
    Ok(storage.container_names())
}

/// Counts over the whole store.
pub fn get_blobstore_stats(storage: &Arc<EmbeddedStorage>) -> (r: BlobstoreResult<BlobstoreStats>)
    ensures
        r is Ok,
        exists|m: StoreView| #[trigger] stats_post(m, r->Ok_0),
{
    let st = storage.stats();
    let r: BlobstoreResult<BlobstoreStats> = Ok(st);
    proof {
        let m = choose|m: StoreView| #[trigger] stats_post(m, st);
        assert(stats_post(m, r->Ok_0));
    }
    r
}

} // verus!
