//! The shared store: one `Store` behind a readers-writer lock, handed out by
//! reference counting. Readers share the lock; every change holds it alone.
//! Other holders may change the store between two calls, so each operation
//! states what it returns for the state it found under the lock.
use vstd::prelude::*;
use std::sync::Arc;
use crate::model::{
    clear_spec, container_info_spec, copy_spec, create_spec, delete_container_spec,
    delete_object_spec, delete_objects_spec, move_spec, object_exists_spec, object_info_spec,
    put_spec, read_spec, StoreView,
};
use crate::order::{lists_exactly, name_set, sorted_names};
use crate::blobstore::BlobstoreStats;
use crate::store::{list_objects_post, object_count_post, stats_post, Store};
use crate::sync::{new_rwlock, with_exclusive, with_shared};
use crate::types::{
    current_timestamp, result_view, BlobstoreResult, ContainerMetadata, ContainerName, ObjectId,
    ObjectMetadata, ObjectName,
};

verus! {

/// A handle on a shared in-memory store; clones share the same store.
pub struct EmbeddedStorage {
    containers: Arc<parking_lot::RwLock<Store>>,
}

impl EmbeddedStorage {
    /// A handle on a new, empty store.
    pub fn new() -> (r: EmbeddedStorage) {
        EmbeddedStorage { containers: Arc::new(new_rwlock(Store::new())) }
    }

    /// Adds an empty container; fails if the name is taken.
    pub fn create_container(&self, name: ContainerName) -> (r: BlobstoreResult<()>)
        ensures
            exists|m: StoreView, t: u64| #[trigger] create_spec(m, name@, t).1 == result_view(r),
    {
        let ghost n = name@;
        let now = current_timestamp();
        let step = move|s: Store| -> (out: (Store, BlobstoreResult<()>))
            ensures
                (out.0@, result_view(out.1)) == create_spec(s@, n, now)
            {
                let mut s = s;
                let r = s.create_container(name, now);
                (s, r)
            };
        let r = with_exclusive(&self.containers, step);
        proof {
            let (s, next) = choose|s: Store, next: Store| #[trigger] step.ensures((s,), (next, r));
            assert(create_spec(s@, n, now).1 == result_view(r));
        }
        r
    }

    /// Whether a container of that name exists.
    pub fn container_exists(&self, name: &ContainerName) -> (r: bool)
        ensures
            exists|m: StoreView| #[trigger] m.contains_key(name@) == r,
    {
        let step = |s: &Store| -> (out: bool)
            ensures
                out == s@.contains_key(name@)
            { s.container_exists(name) };
        let r = with_shared(&self.containers, step);
        proof {
            let s = choose|s: Store| #[trigger] step.ensures((&s,), r);
            assert(s@.contains_key(name@) == r);
        }
        r
    }

    /// Name and creation time of a container.
    pub fn get_container_metadata(&self, name: &ContainerName) -> (r: BlobstoreResult<
        ContainerMetadata,
    >)
        ensures
            exists|m: StoreView| #[trigger] container_info_spec(m, name@) == result_view(r),
    {
        let step = |s: &Store| -> (out: BlobstoreResult<ContainerMetadata>)
            ensures
                result_view(out) == container_info_spec(s@, name@)
            { s.get_container_metadata(name) };
        let r = with_shared(&self.containers, step);
        proof {
            let s = choose|s: Store| #[trigger] step.ensures((&s,), r);
            assert(container_info_spec(s@, name@) == result_view(r));
        }
        r
    }

    /// Removes a container that holds no objects.
    pub fn delete_container(&self, name: &ContainerName) -> (r: BlobstoreResult<()>)
        ensures
            exists|m: StoreView| #[trigger] delete_container_spec(m, name@).1 == result_view(r),
    {
        let step = |s: Store| -> (out: (Store, BlobstoreResult<()>))
            ensures
                (out.0@, result_view(out.1)) == delete_container_spec(s@, name@)
            {
                let mut s = s;
                let r = s.delete_container(name);
                (s, r)
            };
        let r = with_exclusive(&self.containers, step);
        proof {
            let (s, next) = choose|s: Store, next: Store| #[trigger] step.ensures((s,), (next, r));
            assert(delete_container_spec(s@, name@).1 == result_view(r));
        }
        r
    }

    /// Names of the container's objects, in ascending order.
    pub fn list_objects(&self, container_name: &ContainerName) -> (r: BlobstoreResult<
        Vec<ObjectName>,
    >)
        ensures
            exists|m: StoreView| #[trigger] list_objects_post(m, container_name@, r),
    {
        let step = |s: &Store| -> (out: BlobstoreResult<Vec<ObjectName>>)
            ensures
                list_objects_post(s@, container_name@, out)
            { s.list_objects(container_name) };
        let r = with_shared(&self.containers, step);
        proof {
            let s = choose|s: Store| #[trigger] step.ensures((&s,), r);
            assert(list_objects_post(s@, container_name@, r));
        }
        r
    }

    /// Bytes of an object: all of them, or the inclusive range `[start, end]`
    /// when both bounds are given.
    pub fn get_object_data(
        &self,
        container_name: &ContainerName,
        object_name: &ObjectName,
        start: Option<u64>,
        end: Option<u64>,
    ) -> (r: BlobstoreResult<Vec<u8>>)
        ensures
            exists|m: StoreView| #[trigger]
                read_spec(m, container_name@, object_name@, start, end) == result_view(r),
    {
        let step = |s: &Store| -> (out: BlobstoreResult<Vec<u8>>)
            ensures
                result_view(out) == read_spec(s@, container_name@, object_name@, start, end)
            { s.get_object_data(container_name, object_name, start, end) };
        let r = with_shared(&self.containers, step);
        proof {
            let s = choose|s: Store| #[trigger] step.ensures((&s,), r);
            assert(read_spec(s@, container_name@, object_name@, start, end) == result_view(r));
        }
        r
    }

    /// Writes an object, replacing any object of that name.
    pub fn put_object_data(
        &self,
        container_name: &ContainerName,
        object_name: &ObjectName,
        data: Vec<u8>,
    ) -> (r: BlobstoreResult<()>)
        ensures
            exists|m: StoreView, t: u64| #[trigger]
                put_spec(m, container_name@, object_name@, data@, t).1 == result_view(r),
    {
        let ghost d = data@;
        let now = current_timestamp();
        let step = move|s: Store| -> (out: (Store, BlobstoreResult<()>))
            ensures
                (out.0@, result_view(out.1)) == put_spec(
                    s@,
                    container_name@,
                    object_name@,
                    d,
                    now,
                )
            {
                let mut s = s;
                let r = s.put_object_data(container_name, object_name, data, now);
                (s, r)
            };
        let r = with_exclusive(&self.containers, step);
        proof {
            let (s, next) = choose|s: Store, next: Store| #[trigger] step.ensures((s,), (next, r));
            assert(put_spec(s@, container_name@, object_name@, d, now).1 == result_view(r));
        }
        r
    }

    /// Removes an object; an absent object is no error.
    pub fn delete_object(&self, container_name: &ContainerName, object_name: &ObjectName) -> (r:
        BlobstoreResult<()>)
        ensures
            exists|m: StoreView| #[trigger]
                delete_object_spec(m, container_name@, object_name@).1 == result_view(r),
    {
        let step = |s: Store| -> (out: (Store, BlobstoreResult<()>))
            ensures
                (out.0@, result_view(out.1)) == delete_object_spec(s@, container_name@, object_name@)
            {
                let mut s = s;
                let r = s.delete_object(container_name, object_name);
                (s, r)
            };
        let r = with_exclusive(&self.containers, step);
        proof {
            let (s, next) = choose|s: Store, next: Store| #[trigger] step.ensures((s,), (next, r));
            assert(delete_object_spec(s@, container_name@, object_name@).1 == result_view(r));
        }
        r
    }

    /// Removes each named object that the container holds.
    pub fn delete_objects(&self, container_name: &ContainerName, object_names: &[ObjectName]) -> (r:
        BlobstoreResult<()>)
        ensures
            exists|m: StoreView| #[trigger]
                delete_objects_spec(
                    m,
                    container_name@,
                    name_set(object_names@),
                ).1 == result_view(r),
    {
        let step = |s: Store| -> (out: (Store, BlobstoreResult<()>))
            ensures
                (out.0@, result_view(out.1)) == delete_objects_spec(
                    s@,
                    container_name@,
                    name_set(object_names@),
                )
            {
                let mut s = s;
                let r = s.delete_objects(container_name, object_names);
                (s, r)
            };
        let r = with_exclusive(&self.containers, step);
        proof {
            let (s, next) = choose|s: Store, next: Store| #[trigger] step.ensures((s,), (next, r));
            assert(delete_objects_spec(
                s@,
                container_name@,
                name_set(object_names@),
            ).1 == result_view(r));
        }
        r
    }

    /// Whether the container holds an object of that name.
    pub fn object_exists(&self, container_name: &ContainerName, object_name: &ObjectName) -> (r:
        BlobstoreResult<bool>)
        ensures
            exists|m: StoreView| #[trigger]
                object_exists_spec(m, container_name@, object_name@) == result_view(r),
    {
        let step = |s: &Store| -> (out: BlobstoreResult<bool>)
            ensures
                result_view(out) == object_exists_spec(s@, container_name@, object_name@)
            { s.object_exists(container_name, object_name) };
        let r = with_shared(&self.containers, step);
        proof {
            let s = choose|s: Store| #[trigger] step.ensures((&s,), r);
            assert(object_exists_spec(s@, container_name@, object_name@) == result_view(r));
        }
        r
    }

    /// Name, container, write time and size of an object.
    pub fn get_object_metadata(&self, container_name: &ContainerName, object_name: &ObjectName) -> (r:
        BlobstoreResult<ObjectMetadata>)
        ensures
            exists|m: StoreView| #[trigger]
                object_info_spec(m, container_name@, object_name@) == result_view(r),
    {
        let step = |s: &Store| -> (out: BlobstoreResult<ObjectMetadata>)
            ensures
                result_view(out) == object_info_spec(s@, container_name@, object_name@)
            { s.get_object_metadata(container_name, object_name) };
        let r = with_shared(&self.containers, step);
        proof {
            let s = choose|s: Store| #[trigger] step.ensures((&s,), r);
            assert(object_info_spec(s@, container_name@, object_name@) == result_view(r));
        }
        r
    }

    /// Removes every object of the container.
    pub fn clear_container(&self, container_name: &ContainerName) -> (r: BlobstoreResult<()>)
        ensures
            exists|m: StoreView| #[trigger] clear_spec(m, container_name@).1 == result_view(r),
    {
        let step = |s: Store| -> (out: (Store, BlobstoreResult<()>))
            ensures
                (out.0@, result_view(out.1)) == clear_spec(s@, container_name@)
            {
                let mut s = s;
                let r = s.clear_container(container_name);
                (s, r)
            };
        let r = with_exclusive(&self.containers, step);
        proof {
            let (s, next) = choose|s: Store, next: Store| #[trigger] step.ensures((s,), (next, r));
            assert(clear_spec(s@, container_name@).1 == result_view(r));
        }
        r
    }

    /// Copies an object under another address, replacing any object there,
    /// in one exclusive hold of the lock.
    pub fn copy_object(&self, src: &ObjectId, dest: &ObjectId) -> (r: BlobstoreResult<()>)
        ensures
            exists|m: StoreView, t: u64| #[trigger] copy_spec(m, src@, dest@, t).1 == result_view(r),
    {
        let now = current_timestamp();
        let step = |s: Store| -> (out: (Store, BlobstoreResult<()>))
            ensures
                (out.0@, result_view(out.1)) == copy_spec(s@, src@, dest@, now)
            {
                let mut s = s;
                let r = s.copy_object(src, dest, now);
                (s, r)
            };
        let r = with_exclusive(&self.containers, step);
        proof {
            let (s, next) = choose|s: Store, next: Store| #[trigger] step.ensures((s,), (next, r));
            assert(copy_spec(s@, src@, dest@, now).1 == result_view(r));
        }
        r
    }

    /// Copies an object, then removes the source. Both steps happen in one
    /// exclusive hold of the lock, so no other caller sees the copy without
    /// the removal.
    pub fn move_object(&self, src: &ObjectId, dest: &ObjectId) -> (r: BlobstoreResult<()>)
        ensures
            exists|m: StoreView, t: u64| #[trigger] move_spec(m, src@, dest@, t).1 == result_view(r),
    {
        let now = current_timestamp();
        let step = |s: Store| -> (out: (Store, BlobstoreResult<()>))
            ensures
                (out.0@, result_view(out.1)) == move_spec(s@, src@, dest@, now)
            {
                let mut s = s;
                let r = s.move_object(src, dest, now);
                (s, r)
            };
        let r = with_exclusive(&self.containers, step);
        proof {
            let (s, next) = choose|s: Store, next: Store| #[trigger] step.ensures((s,), (next, r));
            assert(move_spec(s@, src@, dest@, now).1 == result_view(r));
        }
        r
    }

    /// Number of containers.
    pub fn container_count(&self) -> (r: usize)
        ensures
            exists|m: StoreView| m.dom().finite() && #[trigger] m.dom().len() == r,
    {
        let step = |s: &Store| -> (out: usize)
            ensures
                s@.dom().finite(),
                out == s@.dom().len()
            { s.container_count() };
        let r = with_shared(&self.containers, step);
        proof {
            let s = choose|s: Store| #[trigger] step.ensures((&s,), r);
            assert(s@.dom().finite() && s@.dom().len() == r);
        }
        r
    }

    /// Number of objects in a container.
    pub fn object_count(&self, container_name: &ContainerName) -> (r: BlobstoreResult<usize>)
        ensures
            exists|m: StoreView| #[trigger] object_count_post(m, container_name@, r),
    {
        let step = |s: &Store| -> (out: BlobstoreResult<usize>)
            ensures
                object_count_post(s@, container_name@, out)
            { s.object_count(container_name) };
        let r = with_shared(&self.containers, step);
        proof {
            let s = choose|s: Store| #[trigger] step.ensures((&s,), r);
            assert(object_count_post(s@, container_name@, r));
        }
        r
    }

    /// Names of all containers, in ascending order.
    pub fn container_names(&self) -> (r: Vec<ContainerName>)
        ensures
            sorted_names(r@),
            exists|m: StoreView| #[trigger] lists_exactly(r@, m.dom()),
    {
        let step = |s: &Store| -> (out: Vec<ContainerName>)
            ensures
                sorted_names(out@),
                lists_exactly(out@, s@.dom())
            { s.container_names() };
        let r = with_shared(&self.containers, step);
        proof {
            let s = choose|s: Store| #[trigger] step.ensures((&s,), r);
            assert(lists_exactly(r@, s@.dom()));
        }
        r
    }

    /// Counts over the whole store, read under the shared lock.
    pub fn stats(&self) -> (r: BlobstoreStats)
        ensures
            exists|m: StoreView| #[trigger] stats_post(m, r),
    {
        let step = |s: &Store| -> (out: BlobstoreStats)
            ensures
                stats_post(s@, out)
            { s.stats() };
        let r = with_shared(&self.containers, step);
        proof {
            let s = choose|s: Store| #[trigger] step.ensures((&s,), r);
            assert(stats_post(s@, r));
        }
        r
    }
}

impl Clone for EmbeddedStorage {
    /// Another handle on the same store.
    fn clone(&self) -> (r: EmbeddedStorage) {
        EmbeddedStorage { containers: self.containers.clone() }
    }
}

impl Default for EmbeddedStorage {
    fn default() -> (r: EmbeddedStorage) {
        EmbeddedStorage::new()
    }
}

} // verus!
