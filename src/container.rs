//! A handle on one container of a shared store. Handles on the same name
//! and store are interchangeable views of the same objects.
use vstd::prelude::*;
use std::sync::Arc;
use crate::model::{
    clear_spec, container_info_spec, delete_object_spec, delete_objects_spec, object_exists_spec,
    object_info_spec, put_spec, read_spec, StoreView,
};
use crate::order::{lists_exactly, name_set, sorted_names};
use crate::storage::EmbeddedStorage;
use crate::store::list_objects_post;
use crate::stream::StreamObjectNames;
use crate::types::{
    result_view, BlobstoreResult, ContainerMetadata, ContainerName, ErrorView,
    ObjectMetadata, ObjectName,
};
use crate::values::{committed_spec, IncomingValue, OutgoingValue, StagedBytes};

verus! {

/// What `write_data` returns when the staged value is `s`, the store `m`
/// and the time `t`: the write's outcome for a finished value, and
/// `InvalidOperation` for an unfinished one.
pub open spec fn write_data_spec(
    m: StoreView,
    c: Seq<char>,
    o: Seq<char>,
    s: StagedBytes,
    t: u64,
) -> Result<(), ErrorView> {
    if s.finished {
        put_spec(m, c, o, s.data, t).1
    } else {
        Err(ErrorView::InvalidOperation)
    }
}

/// `list_objects` on a handle: a cursor at the start of the sorted names.
pub open spec fn listing_post(m: StoreView, c: Seq<char>, r: BlobstoreResult<StreamObjectNames>) -> bool {
    match r {
        Ok(st) => {
            &&& m.contains_key(c)
            &&& st@.position == 0
            &&& sorted_names(st@.names)
            &&& lists_exactly(st@.names, m[c].objects.dom())
        },
        Err(e) => !m.contains_key(c) && e@ == ErrorView::ContainerNotFound(c),
    }
}

/// A named container of a shared store.
pub struct Container {
    name: ContainerName,
    storage: Arc<EmbeddedStorage>,
}

impl View for Container {
    type V = Seq<char>;

    /// The container's name.
    closed spec fn view(&self) -> Seq<char> {
        self.name@
    }
}

impl Container {
    /// A handle on container `name` of `storage`.
    pub fn new(name: ContainerName, storage: Arc<EmbeddedStorage>) -> (r: Container)
        ensures
            r@ == name@,
    {
        Container { name, storage }
    }

    /// The container's name.
    pub fn name(&self) -> (r: BlobstoreResult<String>)
        ensures
            r is Ok,
            r->Ok_0@ == self@,
    {
        Ok(self.name.clone())
    }

    /// The container's metadata.
    pub fn info(&self) -> (r: BlobstoreResult<ContainerMetadata>)
        ensures
            exists|m: StoreView| #[trigger] container_info_spec(m, self@) == result_view(r),
    {
        let r: BlobstoreResult<ContainerMetadata> = self.storage.get_container_metadata(&self.name);
        proof {
            let m = choose|m: StoreView| #[trigger] container_info_spec(m, self@) == result_view(r);
            assert(container_info_spec(m, self@) == result_view(r));
        }
        r
    }

    /// The bytes `[start, end]` (both included) of an object.
    pub fn get_data(&self, name: ObjectName, start: u64, end: u64) -> (r: BlobstoreResult<
        IncomingValue,
    >)
        ensures
            exists|m: StoreView| #[trigger]
                read_spec(m, self@, name@, Some(start), Some(end)) == result_view(r),
    {
        let read = self.storage.get_object_data(&self.name, &name, Some(start), Some(end));
        let r = match read {
            Ok(data) => Ok(IncomingValue::new(data)),
            Err(e) => Err(e),
        };
        proof {
            let m = choose|m: StoreView| #[trigger]
                read_spec(m, self@, name@, Some(start), Some(end)) == result_view(read);
            assert(read_spec(m, self@, name@, Some(start), Some(end)) == result_view(r));
        }
        r
    }

    /// Writes the bytes of a finished outgoing value as object `name`,
    /// replacing any object of that name. An unfinished value is refused
    /// with `InvalidOperation` before anything is written.
    pub fn write_data(&self, name: ObjectName, data: &OutgoingValue) -> (r: BlobstoreResult<()>)
        ensures
            exists|s: StagedBytes, m: StoreView, t: u64| #[trigger]
                write_data_spec(m, self@, name@, s, t) == result_view(r),
    {
        let bytes = data.get_data();
        match bytes {
            Err(e) => {
                let r: BlobstoreResult<()> = Err(e);
                proof {
                    let s = choose|s: StagedBytes| #[trigger] committed_spec(s) == result_view(bytes);
                    assert(write_data_spec(Map::empty(), self@, name@, s, 0) == result_view(r));
                }
                r
            },
            Ok(d) => {
                let ghost dv = d@;
                let r = self.storage.put_object_data(&self.name, &name, d);
                proof {
                    let s = choose|s: StagedBytes| #[trigger] committed_spec(s) == result_view(bytes);
                    assert(s.finished && s.data == dv);
                    let (m, t) = choose|m: StoreView, t: u64| #[trigger]
                        put_spec(m, self@, name@, dv, t).1 == result_view(r);
                    assert(write_data_spec(m, self@, name@, s, t) == result_view(r));
                }
                r
            },
        }
    }

    /// A cursor over the container's object names, sorted, as they are now.
    pub fn list_objects(&self) -> (r: BlobstoreResult<StreamObjectNames>)
        ensures
            exists|m: StoreView| #[trigger] listing_post(m, self@, r),
    {
        let listed = self.storage.list_objects(&self.name);
        match listed {
            Ok(names) => {
                let st = StreamObjectNames::new(names);
                let r: BlobstoreResult<StreamObjectNames> = Ok(st);
                proof {
                    let m = choose|m: StoreView| #[trigger] list_objects_post(m, self@, listed);
                    assert(listing_post(m, self@, r));
                }
                r
            },
            Err(e) => {
                let r: BlobstoreResult<StreamObjectNames> = Err(e);
                proof {
                    let m = choose|m: StoreView| #[trigger] list_objects_post(m, self@, listed);
                    assert(listing_post(m, self@, r));
                }
                r
            },
        }
    }

    /// Removes an object; an absent object is no error.
    pub fn delete_object(&self, name: ObjectName) -> (r: BlobstoreResult<()>)
        ensures
            exists|m: StoreView| #[trigger] delete_object_spec(m, self@, name@).1 == result_view(r),
    {
        let r: BlobstoreResult<()> = self.storage.delete_object(&self.name, &name);
        proof {
            let m = choose|m: StoreView| #[trigger] delete_object_spec(m, self@, name@).1 == result_view(r);
            assert(delete_object_spec(m, self@, name@).1 == result_view(r));
        }
        r
    }

    /// Removes each named object that the container holds.
    pub fn delete_objects(&self, names: Vec<ObjectName>) -> (r: BlobstoreResult<()>)
        ensures
            exists|m: StoreView| #[trigger]
                delete_objects_spec(m, self@, name_set(names@)).1 == result_view(r),
    {
        let r: BlobstoreResult<()> = self.storage.delete_objects(&self.name, names.as_slice());
        proof {
            let m = choose|m: StoreView| #[trigger] delete_objects_spec(m, self@, name_set(names@)).1 == result_view(r);
            assert(delete_objects_spec(m, self@, name_set(names@)).1 == result_view(r));
        }
        r
    }

    /// Whether the container holds an object of that name.
    pub fn has_object(&self, name: ObjectName) -> (r: BlobstoreResult<bool>)
        ensures
            exists|m: StoreView| #[trigger] object_exists_spec(m, self@, name@) == result_view(r),
    {
        let r: BlobstoreResult<bool> = self.storage.object_exists(&self.name, &name);
        proof {
            let m = choose|m: StoreView| #[trigger] object_exists_spec(m, self@, name@) == result_view(r);
            assert(object_exists_spec(m, self@, name@) == result_view(r));
        }
        r
    }

    /// Metadata of an object.
    pub fn object_info(&self, name: ObjectName) -> (r: BlobstoreResult<ObjectMetadata>)
        ensures
            exists|m: StoreView| #[trigger] object_info_spec(m, self@, name@) == result_view(r),
    {
        let r: BlobstoreResult<ObjectMetadata> = self.storage.get_object_metadata(&self.name, &name);
        proof {
            let m = choose|m: StoreView| #[trigger] object_info_spec(m, self@, name@) == result_view(r);
            assert(object_info_spec(m, self@, name@) == result_view(r));
        }
        r
    }

    /// Removes every object, keeping the container.
    pub fn clear(&self) -> (r: BlobstoreResult<()>)
        ensures
            exists|m: StoreView| #[trigger] clear_spec(m, self@).1 == result_view(r),
    {
        let r: BlobstoreResult<()> = self.storage.clear_container(&self.name);
        proof {
            let m = choose|m: StoreView| #[trigger] clear_spec(m, self@).1 == result_view(r);
            assert(clear_spec(m, self@).1 == result_view(r));
        }
        r
    }
}

impl Clone for Container {
    /// Another handle on the same container of the same store.
    fn clone(&self) -> (r: Container)
        ensures
            r@ == self@,
    {
        Container { name: self.name.clone(), storage: self.storage.clone() }
    }
}

} // verus!
