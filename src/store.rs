//! The store's state: containers and their objects, held without sharing.
//! Every operation is exact against the model of `crate::model`.
use vstd::prelude::*;
use crate::blobstore::BlobstoreStats;
use crate::keyed::{
    has_key, keyed, lemma_keyed_at, lemma_keyed_empty, lemma_keyed_len, lemma_keyed_prefix_step,
    lemma_keyed_push, lemma_keyed_remove, lemma_keyed_update, unique_keys,
};
use crate::model::{
    capped, clear_spec, container_byte_count, container_info_spec, container_object_count,
    copy_spec, create_spec, delete_container_spec, delete_object_spec, delete_objects_spec,
    lemma_map_total_insert, lemma_map_total_nonneg, map_total, move_spec, object_exists_spec,
    object_info_spec, object_size, put_spec, read_spec, with_objects, ContainerView, ObjectView,
    StoreView,
};
use crate::order::{lists_exactly, name_set, names_in, sort_names, sorted_names};
use crate::types::{
    result_view, validate_range, BlobstoreError, BlobstoreResult, ContainerMetadata,
    ContainerName, ErrorView, ObjectId, ObjectMetadata, ObjectName, StoredContainer, StoredObject,
    Timestamp,
};

verus! {

/// The key of a stored object: its name.
pub open spec fn object_key() -> spec_fn(StoredObject) -> Seq<char> {
    |o: StoredObject| o.metadata.name@
}

/// What the model keeps of a stored object.
pub open spec fn object_val() -> spec_fn(StoredObject) -> ObjectView {
    |o: StoredObject| ObjectView { created_at: o.metadata.created_at, data: o.data@ }
}

/// The objects of a container by name.
pub open spec fn objects_view(objs: Seq<StoredObject>) -> Map<Seq<char>, ObjectView> {
    keyed(objs, object_key(), object_val())
}

/// The key of a stored container: its name.
pub open spec fn container_key() -> spec_fn(StoredContainer) -> Seq<char> {
    |c: StoredContainer| c.metadata.name@
}

/// What the model keeps of a stored container.
pub open spec fn container_val() -> spec_fn(StoredContainer) -> ContainerView {
    |c: StoredContainer|
        ContainerView { created_at: c.metadata.created_at, objects: objects_view(c.objects@) }
}

/// Container names are unique, and so are object names within each container.
pub open spec fn containers_wf(cs: Seq<StoredContainer>) -> bool {
    &&& unique_keys(cs, container_key())
    &&& forall|i: int| 0 <= i < cs.len() ==> unique_keys(#[trigger] cs[i].objects@, object_key())
}

/// `list_objects`: the container's object names, sorted, each once.
pub open spec fn list_objects_post(m: StoreView, c: Seq<char>, r: BlobstoreResult<Vec<ObjectName>>) -> bool {
    match r {
        Ok(names) => {
            &&& m.contains_key(c)
            &&& sorted_names(names@)
            &&& lists_exactly(names@, m[c].objects.dom())
        },
        Err(e) => !m.contains_key(c) && e@ == ErrorView::ContainerNotFound(c),
    }
}

/// `object_count`: how many objects the container holds.
pub open spec fn object_count_post(m: StoreView, c: Seq<char>, r: BlobstoreResult<usize>) -> bool {
    match r {
        Ok(n) => {
            &&& m.contains_key(c)
            &&& m[c].objects.dom().finite()
            &&& n == m[c].objects.dom().len()
        },
        Err(e) => !m.contains_key(c) && e@ == ErrorView::ContainerNotFound(c),
    }
}

/// `stats`: the number of containers, and the objects and bytes of all of
/// them, each total capped at the largest value of its type.
pub open spec fn stats_post(m: StoreView, r: BlobstoreStats) -> bool {
    &&& m.dom().finite()
    &&& r.container_count == m.dom().len()
    &&& r.total_object_count == capped(map_total(m, container_object_count()), usize::MAX as int)
    &&& r.total_data_size == capped(map_total(m, container_byte_count()), u64::MAX as int)
}

/// Every container of the store with its objects.
pub struct Store {
    containers: Vec<StoredContainer>,
}

impl View for Store {
    type V = StoreView;

    closed spec fn view(&self) -> StoreView {
        keyed(self.containers@, container_key(), container_val())
    }
}

/// Index of the container named `name`, if any.
fn find_container(cs: &Vec<StoredContainer>, name: &String) -> (r: Option<usize>)
    ensures
        match r {
            Some(i) => i < cs@.len() && cs@[i as int].metadata.name@ == name@,
            None => !has_key(cs@, container_key(), name@),
        },
{
    let mut i: usize = 0;
    while i < cs.len()
        invariant
            i <= cs@.len(),
            forall|j: int| 0 <= j < i ==> (#[trigger] cs@[j]).metadata.name@ != name@,
        decreases cs@.len() - i,
    {
        if cs[i].metadata.name == *name {
            return Some(i);
        }
        i = i + 1;
    }
    proof {
        if has_key(cs@, container_key(), name@) {
            let j = choose|j: int| 0 <= j < cs@.len() && #[trigger] container_key()(cs@[j]) == name@;
            assert(cs@[j].metadata.name@ == name@);
        }
    }
    None
}

/// Index of the object named `name`, if any.
fn find_object(objs: &Vec<StoredObject>, name: &String) -> (r: Option<usize>)
    ensures
        match r {
            Some(i) => i < objs@.len() && objs@[i as int].metadata.name@ == name@,
            None => !has_key(objs@, object_key(), name@),
        },
{
    let mut i: usize = 0;
    while i < objs.len()
        invariant
            i <= objs@.len(),
            forall|j: int| 0 <= j < i ==> (#[trigger] objs@[j]).metadata.name@ != name@,
        decreases objs@.len() - i,
    {
        if objs[i].metadata.name == *name {
            return Some(i);
        }
        i = i + 1;
    }
    proof {
        if has_key(objs@, object_key(), name@) {
            let j = choose|j: int| 0 <= j < objs@.len() && #[trigger] object_key()(objs@[j]) == name@;
            assert(objs@[j].metadata.name@ == name@);
        }
    }
    None
}

/// A copy of the bytes `d[lo..hi]`.
fn copy_bytes(d: &Vec<u8>, lo: usize, hi: usize) -> (r: Vec<u8>)
    requires
        lo <= hi <= d@.len(),
    ensures
        r@ == d@.subrange(lo as int, hi as int),
{
    let mut out: Vec<u8> = Vec::new();
    let mut i: usize = lo;
    while i < hi
        invariant
            lo <= i <= hi,
            hi <= d@.len(),
            out@ == d@.subrange(lo as int, i as int),
        decreases hi - i,
    {
        out.push(d[i]);
        i = i + 1;
        assert(out@ =~= d@.subrange(lo as int, i as int));
    }
    out
}

/// Giving container `i` other objects, under the same metadata, keeps the
/// store well formed and changes only that container's objects in the model.
proof fn lemma_replace_objects(cs: Seq<StoredContainer>, i: int, c2: StoredContainer)
    requires
        containers_wf(cs),
        0 <= i < cs.len(),
        c2.metadata == cs[i].metadata,
        unique_keys(c2.objects@, object_key()),
    ensures
        containers_wf(cs.update(i, c2)),
        keyed(cs.update(i, c2), container_key(), container_val()) == with_objects(
            keyed(cs, container_key(), container_val()),
            cs[i].metadata.name@,
            objects_view(c2.objects@),
        ),
{
    lemma_keyed_at(cs, container_key(), container_val(), i);
    lemma_keyed_update(cs, container_key(), container_val(), i, c2);
    let t = cs.update(i, c2);
    assert forall|j: int| 0 <= j < t.len() implies unique_keys(#[trigger] t[j].objects@, object_key()) by {
        if j != i {
            assert(t[j] == cs[j]);
        }
    }
}

impl Default for Store {
    fn default() -> (s: Store)
        ensures
            s@ == Map::<Seq<char>, ContainerView>::empty(),
    {
        Store::new()
    }
}

impl Store {
    #[verifier::type_invariant]
    closed spec fn inv(self) -> bool {
        containers_wf(self.containers@)
    }

    /// Facts about the container at index `i` as the model sees them.
    proof fn lemma_container_at(&self, i: int)
        requires
            containers_wf(self.containers@),
            0 <= i < self.containers@.len(),
        ensures
            self@.contains_key(self.containers@[i].metadata.name@),
            self@[self.containers@[i].metadata.name@] == container_val()(self.containers@[i]),
            unique_keys(self.containers@[i].objects@, object_key()),
    {
        lemma_keyed_at(self.containers@, container_key(), container_val(), i);
    }

    /// Takes every container out, leaving the store empty.
    fn take_all(&mut self) -> (cs: Vec<StoredContainer>)
        ensures
            containers_wf(cs@),
            keyed(cs@, container_key(), container_val()) == old(self)@,
            cs@ == old(self).containers@,
    {
        let mut taken = Store::new();
        std::mem::swap(self, &mut taken);
        proof {
            use_type_invariant(&taken);
        }
        taken.containers
    }

    /// An empty store.
    pub fn new() -> (s: Store)
        ensures
            s@ == Map::<Seq<char>, ContainerView>::empty(),
    {
        proof {
            lemma_keyed_empty(container_key(), container_val());
        }
        Store { containers: Vec::new() }
    }

    /// Adds an empty container stamped `now`; fails if the name is taken.
    pub fn create_container(&mut self, name: ContainerName, now: Timestamp) -> (r: BlobstoreResult<()>)
        ensures
            (final(self)@, result_view(r)) == create_spec(old(self)@, name@, now),
    {
        proof {
            use_type_invariant(&*self);
        }
        match find_container(&self.containers, &name) {
            Some(i) => {
                proof {
                    self.lemma_container_at(i as int);
                }
                Err(BlobstoreError::ContainerAlreadyExists(name))
            },
            None => {
                let c = StoredContainer {
                    metadata: ContainerMetadata { name, created_at: now },
                    objects: Vec::new(),
                };
                proof {
                    lemma_keyed_empty(object_key(), object_val());
                    lemma_keyed_push(self.containers@, container_key(), container_val(), c);
                    assert forall|j: int| 0 <= j < self.containers@.push(c).len() implies unique_keys(
                        #[trigger] self.containers@.push(c)[j].objects@,
                        object_key(),
                    ) by {
                        if j < self.containers@.len() {
                            assert(self.containers@.push(c)[j] == self.containers@[j]);
                        }
                    }
                }
                let mut cs = self.take_all();
                cs.push(c);
                *self = Store { containers: cs };
                Ok(())
            },
        }
    }

    /// Whether a container of that name exists.
    pub fn container_exists(&self, name: &ContainerName) -> (r: bool)
        ensures
            r == self@.contains_key(name@),
    {
        proof {
            use_type_invariant(self);
        }
        match find_container(&self.containers, name) {
            Some(i) => {
                proof {
                    self.lemma_container_at(i as int);
                }
                true
            },
            None => false,
        }
    }

    /// Name and creation time of a container.
    pub fn get_container_metadata(&self, name: &ContainerName) -> (r: BlobstoreResult<
        ContainerMetadata,
    >)
        ensures
            result_view(r) == container_info_spec(self@, name@),
    {
        proof {
            use_type_invariant(self);
        }
        match find_container(&self.containers, name) {
            Some(i) => {
                proof {
                    self.lemma_container_at(i as int);
                }
                Ok(
                    ContainerMetadata {
                        name: self.containers[i].metadata.name.clone(),
                        created_at: self.containers[i].metadata.created_at,
                    },
                )
            },
            None => Err(BlobstoreError::ContainerNotFound(name.clone())),
        }
    }

    /// Removes a container that holds no objects.
    pub fn delete_container(&mut self, name: &ContainerName) -> (r: BlobstoreResult<()>)
        ensures
            (final(self)@, result_view(r)) == delete_container_spec(old(self)@, name@),
    {
        proof {
            use_type_invariant(&*self);
        }
        match find_container(&self.containers, name) {
            None => Err(BlobstoreError::ContainerNotFound(name.clone())),
            Some(i) => {
                proof {
                    self.lemma_container_at(i as int);
                }
                if self.containers[i].objects.len() > 0 {
                    proof {
                        lemma_keyed_at(
                            self.containers@[i as int].objects@,
                            object_key(),
                            object_val(),
                            0,
                        );
                        let k = self.containers@[i as int].objects@[0].metadata.name@;
                        assert(!Map::<Seq<char>, ObjectView>::empty().contains_key(k));
                    }
                    return Err(BlobstoreError::ContainerNotEmpty(name.clone()));
                }
                proof {
                    assert(self.containers@[i as int].objects@ =~= Seq::<StoredObject>::empty());
                    lemma_keyed_empty(object_key(), object_val());
                    let cs = self.containers@;
                    lemma_keyed_remove(cs, container_key(), container_val(), i as int);
                    assert forall|j: int| 0 <= j < cs.remove(i as int).len() implies unique_keys(
                        #[trigger] cs.remove(i as int)[j].objects@,
                        object_key(),
                    ) by {
                        if j < i {
                            assert(cs.remove(i as int)[j] == cs[j]);
                        } else {
                            assert(cs.remove(i as int)[j] == cs[j + 1]);
                        }
                    }
                }
                let mut cs = self.take_all();
                cs.remove(i);
                *self = Store { containers: cs };
                Ok(())
            },
        }
    }

    /// Writes an object stamped `now`, replacing any object of that name.
    pub fn put_object_data(
        &mut self,
        container_name: &ContainerName,
        object_name: &ObjectName,
        data: Vec<u8>,
        now: Timestamp,
    ) -> (r: BlobstoreResult<()>)
        ensures
            (final(self)@, result_view(r)) == put_spec(
                old(self)@,
                container_name@,
                object_name@,
                data@,
                now,
            ),
    {
        proof {
            use_type_invariant(&*self);
        }
        let ci = match find_container(&self.containers, container_name) {
            None => {
                return Err(BlobstoreError::ContainerNotFound(container_name.clone()));
            },
            Some(ci) => ci,
        };
        proof {
            self.lemma_container_at(ci as int);
        }
        let size = data.len() as u64;
        let obj = StoredObject {
            metadata: ObjectMetadata {
                name: object_name.clone(),
                container: container_name.clone(),
                created_at: now,
                size,
            },
            data,
        };
        let found = find_object(&self.containers[ci].objects, object_name);
        let mut cs = self.take_all();
        let ghost old_cs = cs@;
        let ghost old_objs = cs@[ci as int].objects@;
        match found {
            Some(oi) => {
                proof {
                    lemma_keyed_update(old_objs, object_key(), object_val(), oi as int, obj);
                }
                cs[ci].objects[oi] = obj;
            },
            None => {
                proof {
                    lemma_keyed_push(old_objs, object_key(), object_val(), obj);
                }
                cs[ci].objects.push(obj);
            },
        }
        proof {
            assert(cs@ =~= old_cs.update(ci as int, cs@[ci as int]));
            lemma_replace_objects(old_cs, ci as int, cs@[ci as int]);
        }
        *self = Store { containers: cs };
        Ok(())
    }

    /// Removes an object; an absent object is no error.
    pub fn delete_object(&mut self, container_name: &ContainerName, object_name: &ObjectName) -> (r:
        BlobstoreResult<()>)
        ensures
            (final(self)@, result_view(r)) == delete_object_spec(
                old(self)@,
                container_name@,
                object_name@,
            ),
    {
        proof {
            use_type_invariant(&*self);
        }
        let ci = match find_container(&self.containers, container_name) {
            None => {
                return Err(BlobstoreError::ContainerNotFound(container_name.clone()));
            },
            Some(ci) => ci,
        };
        proof {
            self.lemma_container_at(ci as int);
        }
        match find_object(&self.containers[ci].objects, object_name) {
            None => {
                proof {
                    let objs = self.containers@[ci as int].objects@;
                    assert(objects_view(objs).remove(object_name@) =~= objects_view(objs));
                    assert(self@[container_name@] == container_val()(self.containers@[ci as int]));
                    assert(with_objects(self@, container_name@, objects_view(objs)) =~= self@);
                }
                Ok(())
            },
            Some(oi) => {
                let mut cs = self.take_all();
                let ghost old_cs = cs@;
                proof {
                    lemma_keyed_remove(old_cs[ci as int].objects@, object_key(), object_val(), oi as int);
                }
                cs[ci].objects.remove(oi);
                proof {
                    assert(cs@ =~= old_cs.update(ci as int, cs@[ci as int]));
                    lemma_replace_objects(old_cs, ci as int, cs@[ci as int]);
                }
                *self = Store { containers: cs };
                Ok(())
            },
        }
    }

    /// Removes every object of the container.
    pub fn clear_container(&mut self, container_name: &ContainerName) -> (r: BlobstoreResult<()>)
        ensures
            (final(self)@, result_view(r)) == clear_spec(old(self)@, container_name@),
    {
        proof {
            use_type_invariant(&*self);
        }
        let ci = match find_container(&self.containers, container_name) {
            None => {
                return Err(BlobstoreError::ContainerNotFound(container_name.clone()));
            },
            Some(ci) => ci,
        };
        proof {
            self.lemma_container_at(ci as int);
        }
        let mut cs = self.take_all();
        let ghost old_cs = cs@;
        cs[ci].objects.clear();
        proof {
            lemma_keyed_empty(object_key(), object_val());
            assert(cs@[ci as int].objects@ =~= Seq::<StoredObject>::empty());
            assert(cs@ =~= old_cs.update(ci as int, cs@[ci as int]));
            lemma_replace_objects(old_cs, ci as int, cs@[ci as int]);
        }
        *self = Store { containers: cs };
        Ok(())
    }

    /// Bytes of an object: all of them, or the inclusive range `[start, end]`
    /// when both bounds are given.
    pub fn get_object_data(
        &self,
        container_name: &ContainerName,
        object_name: &ObjectName,
        start: Option<u64>,
        end: Option<u64>,
    ) -> (r: BlobstoreResult<Vec<u8>>)
        ensures
            result_view(r) == read_spec(self@, container_name@, object_name@, start, end),
    {
        proof {
            use_type_invariant(self);
        }
        let ci = match find_container(&self.containers, container_name) {
            None => {
                return Err(BlobstoreError::ContainerNotFound(container_name.clone()));
            },
            Some(ci) => ci,
        };
        proof {
            self.lemma_container_at(ci as int);
        }
        let objs = &self.containers[ci].objects;
        let oi = match find_object(objs, object_name) {
            None => {
                return Err(BlobstoreError::ObjectNotFound(object_name.clone()));
            },
            Some(oi) => oi,
        };
        proof {
            lemma_keyed_at(objs@, object_key(), object_val(), oi as int);
        }
        let data = &objs[oi].data;
        let len = data.len();
        match (start, end) {
            (Some(s), Some(e)) => {
                match validate_range(s, e, len as u64) {
                    Err(err) => {
                        return Err(err);
                    },
                    Ok(()) => {},
                }
                let lo: usize = if s < len as u64 {
                    s as usize
                } else {
                    len
                };
                let hi: usize = if e < len as u64 {
                    (e + 1) as usize
                } else {
                    len
                };
                Ok(copy_bytes(data, lo, hi))
            },
            _ => {
                let all = copy_bytes(data, 0, len);
                proof {
                    assert(data@.subrange(0, len as int) =~= data@);
                }
                Ok(all)
            },
        }
    }

    /// Whether the container holds an object of that name.
    pub fn object_exists(&self, container_name: &ContainerName, object_name: &ObjectName) -> (r:
        BlobstoreResult<bool>)
        ensures
            result_view(r) == object_exists_spec(self@, container_name@, object_name@),
    {
        proof {
            use_type_invariant(self);
        }
        let ci = match find_container(&self.containers, container_name) {
            None => {
                return Err(BlobstoreError::ContainerNotFound(container_name.clone()));
            },
            Some(ci) => ci,
        };
        proof {
            self.lemma_container_at(ci as int);
        }
        match find_object(&self.containers[ci].objects, object_name) {
            None => Ok(false),
            Some(oi) => {
                proof {
                    lemma_keyed_at(
                        self.containers@[ci as int].objects@,
                        object_key(),
                        object_val(),
                        oi as int,
                    );
                }
                Ok(true)
            },
        }
    }

    /// Name, container, write time and size of an object.
    pub fn get_object_metadata(&self, container_name: &ContainerName, object_name: &ObjectName) -> (r:
        BlobstoreResult<ObjectMetadata>)
        ensures
            result_view(r) == object_info_spec(self@, container_name@, object_name@),
    {
        proof {
            use_type_invariant(self);
        }
        let ci = match find_container(&self.containers, container_name) {
            None => {
                return Err(BlobstoreError::ContainerNotFound(container_name.clone()));
            },
            Some(ci) => ci,
        };
        proof {
            self.lemma_container_at(ci as int);
        }
        let objs = &self.containers[ci].objects;
        match find_object(objs, object_name) {
            None => Err(BlobstoreError::ObjectNotFound(object_name.clone())),
            Some(oi) => {
                proof {
                    lemma_keyed_at(objs@, object_key(), object_val(), oi as int);
                }
                Ok(
                    ObjectMetadata {
                        name: objs[oi].metadata.name.clone(),
                        container: self.containers[ci].metadata.name.clone(),
                        created_at: objs[oi].metadata.created_at,
                        size: objs[oi].data.len() as u64,
                    },
                )
            },
        }
    }

    /// Names of the container's objects, in ascending order.
    pub fn list_objects(&self, container_name: &ContainerName) -> (r: BlobstoreResult<
        Vec<ObjectName>,
    >)
        ensures
            list_objects_post(self@, container_name@, r),
    {
        proof {
            use_type_invariant(self);
        }
        let ci = match find_container(&self.containers, container_name) {
            None => {
                return Err(BlobstoreError::ContainerNotFound(container_name.clone()));
            },
            Some(ci) => ci,
        };
        proof {
            self.lemma_container_at(ci as int);
        }
        let objs = &self.containers[ci].objects;
        let mut names: Vec<ObjectName> = Vec::new();
        let mut i: usize = 0;
        while i < objs.len()
            invariant
                i <= objs@.len(),
                names@.len() == i,
                forall|j: int| 0 <= j < i ==> #[trigger] names@[j]@ == objs@[j].metadata.name@,
            decreases objs@.len() - i,
        {
            names.push(objs[i].metadata.name.clone());
            i = i + 1;
        }
        proof {
            let ov = objects_view(objs@);
            assert forall|k: Seq<char>| names_in(names@, k) <==> #[trigger] ov.dom().contains(k) by {
                if names_in(names@, k) {
                    let j = choose|j: int| 0 <= j < names@.len() && #[trigger] names@[j]@ == k;
                    lemma_keyed_at(objs@, object_key(), object_val(), j);
                }
                if ov.dom().contains(k) {
                    let j = choose|j: int| 0 <= j < objs@.len() && #[trigger] object_key()(objs@[j]) == k;
                    assert(names@[j]@ == k);
                }
            }
            assert forall|a: int, b: int| 0 <= a < b < names@.len() implies #[trigger] names@[a]@
                != #[trigger] names@[b]@ by {
                assert(object_key()(objs@[a]) != object_key()(objs@[b]));
            }
        }
        Ok(sort_names(&names))
    }

    /// Removes each named object that the container holds.
    pub fn delete_objects(&mut self, container_name: &ContainerName, object_names: &[ObjectName]) -> (r:
        BlobstoreResult<()>)
        ensures
            (final(self)@, result_view(r)) == delete_objects_spec(
                old(self)@,
                container_name@,
                name_set(object_names@),
            ),
    {
        if !self.container_exists(container_name) {
            return Err(BlobstoreError::ContainerNotFound(container_name.clone()));
        }
        let ghost m0 = self@;
        let ghost objs0 = m0[container_name@].objects;
        proof {
            let none = Set::new(|k: Seq<char>| names_in(object_names@.subrange(0, 0), k));
            assert(none =~= Set::<Seq<char>>::empty());
            assert(objs0.remove_keys(none) =~= objs0);
            assert(with_objects(m0, container_name@, objs0) =~= m0);
        }
        let mut i: usize = 0;
        while i < object_names.len()
            invariant
                i <= object_names@.len(),
                m0.contains_key(container_name@),
                objs0 == m0[container_name@].objects,
                self@ == with_objects(
                    m0,
                    container_name@,
                    objs0.remove_keys(
                        Set::new(|k: Seq<char>| names_in(object_names@.subrange(0, i as int), k)),
                    ),
                ),
            decreases object_names@.len() - i,
        {
            let ghost before = self@;
            // The container exists, so the removal cannot fail.
            let _ = self.delete_object(container_name, &object_names[i]);
            proof {
                let pre = object_names@.subrange(0, i as int);
                let post = object_names@.subrange(0, i + 1);
                let sp = Set::new(|k: Seq<char>| names_in(pre, k));
                let sq = Set::new(|k: Seq<char>| names_in(post, k));
                let gone = object_names@[i as int]@;
                assert forall|k: Seq<char>| sq.contains(k) <==> sp.contains(k) || k == gone by {
                    if names_in(post, k) {
                        let j = choose|j: int| 0 <= j < post.len() && #[trigger] post[j]@ == k;
                        if j < i {
                            assert(pre[j] == post[j]);
                        }
                    }
                    if names_in(pre, k) {
                        let j = choose|j: int| 0 <= j < pre.len() && #[trigger] pre[j]@ == k;
                        assert(pre[j] == post[j]);
                    }
                    if k == object_names@[i as int]@ {
                        assert(post[i as int] == object_names@[i as int]);
                    }
                }
                assert(objs0.remove_keys(sp).remove(object_names@[i as int]@) =~= objs0.remove_keys(sq));
                assert(with_objects(
                    before,
                    container_name@,
                    before[container_name@].objects.remove(gone),
                )
                    =~= with_objects(m0, container_name@, objs0.remove_keys(sq)));
            }
            i = i + 1;
        }
        proof {
            assert(object_names@.subrange(0, object_names@.len() as int) =~= object_names@);
        }
        Ok(())
    }

    /// Copies an object under another address, stamped `now`, replacing any
    /// object there.
    pub fn copy_object(&mut self, src: &ObjectId, dest: &ObjectId, now: Timestamp) -> (r: BlobstoreResult<()>)
        ensures
            (final(self)@, result_view(r)) == copy_spec(old(self)@, src@, dest@, now),
    {
        let data = match self.get_object_data(&src.container, &src.object, None, None) {
            Err(e) => {
                return Err(e);
            },
            Ok(data) => data,
        };
        if !self.container_exists(&dest.container) {
            return Err(BlobstoreError::ContainerNotFound(dest.container.clone()));
        }
        self.put_object_data(&dest.container, &dest.object, data, now)
    }

    /// Copies an object, then removes the source.
    pub fn move_object(&mut self, src: &ObjectId, dest: &ObjectId, now: Timestamp) -> (r: BlobstoreResult<()>)
        ensures
            (final(self)@, result_view(r)) == move_spec(old(self)@, src@, dest@, now),
    {
        match self.copy_object(src, dest, now) {
            Err(e) => Err(e),
            Ok(()) => self.delete_object(&src.container, &src.object),
        }
    }

    /// Number of containers.
    pub fn container_count(&self) -> (r: usize)
        ensures
            self@.dom().finite(),
            r == self@.dom().len(),
    {
        proof {
            use_type_invariant(self);
            lemma_keyed_len(self.containers@, container_key(), container_val());
        }
        self.containers.len()
    }

    /// Number of objects in a container.
    pub fn object_count(&self, container_name: &ContainerName) -> (r: BlobstoreResult<usize>)
        ensures
            object_count_post(self@, container_name@, r),
    {
        proof {
            use_type_invariant(self);
        }
        match find_container(&self.containers, container_name) {
            None => Err(BlobstoreError::ContainerNotFound(container_name.clone())),
            Some(ci) => {
                proof {
                    self.lemma_container_at(ci as int);
                    lemma_keyed_len(self.containers@[ci as int].objects@, object_key(), object_val());
                }
                Ok(self.containers[ci].objects.len())
            },
        }
    }

    /// Names of all containers, in ascending order.
    pub fn container_names(&self) -> (r: Vec<ContainerName>)
        ensures
            sorted_names(r@),
            lists_exactly(r@, self@.dom()),
    {
        proof {
            use_type_invariant(self);
        }
        let cs = &self.containers;
        let mut names: Vec<ContainerName> = Vec::new();
        let mut i: usize = 0;
        while i < cs.len()
            invariant
                i <= cs@.len(),
                names@.len() == i,
                forall|j: int| 0 <= j < i ==> #[trigger] names@[j]@ == cs@[j].metadata.name@,
            decreases cs@.len() - i,
        {
            names.push(cs[i].metadata.name.clone());
            i = i + 1;
        }
        proof {
            assert forall|k: Seq<char>| names_in(names@, k) <==> #[trigger] self@.dom().contains(k) by {
                if names_in(names@, k) {
                    let j = choose|j: int| 0 <= j < names@.len() && #[trigger] names@[j]@ == k;
                    self.lemma_container_at(j);
                }
                if self@.dom().contains(k) {
                    let j = choose|j: int| 0 <= j < cs@.len() && #[trigger] container_key()(cs@[j]) == k;
                    assert(names@[j]@ == k);
                }
            }
            assert forall|a: int, b: int| 0 <= a < b < names@.len() implies #[trigger] names@[a]@
                != #[trigger] names@[b]@ by {
                assert(container_key()(cs@[a]) != container_key()(cs@[b]));
            }
        }
        sort_names(&names)
    }

    /// How many containers and objects the store holds, and their bytes in
    /// all; the two totals stop at the largest value of their type.
    pub fn stats(&self) -> (r: BlobstoreStats)
        ensures
            stats_post(self@, r),
    {
        proof {
            use_type_invariant(self);
            lemma_keyed_len(self.containers@, container_key(), container_val());
            lemma_keyed_empty(container_key(), container_val());
            assert(self.containers@.subrange(0, 0) =~= Seq::<StoredContainer>::empty());
            assert forall|v: ContainerView| #[trigger] container_byte_count()(v) >= 0 by {
                lemma_map_total_nonneg(v.objects, object_size());
            }
        }
        let ghost cs = self.containers@;
        let mut total_object_count: usize = 0;
        let mut total_data_size: u64 = 0;
        let mut i: usize = 0;
        while i < self.containers.len()
            invariant
                cs == self.containers@,
                containers_wf(cs),
                i <= cs.len(),
                forall|v: ContainerView| #[trigger] container_byte_count()(v) >= 0,
                total_object_count == capped(
                    map_total(
                        keyed(cs.subrange(0, i as int), container_key(), container_val()),
                        container_object_count(),
                    ),
                    usize::MAX as int,
                ),
                total_data_size == capped(
                    map_total(
                        keyed(cs.subrange(0, i as int), container_key(), container_val()),
                        container_byte_count(),
                    ),
                    u64::MAX as int,
                ),
            decreases cs.len() - i,
        {
            let ghost before = keyed(cs.subrange(0, i as int), container_key(), container_val());
            proof {
                lemma_map_total_nonneg(before, container_object_count());
                lemma_map_total_nonneg(before, container_byte_count());
                lemma_keyed_prefix_step(cs, container_key(), container_val(), i as int);
                let k = cs[i as int].metadata.name@;
                let v = container_val()(cs[i as int]);
                lemma_map_total_insert(before, container_object_count(), k, v);
                lemma_map_total_insert(before, container_byte_count(), k, v);
                lemma_keyed_len(cs[i as int].objects@, object_key(), object_val());
                lemma_keyed_empty(object_key(), object_val());
                assert(cs[i as int].objects@.subrange(0, 0) =~= Seq::<StoredObject>::empty());
            }
            let objs = &self.containers[i].objects;
            total_object_count = total_object_count.saturating_add(objs.len());
            let ghost outer = map_total(before, container_byte_count());
            let mut j: usize = 0;
            while j < objs.len()
                invariant
                    objs@ == cs[i as int].objects@,
                    unique_keys(objs@, object_key()),
                    j <= objs@.len(),
                    outer >= 0,
                    total_data_size == capped(
                        outer + map_total(objects_view(objs@.subrange(0, j as int)), object_size()),
                        u64::MAX as int,
                    ),
                decreases objs@.len() - j,
            {
                proof {
                    let part = objects_view(objs@.subrange(0, j as int));
                    lemma_map_total_nonneg(part, object_size());
                    lemma_keyed_prefix_step(objs@, object_key(), object_val(), j as int);
                    let o = objs@[j as int];
                    lemma_map_total_insert(part, object_size(), o.metadata.name@, object_val()(o));
                }
                total_data_size = total_data_size.saturating_add(objs[j].data.len() as u64);
                j = j + 1;
            }
            proof {
                assert(objs@.subrange(0, objs@.len() as int) =~= objs@);
            }
            i = i + 1;
        }
        proof {
            assert(cs.subrange(0, cs.len() as int) =~= cs);
        }
        BlobstoreStats {
            container_count: self.containers.len(),
            total_object_count,
            total_data_size,
        }
    }
}

} // verus!
