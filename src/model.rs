//! The abstract state of a store and what each operation does to it.
use vstd::prelude::*;
use crate::types::{range_is_valid, ContainerMetadata, ErrorView, ObjectId, ObjectMetadata};

verus! {

/// An object: when it was last written, and its bytes.
pub struct ObjectView {
    pub created_at: u64,
    pub data: Seq<u8>,
}

/// A container: when it was created, and its objects by name.
pub struct ContainerView {
    pub created_at: u64,
    pub objects: Map<Seq<char>, ObjectView>,
}

/// A whole store: its containers by name.
pub type StoreView = Map<Seq<char>, ContainerView>;

/// Metadata of a container as the model sees it.
pub struct ContainerInfo {
    pub name: Seq<char>,
    pub created_at: u64,
}

/// Metadata of an object as the model sees it.
pub struct ObjectInfo {
    pub name: Seq<char>,
    pub container: Seq<char>,
    pub created_at: u64,
    pub size: u64,
}

/// Address of an object as the model sees it.
pub struct ObjectAddress {
    pub container: Seq<char>,
    pub object: Seq<char>,
}

impl View for ContainerMetadata {
    type V = ContainerInfo;

    open spec fn view(&self) -> ContainerInfo {
        ContainerInfo { name: self.name@, created_at: self.created_at }
    }
}

impl View for ObjectMetadata {
    type V = ObjectInfo;

    open spec fn view(&self) -> ObjectInfo {
        ObjectInfo {
            name: self.name@,
            container: self.container@,
            created_at: self.created_at,
            size: self.size,
        }
    }
}

impl View for ObjectId {
    type V = ObjectAddress;

    open spec fn view(&self) -> ObjectAddress {
        ObjectAddress { container: self.container@, object: self.object@ }
    }
}

/// A container created at `now`, without objects.
pub open spec fn new_container(now: u64) -> ContainerView {
    ContainerView { created_at: now, objects: Map::empty() }
}

/// `create_container`: adds an empty container under a name not yet taken.
pub open spec fn create_spec(m: StoreView, name: Seq<char>, now: u64) -> (
    StoreView,
    Result<(), ErrorView>,
) {
    if m.contains_key(name) {
        (m, Err(ErrorView::ContainerAlreadyExists(name)))
    } else {
        (m.insert(name, new_container(now)), Ok(()))
    }
}

/// `get_container_metadata`: the name and creation time of a container.
pub open spec fn container_info_spec(m: StoreView, name: Seq<char>) -> Result<
    ContainerInfo,
    ErrorView,
> {
    if m.contains_key(name) {
        Ok(ContainerInfo { name, created_at: m[name].created_at })
    } else {
        Err(ErrorView::ContainerNotFound(name))
    }
}

/// `delete_container`: removes a container that holds no objects.
pub open spec fn delete_container_spec(m: StoreView, name: Seq<char>) -> (
    StoreView,
    Result<(), ErrorView>,
) {
    if !m.contains_key(name) {
        (m, Err(ErrorView::ContainerNotFound(name)))
    } else if m[name].objects != Map::<Seq<char>, ObjectView>::empty() {
        (m, Err(ErrorView::ContainerNotEmpty(name)))
    } else {
        (m.remove(name), Ok(()))
    }
}

/// The bytes `[start, end]` of `d`, cut at its end.
pub open spec fn byte_range(d: Seq<u8>, start: u64, end: u64) -> Seq<u8> {
    let lo = if start < d.len() {
        start as int
    } else {
        d.len() as int
    };
    let hi = if end < d.len() {
        end + 1
    } else {
        d.len() as int
    };
    d.subrange(lo, hi)
}

/// `get_object_data`: an object's bytes, all of them or an inclusive range.
pub open spec fn read_spec(
    m: StoreView,
    c: Seq<char>,
    o: Seq<char>,
    start: Option<u64>,
    end: Option<u64>,
) -> Result<Seq<u8>, ErrorView> {
    if !m.contains_key(c) {
        Err(ErrorView::ContainerNotFound(c))
    } else if !m[c].objects.contains_key(o) {
        Err(ErrorView::ObjectNotFound(o))
    } else {
        let d = m[c].objects[o].data;
        match (start, end) {
            (Some(s), Some(e)) => if range_is_valid(s, e, d.len() as u64) {
                Ok(byte_range(d, s, e))
            } else {
                Err(ErrorView::InvalidRange { start: s, end: e })
            },
            _ => Ok(d),
        }
    }
}

/// `m` with container `c` holding `objects` in place of its own.
pub open spec fn with_objects(m: StoreView, c: Seq<char>, objects: Map<Seq<char>, ObjectView>) -> StoreView {
    m.insert(c, ContainerView { created_at: m[c].created_at, objects })
}

/// `put_object_data`: writes an object, replacing any of the same name.
pub open spec fn put_spec(m: StoreView, c: Seq<char>, o: Seq<char>, data: Seq<u8>, now: u64) -> (
    StoreView,
    Result<(), ErrorView>,
) {
    if !m.contains_key(c) {
        (m, Err(ErrorView::ContainerNotFound(c)))
    } else {
        (
            with_objects(m, c, m[c].objects.insert(o, ObjectView { created_at: now, data })),
            Ok(()),
        )
    }
}

/// `delete_object`: removes an object if it is there.
pub open spec fn delete_object_spec(m: StoreView, c: Seq<char>, o: Seq<char>) -> (
    StoreView,
    Result<(), ErrorView>,
) {
    if !m.contains_key(c) {
        (m, Err(ErrorView::ContainerNotFound(c)))
    } else {
        (with_objects(m, c, m[c].objects.remove(o)), Ok(()))
    }
}

/// `delete_objects`: removes each named object that is there.
pub open spec fn delete_objects_spec(m: StoreView, c: Seq<char>, names: Set<Seq<char>>) -> (
    StoreView,
    Result<(), ErrorView>,
) {
    if !m.contains_key(c) {
        (m, Err(ErrorView::ContainerNotFound(c)))
    } else {
        (with_objects(m, c, m[c].objects.remove_keys(names)), Ok(()))
    }
}

/// `object_exists`: whether the container holds the object.
pub open spec fn object_exists_spec(m: StoreView, c: Seq<char>, o: Seq<char>) -> Result<
    bool,
    ErrorView,
> {
    if !m.contains_key(c) {
        Err(ErrorView::ContainerNotFound(c))
    } else {
        Ok(m[c].objects.contains_key(o))
    }
}

/// `get_object_metadata`: name, container, write time and size of an object.
pub open spec fn object_info_spec(m: StoreView, c: Seq<char>, o: Seq<char>) -> Result<
    ObjectInfo,
    ErrorView,
> {
    if !m.contains_key(c) {
        Err(ErrorView::ContainerNotFound(c))
    } else if !m[c].objects.contains_key(o) {
        Err(ErrorView::ObjectNotFound(o))
    } else {
        Ok(
            ObjectInfo {
                name: o,
                container: c,
                created_at: m[c].objects[o].created_at,
                size: m[c].objects[o].data.len() as u64,
            },
        )
    }
}

/// `clear_container`: removes every object and keeps the container.
pub open spec fn clear_spec(m: StoreView, c: Seq<char>) -> (StoreView, Result<(), ErrorView>) {
    if !m.contains_key(c) {
        (m, Err(ErrorView::ContainerNotFound(c)))
    } else {
        (with_objects(m, c, Map::empty()), Ok(()))
    }
}

/// `copy_object`: writes the source's bytes under the destination address,
/// stamped `now`, after checking the source container, the source object
/// and the destination container, in that order.
pub open spec fn copy_spec(m: StoreView, src: ObjectAddress, dest: ObjectAddress, now: u64) -> (
    StoreView,
    Result<(), ErrorView>,
) {
    if !m.contains_key(src.container) {
        (m, Err(ErrorView::ContainerNotFound(src.container)))
    } else if !m[src.container].objects.contains_key(src.object) {
        (m, Err(ErrorView::ObjectNotFound(src.object)))
    } else if !m.contains_key(dest.container) {
        (m, Err(ErrorView::ContainerNotFound(dest.container)))
    } else {
        let copied = ObjectView { created_at: now, data: m[src.container].objects[src.object].data };
        (
            with_objects(
                m,
                dest.container,
                m[dest.container].objects.insert(dest.object, copied),
            ),
            Ok(()),
        )
    }
}

/// `move_object`: a copy, then the removal of the source.
pub open spec fn move_spec(m: StoreView, src: ObjectAddress, dest: ObjectAddress, now: u64) -> (
    StoreView,
    Result<(), ErrorView>,
) {
    let (copied, r) = copy_spec(m, src, dest, now);
    if r is Err {
        (copied, r)
    } else {
        delete_object_spec(copied, src.container, src.object)
    }
}


/// The sum of `w` over the values of a finite map.
pub open spec fn map_total<V>(m: Map<Seq<char>, V>, w: spec_fn(V) -> int) -> int
    decreases m.dom().len(),
{
    if !m.dom().finite() || m.dom().len() == 0 {
        0
    } else {
        let k = m.dom().choose();
        w(m[k]) + map_total(m.remove(k), w)
    }
}

/// Taking any one key out of the sum leaves the rest of it.
pub proof fn lemma_map_total_remove<V>(m: Map<Seq<char>, V>, w: spec_fn(V) -> int, k: Seq<char>)
    requires
        m.dom().finite(),
        m.contains_key(k),
    ensures
        map_total(m, w) == w(m[k]) + map_total(m.remove(k), w),
    decreases m.dom().len(),
{
    let c = m.dom().choose();
    if c != k {
        let both = m.remove(c).remove(k);
        lemma_map_total_remove(m.remove(c), w, k);
        lemma_map_total_remove(m.remove(k), w, c);
        assert(m.remove(k).remove(c) =~= both);
    }
}

/// Adding a new key adds its value's weight.
pub proof fn lemma_map_total_insert<V>(m: Map<Seq<char>, V>, w: spec_fn(V) -> int, k: Seq<char>, v: V)
    requires
        m.dom().finite(),
        !m.contains_key(k),
    ensures
        map_total(m.insert(k, v), w) == w(v) + map_total(m, w),
{
    lemma_map_total_remove(m.insert(k, v), w, k);
    assert(m.insert(k, v).remove(k) =~= m);
}

/// The sum of weights that are never negative is not negative.
pub proof fn lemma_map_total_nonneg<V>(m: Map<Seq<char>, V>, w: spec_fn(V) -> int)
    requires
        forall|v: V| #[trigger] w(v) >= 0,
    ensures
        map_total(m, w) >= 0,
    decreases m.dom().len(),
{
    if m.dom().finite() && m.dom().len() > 0 {
        let k = m.dom().choose();
        lemma_map_total_nonneg(m.remove(k), w);
    }
}

/// The size of an object.
pub open spec fn object_size() -> spec_fn(ObjectView) -> int {
    |o: ObjectView| o.data.len() as int
}

/// How many objects a container holds.
pub open spec fn container_object_count() -> spec_fn(ContainerView) -> int {
    |c: ContainerView| c.objects.dom().len() as int
}

/// How many bytes a container's objects hold together.
pub open spec fn container_byte_count() -> spec_fn(ContainerView) -> int {
    |c: ContainerView| map_total(c.objects, object_size())
}

/// `x`, or `cap` if it is larger.
pub open spec fn capped(x: int, cap: int) -> int {
    if x > cap {
        cap
    } else {
        x
    }
}

} // verus!
