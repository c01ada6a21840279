//! Laws that relate several operations of the store, over its model.
use vstd::prelude::*;
use crate::model::{
    copy_spec, create_spec, delete_container_spec, move_spec, put_spec, read_spec, ObjectAddress,
    ObjectView, StoreView,
};
use crate::types::ErrorView;

verus! {

/// Creating a container under a name a second time fails with
/// `ContainerAlreadyExists` and leaves the store as the first call left it.
pub proof fn law_create_twice(m: StoreView, name: Seq<char>, t1: u64, t2: u64)
    ensures
        create_spec(m, name, t1).0.contains_key(name),
        create_spec(create_spec(m, name, t1).0, name, t2).1 == Err::<(), ErrorView>(
            ErrorView::ContainerAlreadyExists(name),
        ),
        create_spec(create_spec(m, name, t1).0, name, t2).0 == create_spec(m, name, t1).0,
{
}

/// Deleting an existing container succeeds exactly when it holds no objects;
/// otherwise it fails with `ContainerNotEmpty` and nothing changes.
pub proof fn law_delete_needs_empty(m: StoreView, name: Seq<char>)
    requires
        m.contains_key(name),
    ensures
        delete_container_spec(m, name).1 is Ok <==> m[name].objects == Map::<
            Seq<char>,
            ObjectView,
        >::empty(),
        delete_container_spec(m, name).1 is Ok ==> !delete_container_spec(m, name).0.contains_key(
            name,
        ),
        delete_container_spec(m, name).1 is Err ==> delete_container_spec(m, name).1 == Err::<
            (),
            ErrorView,
        >(ErrorView::ContainerNotEmpty(name)) && delete_container_spec(m, name).0 == m,
{
}

/// After writing bytes to an object of an existing container, reading the
/// object without a range returns exactly those bytes.
pub proof fn law_put_then_get(
    m: StoreView,
    c: Seq<char>,
    o: Seq<char>,
    data: Seq<u8>,
    now: u64,
)
    requires
        m.contains_key(c),
    ensures
        put_spec(m, c, o, data, now).1 is Ok,
        read_spec(put_spec(m, c, o, data, now).0, c, o, None, None) == Ok::<Seq<u8>, ErrorView>(
            data,
        ),
{
}

/// An inclusive range `[s, e]` inside an object reads `data[s..=e]`; a
/// reversed range, or one that starts past the end of a non-empty object,
/// fails with `InvalidRange`.
pub proof fn law_inclusive_range(m: StoreView, c: Seq<char>, o: Seq<char>, s: u64, e: u64)
    requires
        m.contains_key(c),
        m[c].objects.contains_key(o),
        m[c].objects[o].data.len() <= u64::MAX,
    ensures
        ({
            let d = m[c].objects[o].data;
            &&& s <= e < d.len() ==> read_spec(m, c, o, Some(s), Some(e)) == Ok::<
                Seq<u8>,
                ErrorView,
            >(d.subrange(s as int, e + 1))
            &&& (s > e || (d.len() > 0 && s >= d.len())) ==> read_spec(m, c, o, Some(s), Some(e))
                == Err::<Seq<u8>, ErrorView>(ErrorView::InvalidRange { start: s, end: e })
        }),
{
}

/// A successful copy leaves the source readable with its bytes, and the
/// destination reads the same bytes.
pub proof fn law_copy_keeps_source(m: StoreView, src: ObjectAddress, dest: ObjectAddress, now: u64)
    requires
        copy_spec(m, src, dest, now).1 is Ok,
    ensures
        read_spec(copy_spec(m, src, dest, now).0, src.container, src.object, None, None)
            == read_spec(m, src.container, src.object, None, None),
        read_spec(copy_spec(m, src, dest, now).0, dest.container, dest.object, None, None)
            == read_spec(m, src.container, src.object, None, None),
{
}

/// A successful move to another address leaves the source absent and the
/// destination holding the source's former bytes.
pub proof fn law_move_relocates(m: StoreView, src: ObjectAddress, dest: ObjectAddress, now: u64)
    requires
        src != dest,
        move_spec(m, src, dest, now).1 is Ok,
    ensures
        !move_spec(m, src, dest, now).0[src.container].objects.contains_key(src.object),
        read_spec(move_spec(m, src, dest, now).0, dest.container, dest.object, None, None)
            == read_spec(m, src.container, src.object, None, None),
{
}

/// Copying or moving into a container that does not exist fails and leaves
/// the store, and so the source, unchanged.
pub proof fn law_missing_destination(m: StoreView, src: ObjectAddress, dest: ObjectAddress, now: u64)
    requires
        !m.contains_key(dest.container),
    ensures
        copy_spec(m, src, dest, now).1 is Err,
        copy_spec(m, src, dest, now).0 == m,
        move_spec(m, src, dest, now).1 is Err,
        move_spec(m, src, dest, now).0 == m,
{
}

} // verus!
