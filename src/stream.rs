//! A cursor over a snapshot of names, sorted once when it is made.
use vstd::prelude::*;
use crate::order::{distinct_names, names_in, sort_names, sorted_names};
use crate::types::{BlobstoreResult, ObjectName};

verus! {

/// Where a read or skip of `n` names from `pos` stops among `total` names.
pub open spec fn read_next(total: int, pos: int, n: int) -> int {
    if pos + n < total {
        pos + n
    } else {
        total
    }
}

/// The names that a read of `n` from `pos` returns.
pub open spec fn batch(names: Seq<String>, pos: int, n: int) -> Seq<String> {
    names.subrange(pos, read_next(names.len() as int, pos, n))
}

/// All names that reads of `n` at a time return, from `pos` up to the read
/// that reports the end.
pub open spec fn pages(names: Seq<String>, pos: int, n: int) -> Seq<String>
    decreases names.len() - pos,
{
    let next = read_next(names.len() as int, pos, n);
    if n <= 0 || next >= names.len() {
        batch(names, pos, n)
    } else {
        batch(names, pos, n) + pages(names, next, n)
    }
}

/// Reading `n > 0` names at a time until the end is reported yields every
/// name from the cursor on, as one read of all of them does.
pub proof fn law_pages_cover(names: Seq<String>, pos: int, n: int)
    requires
        0 <= pos <= names.len(),
        n > 0,
    ensures
        pages(names, pos, n) == names.subrange(pos, names.len() as int),
        pages(names, pos, n) == batch(names, pos, names.len() - pos),
    decreases names.len() - pos,
{
    let next = read_next(names.len() as int, pos, n);
    if next < names.len() {
        law_pages_cover(names, next, n);
        assert(names.subrange(pos, next) + names.subrange(next, names.len() as int)
            =~= names.subrange(pos, names.len() as int));
    }
}

/// Skipping `n` and then reading `k` yields the names that one read of
/// `n + k` yields from its `n`-th on (none when the skip reached the end).
pub proof fn law_skip_then_read(names: Seq<String>, pos: int, n: int, k: int)
    requires
        0 <= pos <= names.len(),
        n >= 0,
        k >= 0,
    ensures
        ({
            let after_skip = read_next(names.len() as int, pos, n);
            batch(names, after_skip, k) == batch(names, pos, n + k).skip(after_skip - pos)
        }),
{
    let after_skip = read_next(names.len() as int, pos, n);
    assert(batch(names, after_skip, k) =~= batch(names, pos, n + k).skip(after_skip - pos));
}

/// What a cursor holds: its names and its position among them.
pub struct NameCursor {
    pub names: Seq<String>,
    pub position: int,
}

/// A paged cursor over a sorted snapshot of names. Later changes to the
/// container it was listed from do not show in it.
pub struct StreamObjectNames {
    objects: Vec<ObjectName>,
    position: usize,
}

impl View for StreamObjectNames {
    type V = NameCursor;

    closed spec fn view(&self) -> NameCursor {
        NameCursor { names: self.objects@, position: self.position as int }
    }
}

impl StreamObjectNames {
    #[verifier::type_invariant]
    closed spec fn inv(self) -> bool {
        self.position <= self.objects@.len()
    }

    /// A cursor at the start of `objects` sorted in ascending order.
    pub fn new(objects: Vec<ObjectName>) -> (s: Self)
        ensures
            sorted_names(s@.names),
            s@.names.to_multiset() == objects@.to_multiset(),
            forall|k: Seq<char>| names_in(s@.names, k) <==> names_in(objects@, k),
            distinct_names(objects@) ==> distinct_names(s@.names),
            s@.position == 0,
    {
        StreamObjectNames { objects: sort_names(&objects), position: 0 }
    }

    /// Reads up to `len` names; the flag tells whether the cursor is at the end afterwards.
    pub fn read_stream_object_names(&mut self, len: u64) -> (r: BlobstoreResult<(Vec<ObjectName>, bool)>)
        ensures
            final(self)@.names == old(self)@.names,
            final(self)@.position == read_next(
                old(self)@.names.len() as int,
                old(self)@.position,
                len as int,
            ),
            r is Ok,
            r->Ok_0.0@ == batch(old(self)@.names, old(self)@.position, len as int),
            r->Ok_0.1 == (final(self)@.position == old(self)@.names.len()),
    {
        proof {
            use_type_invariant(&*self);
        }
        let remaining = self.objects.len() - self.position;
        let to_read: usize = if len < remaining as u64 {
            len as usize
        } else {
            remaining
        };
        let end_position = self.position + to_read;
        let mut result: Vec<ObjectName> = Vec::new();
        let mut i: usize = self.position;
        while i < end_position
            invariant
                self.position <= i <= end_position,
                end_position <= self.objects@.len(),
                result@ == self.objects@.subrange(self.position as int, i as int),
            decreases end_position - i,
        {
            result.push(self.objects[i].clone());
            i = i + 1;
            assert(result@ =~= self.objects@.subrange(self.position as int, i as int));
        }
        self.position = end_position;
        let is_end = self.position >= self.objects.len();
        Ok((result, is_end))
    }

    /// Skips up to `num` names; returns how many were skipped and whether the
    /// cursor is at the end.
    pub fn skip_stream_object_names(&mut self, num: u64) -> (r: BlobstoreResult<(u64, bool)>)
        ensures
            final(self)@.names == old(self)@.names,
            final(self)@.position == read_next(
                old(self)@.names.len() as int,
                old(self)@.position,
                num as int,
            ),
            r is Ok,
            r->Ok_0.0 == final(self)@.position - old(self)@.position,
            r->Ok_0.1 == (final(self)@.position == old(self)@.names.len()),
    {
        proof {
            use_type_invariant(&*self);
        }
        let remaining = self.objects.len() - self.position;
        let to_skip: usize = if num < remaining as u64 {
            num as usize
        } else {
            remaining
        };
        self.position = self.position + to_skip;
        let is_end = self.position >= self.objects.len();
        Ok((to_skip as u64, is_end))
    }

    /// The cursor's position.
    pub fn position(&self) -> (r: usize)
        ensures
            r == self@.position,
    {
        self.position
    }

    /// How many names the snapshot holds.
    pub fn total_count(&self) -> (r: usize)
        ensures
            r == self@.names.len(),
    {
        self.objects.len()
    }

    /// Whether every name has been read or skipped.
    pub fn is_end(&self) -> (r: bool)
        ensures
            r == (self@.position == self@.names.len()),
    {
        proof {
            use_type_invariant(self);
        }
        self.position >= self.objects.len()
    }

    /// Goes back to the first name.
    pub fn reset(&mut self)
        ensures
            final(self)@.names == old(self)@.names,
            final(self)@.position == 0,
    {
        self.position = 0;
    }

    /// How many names are left.
    pub fn remaining_count(&self) -> (r: usize)
        ensures
            r == self@.names.len() - self@.position,
    {
        proof {
            use_type_invariant(self);
        }
        if self.position >= self.objects.len() {
            0
        } else {
            self.objects.len() - self.position
        }
    }

    /// The next name, without moving the cursor.
    pub fn peek_next(&self) -> (r: Option<&ObjectName>)
        ensures
            self@.position < self@.names.len() ==> r == Some(&self@.names[self@.position]),
            self@.position >= self@.names.len() ==> r is None,
    {
        if self.position < self.objects.len() {
            Some(&self.objects[self.position])
        } else {
            None
        }
    }

    /// The names left after the cursor, without moving it.
    pub fn iter_remaining(&self) -> (r: Vec<ObjectName>)
        ensures
            r@ == self@.names.subrange(self@.position, self@.names.len() as int),
    {
        proof {
            use_type_invariant(self);
        }
        let mut result: Vec<ObjectName> = Vec::new();
        let mut i: usize = self.position;
        while i < self.objects.len()
            invariant
                self.position <= i <= self.objects@.len(),
                result@ == self.objects@.subrange(self.position as int, i as int),
            decreases self.objects@.len() - i,
        {
            result.push(self.objects[i].clone());
            i = i + 1;
            assert(result@ =~= self.objects@.subrange(self.position as int, i as int));
        }
        result
    }

    /// Reads every name left; the cursor ends at the end.
    pub fn read_all_remaining(&mut self) -> (r: BlobstoreResult<Vec<ObjectName>>)
        ensures
            final(self)@.names == old(self)@.names,
            final(self)@.position == old(self)@.names.len(),
            r is Ok,
            r->Ok_0@ == old(self)@.names.subrange(
                old(self)@.position,
                old(self)@.names.len() as int,
            ),
    {
        let result = self.iter_remaining();
        self.position = self.objects.len();
        Ok(result)
    }

    /// Reads one name, as `read_stream_object_names(1)` does.
    pub fn next(&mut self) -> (r: Option<ObjectName>)
        ensures
            final(self)@.names == old(self)@.names,
            old(self)@.position < old(self)@.names.len() ==> r == Some(
                old(self)@.names[old(self)@.position],
            ) && final(self)@.position == old(self)@.position + 1,
            old(self)@.position >= old(self)@.names.len() ==> r is None && final(self)@.position
                == old(self)@.position,
    {
        if self.position < self.objects.len() {
            let item = self.objects[self.position].clone();
            self.position = self.position + 1;
            Some(item)
        } else {
            None
        }
    }

    /// Exact bounds on how many names are left.
    pub fn size_hint(&self) -> (r: (usize, Option<usize>))
        ensures
            r.0 == self@.names.len() - self@.position,
            r.1 == Some(r.0),
    {
        let remaining = self.remaining_count();
        (remaining, Some(remaining))
    }

    /// How many names are left.
    pub fn len(&self) -> (r: usize)
        ensures
            r == self@.names.len() - self@.position,
    {
        self.remaining_count()
    }
}

} // verus!
