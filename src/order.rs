//! The order of names: byte-wise lexicographic over their UTF-8 encoding,
//! which is the order of Rust's `String`.
use vstd::prelude::*;
use vstd::utf8::encode_utf8;

verus! {

broadcast use vstd::seq_lib::group_to_multiset_ensures;

/// `a` comes no later than `b` in lexicographic byte order.
pub open spec fn bytes_le(a: Seq<u8>, b: Seq<u8>) -> bool
    decreases a.len(),
{
    if a.len() == 0 {
        true
    } else if b.len() == 0 {
        false
    } else if a[0] != b[0] {
        a[0] < b[0]
    } else {
        bytes_le(a.drop_first(), b.drop_first())
    }
}

/// Name `a` sorts no later than name `b`.
pub open spec fn name_le(a: Seq<char>, b: Seq<char>) -> bool {
    bytes_le(encode_utf8(a), encode_utf8(b))
}

/// Every name of `s` sorts no later than those after it.
pub open spec fn sorted_names(s: Seq<String>) -> bool {
    forall|i: int, j: int| 0 <= i < j < s.len() ==> name_le(#[trigger] s[i]@, #[trigger] s[j]@)
}

/// Some name of `s` reads `k`.
pub open spec fn names_in(s: Seq<String>, k: Seq<char>) -> bool {
    exists|i: int| 0 <= i < s.len() && #[trigger] s[i]@ == k
}

/// The names that `s` holds.
pub open spec fn name_set(s: Seq<String>) -> Set<Seq<char>> {
    Set::new(|k: Seq<char>| names_in(s, k))
}

/// No two names of `s` read the same.
pub open spec fn distinct_names(s: Seq<String>) -> bool {
    forall|i: int, j: int| 0 <= i < j < s.len() ==> #[trigger] s[i]@ != #[trigger] s[j]@
}

/// `s` holds each name of `keys` once, and nothing else.
pub open spec fn lists_exactly(s: Seq<String>, keys: Set<Seq<char>>) -> bool {
    &&& forall|k: Seq<char>| names_in(s, k) <==> #[trigger] keys.contains(k)
    &&& distinct_names(s)
}

/// Any two byte strings are ordered one way or the other.
pub proof fn lemma_bytes_le_total(a: Seq<u8>, b: Seq<u8>)
    ensures
        bytes_le(a, b) || bytes_le(b, a),
    decreases a.len(),
{
    if a.len() > 0 && b.len() > 0 && a[0] == b[0] {
        lemma_bytes_le_total(a.drop_first(), b.drop_first());
    }
}

/// The byte order is transitive.
pub proof fn lemma_bytes_le_transitive(a: Seq<u8>, b: Seq<u8>, c: Seq<u8>)
    requires
        bytes_le(a, b),
        bytes_le(b, c),
    ensures
        bytes_le(a, c),
    decreases a.len(),
{
    if a.len() > 0 && b.len() > 0 && c.len() > 0 && a[0] == b[0] && b[0] == c[0] {
        lemma_bytes_le_transitive(a.drop_first(), b.drop_first(), c.drop_first());
    }
}

/// Compares two byte strings in lexicographic order.
fn bytes_le_exec(a: &[u8], b: &[u8]) -> (r: bool)
    ensures
        r == bytes_le(a@, b@),
{
    let mut i: usize = 0;
    assert(a@.skip(0) =~= a@);
    assert(b@.skip(0) =~= b@);
    while i < a.len() && i < b.len()
        invariant
            i <= a@.len(),
            i <= b@.len(),
            bytes_le(a@, b@) == bytes_le(a@.skip(i as int), b@.skip(i as int)),
        decreases a@.len() - i,
    {
        if a[i] != b[i] {
            return a[i] < b[i];
        }
        assert(a@.skip(i as int).drop_first() =~= a@.skip(i + 1));
        assert(b@.skip(i as int).drop_first() =~= b@.skip(i + 1));
        i = i + 1;
    }
    i == a.len()
}

/// Compares two names in the order of `name_le`.
pub fn name_le_exec(a: &String, b: &String) -> (r: bool)
    ensures
        r == name_le(a@, b@),
{
    bytes_le_exec(a.as_str().as_bytes(), b.as_str().as_bytes())
}

/// The same names in ascending order (an insertion sort).
pub fn sort_names(names: &Vec<String>) -> (r: Vec<String>)
    ensures
        sorted_names(r@),
        r@.to_multiset() == names@.to_multiset(),
        forall|k: Seq<char>| names_in(r@, k) <==> names_in(names@, k),
        distinct_names(names@) ==> distinct_names(r@),
{
    let mut out: Vec<String> = Vec::new();
    let mut i: usize = 0;
    while i < names.len()
        invariant
            i <= names@.len(),
            sorted_names(out@),
            out@.to_multiset() == names@.subrange(0, i as int).to_multiset(),
            forall|k: Seq<char>| names_in(out@, k) <==> names_in(names@.subrange(0, i as int), k),
            distinct_names(names@) ==> distinct_names(out@),
        decreases names@.len() - i,
    {
        let x = names[i].clone();
        let mut p: usize = 0;
        while p < out.len() && name_le_exec(&out[p], &x)
            invariant
                p <= out@.len(),
                forall|k: int| 0 <= k < p ==> name_le(#[trigger] out@[k]@, x@),
            decreases out@.len() - p,
        {
            p = p + 1;
        }
        proof {
            if p < out@.len() {
                lemma_bytes_le_total(encode_utf8(out@[p as int]@), encode_utf8(x@));
                assert forall|k: int| p <= k < out@.len() implies name_le(
                    x@,
                    #[trigger] out@[k]@,
                ) by {
                    if k > p {
                        lemma_bytes_le_transitive(
                            encode_utf8(x@),
                            encode_utf8(out@[p as int]@),
                            encode_utf8(out@[k]@),
                        );
                    }
                }
            }
            let old_out = out@;
            assert(old_out.insert(p as int, x) =~= old_out.subrange(0, p as int).push(x)
                + old_out.subrange(p as int, old_out.len() as int));
            vstd::seq_lib::lemma_multiset_commutative(
                old_out.subrange(0, p as int).push(x),
                old_out.subrange(p as int, old_out.len() as int),
            );
            vstd::seq_lib::lemma_multiset_commutative(
                old_out.subrange(0, p as int),
                old_out.subrange(p as int, old_out.len() as int),
            );
            assert(old_out =~= old_out.subrange(0, p as int) + old_out.subrange(
                p as int,
                old_out.len() as int,
            ));
            let pre = names@.subrange(0, i as int);
            let post = names@.subrange(0, i + 1);
            assert(post =~= pre.push(names@[i as int]));
            let new_out = old_out.insert(p as int, x);
            old_out.insert_ensures(p as int, x);
            assert forall|k: Seq<char>| names_in(new_out, k) <==> names_in(post, k) by {
                if names_in(new_out, k) {
                    let a = choose|a: int| 0 <= a < new_out.len() && #[trigger] new_out[a]@ == k;
                    if a < p {
                        assert(new_out[a] == old_out[a]);
                    } else if a > p {
                        assert(new_out[a] == old_out[a - 1]);
                    }
                    if a != p {
                        assert(names_in(old_out, k));
                        let b = choose|b: int| 0 <= b < pre.len() && #[trigger] pre[b]@ == k;
                        assert(post[b] == pre[b]);
                    } else {
                        assert(post[i as int] == x);
                    }
                }
                if names_in(post, k) {
                    let b = choose|b: int| 0 <= b < post.len() && #[trigger] post[b]@ == k;
                    if b < i {
                        assert(post[b] == pre[b]);
                        assert(names_in(pre, k));
                        assert(names_in(old_out, k));
                        let a = choose|a: int| 0 <= a < old_out.len() && #[trigger] old_out[a]@ == k;
                        if a < p {
                            assert(new_out[a] == old_out[a]);
                        } else {
                            assert(new_out[a + 1] == old_out[a]);
                        }
                    } else {
                        assert(new_out[p as int] == x);
                    }
                }
            }
            if distinct_names(names@) {
                assert forall|a: int| 0 <= a < old_out.len() implies #[trigger] old_out[a]@ != x@ by {
                    assert(names_in(old_out, old_out[a]@));
                    assert(names_in(pre, old_out[a]@));
                    let b = choose|b: int| 0 <= b < pre.len() && #[trigger] pre[b]@ == old_out[a]@;
                    assert(pre[b] == names@[b]);
                }
                assert forall|a: int, b: int| 0 <= a < b < new_out.len() implies #[trigger] new_out[a]@
                    != #[trigger] new_out[b]@ by {
                    let ia = if a < p { a } else if a == p { -1 } else { a - 1 };
                    let ib = if b < p { b } else if b == p { -1 } else { b - 1 };
                    if ia >= 0 {
                        assert(new_out[a] == old_out[ia]);
                    } else {
                        assert(new_out[a] == x);
                    }
                    if ib >= 0 {
                        assert(new_out[b] == old_out[ib]);
                    } else {
                        assert(new_out[b] == x);
                    }
                }
            }
        }
        out.insert(p, x);
        i = i + 1;
    }
    assert(names@.subrange(0, names@.len() as int) =~= names@);
    out
}

} // verus!
