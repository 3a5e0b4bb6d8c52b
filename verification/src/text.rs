//! Names as bytes: the order in which names are sorted, and the search inside a name.
//!
//! A name is compared and searched by the bytes of its UTF-8 encoding, never by
//! characters or by locale.

use vstd::prelude::*;
use vstd::utf8::encode_utf8;

verus! {

/// `a` and `b` agree on their first `k` bytes, and from there `a` is the smaller:
/// either `a` ends at `k` and `b` goes on, or `a` has the smaller byte at `k`.
pub open spec fn parts_below(a: Seq<u8>, b: Seq<u8>, k: int) -> bool {
    &&& 0 <= k <= a.len()
    &&& k < b.len()
    &&& forall|j: int| 0 <= j < k ==> a[j] == b[j]
    &&& k < a.len() ==> a[k] < b[k]
}

/// Lexicographic order on byte strings: `a` comes strictly before `b`.
pub open spec fn bytes_precede(a: Seq<u8>, b: Seq<u8>) -> bool {
    exists|k: int| parts_below(a, b, k)
}

/// `needle` stands in `hay` at offset `at`.
pub open spec fn occurs_at(hay: Seq<u8>, needle: Seq<u8>, at: int) -> bool {
    &&& 0 <= at
    &&& at + needle.len() <= hay.len()
    &&& forall|j: int| 0 <= j < needle.len() ==> hay[at + j] == #[trigger] needle[j]
}

/// `needle` is a contiguous part of `hay`. The empty string is part of every string.
pub open spec fn bytes_contain(hay: Seq<u8>, needle: Seq<u8>) -> bool {
    exists|at: int| occurs_at(hay, needle, at)
}

/// The name `a` sorts strictly before the name `b`.
pub open spec fn name_precedes(a: Seq<char>, b: Seq<char>) -> bool {
    bytes_precede(encode_utf8(a), encode_utf8(b))
}

/// The name holds the search term as a substring.
pub open spec fn name_contains(name: Seq<char>, search: Seq<char>) -> bool {
    bytes_contain(encode_utf8(name), encode_utf8(search))
}

/// No byte string comes before itself.
pub proof fn lemma_precede_irreflexive(a: Seq<u8>)
    ensures
        !bytes_precede(a, a),
{
}

/// Of two byte strings at most one comes before the other.
pub proof fn lemma_precede_asymmetric(a: Seq<u8>, b: Seq<u8>)
    requires
        bytes_precede(a, b),
    ensures
        !bytes_precede(b, a),
{
    let k = choose|k: int| parts_below(a, b, k);
    if bytes_precede(b, a) {
        let m = choose|m: int| parts_below(b, a, m);
        if m < k {
            assert(a[m] == b[m]);
        } else if k < m {
            assert(b[k] == a[k]);
        }
    }
}

/// The order is transitive.
pub proof fn lemma_precede_transitive(a: Seq<u8>, b: Seq<u8>, c: Seq<u8>)
    requires
        bytes_precede(a, b),
        bytes_precede(b, c),
    ensures
        bytes_precede(a, c),
{
    let k = choose|k: int| parts_below(a, b, k);
    let m = choose|m: int| parts_below(b, c, m);
    let n = if k <= m { k } else { m };
    assert forall|j: int| 0 <= j < n implies a[j] == c[j] by {
        assert(a[j] == b[j]);
        assert(b[j] == c[j]);
    }
    if k < m {
        assert(b[k] == c[k]);
    } else if m < k {
        assert(a[m] == b[m]);
    }
    assert(parts_below(a, c, n));
}

/// Two byte strings that agree on their first `k` bytes are equal, or one comes
/// before the other.
proof fn lemma_precede_total_from(a: Seq<u8>, b: Seq<u8>, k: int)
    requires
        0 <= k <= a.len(),
        k <= b.len(),
        forall|j: int| 0 <= j < k ==> a[j] == b[j],
    ensures
        a == b || bytes_precede(a, b) || bytes_precede(b, a),
    decreases a.len() - k,
{
    if k == a.len() {
        if k == b.len() {
            assert(a =~= b);
        } else {
            assert(parts_below(a, b, k));
        }
    } else if k == b.len() {
        assert(parts_below(b, a, k));
    } else if a[k] < b[k] {
        assert(parts_below(a, b, k));
    } else if b[k] < a[k] {
        assert(parts_below(b, a, k));
    } else {
        lemma_precede_total_from(a, b, k + 1);
    }
}

/// The order is total: two different byte strings are ordered one way or the other.
pub proof fn lemma_precede_total(a: Seq<u8>, b: Seq<u8>)
    ensures
        a == b || bytes_precede(a, b) || bytes_precede(b, a),
{
    lemma_precede_total_from(a, b, 0);
}

/// What does not come after `b` comes before whatever `b` comes before.
pub proof fn lemma_precede_after_not_follows(a: Seq<u8>, b: Seq<u8>, c: Seq<u8>)
    requires
        !bytes_precede(b, a),
        bytes_precede(b, c),
    ensures
        bytes_precede(a, c),
{
    lemma_precede_total(a, b);
    if a != b {
        lemma_precede_transitive(a, b, c);
    }
}

/// What `a` comes before stays after `a` when replaced by something not smaller.
pub proof fn lemma_precede_before_not_follows(a: Seq<u8>, b: Seq<u8>, c: Seq<u8>)
    requires
        bytes_precede(a, b),
        !bytes_precede(c, b),
    ensures
        bytes_precede(a, c),
{
    lemma_precede_total(b, c);
    if b != c {
        lemma_precede_transitive(a, b, c);
    }
}

/// Compares two byte strings lexicographically.
pub fn slice_precedes(a: &[u8], b: &[u8]) -> (r: bool)
    ensures
        r == bytes_precede(a@, b@),
{
    let mut i: usize = 0;
    while i < a.len() && i < b.len()
        invariant
            i <= a.len(),
            i <= b.len(),
            forall|j: int| 0 <= j < i ==> a@[j] == b@[j],
        decreases a.len() - i,
    {
        if a[i] < b[i] {
            assert(parts_below(a@, b@, i as int));
            return true;
        }
        if b[i] < a[i] {
            assert(parts_below(b@, a@, i as int));
            proof {
                lemma_precede_asymmetric(b@, a@);
            }
            return false;
        }
        i += 1;
    }
    if i < b.len() {
        assert(parts_below(a@, b@, i as int));
        true
    } else {
        proof {
            if i < a.len() {
                assert(parts_below(b@, a@, i as int));
                lemma_precede_asymmetric(b@, a@);
            } else {
                assert(a@ =~= b@);
                lemma_precede_irreflexive(a@);
            }
        }
        false
    }
}

/// Tells whether `needle` stands in `hay` at offset `at`.
fn slice_occurs_at(hay: &[u8], needle: &[u8], at: usize) -> (r: bool)
    requires
        at + needle.len() <= hay.len(),
    ensures
        r == occurs_at(hay@, needle@, at as int),
{
    let mut j: usize = 0;
    while j < needle.len()
        invariant
            j <= needle.len(),
            at + needle.len() <= hay.len(),
            forall|i: int| 0 <= i < j ==> hay@[at + i] == #[trigger] needle@[i],
        decreases needle.len() - j,
    {
        if hay[at + j] != needle[j] {
            return false;
        }
        j += 1;
    }
    true
}

/// Searches `hay` for `needle`, offset by offset.
pub fn slice_contains(hay: &[u8], needle: &[u8]) -> (r: bool)
    ensures
        r == bytes_contain(hay@, needle@),
{
    if needle.len() > hay.len() {
        return false;
    }
    if needle.len() == 0 {
        assert(occurs_at(hay@, needle@, 0));
        return true;
    }
    let last: usize = hay.len() - needle.len();
    let mut at: usize = 0;
    while at <= last
        invariant
            0 < needle.len() <= hay.len(),
            last == hay.len() - needle.len(),
            at <= last + 1,
            forall|p: int| 0 <= p < at ==> !occurs_at(hay@, needle@, p),
        decreases last + 1 - at,
    {
        if slice_occurs_at(hay, needle, at) {
            return true;
        }
        at += 1;
    }
    false
}

/// Tells whether the name `a` sorts strictly before the name `b`.
pub fn precedes(a: &str, b: &str) -> (r: bool)
    ensures
        r == name_precedes(a@, b@),
{
    slice_precedes(a.as_bytes(), b.as_bytes())
}

/// Tells whether `name` holds `search` as a substring.
pub fn contains(name: &str, search: &str) -> (r: bool)
    ensures
        r == name_contains(name@, search@),
{
    slice_contains(name.as_bytes(), search.as_bytes())
}

} // verus!
