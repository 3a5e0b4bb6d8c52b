//! The query engine: from the records of a store to the listing that a client asked for.

use std::collections::HashMap;
use vstd::prelude::*;
use vstd::std_specs::iter::IteratorSpec;
use vstd::utf8::encode_utf8;

use crate::models::{Direction, PokemonIndexField, PokemonIndexRequest, PokemonList};
use crate::text::{
    contains, lemma_precede_after_not_follows, lemma_precede_asymmetric,
    lemma_precede_before_not_follows, name_contains, name_precedes, precedes,
};

verus! {

/// A record that is listed under a name.
pub trait Named {
    /// The name under which the record is listed.
    spec fn shown_name(&self) -> Seq<char>;

    /// The name under which the record is listed.
    fn name(&self) -> (name: &String)
        ensures
            name@ == self.shown_name(),
    ;
}

/// `entries` shows every record of `records` once, in some order: its key and its name.
pub open spec fn is_snapshot<R: Named>(records: Map<usize, R>, entries: Seq<PokemonList>) -> bool {
    &&& entries.len() == records.dom().len()
    &&& forall|i: int|
        0 <= i < entries.len() ==> records.contains_key((#[trigger] entries[i]).id)
            && entries[i].name@ == records[entries[i].id].shown_name()
    &&& forall|i: int, j: int|
        0 <= i < j < entries.len() ==> (#[trigger] entries[i]).id != (#[trigger] entries[j]).id
    &&& forall|id: usize|
        records.contains_key(id) ==> exists|i: int|
            0 <= i < entries.len() && (#[trigger] entries[i]).id == id
}

/// Copies out of the map what a listing shows of each record, in the order in which
/// the map hands its records out.
pub fn snapshot<R: Named>(records: &HashMap<usize, R>) -> (entries: Vec<PokemonList>)
    ensures
        is_snapshot(records@, entries@),
{
    broadcast use vstd::std_specs::hash::group_hash_axioms;

    let ghost items = records.iter().remaining();
    let mut entries: Vec<PokemonList> = Vec::new();
    for (id, record) in it: records.iter()
        invariant
            it.seq() == items,
            entries.len() == it.index(),
            forall|i: int|
                0 <= i < entries.len() ==> (#[trigger] entries[i]).id == *items[i].0
                    && entries[i].name@ == items[i].1.shown_name(),
    {
        entries.push(PokemonList { name: record.name().clone(), id: *id });
    }
    proof {
        assert(entries.len() == items.len());
        assert(items.no_duplicates());
        assert forall|i: int, j: int| 0 <= i < j < entries.len() implies (#[trigger] entries[i]).id
            != (#[trigger] entries[j]).id by {
            if entries[i].id == entries[j].id {
                assert(records@[*items[i].0] == *items[i].1);
                assert(records@[*items[j].0] == *items[j].1);
                assert(items[i] == items[j]);
            }
        }
        assert forall|id: usize| records@.contains_key(id) implies exists|i: int|
            0 <= i < entries.len() && (#[trigger] entries[i]).id == id by {
            assert(items.contains((&id, &records@[id])));
            let i = choose|i: int| 0 <= i < items.len() && items[i] == (&id, &records@[id]);
            assert(entries[i].id == id);
        }
    }
    entries
}

/// In a listing sorted in `direction`, the name `a` has its place before the name `b`.
pub open spec fn name_ahead(direction: Direction, a: Seq<char>, b: Seq<char>) -> bool {
    match direction {
        Direction::Ascending => name_precedes(a, b),
        Direction::Descending => name_precedes(b, a),
    }
}

/// Sorting `source` by name puts its entry at `i` before its entry at `j`: the name
/// decides, and of two entries that the names do not order, the earlier stays first.
pub open spec fn goes_before(
    source: Seq<PokemonList>,
    direction: Direction,
    i: int,
    j: int,
) -> bool {
    ||| name_ahead(direction, source[i].name@, source[j].name@)
    ||| (!name_ahead(direction, source[j].name@, source[i].name@) && i < j)
}

/// The position `i` is one of `picks`.
pub open spec fn picked(picks: Seq<usize>, i: int) -> bool {
    exists|q: int| 0 <= q < picks.len() && #[trigger] picks[q] == i
}

/// `picks` holds each of the positions `lo..hi`, and as many positions as these are.
pub open spec fn arranges(picks: Seq<usize>, lo: int, hi: int) -> bool {
    &&& picks.len() == hi - lo
    &&& forall|q: int| 0 <= q < picks.len() ==> lo <= #[trigger] picks[q] < hi
    &&& forall|i: int| lo <= i < hi ==> #[trigger] picked(picks, i)
}

/// `picks` holds the positions `lo..hi` of `source` as sorting by name orders the
/// entries that stand there.
pub open spec fn sorts_range(
    source: Seq<PokemonList>,
    direction: Direction,
    lo: int,
    hi: int,
    picks: Seq<usize>,
) -> bool {
    &&& 0 <= lo <= hi <= source.len()
    &&& arranges(picks, lo, hi)
    &&& forall|p: int, q: int|
        0 <= p < q < picks.len() ==> goes_before(
            source,
            direction,
            (#[trigger] picks[p]) as int,
            (#[trigger] picks[q]) as int,
        )
}

/// `taken` holds the entries of `source` that `picks` names, in the order of `picks`.
pub open spec fn taken_by(
    source: Seq<PokemonList>,
    picks: Seq<usize>,
    taken: Seq<PokemonList>,
) -> bool {
    &&& taken.len() == picks.len()
    &&& forall|q: int| 0 <= q < picks.len() ==> #[trigger] taken[q] == source[picks[q] as int]
}

/// `sorted` holds the entries of `source`, each once, ordered by name in `direction`;
/// entries that the names do not order stand as they stood in `source`.
pub open spec fn is_sorted_by_name(
    source: Seq<PokemonList>,
    direction: Direction,
    sorted: Seq<PokemonList>,
) -> bool {
    exists|picks: Seq<usize>| #[trigger]
        sorts_range(source, direction, 0, source.len() as int, picks) && taken_by(
            source,
            picks,
            sorted,
        )
}

/// A name that is ahead of another is ahead of whatever that other is not behind.
proof fn lemma_ahead_of_what_follows(direction: Direction, a: Seq<char>, b: Seq<char>, c: Seq<char>)
    requires
        name_ahead(direction, a, b),
        !name_ahead(direction, c, b),
    ensures
        name_ahead(direction, a, c),
{
    let (x, y, z) = (encode_utf8(a), encode_utf8(b), encode_utf8(c));
    match direction {
        Direction::Ascending => lemma_precede_before_not_follows(x, y, z),
        Direction::Descending => lemma_precede_after_not_follows(z, y, x),
    }
}

/// Sorting puts no entry before itself, and no two entries each before the other.
pub proof fn lemma_goes_before_asymmetric(
    source: Seq<PokemonList>,
    direction: Direction,
    i: int,
    j: int,
)
    requires
        goes_before(source, direction, i, j),
    ensures
        !goes_before(source, direction, j, i),
        i != j,
{
    let a = encode_utf8(source[i].name@);
    let b = encode_utf8(source[j].name@);
    if name_precedes(source[i].name@, source[j].name@) {
        lemma_precede_asymmetric(a, b);
    }
    if name_precedes(source[j].name@, source[i].name@) {
        lemma_precede_asymmetric(b, a);
    }
}

/// Tells whether, in a listing sorted in `direction`, the name `a` has its place
/// before the name `b`.
pub fn ahead(direction: &Direction, a: &str, b: &str) -> (r: bool)
    ensures
        r == name_ahead(*direction, a@, b@),
{
    match direction {
        Direction::Ascending => precedes(a, b),
        Direction::Descending => precedes(b, a),
    }
}

/// The positions that were picked are picked still when another is added to them,
/// and so is the one that was added.
proof fn lemma_push_keeps_picked(picks: Seq<usize>, next: usize)
    ensures
        picked(picks.push(next), next as int),
        forall|i: int| picked(picks, i) ==> picked(picks.push(next), i),
{
    assert(picks.push(next)[picks.len() as int] == next);
    assert forall|i: int| picked(picks, i) implies picked(picks.push(next), i) by {
        let m = choose|m: int| 0 <= m < picks.len() && #[trigger] picks[m] == i;
        assert(picks.push(next)[m] == i);
    }
}

/// Where the name of the right range's next entry is ahead of the name of the left
/// range's next entry, that entry of the right range goes before every entry that the
/// left range still has to give.
proof fn lemma_right_goes_first(
    source: Seq<PokemonList>,
    direction: Direction,
    lo: usize,
    mid: usize,
    hi: usize,
    left: Seq<usize>,
    right: Seq<usize>,
    i: usize,
    j: usize,
)
    requires
        sorts_range(source, direction, lo as int, mid as int, left),
        sorts_range(source, direction, mid as int, hi as int, right),
        i < left.len(),
        j < right.len(),
        name_ahead(
            direction,
            source[right[j as int] as int].name@,
            source[left[i as int] as int].name@,
        ),
    ensures
        forall|p: int|
            i <= p < left.len() ==> goes_before(
                source,
                direction,
                right[j as int] as int,
                (#[trigger] left[p]) as int,
            ),
{
    assert forall|p: int| i <= p < left.len() implies goes_before(
        source,
        direction,
        right[j as int] as int,
        (#[trigger] left[p]) as int,
    ) by {
        if p > i {
            lemma_goes_before_asymmetric(source, direction, left[i as int] as int, left[p] as int);
            lemma_ahead_of_what_follows(
                direction,
                source[right[j as int] as int].name@,
                source[left[i as int] as int].name@,
                source[left[p] as int].name@,
            );
        }
    }
}

/// Where the name of the right range's next entry is not ahead of the name of the
/// left range's next entry, that entry of the left range goes before every entry that
/// the right range still has to give.
proof fn lemma_left_goes_first(
    source: Seq<PokemonList>,
    direction: Direction,
    lo: usize,
    mid: usize,
    hi: usize,
    left: Seq<usize>,
    right: Seq<usize>,
    i: usize,
    j: usize,
)
    requires
        sorts_range(source, direction, lo as int, mid as int, left),
        sorts_range(source, direction, mid as int, hi as int, right),
        i < left.len(),
        j <= right.len(),
        j < right.len() ==> !name_ahead(
            direction,
            source[right[j as int] as int].name@,
            source[left[i as int] as int].name@,
        ),
    ensures
        forall|q: int|
            j <= q < right.len() ==> goes_before(
                source,
                direction,
                left[i as int] as int,
                (#[trigger] right[q]) as int,
            ),
{
    assert forall|q: int| j <= q < right.len() implies goes_before(
        source,
        direction,
        left[i as int] as int,
        (#[trigger] right[q]) as int,
    ) by {
        let name = source[left[i as int] as int].name@;
        if q > j && name_ahead(direction, source[right[q] as int].name@, name) {
            lemma_goes_before_asymmetric(
                source,
                direction,
                right[j as int] as int,
                right[q] as int,
            );
            lemma_ahead_of_what_follows(
                direction,
                source[right[q] as int].name@,
                name,
                source[right[j as int] as int].name@,
            );
        }
    }
}

/// Merges the sorted positions of two ranges that lie side by side into the sorted
/// positions of both. Of two entries that the names do not order, the one of the
/// left range comes first, as it stands first in the list.
fn merge_picks(
    list: &Vec<PokemonList>,
    direction: &Direction,
    left: Vec<usize>,
    right: Vec<usize>,
    lo: usize,
    mid: usize,
    hi: usize,
) -> (merged: Vec<usize>)
    requires
        sorts_range(list@, *direction, lo as int, mid as int, left@),
        sorts_range(list@, *direction, mid as int, hi as int, right@),
    ensures
        sorts_range(list@, *direction, lo as int, hi as int, merged@),
{
    let mut merged: Vec<usize> = Vec::new();
    let mut i: usize = 0;
    let mut j: usize = 0;
    while i < left.len() || j < right.len()
        invariant
            sorts_range(list@, *direction, lo as int, mid as int, left@),
            sorts_range(list@, *direction, mid as int, hi as int, right@),
            i <= left.len(),
            j <= right.len(),
            merged.len() == i + j,
            forall|p: int| 0 <= p < i ==> picked(merged@, (#[trigger] left@[p]) as int),
            forall|q: int| 0 <= q < j ==> picked(merged@, (#[trigger] right@[q]) as int),
            forall|m: int| 0 <= m < merged.len() ==> lo <= #[trigger] merged@[m] < hi,
            forall|m: int, n: int|
                0 <= m < n < merged.len() ==> goes_before(
                    list@,
                    *direction,
                    (#[trigger] merged@[m]) as int,
                    (#[trigger] merged@[n]) as int,
                ),
            forall|m: int, p: int|
                0 <= m < merged.len() && i <= p < left.len() ==> goes_before(
                    list@,
                    *direction,
                    (#[trigger] merged@[m]) as int,
                    (#[trigger] left@[p]) as int,
                ),
            forall|m: int, q: int|
                0 <= m < merged.len() && j <= q < right.len() ==> goes_before(
                    list@,
                    *direction,
                    (#[trigger] merged@[m]) as int,
                    (#[trigger] right@[q]) as int,
                ),
        decreases left.len() - i + right.len() - j,
    {
        let ghost before = merged@;
        let from_right = if i == left.len() {
            true
        } else if j == right.len() {
            false
        } else {
            ahead(direction, list[right[j]].name.as_str(), list[left[i]].name.as_str())
        };
        if from_right {
            let pick: usize = right[j];
            proof {
                if i < left.len() {
                    lemma_right_goes_first(list@, *direction, lo, mid, hi, left@, right@, i, j);
                }
            }
            merged.push(pick);
            j += 1;
            proof {
                lemma_push_keeps_picked(before, pick);
            }
        } else {
            let pick: usize = left[i];
            proof {
                lemma_left_goes_first(list@, *direction, lo, mid, hi, left@, right@, i, j);
            }
            merged.push(pick);
            i += 1;
            proof {
                lemma_push_keeps_picked(before, pick);
            }
        }
    }
    proof {
        assert forall|k: int| lo <= k < hi implies #[trigger] picked(merged@, k) by {
            if k < mid {
                assert(picked(left@, k));
                let p = choose|p: int| 0 <= p < left@.len() && #[trigger] left@[p] == k;
                assert(picked(merged@, left@[p] as int));
            } else {
                assert(picked(right@, k));
                let q = choose|q: int| 0 <= q < right@.len() && #[trigger] right@[q] == k;
                assert(picked(merged@, right@[q] as int));
            }
        }
    }
    merged
}

/// Sorts the positions `lo..hi` of `list` by the names that stand there, by merging.
fn sort_range(
    list: &Vec<PokemonList>,
    direction: &Direction,
    lo: usize,
    hi: usize,
) -> (picks: Vec<usize>)
    requires
        lo <= hi <= list.len(),
    ensures
        sorts_range(list@, *direction, lo as int, hi as int, picks@),
    decreases hi - lo,
{
    let mut picks: Vec<usize> = Vec::new();
    if hi - lo == 0 {
        picks
    } else if hi - lo == 1 {
        picks.push(lo);
        assert(picks@[0] == lo);
        picks
    } else {
        let mid: usize = lo + (hi - lo) / 2;
        let left = sort_range(list, direction, lo, mid);
        let right = sort_range(list, direction, mid, hi);
        merge_picks(list, direction, left, right, lo, mid, hi)
    }
}

/// Sorts the entries by name. The sort is stable: entries with one name keep their
/// order. It sorts the positions by merging, then moves each entry to its place.
pub fn sort_by_name(list: Vec<PokemonList>, direction: &Direction) -> (sorted: Vec<PokemonList>)
    ensures
        is_sorted_by_name(list@, *direction, sorted@),
{
    broadcast use vstd::std_specs::vec::axiom_spec_into_iter;

    let ghost source = list@;
    let picks = sort_range(&list, direction, 0, list.len());
    let mut slots: Vec<Option<PokemonList>> = Vec::new();
    for entry in it: list
        invariant
            it.seq() == source,
            slots.len() == it.index(),
            forall|i: int| 0 <= i < slots.len() ==> #[trigger] slots@[i] == Some(source[i]),
    {
        slots.push(Some(entry));
    }
    let mut sorted: Vec<PokemonList> = Vec::new();
    let mut q: usize = 0;
    while q < picks.len()
        invariant
            sorts_range(source, *direction, 0, source.len() as int, picks@),
            q <= picks.len(),
            slots.len() == source.len(),
            forall|i: int|
                0 <= i < slots.len() ==> #[trigger] slots@[i] == if picked(
                    picks@.take(q as int),
                    i,
                ) {
                    None
                } else {
                    Some(source[i])
                },
            taken_by(source, picks@.take(q as int), sorted@),
        decreases picks.len() - q,
    {
        let at: usize = picks[q];
        proof {
            if picked(picks@.take(q as int), at as int) {
                let p = choose|p: int| 0 <= p < q && #[trigger] picks@.take(q as int)[p] == at;
                lemma_goes_before_asymmetric(source, *direction, picks@[p] as int, at as int);
            }
            assert forall|i: int| 0 <= i < slots.len() implies (picked(
                picks@.take(q + 1),
                i,
            ) <==> picked(picks@.take(q as int), i) || i == at) by {
                if picked(picks@.take(q + 1), i) {
                    let p = choose|p: int| 0 <= p < q + 1 && #[trigger] picks@.take(q + 1)[p] == i;
                    if p < q {
                        assert(picks@.take(q as int)[p] == i);
                    }
                }
                if picked(picks@.take(q as int), i) {
                    let p = choose|p: int| 0 <= p < q && #[trigger] picks@.take(q as int)[p] == i;
                    assert(picks@.take(q + 1)[p] == i);
                }
                if i == at {
                    assert(picks@.take(q + 1)[q as int] == i);
                }
            }
        }
        let entry = slots[at].take().unwrap();
        sorted.push(entry);
        q += 1;
    }
    assert(picks@.take(picks.len() as int) == picks@);
    sorted
}

/// Hands the entries back in the opposite order.
pub fn reverse(list: Vec<PokemonList>) -> (reversed: Vec<PokemonList>)
    ensures
        reversed@ == list@.reverse(),
{
    let ghost source = list@;
    let mut rest = list;
    let mut reversed: Vec<PokemonList> = Vec::new();
    while rest.len() > 0
        invariant
            rest@ == source.take(rest.len() as int),
            rest.len() <= source.len(),
            reversed.len() == source.len() - rest.len(),
            forall|i: int|
                0 <= i < reversed.len() ==> #[trigger] reversed@[i] == source[source.len() - 1 - i],
        decreases rest.len(),
    {
        let entry = rest.pop().unwrap();
        reversed.push(entry);
    }
    reversed
}

/// `ordered` holds the entries of `source` in the order that was asked for. By name
/// they are sorted. By id they stay as they stand in `source`, which need not be by
/// rising id, and `Descending` turns that order round.
pub open spec fn is_ordered(
    source: Seq<PokemonList>,
    field: PokemonIndexField,
    direction: Direction,
    ordered: Seq<PokemonList>,
) -> bool {
    match (field, direction) {
        (PokemonIndexField::Name, _) => is_sorted_by_name(source, direction, ordered),
        (PokemonIndexField::Id, Direction::Ascending) => ordered == source,
        (PokemonIndexField::Id, Direction::Descending) => ordered == source.reverse(),
    }
}

/// Puts the entries into the order that was asked for.
pub fn order(
    list: Vec<PokemonList>,
    field: &PokemonIndexField,
    direction: &Direction,
) -> (ordered: Vec<PokemonList>)
    ensures
        is_ordered(list@, *field, *direction, ordered@),
{
    match (field, direction) {
        (PokemonIndexField::Name, _) => sort_by_name(list, direction),
        (PokemonIndexField::Id, Direction::Ascending) => list,
        (PokemonIndexField::Id, Direction::Descending) => reverse(list),
    }
}

/// The entries whose name holds the search term, in the order in which they stand.
pub open spec fn matching(entries: Seq<PokemonList>, search: Seq<char>) -> Seq<PokemonList> {
    entries.filter(|entry: PokemonList| name_contains(entry.name@, search))
}

/// Keeps the entries whose name holds the search term, and their order.
pub fn retain_matching(list: Vec<PokemonList>, search: &str) -> (kept: Vec<PokemonList>)
    ensures
        kept@ == matching(list@, search@),
{
    broadcast use vstd::std_specs::vec::axiom_spec_into_iter;

    let ghost source = list@;
    let mut kept: Vec<PokemonList> = Vec::new();
    for entry in it: list
        invariant
            it.seq() == source,
            kept@ == matching(source.take(it.index()), search@),
    {
        proof {
            reveal(Seq::filter);
            let n = it.index();
            assert(source.take(n + 1).drop_last() == source.take(n));
        }
        if contains(entry.name.as_str(), search) {
            kept.push(entry);
        }
    }
    proof {
        assert(source.take(source.len() as int) == source);
    }
    kept
}

/// `listing` is what a client gets for `request` when the store hands its records
/// out as `snapshot`: the entries in the order asked for, and of these the ones whose
/// name holds the search term.
pub open spec fn is_listing(
    snapshot: Seq<PokemonList>,
    request: PokemonIndexRequest,
    listing: Seq<PokemonList>,
) -> bool {
    exists|ordered: Seq<PokemonList>|
        #[trigger] is_ordered(snapshot, request.sort_field, request.sort_direction, ordered)
            && listing == matching(ordered, request.search@)
}

/// Orders the entries of a snapshot, then keeps those that match the search term.
pub fn list(
    snapshot: Vec<PokemonList>,
    request: &PokemonIndexRequest,
) -> (listing: Vec<PokemonList>)
    ensures
        is_listing(snapshot@, *request, listing@),
{
    let ordered = order(snapshot, &request.sort_field, &request.sort_direction);
    retain_matching(ordered, request.search.as_str())
}

/// `listing` is what a client can get for `request` from a store that holds `records`.
/// The order in which the store hands its records out is not fixed: it shows wherever
/// the request leaves the place of an entry open.
pub open spec fn is_index<R: Named>(
    records: Map<usize, R>,
    request: PokemonIndexRequest,
    listing: Seq<PokemonList>,
) -> bool {
    exists|entries: Seq<PokemonList>| #[trigger]
        is_snapshot(records, entries) && is_listing(entries, request, listing)
}

/// Lists the records of a map as `request` says. The listing is a copy: what happens
/// to the map afterwards does not show in it.
pub fn index<R: Named>(
    records: &HashMap<usize, R>,
    request: &PokemonIndexRequest,
) -> (listing: Vec<PokemonList>)
    ensures
        is_index(records@, *request, listing@),
{
    list(snapshot(records), request)
}

/// Where two sorted arrangements of one source agree on their first `q` picks, the
/// pick of the first at `q` does not go before that of the second.
proof fn lemma_next_pick_not_before(
    source: Seq<PokemonList>,
    direction: Direction,
    first: Seq<usize>,
    second: Seq<usize>,
    q: int,
)
    requires
        sorts_range(source, direction, 0, source.len() as int, first),
        sorts_range(source, direction, 0, source.len() as int, second),
        0 <= q < source.len(),
        forall|p: int| 0 <= p < q ==> first[p] == second[p],
    ensures
        !goes_before(source, direction, first[q] as int, second[q] as int),
{
    let x = first[q];
    if goes_before(source, direction, x as int, second[q] as int) {
        lemma_goes_before_asymmetric(source, direction, x as int, second[q] as int);
        assert(picked(second, x as int));
        let r = choose|r: int| 0 <= r < second.len() && #[trigger] second[r] == x;
        if r < q {
            assert(goes_before(source, direction, first[r] as int, first[q] as int));
            lemma_goes_before_asymmetric(source, direction, first[r] as int, first[q] as int);
        } else {
            assert(goes_before(source, direction, second[q] as int, second[r] as int));
        }
    }
}

/// Two sorted arrangements of one source agree on their first `upto` picks.
proof fn lemma_picks_agree(
    source: Seq<PokemonList>,
    direction: Direction,
    first: Seq<usize>,
    second: Seq<usize>,
    upto: int,
)
    requires
        sorts_range(source, direction, 0, source.len() as int, first),
        sorts_range(source, direction, 0, source.len() as int, second),
        0 <= upto <= source.len(),
    ensures
        forall|p: int| 0 <= p < upto ==> first[p] == second[p],
    decreases upto,
{
    if upto > 0 {
        lemma_picks_agree(source, direction, first, second, upto - 1);
        let q = upto - 1;
        lemma_next_pick_not_before(source, direction, first, second, q);
        lemma_next_pick_not_before(source, direction, second, first, q);
    }
}

/// Sorting by name has one result: two sequences that are both the entries of
/// `source` sorted by name in `direction` are the same sequence.
pub proof fn lemma_sorted_by_name_unique(
    source: Seq<PokemonList>,
    direction: Direction,
    a: Seq<PokemonList>,
    b: Seq<PokemonList>,
)
    requires
        is_sorted_by_name(source, direction, a),
        is_sorted_by_name(source, direction, b),
    ensures
        a == b,
{
    let n = source.len() as int;
    let first = choose|picks: Seq<usize>| #[trigger]
        sorts_range(source, direction, 0, n, picks) && taken_by(source, picks, a);
    let second = choose|picks: Seq<usize>| #[trigger]
        sorts_range(source, direction, 0, n, picks) && taken_by(source, picks, b);
    lemma_picks_agree(source, direction, first, second, n);
    assert(a =~= b);
}

/// A snapshot and a request have one listing.
pub proof fn lemma_listing_unique(
    snapshot: Seq<PokemonList>,
    request: PokemonIndexRequest,
    a: Seq<PokemonList>,
    b: Seq<PokemonList>,
)
    requires
        is_listing(snapshot, request, a),
        is_listing(snapshot, request, b),
    ensures
        a == b,
{
    let first = choose|ordered: Seq<PokemonList>| #[trigger]
        is_ordered(snapshot, request.sort_field, request.sort_direction, ordered) && a == matching(
            ordered,
            request.search@,
        );
    let second = choose|ordered: Seq<PokemonList>| #[trigger]
        is_ordered(snapshot, request.sort_field, request.sort_direction, ordered) && b == matching(
            ordered,
            request.search@,
        );
    if request.sort_field is Name {
        lemma_sorted_by_name_unique(snapshot, request.sort_direction, first, second);
    }
}

} // verus!
