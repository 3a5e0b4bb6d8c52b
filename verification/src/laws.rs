//! What holds of the store and of its listings, whatever they hold.

use vstd::prelude::*;
use vstd::utf8::encode_utf8;

use crate::business_logic::{creates, deletes, fetches, updates, BusinessError, Pokemon};
use crate::controller::{change_status, created, patched, removed, shown};
use crate::key_value_storage::{deleted, found, stored, KeyValueStorage};
use crate::model;
use crate::models::{Direction, PokemonIndexField, PokemonIndexRequest, PokemonList};
use crate::query::{
    is_index, is_listing, is_ordered, is_snapshot, is_sorted_by_name,
    lemma_goes_before_asymmetric, matching, name_ahead, picked, sorts_range, taken_by, Named,
};
use crate::status::Status;
use crate::storage::StorageError;
use crate::text::{name_contains, occurs_at};
use crate::view::{PokemonCreate, PokemonShow, PokemonUpdate};

verus! {

/// Round trip: a Pokemon that was stored is what a lookup of its id gives, whatever
/// the storage held before.
pub proof fn law_store_then_get(records: Map<usize, Pokemon>, pokemon: Pokemon)
    ensures
        found(stored(records, pokemon), pokemon.id) == Ok::<Pokemon, StorageError>(pokemon),
{
}

/// Round trip through the business logic: creating a Pokemon in the key-value
/// storage succeeds, and getting its id from the storage that the creation left
/// returns that Pokemon.
pub proof fn law_create_then_get(
    before: KeyValueStorage,
    pokemon: Pokemon,
    after: KeyValueStorage,
    create_result: Result<(), BusinessError>,
    get_result: Result<Pokemon, BusinessError>,
)
    requires
        creates(before, pokemon, after, create_result),
        fetches(after, pokemon.id, get_result),
    ensures
        create_result == Ok::<(), BusinessError>(()),
        get_result == Ok::<Pokemon, BusinessError>(pokemon),
{
}

/// Round trip in the full variant: a Pokemon that was created is what a request for
/// its id shows, whatever stood under that id before.
pub proof fn law_create_then_show(records: Map<usize, model::Pokemon>, request: PokemonCreate)
    ensures
        shown(created(records, request), request.id) == Ok::<PokemonShow, Status>(
            PokemonShow::showing(request.pokemon()),
        ),
{
}

/// Storing adds one record where the id was free, and none where it was in use.
pub proof fn law_store_adds_at_most_one(records: Map<usize, Pokemon>, pokemon: Pokemon)
    requires
        records.dom().finite(),
    ensures
        stored(records, pokemon).dom().finite(),
        records.contains_key(pokemon.id) ==> stored(records, pokemon).dom().len()
            == records.dom().len(),
        !records.contains_key(pokemon.id) ==> stored(records, pokemon).dom().len()
            == records.dom().len() + 1,
{
    assert(stored(records, pokemon).dom() =~= records.dom().insert(pokemon.id));
}

/// An update changes what it holds and nothing else: each field that it leaves out
/// stays, the number stays, every other record stays, and a request for the id then
/// shows the Pokemon with the new fields.
pub proof fn law_update_changes_only_what_it_holds(
    records: Map<usize, model::Pokemon>,
    id: usize,
    update: PokemonUpdate,
)
    requires
        records.contains_key(id),
    ensures
        change_status(records, id) == Ok::<Status, Status>(Status::NoContent),
        ({
            let before = records[id];
            let after = patched(records, id, update);
            &&& after.dom() == records.dom()
            &&& forall|other: usize|
                other != id && records.contains_key(other) ==> #[trigger] after[other]
                    == records[other]
            &&& after[id].number == before.number
            &&& update.name matches Some(name) ==> after[id].name == name
            &&& update.name is None ==> after[id].name == before.name
            &&& update.pokemon_type matches Some(pokemon_type) ==> after[id].pokemon_type
                == pokemon_type
            &&& update.pokemon_type is None ==> after[id].pokemon_type == before.pokemon_type
            &&& update.nick_name matches Some(nick_name) ==> after[id].nick_name == nick_name
            &&& update.nick_name is None ==> after[id].nick_name == before.nick_name
            &&& shown(after, id) == Ok::<PokemonShow, Status>(
                PokemonShow::showing(before.patched(update)),
            )
        }),
{
    assert(patched(records, id, update).dom() =~= records.dom());
}

/// An update in the key-value storage gives the stored Pokemon the new name, and
/// changes nothing else: its id stays, and so does every other record.
pub proof fn law_update_renames(
    before: KeyValueStorage,
    pokemon: Pokemon,
    after: KeyValueStorage,
    result: Result<(), BusinessError>,
)
    requires
        before@.contains_key(pokemon.id),
        updates(before, pokemon, after, result),
    ensures
        result == Ok::<(), BusinessError>(()),
        after@.dom() == before@.dom(),
        after@[pokemon.id].name == pokemon.name,
        after@[pokemon.id].id == before@[pokemon.id].id,
        forall|other: usize|
            other != pokemon.id && before@.contains_key(other) ==> #[trigger] after@[other]
                == before@[other],
{
    assert(after@.dom() =~= before@.dom());
}

/// An update under an id that holds nothing fails with `NotFound`, and changes nothing.
pub proof fn law_update_of_missing(
    records: Map<usize, model::Pokemon>,
    id: usize,
    update: PokemonUpdate,
)
    requires
        !records.contains_key(id),
    ensures
        change_status(records, id) == Err::<Status, Status>(Status::NotFound),
        patched(records, id, update) == records,
{
}

/// An update in the key-value storage under an id that holds nothing fails with
/// `NotFound`, and changes nothing.
pub proof fn law_update_of_missing_in_storage(
    before: KeyValueStorage,
    pokemon: Pokemon,
    after: KeyValueStorage,
    result: Result<(), BusinessError>,
)
    requires
        !before@.contains_key(pokemon.id),
        updates(before, pokemon, after, result),
    ensures
        result == Err::<(), BusinessError>(BusinessError::NotFound),
        after@ == before@,
{
}

/// Deleting removes the record under the id and no other. Where the id holds nothing
/// the records stay as they are, so deleting twice is deleting once.
pub proof fn law_delete_removes_one(records: Map<usize, model::Pokemon>, id: usize)
    ensures
        !removed(records, id).contains_key(id),
        forall|other: usize|
            other != id ==> (#[trigger] removed(records, id).contains_key(other)
                <==> records.contains_key(other)),
        forall|other: usize|
            other != id && records.contains_key(other) ==> #[trigger] removed(records, id)[other]
                == records[other],
        !records.contains_key(id) ==> removed(records, id) == records,
        removed(removed(records, id), id) == removed(records, id),
        change_status(records, id) is Ok <==> records.contains_key(id),
        change_status(removed(records, id), id) == Err::<Status, Status>(Status::NotFound),
{
    if !records.contains_key(id) {
        assert(removed(records, id) =~= records);
    }
    assert(removed(removed(records, id), id) =~= removed(records, id));
}

/// Deleting takes one record away where the id was in use, and none where it was free.
pub proof fn law_delete_takes_at_most_one(records: Map<usize, Pokemon>, id: usize)
    requires
        records.dom().finite(),
    ensures
        deleted(records, id).dom().finite(),
        records.contains_key(id) ==> deleted(records, id).dom().len() == records.dom().len() - 1,
        !records.contains_key(id) ==> deleted(records, id).dom().len() == records.dom().len(),
{
    assert(deleted(records, id).dom() =~= records.dom().remove(id));
}

/// Deleting from the key-value storage succeeds whether or not the id holds
/// something. It removes the record under the id and no other; where the id holds
/// nothing, the records stay as they are.
pub proof fn law_delete_in_storage(
    before: KeyValueStorage,
    id: usize,
    after: KeyValueStorage,
    result: Result<(), BusinessError>,
)
    requires
        deletes(before, id, after, result),
    ensures
        result == Ok::<(), BusinessError>(()),
        !after@.contains_key(id),
        forall|other: usize|
            other != id ==> (#[trigger] after@.contains_key(other) <==> before@.contains_key(
                other,
            )),
        forall|other: usize|
            other != id && before@.contains_key(other) ==> #[trigger] after@[other]
                == before@[other],
        !before@.contains_key(id) ==> after@ == before@,
{
    if !before@.contains_key(id) {
        assert(after@ =~= before@);
    }
}

/// What was sorted by name is in order: no entry has a name that belongs before the
/// name of an entry that stands before it.
pub proof fn law_sorted_by_name_is_in_order(
    source: Seq<PokemonList>,
    direction: Direction,
    sorted: Seq<PokemonList>,
)
    requires
        is_sorted_by_name(source, direction, sorted),
    ensures
        forall|p: int, q: int|
            0 <= p < q < sorted.len() ==> !name_ahead(
                direction,
                (#[trigger] sorted[q]).name@,
                (#[trigger] sorted[p]).name@,
            ),
{
    let picks = choose|picks: Seq<usize>| #[trigger]
        sorts_range(source, direction, 0, source.len() as int, picks) && taken_by(
            source,
            picks,
            sorted,
        );
    assert forall|p: int, q: int| 0 <= p < q < sorted.len() implies !name_ahead(
        direction,
        (#[trigger] sorted[q]).name@,
        (#[trigger] sorted[p]).name@,
    ) by {
        lemma_goes_before_asymmetric(source, direction, picks[p] as int, picks[q] as int);
    }
}

/// Turning a sequence round and then searching it gives what searching it and then
/// turning the matches round gives.
proof fn lemma_matching_of_reverse(entries: Seq<PokemonList>, search: Seq<char>)
    ensures
        matching(entries.reverse(), search) == matching(entries, search).reverse(),
    decreases entries.len(),
{
    reveal_with_fuel(Seq::filter, 2);
    let keeps = |entry: PokemonList| name_contains(entry.name@, search);
    if entries.len() > 0 {
        let front = entries.drop_last();
        let last = entries.last();
        lemma_matching_of_reverse(front, search);
        assert(entries.reverse() =~= seq![last] + front.reverse());
        Seq::filter_distributes_over_add(seq![last], front.reverse(), keeps);
        assert(seq![last].drop_last() =~= Seq::<PokemonList>::empty());
        if keeps(last) {
            assert(seq![last].filter(keeps) =~= seq![last]);
            assert(matching(entries, search).reverse() =~= seq![last] + matching(
                front,
                search,
            ).reverse());
        } else {
            assert(seq![last].filter(keeps) =~= Seq::<PokemonList>::empty());
        }
    }
}

/// By id, the descending listing of a snapshot is its ascending listing turned round.
pub proof fn law_descending_by_id_is_ascending_turned_round(
    snapshot: Seq<PokemonList>,
    search: String,
    ascending: Seq<PokemonList>,
    descending: Seq<PokemonList>,
)
    requires
        is_listing(
            snapshot,
            (PokemonIndexRequest {
                sort_field: PokemonIndexField::Id,
                sort_direction: Direction::Ascending,
                search,
            }),
            ascending,
        ),
        is_listing(
            snapshot,
            (PokemonIndexRequest {
                sort_field: PokemonIndexField::Id,
                sort_direction: Direction::Descending,
                search,
            }),
            descending,
        ),
    ensures
        descending == ascending.reverse(),
{
    lemma_matching_of_reverse(snapshot, search@);
}

/// Whatever order was asked for, the entries are those of the source: as many, and
/// each of them at some place.
pub proof fn law_order_keeps_the_entries(
    source: Seq<PokemonList>,
    request: PokemonIndexRequest,
    ordered: Seq<PokemonList>,
)
    requires
        is_ordered(source, request.sort_field, request.sort_direction, ordered),
    ensures
        ordered.len() == source.len(),
        forall|entry: PokemonList| ordered.contains(entry) <==> source.contains(entry),
{
    let n = source.len() as int;
    if request.sort_field is Name {
        let picks = choose|picks: Seq<usize>| #[trigger]
            sorts_range(source, request.sort_direction, 0, n, picks) && taken_by(
                source,
                picks,
                ordered,
            );
        assert forall|entry: PokemonList| ordered.contains(entry) implies source.contains(
            entry,
        ) by {
            let q = choose|q: int| 0 <= q < ordered.len() && ordered[q] == entry;
            assert(ordered[q] == source[picks[q] as int]);
        }
        assert forall|entry: PokemonList| source.contains(entry) implies ordered.contains(
            entry,
        ) by {
            let i = choose|i: int| 0 <= i < source.len() && source[i] == entry;
            assert(picked(picks, i));
            let q = choose|q: int| 0 <= q < picks.len() && #[trigger] picks[q] == i;
            assert(ordered[q] == entry);
        }
    } else if request.sort_direction is Descending {
        assert forall|entry: PokemonList| ordered.contains(entry) implies source.contains(
            entry,
        ) by {
            let q = choose|q: int| 0 <= q < ordered.len() && ordered[q] == entry;
            assert(ordered[q] == source[n - 1 - q]);
        }
        assert forall|entry: PokemonList| source.contains(entry) implies ordered.contains(
            entry,
        ) by {
            let i = choose|i: int| 0 <= i < source.len() && source[i] == entry;
            assert(ordered[n - 1 - i] == entry);
        }
    }
}

/// A listing holds the records whose name holds the search term, and no others:
/// each of its entries shows a record of the store under its id, with a name that
/// holds the term, and every such record has an entry.
pub proof fn law_listing_holds_the_matches<R: Named>(
    records: Map<usize, R>,
    request: PokemonIndexRequest,
    listing: Seq<PokemonList>,
)
    requires
        is_index(records, request, listing),
    ensures
        forall|i: int|
            0 <= i < listing.len() ==> records.contains_key((#[trigger] listing[i]).id)
                && listing[i].name@ == records[listing[i].id].shown_name() && name_contains(
                listing[i].name@,
                request.search@,
            ),
        forall|id: usize|
            records.contains_key(id) && name_contains(records[id].shown_name(), request.search@)
                ==> exists|i: int| 0 <= i < listing.len() && (#[trigger] listing[i]).id == id,
{
    broadcast use vstd::seq_lib::group_filter_ensures;

    let entries = choose|entries: Seq<PokemonList>| #[trigger]
        is_snapshot(records, entries) && is_listing(entries, request, listing);
    let ordered = choose|ordered: Seq<PokemonList>| #[trigger]
        is_ordered(entries, request.sort_field, request.sort_direction, ordered) && listing
            == matching(ordered, request.search@);
    let keeps = |entry: PokemonList| name_contains(entry.name@, request.search@);
    law_order_keeps_the_entries(entries, request, ordered);
    assert forall|i: int| 0 <= i < listing.len() implies records.contains_key(
        (#[trigger] listing[i]).id,
    ) && listing[i].name@ == records[listing[i].id].shown_name() && name_contains(
        listing[i].name@,
        request.search@,
    ) by {
        assert(listing.contains(listing[i]));
        ordered.lemma_filter_contains_rev(keeps, listing[i]);
        assert(entries.contains(listing[i]));
        let at = choose|at: int| 0 <= at < entries.len() && entries[at] == listing[i];
        assert(records.contains_key(entries[at].id));
    }
    assert forall|id: usize|
        records.contains_key(id) && name_contains(
            records[id].shown_name(),
            request.search@,
        ) implies exists|i: int| 0 <= i < listing.len() && (#[trigger] listing[i]).id == id by {
        let at = choose|at: int| 0 <= at < entries.len() && (#[trigger] entries[at]).id == id;
        assert(entries.contains(entries[at]));
        assert(ordered.contains(entries[at]));
        let q = choose|q: int| 0 <= q < ordered.len() && ordered[q] == entries[at];
        assert(keeps(ordered[q]));
        ordered.lemma_filter_contains(keeps, q);
        let i = choose|i: int| 0 <= i < listing.len() && listing[i] == ordered[q];
        assert(listing[i].id == id);
    }
}

/// No two entries of the sequence have one id.
pub open spec fn ids_differ(entries: Seq<PokemonList>) -> bool {
    forall|i: int, j: int|
        0 <= i < j < entries.len() ==> (#[trigger] entries[i]).id != (#[trigger] entries[j]).id
}

/// Searching entries with ids that all differ leaves entries with ids that all differ.
proof fn lemma_matching_keeps_ids_apart(entries: Seq<PokemonList>, search: Seq<char>)
    requires
        ids_differ(entries),
    ensures
        ids_differ(matching(entries, search)),
    decreases entries.len(),
{
    reveal(Seq::filter);
    if entries.len() > 0 {
        let keeps = |entry: PokemonList| name_contains(entry.name@, search);
        let front = entries.drop_last();
        let kept = matching(front, search);
        lemma_matching_keeps_ids_apart(front, search);
        if keeps(entries.last()) {
            assert forall|i: int| 0 <= i < kept.len() implies (#[trigger] kept[i]).id
                != entries.last().id by {
                assert(kept.contains(kept[i]));
                front.lemma_filter_contains_rev(keeps, kept[i]);
                let at = choose|at: int| 0 <= at < front.len() && front[at] == kept[i];
                assert(entries[at].id != entries[entries.len() - 1].id);
            }
        }
    }
}

/// A listing shows no record twice, so it is no longer than the store is large.
pub proof fn law_listing_shows_no_record_twice<R: Named>(
    records: Map<usize, R>,
    request: PokemonIndexRequest,
    listing: Seq<PokemonList>,
)
    requires
        is_index(records, request, listing),
    ensures
        ids_differ(listing),
        listing.len() <= records.dom().len(),
{
    broadcast use vstd::seq_lib::group_filter_ensures;

    let entries = choose|entries: Seq<PokemonList>| #[trigger]
        is_snapshot(records, entries) && is_listing(entries, request, listing);
    let ordered = choose|ordered: Seq<PokemonList>| #[trigger]
        is_ordered(entries, request.sort_field, request.sort_direction, ordered) && listing
            == matching(ordered, request.search@);
    let n = entries.len() as int;
    law_order_keeps_the_entries(entries, request, ordered);
    if request.sort_field is Name {
        let picks = choose|picks: Seq<usize>| #[trigger]
            sorts_range(entries, request.sort_direction, 0, n, picks) && taken_by(
                entries,
                picks,
                ordered,
            );
        assert forall|i: int, j: int| 0 <= i < j < ordered.len() implies (#[trigger] ordered[i]).id
            != (#[trigger] ordered[j]).id by {
            let (from, to) = (picks[i] as int, picks[j] as int);
            lemma_goes_before_asymmetric(entries, request.sort_direction, from, to);
            assert(ordered[i] == entries[from]);
            assert(ordered[j] == entries[to]);
            if from < to {
                assert(entries[from].id != entries[to].id);
            } else {
                assert(entries[to].id != entries[from].id);
            }
        }
    } else if request.sort_direction is Descending {
        assert forall|i: int, j: int| 0 <= i < j < ordered.len() implies (#[trigger] ordered[i]).id
            != (#[trigger] ordered[j]).id by {
            assert(ordered[i] == entries[n - 1 - i]);
            assert(ordered[j] == entries[n - 1 - j]);
            assert(entries[n - 1 - j].id != entries[n - 1 - i].id);
        }
    }
    lemma_matching_keeps_ids_apart(ordered, request.search@);
}

/// The listing of a store that holds nothing is empty, whatever was asked for.
pub proof fn law_listing_of_empty_store<R: Named>(
    request: PokemonIndexRequest,
    listing: Seq<PokemonList>,
)
    requires
        is_index(Map::<usize, R>::empty(), request, listing),
    ensures
        listing == Seq::<PokemonList>::empty(),
{
    broadcast use vstd::seq_lib::group_filter_ensures;

    let records = Map::<usize, R>::empty();
    let entries = choose|entries: Seq<PokemonList>| #[trigger]
        is_snapshot(records, entries) && is_listing(entries, request, listing);
    let ordered = choose|ordered: Seq<PokemonList>| #[trigger]
        is_ordered(entries, request.sort_field, request.sort_direction, ordered) && listing
            == matching(ordered, request.search@);
    law_order_keeps_the_entries(entries, request, ordered);
    assert(listing.len() <= ordered.len());
    assert(listing =~= Seq::<PokemonList>::empty());
}

/// Every name holds the empty search term.
pub proof fn law_empty_term_is_in_every_name(name: Seq<char>)
    ensures
        name_contains(name, Seq::<char>::empty()),
{
    assert(occurs_at(encode_utf8(name), encode_utf8(Seq::<char>::empty()), 0));
}

/// The empty search term keeps every entry.
pub proof fn law_empty_search_keeps_all(entries: Seq<PokemonList>)
    ensures
        matching(entries, Seq::<char>::empty()) == entries,
    decreases entries.len(),
{
    reveal(Seq::filter);
    if entries.len() > 0 {
        law_empty_search_keeps_all(entries.drop_last());
        law_empty_term_is_in_every_name(entries.last().name@);
        assert(entries.drop_last().push(entries.last()) =~= entries);
    }
}

/// A listing without a search term has one entry for each record of the store.
pub proof fn law_listing_without_search_has_all<R: Named>(
    records: Map<usize, R>,
    request: PokemonIndexRequest,
    listing: Seq<PokemonList>,
)
    requires
        request.search@ == Seq::<char>::empty(),
        is_index(records, request, listing),
    ensures
        listing.len() == records.dom().len(),
{
    let entries = choose|entries: Seq<PokemonList>| #[trigger]
        is_snapshot(records, entries) && is_listing(entries, request, listing);
    let ordered = choose|ordered: Seq<PokemonList>| #[trigger]
        is_ordered(entries, request.sort_field, request.sort_direction, ordered) && listing
            == matching(ordered, request.search@);
    law_order_keeps_the_entries(entries, request, ordered);
    law_empty_search_keeps_all(ordered);
}

/// The records after each Pokemon of `pokemons` was stored, one after the other.
pub open spec fn stored_all(
    records: Map<usize, Pokemon>,
    pokemons: Seq<Pokemon>,
) -> Map<usize, Pokemon>
    decreases pokemons.len(),
{
    if pokemons.len() == 0 {
        records
    } else {
        stored(stored_all(records, pokemons.drop_last()), pokemons.last())
    }
}

/// No two Pokemon of the sequence have one id.
pub open spec fn ids_all_differ(pokemons: Seq<Pokemon>) -> bool {
    forall|i: int, j: int|
        0 <= i < j < pokemons.len() ==> (#[trigger] pokemons[i]).id != (#[trigger] pokemons[j]).id
}

/// One of the Pokemon of the sequence has the id.
pub open spec fn has_id(pokemons: Seq<Pokemon>, id: usize) -> bool {
    exists|i: int| 0 <= i < pokemons.len() && (#[trigger] pokemons[i]).id == id
}

/// Two Pokemon with different ids can be stored in either order: the records are the
/// same afterwards.
pub proof fn law_stores_commute(records: Map<usize, Pokemon>, a: Pokemon, b: Pokemon)
    requires
        a.id != b.id,
    ensures
        stored(stored(records, a), b) == stored(stored(records, b), a),
{
    assert(stored(stored(records, a), b) =~= stored(stored(records, b), a));
}

/// No store is lost: after Pokemon with ids that all differ were stored one after the
/// other, each of them is found under its id, what was there before under another id
/// is still there, and nothing else is. Where none of the ids was in use before, the
/// store has grown by the number of Pokemon.
pub proof fn law_no_store_is_lost(records: Map<usize, Pokemon>, pokemons: Seq<Pokemon>)
    requires
        records.dom().finite(),
        ids_all_differ(pokemons),
    ensures
        forall|i: int|
            0 <= i < pokemons.len() ==> found(
                stored_all(records, pokemons),
                (#[trigger] pokemons[i]).id,
            ) == Ok::<Pokemon, StorageError>(pokemons[i]),
        forall|id: usize| #[trigger]
            stored_all(records, pokemons).contains_key(id) <==> records.contains_key(id) || has_id(
                pokemons,
                id,
            ),
        forall|id: usize|
            records.contains_key(id) && !has_id(pokemons, id) ==> #[trigger] stored_all(
                records,
                pokemons,
            )[id] == records[id],
        stored_all(records, pokemons).dom().finite(),
        (forall|id: usize| #[trigger] has_id(pokemons, id) ==> !records.contains_key(id))
            ==> stored_all(records, pokemons).dom().len() == records.dom().len() + pokemons.len(),
    decreases pokemons.len(),
{
    if pokemons.len() > 0 {
        let front = pokemons.drop_last();
        let last = pokemons.last();
        let before = stored_all(records, front);
        let after = stored_all(records, pokemons);
        law_no_store_is_lost(records, front);
        assert(has_id(pokemons, last.id)) by {
            assert(pokemons[pokemons.len() - 1].id == last.id);
        }
        assert forall|id: usize| has_id(front, id) implies has_id(pokemons, id) && id
            != last.id by {
            let i = choose|i: int| 0 <= i < front.len() && (#[trigger] front[i]).id == id;
            assert(pokemons[i].id == id);
            assert(pokemons[i].id != pokemons[pokemons.len() - 1].id);
        }
        assert forall|id: usize| has_id(pokemons, id) && id != last.id implies has_id(
            front,
            id,
        ) by {
            let i = choose|i: int| 0 <= i < pokemons.len() && (#[trigger] pokemons[i]).id == id;
            assert(front[i].id == id);
        }
        assert forall|i: int| 0 <= i < pokemons.len() implies found(
            after,
            (#[trigger] pokemons[i]).id,
        ) == Ok::<Pokemon, StorageError>(pokemons[i]) by {
            if i < pokemons.len() - 1 {
                assert(front[i] == pokemons[i]);
                assert(has_id(front, front[i].id));
            }
        }
        if forall|id: usize| #[trigger] has_id(pokemons, id) ==> !records.contains_key(id) {
            assert(!before.contains_key(last.id));
            assert(after.dom() =~= before.dom().insert(last.id));
        }
    }
}

/// The order of stores under ids that all differ does not show: two sequences of the
/// same Pokemon leave the same records, in whatever order each holds them.
pub proof fn law_order_of_stores_does_not_show(
    records: Map<usize, Pokemon>,
    one: Seq<Pokemon>,
    other: Seq<Pokemon>,
)
    requires
        records.dom().finite(),
        ids_all_differ(one),
        ids_all_differ(other),
        forall|i: int| 0 <= i < one.len() ==> other.contains(#[trigger] one[i]),
        forall|j: int| 0 <= j < other.len() ==> one.contains(#[trigger] other[j]),
    ensures
        stored_all(records, one) == stored_all(records, other),
{
    let left = stored_all(records, one);
    let right = stored_all(records, other);
    law_no_store_is_lost(records, one);
    law_no_store_is_lost(records, other);
    assert forall|id: usize| has_id(one, id) implies has_id(other, id) && left[id] == right[id] by {
        let i = choose|i: int| 0 <= i < one.len() && (#[trigger] one[i]).id == id;
        assert(other.contains(one[i]));
        let j = choose|j: int| 0 <= j < other.len() && other[j] == one[i];
        assert(other[j].id == id);
        assert(found(left, one[i].id) == Ok::<Pokemon, StorageError>(one[i]));
        assert(found(right, other[j].id) == Ok::<Pokemon, StorageError>(other[j]));
    }
    assert forall|id: usize| has_id(other, id) implies has_id(one, id) by {
        let j = choose|j: int| 0 <= j < other.len() && (#[trigger] other[j]).id == id;
        assert(one.contains(other[j]));
        let i = choose|i: int| 0 <= i < one.len() && one[i] == other[j];
        assert(one[i].id == id);
    }
    assert(left =~= right);
}

/// Stores under ids that all differ, into a storage that holds nothing, are all
/// listed: in whatever order they took effect, a listing without search term has one
/// entry for each of them.
pub proof fn law_stores_under_different_ids_are_all_listed(
    pokemons: Seq<Pokemon>,
    request: PokemonIndexRequest,
    listing: Seq<PokemonList>,
)
    requires
        ids_all_differ(pokemons),
        request.search@ == Seq::<char>::empty(),
        is_index(stored_all(Map::<usize, Pokemon>::empty(), pokemons), request, listing),
    ensures
        listing.len() == pokemons.len(),
{
    let records = Map::<usize, Pokemon>::empty();
    law_no_store_is_lost(records, pokemons);
    law_listing_without_search_has_all(stored_all(records, pokemons), request, listing);
}

} // verus!
