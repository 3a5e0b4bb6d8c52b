use pokemon_store::business_logic::Pokemon;
use pokemon_store::models::{Direction, PokemonIndexField, PokemonIndexRequest, PokemonList};
use pokemon_store::query::{
    ahead, index, list, order, retain_matching, reverse, snapshot, sort_by_name,
};
use std::collections::HashMap;

fn entries(items: &[(usize, &str)]) -> Vec<PokemonList> {
    items.iter().map(|(id, name)| PokemonList { name: name.to_string(), id: *id }).collect()
}

fn shown(listing: &[PokemonList]) -> Vec<(usize, &str)> {
    listing.iter().map(|entry| (entry.id, entry.name.as_str())).collect()
}

fn request(field: PokemonIndexField, direction: Direction, search: &str) -> PokemonIndexRequest {
    PokemonIndexRequest { sort_field: field, sort_direction: direction, search: search.to_string() }
}

#[test]
fn sort_by_name_ascending_orders_by_the_bytes_of_the_name() {
    let list = entries(&[(2, "Glumanda"), (1, "Bisasam"), (7, "Schiggy"), (4, "Glurak")]);

    let sorted = sort_by_name(list, &Direction::Ascending);

    assert_eq!(shown(&sorted), vec![(1, "Bisasam"), (2, "Glumanda"), (4, "Glurak"), (7, "Schiggy")]);
}

#[test]
fn sort_by_name_descending_orders_the_other_way() {
    let list = entries(&[(2, "Glumanda"), (1, "Bisasam"), (7, "Schiggy"), (4, "Glurak")]);

    let sorted = sort_by_name(list, &Direction::Descending);

    assert_eq!(shown(&sorted), vec![(7, "Schiggy"), (4, "Glurak"), (2, "Glumanda"), (1, "Bisasam")]);
}

#[test]
fn sort_by_name_keeps_entries_of_one_name_in_their_order() {
    let list = entries(&[(5, "Mew"), (3, "Abra"), (9, "Mew"), (1, "Mew"), (2, "Abra")]);

    let sorted = sort_by_name(list, &Direction::Ascending);

    assert_eq!(shown(&sorted), vec![(3, "Abra"), (2, "Abra"), (5, "Mew"), (9, "Mew"), (1, "Mew")]);
}

#[test]
fn sort_by_name_descending_keeps_entries_of_one_name_in_their_order_too() {
    let list = entries(&[(5, "Mew"), (3, "Abra"), (9, "Mew"), (1, "Mew"), (2, "Abra")]);

    let sorted = sort_by_name(list, &Direction::Descending);

    assert_eq!(shown(&sorted), vec![(5, "Mew"), (9, "Mew"), (1, "Mew"), (3, "Abra"), (2, "Abra")]);
}

#[test]
fn sort_by_name_puts_capitals_first_and_a_prefix_before_the_longer_name() {
    let list = entries(&[(1, "mew"), (2, "Mewtwo"), (3, "Zubat"), (4, "Mew"), (5, "")]);

    let sorted = sort_by_name(list, &Direction::Ascending);

    assert_eq!(
        shown(&sorted),
        vec![(5, ""), (4, "Mew"), (2, "Mewtwo"), (3, "Zubat"), (1, "mew")]
    );
}

#[test]
fn sort_by_name_orders_names_beyond_ascii_by_their_utf8_bytes() {
    let list = entries(&[(1, "Évoli"), (2, "zubat"), (3, "Pikachu"), (4, "ピカチュウ")]);

    let sorted = sort_by_name(list, &Direction::Ascending);

    assert_eq!(
        shown(&sorted),
        vec![(3, "Pikachu"), (2, "zubat"), (1, "Évoli"), (4, "ピカチュウ")]
    );
}

#[test]
fn sort_by_name_of_nothing_is_nothing() {
    assert!(sort_by_name(Vec::new(), &Direction::Ascending).is_empty());
    assert!(sort_by_name(Vec::new(), &Direction::Descending).is_empty());
}

#[test]
fn sort_by_name_agrees_with_the_stable_sort_of_the_standard_library() {
    let names = ["Mew", "Abra", "mew", "Zubat", "Abra", "", "Mewtwo", "Mew", "Évoli", "Abra"];
    let mut list: Vec<(usize, &str)> = Vec::new();
    for id in 0..97usize {
        list.push((id, names[(id * 7 + id / 10) % names.len()]));
    }
    let mut rising = list.clone();
    rising.sort_by(|a, b| a.1.cmp(b.1));
    let mut falling = list.clone();
    falling.sort_by(|b, a| a.1.cmp(b.1));

    let sorted_rising = sort_by_name(entries(&list), &Direction::Ascending);
    let sorted_falling = sort_by_name(entries(&list), &Direction::Descending);

    assert_eq!(shown(&sorted_rising), rising);
    assert_eq!(shown(&sorted_falling), falling);
}

#[test]
fn sort_by_name_sorts_lists_of_every_small_length() {
    let names = ["b", "a", "c", "a", "b", "d", "a", "c", "b"];
    for len in 0..=names.len() {
        let list: Vec<(usize, &str)> = (0..len).map(|id| (id, names[id])).collect();
        let mut expected = list.clone();
        expected.sort_by(|a, b| a.1.cmp(b.1));

        let sorted = sort_by_name(entries(&list), &Direction::Ascending);

        assert_eq!(shown(&sorted), expected);
    }
}

#[test]
fn ahead_follows_the_direction() {
    assert!(ahead(&Direction::Ascending, "Bisasam", "Glumanda"));
    assert!(!ahead(&Direction::Ascending, "Glumanda", "Bisasam"));
    assert!(ahead(&Direction::Descending, "Glumanda", "Bisasam"));
    assert!(!ahead(&Direction::Descending, "Bisasam", "Glumanda"));
    assert!(!ahead(&Direction::Ascending, "Mew", "Mew"));
    assert!(!ahead(&Direction::Descending, "Mew", "Mew"));
}

#[test]
fn reverse_turns_the_order_round() {
    let list = entries(&[(3, "c"), (1, "a"), (2, "b")]);

    let reversed = reverse(list);

    assert_eq!(shown(&reversed), vec![(2, "b"), (1, "a"), (3, "c")]);
    assert!(reverse(Vec::new()).is_empty());
}

#[test]
fn order_by_id_ascending_keeps_the_entries_as_they_stand() {
    let list = entries(&[(3, "c"), (1, "a"), (2, "b")]);

    let ordered = order(list, &PokemonIndexField::Id, &Direction::Ascending);

    assert_eq!(shown(&ordered), vec![(3, "c"), (1, "a"), (2, "b")]);
}

#[test]
fn order_by_id_descending_turns_the_entries_round() {
    let list = entries(&[(3, "c"), (1, "a"), (2, "b")]);

    let ordered = order(list, &PokemonIndexField::Id, &Direction::Descending);

    assert_eq!(shown(&ordered), vec![(2, "b"), (1, "a"), (3, "c")]);
}

#[test]
fn order_by_name_sorts() {
    let rising = order(entries(&[(3, "c"), (1, "a"), (2, "b")]), &PokemonIndexField::Name, &Direction::Ascending);
    let falling = order(entries(&[(3, "c"), (1, "a"), (2, "b")]), &PokemonIndexField::Name, &Direction::Descending);

    assert_eq!(shown(&rising), vec![(1, "a"), (2, "b"), (3, "c")]);
    assert_eq!(shown(&falling), vec![(3, "c"), (2, "b"), (1, "a")]);
}

#[test]
fn retain_matching_keeps_the_matches_in_their_order() {
    let list = entries(&[(6, "Glumanda"), (1, "Bisasam"), (5, "Glutexo"), (4, "Glurak")]);

    let kept = retain_matching(list, "Glu");

    assert_eq!(shown(&kept), vec![(6, "Glumanda"), (5, "Glutexo"), (4, "Glurak")]);
}

#[test]
fn retain_matching_with_the_empty_term_keeps_all() {
    let list = entries(&[(6, "Glumanda"), (1, "Bisasam"), (0, "")]);

    let kept = retain_matching(list, "");

    assert_eq!(shown(&kept), vec![(6, "Glumanda"), (1, "Bisasam"), (0, "")]);
}

#[test]
fn retain_matching_is_case_sensitive() {
    let list = entries(&[(6, "Glumanda"), (1, "glumanda")]);

    let kept = retain_matching(list, "glu");

    assert_eq!(shown(&kept), vec![(1, "glumanda")]);
}

#[test]
fn retain_matching_with_a_term_that_no_name_holds_keeps_nothing() {
    let list = entries(&[(6, "Glumanda"), (1, "Bisasam")]);

    assert!(retain_matching(list, "Bulbasaur").is_empty());
}

#[test]
fn list_sorts_then_searches() {
    let snapshot = entries(&[(6, "Glumanda"), (1, "Bisasam"), (5, "Glutexo"), (4, "Glurak")]);

    let listing = list(snapshot, &request(PokemonIndexField::Name, Direction::Descending, "lu"));

    assert_eq!(shown(&listing), vec![(5, "Glutexo"), (4, "Glurak"), (6, "Glumanda")]);
}

#[test]
fn list_by_id_keeps_the_order_of_the_snapshot_among_the_matches() {
    let rising = list(
        entries(&[(6, "Glumanda"), (1, "Bisasam"), (5, "Glutexo"), (4, "Glurak")]),
        &request(PokemonIndexField::Id, Direction::Ascending, "Glu"),
    );
    let falling = list(
        entries(&[(6, "Glumanda"), (1, "Bisasam"), (5, "Glutexo"), (4, "Glurak")]),
        &request(PokemonIndexField::Id, Direction::Descending, "Glu"),
    );

    assert_eq!(shown(&rising), vec![(6, "Glumanda"), (5, "Glutexo"), (4, "Glurak")]);
    assert_eq!(shown(&falling), vec![(4, "Glurak"), (5, "Glutexo"), (6, "Glumanda")]);
}

#[test]
fn list_of_an_empty_snapshot_is_empty() {
    assert!(list(Vec::new(), &PokemonIndexRequest::default()).is_empty());
    assert!(list(Vec::new(), &request(PokemonIndexField::Id, Direction::Descending, "x")).is_empty());
}

#[test]
fn snapshot_shows_every_record_once_under_its_key() {
    let mut records = HashMap::new();
    for id in 0..30usize {
        records.insert(id, Pokemon { name: format!("P{id}"), id });
    }

    let shown = snapshot(&records);

    let mut ids: Vec<usize> = shown.iter().map(|entry| entry.id).collect();
    ids.sort();
    assert_eq!(ids, (0..30).collect::<Vec<usize>>());
    for entry in &shown {
        assert_eq!(entry.name, format!("P{}", entry.id));
    }
}

#[test]
fn snapshot_is_a_copy() {
    let mut records = HashMap::new();
    records.insert(6, Pokemon { name: "Glumanda".to_string(), id: 6 });

    let shown = snapshot(&records);
    records.insert(1, Pokemon { name: "Bisasam".to_string(), id: 1 });
    records.get_mut(&6).unwrap().name = "Glurak".to_string();

    assert_eq!(shown.len(), 1);
    assert_eq!(shown[0].name, "Glumanda");
}

#[test]
fn index_lists_a_map() {
    let mut records = HashMap::new();
    records.insert(6, Pokemon { name: "Glumanda".to_string(), id: 6 });
    records.insert(1, Pokemon { name: "Bisasam".to_string(), id: 1 });
    records.insert(25, Pokemon { name: "Pikachu".to_string(), id: 25 });

    let listing = index(&records, &request(PokemonIndexField::Name, Direction::Ascending, "a"));

    let listing: Vec<(usize, &str)> = listing.iter().map(|e| (e.id, e.name.as_str())).collect();
    assert_eq!(listing, vec![(1, "Bisasam"), (6, "Glumanda"), (25, "Pikachu")]);
}

#[test]
fn index_by_id_ascending_hands_the_records_out_as_the_map_does() {
    let mut records = HashMap::new();
    for id in 0..40usize {
        records.insert(id * 13 % 41, Pokemon { name: format!("P{id}"), id });
    }
    let keys: Vec<usize> = records.keys().copied().collect();

    let listing = index(&records, &request(PokemonIndexField::Id, Direction::Ascending, ""));

    let ids: Vec<usize> = listing.iter().map(|entry| entry.id).collect();
    assert_eq!(ids, keys);
}

#[test]
fn index_by_id_descending_turns_the_order_of_the_map_round() {
    let mut records = HashMap::new();
    for id in 0..40usize {
        records.insert(id * 13 % 41, Pokemon { name: format!("P{id}"), id });
    }
    let mut keys: Vec<usize> = records.keys().copied().collect();
    keys.reverse();

    let listing = index(&records, &request(PokemonIndexField::Id, Direction::Descending, "P"));

    let ids: Vec<usize> = listing.iter().map(|entry| entry.id).collect();
    assert_eq!(ids, keys);
}

#[test]
fn index_by_name_breaks_no_tie_by_id() {
    let mut records = HashMap::new();
    for id in 0..40usize {
        records.insert(id, Pokemon { name: "Mew".to_string(), id });
    }
    let keys: Vec<usize> = records.keys().copied().collect();

    let rising = index(&records, &request(PokemonIndexField::Name, Direction::Ascending, ""));
    let falling = index(&records, &request(PokemonIndexField::Name, Direction::Descending, ""));

    let rising: Vec<usize> = rising.iter().map(|entry| entry.id).collect();
    let falling: Vec<usize> = falling.iter().map(|entry| entry.id).collect();
    assert_eq!(rising, keys);
    assert_eq!(falling, keys);
}
