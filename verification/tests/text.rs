use pokemon_store::text::{contains, precedes, slice_contains, slice_precedes};

#[test]
fn precedes_compares_names_byte_by_byte() {
    assert!(precedes("Bisasam", "Glumanda"));
    assert!(!precedes("Glumanda", "Bisasam"));
    assert!(precedes("Glumanda", "Glurak"));
    assert!(!precedes("Glurak", "Glumanda"));
}

#[test]
fn precedes_is_strict() {
    assert!(!precedes("Mew", "Mew"));
    assert!(!precedes("", ""));
}

#[test]
fn precedes_puts_a_prefix_first() {
    assert!(precedes("Mew", "Mewtwo"));
    assert!(!precedes("Mewtwo", "Mew"));
    assert!(precedes("", "a"));
    assert!(!precedes("a", ""));
}

#[test]
fn precedes_puts_capitals_before_small_letters() {
    assert!(precedes("Zubat", "abra"));
    assert!(!precedes("abra", "Zubat"));
}

#[test]
fn precedes_agrees_with_the_order_of_strings() {
    let names = ["", "a", "A", "ab", "abc", "b", "Évoli", "é", "z", "ピカ", "ピカチュウ", "\u{10348}", "~"];
    for a in names {
        for b in names {
            assert_eq!(precedes(a, b), a < b, "{a:?} before {b:?}");
        }
    }
}

#[test]
fn slice_precedes_compares_bytes_as_unsigned() {
    assert!(slice_precedes(&[0x7f], &[0x80]));
    assert!(!slice_precedes(&[0xff], &[0x00, 0x01]));
    assert!(slice_precedes(&[1, 2], &[1, 2, 0]));
    assert!(!slice_precedes(&[1, 2, 0], &[1, 2]));
    assert!(!slice_precedes(&[], &[]));
}

#[test]
fn contains_finds_a_term_wherever_it_stands() {
    assert!(contains("Glumanda", "Glumanda"));
    assert!(contains("Glumanda", "Glu"));
    assert!(contains("Glumanda", "man"));
    assert!(contains("Glumanda", "anda"));
    assert!(contains("Glumanda", "a"));
}

#[test]
fn contains_misses_what_is_not_there() {
    assert!(!contains("Glumanda", "Bulbasaur"));
    assert!(!contains("Glumanda", "Glumandas"));
    assert!(!contains("Glumanda", "andaa"));
    assert!(!contains("Glumanda", "mna"));
    assert!(!contains("", "a"));
}

#[test]
fn contains_is_case_sensitive() {
    assert!(!contains("Glumanda", "glumanda"));
    assert!(!contains("Glumanda", "GLU"));
}

#[test]
fn contains_finds_the_empty_term_in_every_name() {
    assert!(contains("Glumanda", ""));
    assert!(contains("", ""));
}

#[test]
fn contains_goes_on_after_a_match_that_breaks_off() {
    assert!(contains("aab", "ab"));
    assert!(contains("ababac", "abac"));
    assert!(!contains("ababab", "abac"));
}

#[test]
fn contains_agrees_with_the_search_of_strings() {
    let names = ["", "a", "ab", "aab", "Glumanda", "Évoli", "ピカチュウ", "voli", "カチ", "É"];
    for name in names {
        for term in names {
            assert_eq!(contains(name, term), name.contains(term), "{term:?} in {name:?}");
        }
    }
}

#[test]
fn slice_contains_searches_bytes() {
    assert!(slice_contains(&[1, 2, 3, 4], &[2, 3]));
    assert!(slice_contains(&[1, 2, 3, 4], &[4]));
    assert!(slice_contains(&[1, 2, 3, 4], &[]));
    assert!(!slice_contains(&[1, 2, 3, 4], &[3, 2]));
    assert!(!slice_contains(&[1, 2], &[1, 2, 3]));
}
