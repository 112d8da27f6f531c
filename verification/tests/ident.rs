use jellifit::ident::{candidate_id, format_id, generate_id, slug_for, FIRST_SUFFIX, LAST_SUFFIX};
use jellifit::names::WordLists;
use jellifit::slug::is_degenerate;

fn lists() -> WordLists {
    WordLists::new(
        vec!["Happy".to_string(), "Sleepy".to_string()],
        vec!["Moon".to_string(), "Box".to_string()],
    )
    .expect("both lists hold a word")
}

fn split(id: &str) -> (String, u32) {
    let at = id.rfind('-').expect("an identifier holds a hyphen");
    let digits = &id[at + 1..];
    assert_eq!(digits.len(), 6, "{id}");
    assert!(digits.chars().all(|c| c.is_ascii_digit()), "{id}");
    (id[..at].to_string(), digits.parse().unwrap())
}

#[test]
fn format_id_writes_slug_hyphen_number() {
    assert_eq!(format_id("team-lunch", 123456), "team-lunch-123456");
    assert_eq!(format_id("a", 100000), "a-100000");
    assert_eq!(format_id("a", 999999), "a-999999");
}

#[test]
fn format_id_writes_any_number_in_decimal() {
    assert_eq!(format_id("x", 0), "x-0");
    assert_eq!(format_id("x", 7), "x-7");
    assert_eq!(format_id("x", 10), "x-10");
    assert_eq!(format_id("x", 1090), "x-1090");
    assert_eq!(format_id("", 4294967295), "-4294967295");
}

#[test]
fn suffixes_have_six_digits() {
    assert_eq!(FIRST_SUFFIX, 100000);
    assert_eq!(LAST_SUFFIX, 999999);
}

#[test]
fn candidate_ids_keep_the_slug() {
    for _ in 0..200 {
        let id = candidate_id("team-lunch");
        let (slug, number) = split(&id);
        assert_eq!(slug, "team-lunch");
        assert!((FIRST_SUFFIX..=LAST_SUFFIX).contains(&number));
    }
}

#[test]
fn candidate_ids_vary() {
    let first = candidate_id("x");
    let varied = (0..50).any(|_| candidate_id("x") != first);
    assert!(varied);
}

#[test]
fn slug_for_keeps_a_good_slug() {
    let lists = lists();
    assert_eq!(slug_for("Team Lunch", &lists), "team-lunch");
    assert_eq!(slug_for("café", &lists), "cafdma");
    assert_eq!(slug_for(". a", &lists), "-a");
}

#[test]
fn slug_for_replaces_a_degenerate_slug() {
    let lists = lists();
    let known = [
        "happy-moon-jelly",
        "happy-box-jelly",
        "sleepy-moon-jelly",
        "sleepy-box-jelly",
    ];
    for name in ["", "   ", "!!!", "?! ... !?", "--"] {
        let slug = slug_for(name, &lists);
        assert!(!is_degenerate(&slug), "{name:?} gave {slug:?}");
        assert!(known.contains(&slug.as_str()), "{name:?} gave {slug:?}");
    }
}

#[test]
fn generate_id_is_slug_and_six_digits() {
    let lists = lists();
    let (slug, number) = split(&generate_id("Team Lunch", &lists));
    assert_eq!(slug, "team-lunch");
    assert!((FIRST_SUFFIX..=LAST_SUFFIX).contains(&number));
}

#[test]
fn generate_id_never_has_an_empty_slug() {
    let lists = lists();
    for name in ["", " ", "!!!", "???", "-", "\t\n"] {
        for _ in 0..20 {
            let (slug, _) = split(&generate_id(name, &lists));
            assert!(!slug.is_empty(), "{name:?}");
            assert!(!is_degenerate(&slug), "{name:?}");
            assert!(slug.ends_with("-jelly"), "{name:?} gave {slug:?}");
        }
    }
}
