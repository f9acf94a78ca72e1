use wallpapy::brightness::{bits_in_range, bits_le};
use wallpapy::common::utils::vec_str;
use wallpapy::common::LikedState;
use wallpapy::database::{liked_state_change, sqlite_file_path, LikedStateChange};
use wallpapy::server_functions::{like_update, non_blank};
use wallpapy::sorting::{sort_texts, str_lex_le};
use wallpapy::text::{cat, decimal, join, replace_newlines, str_eq, str_is_blank, trim};

#[test]
fn trim_drops_white_space_at_both_ends() {
    assert_eq!(trim("  a b \n"), "a b");
    assert_eq!(trim("\t\u{3000}x"), "x");
    assert_eq!(trim("   "), "");
    assert_eq!(trim(""), "");
    assert_eq!(trim("no-space"), "no-space");
}

#[test]
fn text_helpers() {
    assert_eq!(decimal(0), "0");
    assert_eq!(decimal(1234567890), "1234567890");
    assert_eq!(cat("ab", "cd"), "abcd");
    assert!(str_eq("same", "same"));
    assert!(!str_eq("same", "sane"));
    assert!(str_is_blank(" \n\t"));
    assert!(!str_is_blank(" x "));
    assert_eq!(replace_newlines("a\nb\n"), "a b ");
    let items = vec!["one".to_string(), "two".to_string(), "three".to_string()];
    assert_eq!(join(&items, " / "), "one / two / three");
    assert_eq!(join(&[], ","), "");
}

#[test]
fn vec_str_separates_with_comma() {
    let items = vec!["1".to_string(), "2".to_string(), "3".to_string()];
    assert_eq!(vec_str(&items), "1, 2, 3");
    assert_eq!(vec_str(&[]), "");
    assert_eq!(vec_str(&["only".to_string()]), "only");
}

#[test]
fn texts_sort_as_strings_do() {
    let sorted = sort_texts(vec![
        "pear".to_string(),
        "apple".to_string(),
        "Zebra".to_string(),
        "app".to_string(),
        "é".to_string(),
    ]);
    let mut expected = vec!["pear", "apple", "Zebra", "app", "é"];
    expected.sort();
    assert_eq!(sorted, expected);
    assert!(str_lex_le("app", "apple"));
    assert!(!str_lex_le("b", "a"));
}

#[test]
fn liked_state_names_round_trip() {
    for s in [LikedState::Loved, LikedState::Liked, LikedState::Neutral, LikedState::Disliked] {
        assert_eq!(LikedState::from_name(s.as_str()), Some(s));
    }
    assert_eq!(LikedState::Loved.as_str(), "Loved");
    assert_eq!(LikedState::from_name("loved"), None);
}

#[test]
fn sqlite_paths() {
    assert_eq!(sqlite_file_path("sqlite://data/wallpapy.db"), Some("data/wallpapy.db"));
    assert_eq!(sqlite_file_path("sqlite://data/w.db?mode=rwc"), Some("data/w.db"));
    assert_eq!(sqlite_file_path("sqlite://:memory:"), None);
    assert_eq!(sqlite_file_path("postgres://host/db"), None);
    assert_eq!(sqlite_file_path("sqlite:/"), None);
}

#[test]
fn disliked_is_final() {
    assert_eq!(
        liked_state_change(Some(LikedState::Disliked), LikedState::Loved),
        LikedStateChange { stored: Some(LikedState::Disliked), updated: false, delete_file: false }
    );
    assert_eq!(
        liked_state_change(Some(LikedState::Liked), LikedState::Disliked),
        LikedStateChange { stored: Some(LikedState::Disliked), updated: true, delete_file: true }
    );
    assert_eq!(
        liked_state_change(Some(LikedState::Neutral), LikedState::Loved),
        LikedStateChange { stored: Some(LikedState::Loved), updated: true, delete_file: false }
    );
    assert_eq!(
        liked_state_change(None, LikedState::Loved),
        LikedStateChange { stored: None, updated: false, delete_file: false }
    );
}

#[test]
fn server_function_rules() {
    assert_eq!(like_update(Some(LikedState::Liked), LikedState::Liked), Ok(LikedState::Neutral));
    assert_eq!(like_update(Some(LikedState::Neutral), LikedState::Loved), Ok(LikedState::Loved));
    assert!(like_update(None, LikedState::Loved).is_err());
    assert_eq!(non_blank(Some("  ".to_string())), None);
    assert_eq!(non_blank(Some(" a ".to_string())), Some(" a ".to_string()));
    assert_eq!(non_blank(None), None);
}

#[test]
fn bit_comparisons_follow_float_order() {
    let values = [-1.5f32, -0.0, 0.0, 0.25, 0.5, 0.65, 1.0, 3.0e38, f32::NAN, f32::INFINITY];
    for a in values {
        for b in values {
            assert_eq!(bits_le(a.to_bits(), b.to_bits()), a <= b, "{a} <= {b}");
        }
    }
    assert!(bits_in_range(0.6f32.to_bits(), (0.5f32.to_bits(), 0.65f32.to_bits())));
    assert!(!bits_in_range(0.7f32.to_bits(), (0.5f32.to_bits(), 0.65f32.to_bits())));
}
