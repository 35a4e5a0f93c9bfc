use watchlist::model::{MediaType, WatchListItem};
use watchlist::sanitize::sanitize_string;
use watchlist::text::{decimal_string, signed_decimal_string};
use watchlist::validate::{
    validate_ids_for_deletion, validate_name, validate_rating, validate_watch_list_item,
    ValidationError,
};

fn message_of(r: Result<(), ValidationError>) -> String {
    match r {
        Ok(()) => panic!("expected a validation error"),
        Err(e) => e.message(),
    }
}

#[test]
fn sanitize_escapes_markup() {
    assert_eq!(
        sanitize_string("  <b>Tom & Jerry</b> "),
        "&lt;b&gt;Tom &amp; Jerry&lt;&#x2F;b&gt;"
    );
    assert_eq!(sanitize_string("Say \"hi\" it's"), "Say &quot;hi&quot; it&#x27;s");
}

#[test]
fn sanitize_keeps_letters_of_any_script_and_drops_symbols() {
    assert_eq!(sanitize_string("Amélie 😀"), "Amélie ");
    assert_eq!(sanitize_string("千と千尋"), "千と千尋");
    assert_eq!(sanitize_string("😀😀"), "");
}

#[test]
fn sanitize_truncates_to_two_hundred_characters() {
    let long = "a".repeat(250);
    assert_eq!(sanitize_string(&long), "a".repeat(200));
    let escaped = "<".repeat(60);
    assert_eq!(sanitize_string(&escaped).chars().count(), 200);
}

#[test]
fn sanitize_trims_unicode_white_space() {
    assert_eq!(sanitize_string("\u{3000}\t Dune \u{a0}\n"), "Dune");
    assert_eq!(sanitize_string("   "), "");
}

#[test]
fn sanitize_twice_is_sanitize_once_on_plain_text() {
    for x in ["  Inception  ", "The Matrix", "", "a b c", "Up!"] {
        let once = sanitize_string(x);
        assert_eq!(sanitize_string(&once), once);
    }
}

#[test]
fn sanitize_twice_escapes_again_on_markup() {
    let once = sanitize_string("&");
    assert_eq!(once, "&amp;");
    assert_eq!(sanitize_string(&once), "&amp;amp;");
}

#[test]
fn names_of_allowed_characters_pass() {
    assert!(validate_name("The Matrix: Reloaded (2003)!").is_ok());
    assert!(validate_name("  Tom & Jerry; \"Quoted\" - Part_2, why? ok.  ").is_ok());
    assert!(validate_name("x").is_ok());
    assert!(validate_name(&"n".repeat(200)).is_ok());
    assert!(validate_name(&format!("  {}  ", "n".repeat(200))).is_ok());
}

#[test]
fn empty_name_is_refused() {
    assert_eq!(message_of(validate_name("")), "Name cannot be empty");
    assert_eq!(message_of(validate_name(" \t\n")), "Name cannot be empty");
}

#[test]
fn long_name_is_refused() {
    assert_eq!(
        message_of(validate_name(&"n".repeat(201))),
        "Name cannot exceed 200 characters"
    );
    assert!(matches!(validate_name(&"n".repeat(201)), Err(ValidationError::TooLong(_, 200))));
}

#[test]
fn name_with_disallowed_characters_is_refused() {
    for bad in ["a<b", "a/b", "50%", "#1", "Amélie", "a>b"] {
        assert_eq!(
            message_of(validate_name(bad)),
            "Name contains invalid characters. Only letters, numbers, spaces, and basic punctuation are allowed"
        );
    }
}

#[test]
fn ratings_inside_the_range_pass() {
    for r in 1..=10 {
        assert!(validate_rating(r).is_ok());
    }
}

#[test]
fn ratings_outside_the_range_are_refused() {
    for r in [0, 11, -5, i32::MIN, i32::MAX] {
        assert!(validate_rating(r).is_err());
    }
    assert_eq!(
        message_of(validate_rating(-5)),
        "Rating value -5 is invalid. Must be between 1 and 10"
    );
    assert_eq!(
        message_of(validate_rating(11)),
        "Rating value 11 is invalid. Must be between 1 and 10"
    );
}

#[test]
fn id_lists_within_bounds_pass() {
    assert!(validate_ids_for_deletion(&[1]).is_ok());
    assert!(validate_ids_for_deletion(&[5, 5, 3]).is_ok());
    let hundred: Vec<i32> = (1..=100).collect();
    assert!(validate_ids_for_deletion(&hundred).is_ok());
}

#[test]
fn empty_id_list_is_refused() {
    assert_eq!(message_of(validate_ids_for_deletion(&[])), "ID list cannot be empty");
}

#[test]
fn too_many_ids_are_refused() {
    let many: Vec<i32> = (1..=101).collect();
    assert_eq!(message_of(validate_ids_for_deletion(&many)), "ID list cannot exceed 100 items");
}

#[test]
fn non_positive_id_is_refused() {
    assert_eq!(
        message_of(validate_ids_for_deletion(&[1, 0, -3])),
        "ID value 0 is invalid. Must be between 1 and 2147483647"
    );
    assert_eq!(
        message_of(validate_ids_for_deletion(&[-3, 0])),
        "ID value -3 is invalid. Must be between 1 and 2147483647"
    );
}

#[test]
fn item_validation_checks_name_then_rating() {
    let mut item = WatchListItem {
        id: None,
        media_type: MediaType::Movie,
        name: String::new(),
        rating: 0,
        would_watch_again: false,
    };
    assert_eq!(message_of(validate_watch_list_item(&item)), "Name cannot be empty");
    item.name = "Heat".to_string();
    assert_eq!(
        message_of(validate_watch_list_item(&item)),
        "Rating value 0 is invalid. Must be between 1 and 10"
    );
    item.rating = 8;
    assert!(validate_watch_list_item(&item).is_ok());
}

#[test]
fn error_messages_read_as_sentences() {
    assert_eq!(
        ValidationError::InvalidMediaType("anime".to_string()).message(),
        "Invalid media type: anime. Must be 'movie' or 'tv'"
    );
    assert_eq!(
        ValidationError::AuthenticationRequired.message(),
        "Authentication required. Please login first."
    );
    assert_eq!(
        ValidationError::DuplicateEntry("TV show".to_string(), "Lost".to_string()).message(),
        "A TV show with the name 'Lost' already exists in your watch list"
    );
}

#[test]
fn numbers_render_in_decimal() {
    assert_eq!(decimal_string(0), "0");
    assert_eq!(decimal_string(1000), "1000");
    assert_eq!(decimal_string(u64::MAX), "18446744073709551615");
    assert_eq!(signed_decimal_string(i32::MIN), "-2147483648");
    assert_eq!(signed_decimal_string(-7), "-7");
}
