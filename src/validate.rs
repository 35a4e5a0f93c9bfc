//! Field validation for watch-list items and delete requests.

use vstd::prelude::*;
use crate::model::WatchListItem;
use crate::sanitize::MAX_NAME_LENGTH;
use crate::text::{
    chars_of, decimal, decimal_string, is_white_space, signed_decimal, signed_decimal_string,
    string_from_chars, trim, trim_chars,
};

verus! {

/// Lowest rating an item may have.
pub const MIN_RATING: i32 = 1;

/// Highest rating an item may have.
pub const MAX_RATING: i32 = 10;

/// Most ids that one delete request may name.
pub const MAX_BATCH_DELETE_SIZE: usize = 100;

/// Anchored pattern that a whole name must match: letters, digits, white space
/// and basic punctuation.
pub const NAME_PATTERN: &'static str = "^[a-zA-Z0-9\\s\\.,!?\\-_()':;\"&]+$";

/// Why a request was refused before it reached the store.
#[derive(Debug)]
pub enum ValidationError {
    EmptyField(String),
    TooLong(String, usize),
    InvalidRange(String, i32, i32, i32),
    InvalidCharacters(String),
    TooManyItems(String, usize),
    InvalidMediaType(String),
    AuthenticationRequired,
    /// The media type as named in messages, then the name.
    DuplicateEntry(String, String),
}

/// A validation error with its texts as character sequences.
pub ghost enum Fault {
    EmptyField(Seq<char>),
    TooLong(Seq<char>, nat),
    InvalidRange(Seq<char>, int, int, int),
    InvalidCharacters(Seq<char>),
    TooManyItems(Seq<char>, nat),
    InvalidMediaType(Seq<char>),
    AuthenticationRequired,
    DuplicateEntry(Seq<char>, Seq<char>),
}

impl View for ValidationError {
    type V = Fault;

    open spec fn view(&self) -> Fault {
        match self {
            ValidationError::EmptyField(f) => Fault::EmptyField(f@),
            ValidationError::TooLong(f, m) => Fault::TooLong(f@, *m as nat),
            ValidationError::InvalidRange(f, v, lo, hi) => Fault::InvalidRange(
                f@,
                *v as int,
                *lo as int,
                *hi as int,
            ),
            ValidationError::InvalidCharacters(f) => Fault::InvalidCharacters(f@),
            ValidationError::TooManyItems(f, m) => Fault::TooManyItems(f@, *m as nat),
            ValidationError::InvalidMediaType(v) => Fault::InvalidMediaType(v@),
            ValidationError::AuthenticationRequired => Fault::AuthenticationRequired,
            ValidationError::DuplicateEntry(m, n) => Fault::DuplicateEntry(m@, n@),
        }
    }
}

/// The human-readable text of a validation error.
pub open spec fn message_of(f: Fault) -> Seq<char> {
    match f {
        Fault::EmptyField(field) => field + " cannot be empty"@,
        Fault::TooLong(field, max) => field + " cannot exceed "@ + decimal(max) + " characters"@,
        Fault::InvalidRange(field, v, lo, hi) => field + " value "@ + signed_decimal(v)
            + " is invalid. Must be between "@ + signed_decimal(lo) + " and "@ + signed_decimal(hi),
        Fault::InvalidCharacters(field) => field
            + " contains invalid characters. Only letters, numbers, spaces, and basic punctuation are allowed"@,
        Fault::TooManyItems(field, max) => field + " cannot exceed "@ + decimal(max) + " items"@,
        Fault::InvalidMediaType(v) => "Invalid media type: "@ + v + ". Must be 'movie' or 'tv'"@,
        Fault::AuthenticationRequired => "Authentication required. Please login first."@,
        Fault::DuplicateEntry(m, n) => "A "@ + m + " with the name '"@ + n
            + "' already exists in your watch list"@,
    }
}

impl ValidationError {
    /// The human-readable text of this error.
    pub fn message(&self) -> (r: String)
        ensures
            r@ == message_of(self@),
    {
        match self {
            ValidationError::EmptyField(field) => field.clone().concat(" cannot be empty"),
            ValidationError::TooLong(field, max) => field.clone().concat(" cannot exceed ").concat(
                decimal_string(*max as u64).as_str(),
            ).concat(" characters"),
            ValidationError::InvalidRange(field, v, lo, hi) => field.clone().concat(
                " value ",
            ).concat(signed_decimal_string(*v).as_str()).concat(
                " is invalid. Must be between ",
            ).concat(signed_decimal_string(*lo).as_str()).concat(" and ").concat(
                signed_decimal_string(*hi).as_str(),
            ),
            ValidationError::InvalidCharacters(field) => field.clone().concat(
                " contains invalid characters. Only letters, numbers, spaces, and basic punctuation are allowed",
            ),
            ValidationError::TooManyItems(field, max) => field.clone().concat(
                " cannot exceed ",
            ).concat(decimal_string(*max as u64).as_str()).concat(" items"),
            ValidationError::InvalidMediaType(v) => String::from_str("Invalid media type: ").concat(
                v.as_str(),
            ).concat(". Must be 'movie' or 'tv'"),
            ValidationError::AuthenticationRequired => String::from_str(
                "Authentication required. Please login first.",
            ),
            ValidationError::DuplicateEntry(m, n) => String::from_str("A ").concat(m.as_str()).concat(
                " with the name '",
            ).concat(n.as_str()).concat("' already exists in your watch list"),
        }
    }
}

/// What a validation returned, as an optional fault.
pub open spec fn outcome(r: Result<(), ValidationError>) -> Option<Fault> {
    match r {
        Ok(_) => None,
        Err(e) => Some(e@),
    }
}

/// A character that a name may hold: an ASCII letter or digit, white space,
/// or one of `. , ! ? - _ ( ) ' : ; " &`.
pub open spec fn is_name_char(c: char) -> bool {
    ('a' <= c && c <= 'z') || ('A' <= c && c <= 'Z') || ('0' <= c && c <= '9') || is_white_space(
        c,
    ) || c == '.' || c == ',' || c == '!' || c == '?' || c == '-' || c == '_' || c == '(' || c
        == ')' || c == '\'' || c == ':' || c == ';' || c == '"' || c == '&'
}

/// Whether every character of `s` may stand in a name.
pub open spec fn all_name_chars(s: Seq<char>) -> bool {
    forall|i: int| 0 <= i < s.len() ==> is_name_char(#[trigger] s[i])
}

/// Relies on `regex::Regex::new` and `regex::Regex::is_match`: `NAME_PATTERN`
/// compiles, and, anchored at both ends with `+` on one character class (where
/// `\s` is Unicode `White_Space`), it matches exactly the non-empty texts made
/// of that class's members.
#[verifier::external_body]
fn pattern_matches(pattern: &str, text: &str) -> (r: bool)
    requires
        pattern@ == NAME_PATTERN@,
    ensures
        r == (text@.len() > 0 && all_name_chars(text@)),
{
    match regex::Regex::new(pattern) {
        Ok(re) => re.is_match(text),
        Err(_) => false,
    }
}

/// Why a name is refused, if it is: checked after trimming, for presence,
/// then length, then characters.
pub open spec fn name_fault(name: Seq<char>) -> Option<Fault> {
    let t = trim(name);
    if t.len() == 0 {
        Some(Fault::EmptyField("Name"@))
    } else if t.len() > MAX_NAME_LENGTH {
        Some(Fault::TooLong("Name"@, MAX_NAME_LENGTH as nat))
    } else if !all_name_chars(t) {
        Some(Fault::InvalidCharacters("Name"@))
    } else {
        None
    }
}

/// Why a rating is refused, if it is.
pub open spec fn rating_fault(rating: i32) -> Option<Fault> {
    if MIN_RATING <= rating <= MAX_RATING {
        None
    } else {
        Some(Fault::InvalidRange("Rating"@, rating as int, MIN_RATING as int, MAX_RATING as int))
    }
}

/// Checks a name: present after trimming, at most `MAX_NAME_LENGTH` characters,
/// and made of allowed characters only.
pub fn validate_name(name: &str) -> (r: Result<(), ValidationError>)
    ensures
        outcome(r) == name_fault(name@),
        r is Ok <==> (1 <= trim(name@).len() <= MAX_NAME_LENGTH && all_name_chars(trim(name@))),
        trim(name@).len() == 0 ==> outcome(r) == Some(Fault::EmptyField("Name"@)),
        trim(name@).len() > MAX_NAME_LENGTH ==> outcome(r) == Some(
            Fault::TooLong("Name"@, MAX_NAME_LENGTH as nat),
        ),
        1 <= trim(name@).len() <= MAX_NAME_LENGTH && !all_name_chars(trim(name@)) ==> outcome(r)
            == Some(Fault::InvalidCharacters("Name"@)),
{
    let chars = chars_of(name);
    let trimmed = trim_chars(&chars);
    if trimmed.len() == 0 {
        return Err(ValidationError::EmptyField(String::from_str("Name")));
    }
    if trimmed.len() > MAX_NAME_LENGTH {
        return Err(ValidationError::TooLong(String::from_str("Name"), MAX_NAME_LENGTH));
    }
    let text = string_from_chars(&trimmed);
    if !pattern_matches(NAME_PATTERN, text.as_str()) {
        return Err(ValidationError::InvalidCharacters(String::from_str("Name")));
    }
    Ok(())
}

/// Checks that a rating lies between `MIN_RATING` and `MAX_RATING`.
pub fn validate_rating(rating: i32) -> (r: Result<(), ValidationError>)
    ensures
        outcome(r) == rating_fault(rating),
        r is Ok <==> MIN_RATING <= rating <= MAX_RATING,
        !(MIN_RATING <= rating <= MAX_RATING) ==> outcome(r) == Some(
            Fault::InvalidRange("Rating"@, rating as int, MIN_RATING as int, MAX_RATING as int),
        ),
{
    if rating < MIN_RATING || rating > MAX_RATING {
        return Err(
            ValidationError::InvalidRange(String::from_str("Rating"), rating, MIN_RATING, MAX_RATING),
        );
    }
    Ok(())
}

/// Whether every id in `ids` is positive.
pub open spec fn all_positive(ids: Seq<i32>) -> bool {
    forall|i: int| 0 <= i < ids.len() ==> #[trigger] ids[i] > 0
}

/// The position of the first non-positive id in `ids` (its length if none).
pub open spec fn first_non_positive(ids: Seq<i32>) -> int
    decreases ids.len(),
{
    if ids.len() == 0 || ids[0] <= 0 {
        0
    } else {
        1 + first_non_positive(ids.drop_first())
    }
}

/// Why a delete request is refused, if it is: an empty list, then too many
/// ids, then the first id that is not positive.
pub open spec fn ids_fault(ids: Seq<i32>) -> Option<Fault> {
    if ids.len() == 0 {
        Some(Fault::EmptyField("ID list"@))
    } else if ids.len() > MAX_BATCH_DELETE_SIZE {
        Some(Fault::TooManyItems("ID list"@, MAX_BATCH_DELETE_SIZE as nat))
    } else if !all_positive(ids) {
        Some(Fault::InvalidRange("ID"@, ids[first_non_positive(ids)] as int, 1, i32::MAX as int))
    } else {
        None
    }
}

proof fn lemma_first_non_positive(ids: Seq<i32>, i: int)
    requires
        0 <= i < ids.len(),
        ids[i] <= 0,
        all_positive(ids.take(i)),
    ensures
        first_non_positive(ids) == i,
    decreases i,
{
    if i > 0 {
        assert(ids.take(i)[0] > 0);
        let rest = ids.drop_first();
        assert(rest[i - 1] == ids[i]);
        assert forall|k: int| 0 <= k < i - 1 implies #[trigger] rest.take(i - 1)[k] > 0 by {
            assert(ids.take(i)[k + 1] > 0);
        }
        lemma_first_non_positive(rest, i - 1);
    }
}

/// Checks a delete request: between one and `MAX_BATCH_DELETE_SIZE` ids, all positive.
pub fn validate_ids_for_deletion(ids: &[i32]) -> (r: Result<(), ValidationError>)
    ensures
        outcome(r) == ids_fault(ids@),
        r is Ok <==> (1 <= ids@.len() <= MAX_BATCH_DELETE_SIZE && all_positive(ids@)),
        ids@.len() == 0 ==> outcome(r) == Some(Fault::EmptyField("ID list"@)),
        ids@.len() > MAX_BATCH_DELETE_SIZE ==> outcome(r) == Some(
            Fault::TooManyItems("ID list"@, MAX_BATCH_DELETE_SIZE as nat),
        ),
        1 <= ids@.len() <= MAX_BATCH_DELETE_SIZE && !all_positive(ids@) ==> exists|j: int|
            0 <= j < ids@.len() && ids@[j] <= 0 && all_positive(ids@.take(j)) && outcome(r)
                == Some(Fault::InvalidRange("ID"@, ids@[j] as int, 1, i32::MAX as int)),
{
    if ids.len() == 0 {
        return Err(ValidationError::EmptyField(String::from_str("ID list")));
    }
    if ids.len() > MAX_BATCH_DELETE_SIZE {
        return Err(ValidationError::TooManyItems(String::from_str("ID list"), MAX_BATCH_DELETE_SIZE));
    }
    let mut i: usize = 0;
    while i < ids.len()
        invariant
            i <= ids@.len(),
            1 <= ids@.len() <= MAX_BATCH_DELETE_SIZE,
            all_positive(ids@.take(i as int)),
        decreases ids@.len() - i,
    {
        let id = ids[i];
        if id <= 0 {
            assert(0 <= i < ids@.len() && ids@[i as int] <= 0);
            proof {
                lemma_first_non_positive(ids@, i as int);
            }
            return Err(ValidationError::InvalidRange(String::from_str("ID"), id, 1, i32::MAX));
        }
        i += 1;
        assert(all_positive(ids@.take(i as int))) by {
            assert forall|k: int| 0 <= k < i implies #[trigger] ids@.take(i as int)[k] > 0 by {
                if k < i - 1 {
                    assert(ids@.take(i as int)[k] == ids@.take(i - 1)[k]);
                }
            }
        }
    }
    assert(ids@.take(i as int) =~= ids@);
    Ok(())
}

/// Checks an item's name and rating, the name first.
pub fn validate_watch_list_item(item: &WatchListItem) -> (r: Result<(), ValidationError>)
    ensures
        outcome(r) == (if name_fault(item.name@) is Some {
            name_fault(item.name@)
        } else {
            rating_fault(item.rating)
        }),
        r is Ok <==> (1 <= trim(item.name@).len() <= MAX_NAME_LENGTH && all_name_chars(
            trim(item.name@),
        ) && MIN_RATING <= item.rating <= MAX_RATING),
{
    validate_name(item.name.as_str())?;
    validate_rating(item.rating)?;
    Ok(())
}

} // verus!
