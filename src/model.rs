//! The watch-list entity and the response shapes handed back to callers.

use vstd::prelude::*;

verus! {

/// Whether an item is a film or a television show.
#[derive(Clone, Copy, Debug, PartialEq, Eq, Structural)]
pub enum MediaType {
    Movie,
    Tv,
}

/// The lowercase tag under which a media type is stored.
pub open spec fn media_tag(m: MediaType) -> Seq<char> {
    match m {
        MediaType::Movie => "movie"@,
        MediaType::Tv => "tv"@,
    }
}

/// The media type that a stored tag stands for; an unknown tag reads as a film.
pub open spec fn media_from_tag(t: Seq<char>) -> MediaType {
    if t == "tv"@ {
        MediaType::Tv
    } else {
        MediaType::Movie
    }
}

impl MediaType {
    /// The lowercase tag under which this media type is stored.
    pub fn tag(&self) -> (r: &'static str)
        ensures
            r@ == media_tag(*self),
    {
        match self {
            MediaType::Movie => "movie",
            MediaType::Tv => "tv",
        }
    }

    /// Reads a stored tag: `"tv"` is a show, anything else a film.
    pub fn from_tag(t: &str) -> (r: MediaType)
        ensures
            r == media_from_tag(t@),
    {
        let tv = "tv";
        proof {
            reveal_strlit("tv");
        }
        let n = t.unicode_len();
        if n == 2 && t.get_char(0) == 't' && t.get_char(1) == 'v' {
            assert(t@ =~= tv@);
            MediaType::Tv
        } else {
            assert(t@ != tv@) by {
                if t@ == tv@ {
                    assert(t@[0] == 't' && t@[1] == 'v');
                }
            }
            MediaType::Movie
        }
    }

    /// How the media type is named in messages: "movie" or "TV show".
    pub fn label(&self) -> (r: &'static str)
        ensures
            r@ == media_label(*self),
    {
        match self {
            MediaType::Movie => "movie",
            MediaType::Tv => "TV show",
        }
    }
}

/// How a media type is named in messages.
pub open spec fn media_label(m: MediaType) -> Seq<char> {
    match m {
        MediaType::Movie => "movie"@,
        MediaType::Tv => "TV show"@,
    }
}

/// A film or show on the watch list.
#[derive(Clone, Debug)]
pub struct WatchListItem {
    /// Assigned by the store; absent before the item is stored.
    pub id: Option<i32>,
    pub media_type: MediaType,
    pub name: String,
    pub rating: i32,
    pub would_watch_again: bool,
}

/// A user name and password for the store.
#[derive(Clone, Debug)]
pub struct DatabaseCredentials {
    pub username: String,
    pub password: String,
}

/// The answer to a login or logout.
#[derive(Debug)]
pub struct AuthResponse {
    pub success: bool,
    pub message: String,
}

/// The uniform answer to a data operation.
#[derive(Debug)]
pub struct DatabaseResponse {
    pub success: bool,
    pub message: String,
    pub rows_affected: u64,
    pub data: Option<Vec<WatchListItem>>,
}

} // verus!
