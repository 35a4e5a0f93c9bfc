//! The data operations: what each one decides before and after its storage
//! round trip. The caller runs the queries and hands their outcomes back.

use vstd::prelude::*;
use crate::model::{media_from_tag, media_label, DatabaseResponse, MediaType, WatchListItem};
use crate::sanitize::{sanitize, sanitize_string};
use crate::session::Session;
use crate::text::{chars_of, decimal, decimal_string};
use crate::validate::{
    ids_fault, message_of, name_fault, outcome, rating_fault, validate_ids_for_deletion, validate_name,
    validate_rating, all_positive, Fault, ValidationError, MAX_BATCH_DELETE_SIZE,
};

verus! {

/// Reads the watch list, oldest first, at most a thousand rows.
pub const LIST_QUERY: &'static str = "SELECT id, media_type, name, rating, would_watch_again FROM watch_list ORDER BY id LIMIT 1000";

/// Whether an item with the trimmed, case-folded name (`$1`) and the media
/// type tag (`$2`) is stored.
pub const DUPLICATE_QUERY: &'static str = "SELECT EXISTS(SELECT 1 FROM watch_list WHERE LOWER(TRIM(name)) = LOWER(TRIM($1)) AND media_type = $2) as exists";

/// Stores an item: media type tag, name, rating, rewatch flag.
pub const INSERT_QUERY: &'static str = "INSERT INTO watch_list (media_type, name, rating, would_watch_again) VALUES ($1, $2, $3, $4)";

/// How a storage call failed, as far as callers are told.
#[derive(Clone, Copy, Debug, PartialEq, Eq, Structural)]
pub enum StoreFailure {
    PermissionDenied,
    Connection,
    Other,
}

/// A row as read from the store.
#[derive(Clone, Debug)]
pub struct StoredRow {
    pub id: i32,
    pub media_type: String,
    pub name: String,
    pub rating: i32,
    pub would_watch_again: bool,
}

/// Whether `r` is a refusal carrying `message`, with nothing affected and no data.
pub open spec fn refused(r: DatabaseResponse, message: Seq<char>) -> bool {
    !r.success && r.message@ == message && r.rows_affected == 0 && r.data is None
}

fn refusal(message: String) -> (r: DatabaseResponse)
    ensures
        refused(r, message@),
{
    DatabaseResponse { success: false, message, rows_affected: 0, data: None }
}

fn refusal_for(e: ValidationError) -> (r: DatabaseResponse)
    ensures
        refused(r, message_of(e@)),
{
    refusal(e.message())
}

/// Whether `p` occurs in `s`.
pub open spec fn contains_text(s: Seq<char>, p: Seq<char>) -> bool {
    exists|i: int| 0 <= i && i + p.len() <= s.len() && #[trigger] s.subrange(i, i + p.len()) == p
}

fn occurs_at(s: &Vec<char>, p: &Vec<char>, i: usize) -> (r: bool)
    requires
        i + p@.len() <= s@.len(),
    ensures
        r == (s@.subrange(i as int, i + p@.len()) == p@),
{
    let n = s.len();
    let mut k: usize = 0;
    while k < p.len()
        invariant
            n == s@.len(),
            i + p@.len() <= s@.len(),
            k <= p@.len(),
            s@.subrange(i as int, i + k) == p@.take(k as int),
        decreases p@.len() - k,
    {
        assert(i + k < s@.len());
        if s[i + k] != p[k] {
            assert(s@.subrange(i as int, i + p@.len())[k as int] != p@[k as int]);
            return false;
        }
        k += 1;
        assert(s@.subrange(i as int, i + k) =~= p@.take(k as int));
    }
    assert(p@.take(k as int) =~= p@);
    true
}

fn contains_chars(s: &Vec<char>, p: &Vec<char>) -> (r: bool)
    ensures
        r == contains_text(s@, p@),
{
    if p.len() > s.len() {
        return false;
    }
    if p.len() == 0 {
        assert(s@.subrange(0, 0 + p@.len() as int) =~= p@);
        return true;
    }
    let n = s.len();
    let last = n - p.len();
    let mut i: usize = 0;
    while i <= last
        invariant
            n == s@.len(),
            last + p@.len() == s@.len(),
            p@.len() > 0,
            i <= last + 1,
            forall|j: int| 0 <= j < i ==> #[trigger] s@.subrange(j, j + p@.len()) != p@,
        decreases last + 1 - i,
    {
        if occurs_at(s, p, i) {
            return true;
        }
        i += 1;
    }
    false
}

/// What a storage error's text says about its cause: a denied permission is
/// named first, then a connection problem.
pub open spec fn failure_of(text: Seq<char>) -> StoreFailure {
    if contains_text(text, "permission denied"@) {
        StoreFailure::PermissionDenied
    } else if contains_text(text, "connection"@) {
        StoreFailure::Connection
    } else {
        StoreFailure::Other
    }
}

/// Classifies a storage error by its text.
pub fn classify_failure(text: &str) -> (r: StoreFailure)
    ensures
        r == failure_of(text@),
{
    let s = chars_of(text);
    if contains_chars(&s, &chars_of("permission denied")) {
        StoreFailure::PermissionDenied
    } else if contains_chars(&s, &chars_of("connection")) {
        StoreFailure::Connection
    } else {
        StoreFailure::Other
    }
}

/// Whether `item` is what `row` reads as: its id, its tag read leniently, its
/// name sanitized again, and its rating and rewatch flag unchanged.
pub open spec fn reads_as(row: StoredRow, item: WatchListItem) -> bool {
    &&& item.id == Some(row.id)
    &&& item.media_type == media_from_tag(row.media_type@)
    &&& item.name@ == sanitize(row.name@)
    &&& item.rating == row.rating
    &&& item.would_watch_again == row.would_watch_again
}

/// The item that a stored row reads as.
pub fn item_from_row(row: &StoredRow) -> (r: WatchListItem)
    ensures
        reads_as(*row, r),
{
    WatchListItem {
        id: Some(row.id),
        media_type: MediaType::from_tag(row.media_type.as_str()),
        name: sanitize_string(row.name.as_str()),
        rating: row.rating,
        would_watch_again: row.would_watch_again,
    }
}

/// What to do for a listing request.
pub enum ListStep {
    Reply(DatabaseResponse),
    /// Run this query and hand the rows to `list_response`.
    Fetch(&'static str),
}

/// What to do for an insert request.
pub enum InsertStep {
    Reply(DatabaseResponse),
    /// Ask the store, with `DUPLICATE_QUERY`, whether this entry is there
    /// already, and hand the answer to `after_duplicate_check`.
    CheckDuplicate(NewEntry),
    /// Store this entry with `INSERT_QUERY` and hand the result to `insert_response`.
    Store(NewEntry),
}

/// An item that passed validation, with its name sanitized.
#[derive(Debug)]
pub struct NewEntry {
    pub media_type: MediaType,
    pub name: String,
    pub rating: i32,
    pub would_watch_again: bool,
}

/// A delete with one bound parameter per id.
#[derive(Debug)]
pub struct DeleteStatement {
    pub sql: String,
    /// The values bound to `$1`, `$2`, ... in order.
    pub ids: Vec<i32>,
}

/// What to do for a delete request.
pub enum DeleteStep {
    Reply(DatabaseResponse),
    /// Run this statement and hand the result to `delete_response`.
    Execute(DeleteStatement),
}

/// The placeholders `$1, $2, ..., $n`.
pub open spec fn placeholders(n: nat) -> Seq<char>
    decreases n,
{
    if n == 0 {
        Seq::empty()
    } else if n == 1 {
        "$"@ + decimal(1)
    } else {
        placeholders((n - 1) as nat) + ", "@ + "$"@ + decimal(n)
    }
}

/// The delete statement for `n` bound ids.
pub open spec fn delete_sql(n: nat) -> Seq<char> {
    "DELETE FROM watch_list WHERE id IN ("@ + placeholders(n) + ")"@
}

/// Builds the delete statement for `n` bound ids; no value is written into it.
pub fn build_delete_sql(n: usize) -> (r: String)
    requires
        n < u64::MAX,
    ensures
        r@ == delete_sql(n as nat),
{
    let mut out = String::from_str("DELETE FROM watch_list WHERE id IN (");
    let ghost head = out@;
    let mut i: usize = 0;
    while i < n
        invariant
            i <= n < u64::MAX,
            out@ == head + placeholders(i as nat),
            head == "DELETE FROM watch_list WHERE id IN ("@,
        decreases n - i,
    {
        if i > 0 {
            out = out.concat(", ");
        }
        out = out.concat("$");
        out = out.concat(decimal_string((i + 1) as u64).as_str());
        i += 1;
        assert(out@ =~= head + placeholders(i as nat));
    }
    out.concat(")")
}

/// Whether `s` is strictly increasing.
pub open spec fn strictly_increasing(s: Seq<i32>) -> bool {
    forall|i: int, j: int| 0 <= i < j < s.len() ==> s[i] < s[j]
}

/// The distinct ids of `ids`, in increasing order.
pub fn unique_sorted(ids: &Vec<i32>) -> (r: Vec<i32>)
    ensures
        strictly_increasing(r@),
        forall|x: i32| r@.contains(x) <==> ids@.contains(x),
        r@.len() <= ids@.len(),
{
    let mut out: Vec<i32> = Vec::new();
    let mut i: usize = 0;
    while i < ids.len()
        invariant
            i <= ids@.len(),
            out@.len() <= i,
            strictly_increasing(out@),
            forall|x: i32| out@.contains(x) <==> ids@.take(i as int).contains(x),
        decreases ids@.len() - i,
    {
        let id = ids[i];
        let mut pos: usize = 0;
        while pos < out.len() && out[pos] < id
            invariant
                pos <= out@.len(),
                forall|k: int| 0 <= k < pos ==> out@[k] < id,
            decreases out@.len() - pos,
        {
            pos += 1;
        }
        proof {
            assert(ids@.take(i as int + 1) =~= ids@.take(i as int).push(id));
            assert forall|x: i32| ids@.take(i as int + 1).contains(x) <==> (ids@.take(
                i as int,
            ).contains(x) || x == id) by {
                let t = ids@.take(i as int + 1);
                if t.contains(x) {
                    let k = choose|k: int| 0 <= k < t.len() && t[k] == x;
                    if k < i {
                        assert(ids@.take(i as int)[k] == x);
                    }
                }
                if ids@.take(i as int).contains(x) {
                    let k = choose|k: int| 0 <= k < i && ids@.take(i as int)[k] == x;
                    assert(t[k] == x);
                }
                if x == id {
                    assert(t[i as int] == x);
                }
            }
        }
        let ghost before = out@;
        if pos < out.len() && out[pos] == id {
            assert(out@[pos as int] == id);
            assert(out@.contains(id));
            assert forall|x: i32| out@.contains(x) <==> (before.contains(x) || x == id) by {
                if x == id {
                    assert(out@.contains(id));
                }
            }
        } else {
            out.insert(pos, id);
            proof {
                assert forall|a: int, b: int| 0 <= a < b < out@.len() implies out@[a]
                    < out@[b] by {
                    if b < pos {
                    } else if a < pos && b == pos {
                    } else if a < pos {
                        assert(out@[b] == before[b - 1]);
                    } else if a == pos {
                        assert(out@[b] == before[b - 1]);
                        assert(before[pos as int] > id);
                        assert(before[pos as int] <= before[b - 1]);
                    } else {
                        assert(out@[a] == before[a - 1]);
                        assert(out@[b] == before[b - 1]);
                    }
                }
                assert forall|x: i32| out@.contains(x) <==> (before.contains(x) || x == id) by {
                    if out@.contains(x) {
                        let k = choose|k: int| 0 <= k < out@.len() && out@[k] == x;
                        if k < pos {
                            assert(before[k] == x);
                        } else if k > pos {
                            assert(before[k - 1] == x);
                        }
                    }
                    if before.contains(x) {
                        let k = choose|k: int| 0 <= k < before.len() && before[k] == x;
                        if k < pos {
                            assert(out@[k] == x);
                        } else {
                            assert(out@[k + 1] == x);
                        }
                    }
                    if x == id {
                        assert(out@[pos as int] == x);
                    }
                }
            }
        }
        assert forall|x: i32| out@.contains(x) <==> ids@.take(i as int + 1).contains(x) by {
            assert(out@.contains(x) <==> (before.contains(x) || x == id));
            assert(before.contains(x) <==> ids@.take(i as int).contains(x));
            assert(ids@.take(i as int + 1).contains(x) <==> (ids@.take(i as int).contains(x) || x
                == id));
        }
        i += 1;
    }
    assert(ids@.take(ids@.len() as int) =~= ids@);
    out
}

/// The refusal for an operation attempted without a login.
pub fn auth_required_response() -> (r: DatabaseResponse)
    ensures
        refused(r, message_of(Fault::AuthenticationRequired)),
{
    refusal_for(ValidationError::AuthenticationRequired)
}

/// Whether `r` answers a request made without a login.
pub open spec fn refuses_unauthenticated(r: DatabaseResponse) -> bool {
    refused(r, message_of(Fault::AuthenticationRequired))
}

impl<P> Session<P> {
    /// Starts a listing: refused at once without a login.
    pub fn begin_list(&self) -> (r: ListStep)
        ensures
            self is Unauthenticated ==> (r matches ListStep::Reply(d) && refuses_unauthenticated(
                d,
            )),
            self is Authenticated ==> r == ListStep::Fetch(LIST_QUERY),
    {
        if !self.is_authenticated() {
            return ListStep::Reply(auth_required_response());
        }
        ListStep::Fetch(LIST_QUERY)
    }

    /// Starts an insert: refused at once without a login; otherwise the name
    /// is sanitized, and the sanitized name and the rating are validated
    /// before the store is asked anything.
    pub fn begin_insert(&self, item: &WatchListItem) -> (r: InsertStep)
        ensures
            self is Unauthenticated ==> (r matches InsertStep::Reply(d)
                && refuses_unauthenticated(d)),
            self is Authenticated && name_fault(sanitize(item.name@)) is Some ==> (
            r matches InsertStep::Reply(d) && refused(
                d,
                message_of(name_fault(sanitize(item.name@))->0),
            )),
            self is Authenticated && name_fault(sanitize(item.name@)) is None && rating_fault(
                item.rating,
            ) is Some ==> (r matches InsertStep::Reply(d) && refused(
                d,
                message_of(rating_fault(item.rating)->0),
            )),
            self is Authenticated && name_fault(sanitize(item.name@)) is None && rating_fault(
                item.rating,
            ) is None ==> (r matches InsertStep::CheckDuplicate(e) && e.name@ == sanitize(
                item.name@,
            ) && e.media_type == item.media_type && e.rating == item.rating
                && e.would_watch_again == item.would_watch_again),
    {
        if !self.is_authenticated() {
            return InsertStep::Reply(auth_required_response());
        }
        let name = sanitize_string(item.name.as_str());
        let checked = validate_name(name.as_str());
        if let Err(e) = checked {
            return InsertStep::Reply(refusal_for(e));
        }
        let rated = validate_rating(item.rating);
        if let Err(e) = rated {
            return InsertStep::Reply(refusal_for(e));
        }
        InsertStep::CheckDuplicate(
            NewEntry {
                media_type: item.media_type,
                name,
                rating: item.rating,
                would_watch_again: item.would_watch_again,
            },
        )
    }

    /// Starts a delete: refused at once without a login or with an invalid
    /// id list; otherwise one statement binds each distinct id once, in
    /// increasing order, so that repeated ids neither fail nor count twice.
    pub fn begin_delete(&self, ids: &Vec<i32>) -> (r: DeleteStep)
        ensures
            self is Unauthenticated ==> (r matches DeleteStep::Reply(d)
                && refuses_unauthenticated(d)),
            self is Authenticated && ids_fault(ids@) is Some ==> (r matches DeleteStep::Reply(d)
                && refused(d, message_of(ids_fault(ids@)->0))),
            self is Authenticated && ids@.len() == 0 ==> (r matches DeleteStep::Reply(d)
                && refused(d, message_of(Fault::EmptyField("ID list"@)))),
            self is Authenticated && ids@.len() > MAX_BATCH_DELETE_SIZE ==> (
            r matches DeleteStep::Reply(d) && refused(
                d,
                message_of(Fault::TooManyItems("ID list"@, MAX_BATCH_DELETE_SIZE as nat)),
            )),
            self is Authenticated && 1 <= ids@.len() <= MAX_BATCH_DELETE_SIZE && all_positive(
                ids@,
            ) ==> (r matches DeleteStep::Execute(st) && strictly_increasing(st.ids@) && (forall|
                x: i32,
            | st.ids@.contains(x) <==> ids@.contains(x)) && st.ids@.len() <= ids@.len()
                && st.sql@ == delete_sql(st.ids@.len())),
    {
        if !self.is_authenticated() {
            return DeleteStep::Reply(auth_required_response());
        }
        let checked = validate_ids_for_deletion(ids.as_slice());
        if let Err(e) = checked {
            return DeleteStep::Reply(refusal_for(e));
        }
        let unique = unique_sorted(ids);
        let sql = build_delete_sql(unique.len());
        DeleteStep::Execute(DeleteStatement { sql, ids: unique })
    }
}

/// What a listing answers once the store has replied.
pub fn list_response(result: Result<Vec<StoredRow>, StoreFailure>) -> (r: DatabaseResponse)
    ensures
        match result {
            Ok(rows) => r.success && r.rows_affected == rows@.len() && r.message@
                == "Retrieved "@ + decimal(rows@.len()) + " items successfully"@ && (
            r.data matches Some(items) && items@.len() == rows@.len() && forall|i: int|
                0 <= i < rows@.len() ==> reads_as(#[trigger] rows@[i], items@[i])),
            Err(_) => refused(r, "Failed to retrieve watch list items from database"@),
        },
{
    match result {
        Ok(rows) => {
            let mut items: Vec<WatchListItem> = Vec::new();
            let mut i: usize = 0;
            while i < rows.len()
                invariant
                    i <= rows@.len(),
                    items@.len() == i,
                    forall|k: int| 0 <= k < i ==> reads_as(#[trigger] rows@[k], items@[k]),
                decreases rows@.len() - i,
            {
                items.push(item_from_row(&rows[i]));
                i += 1;
            }
            let n = items.len();
            let message = String::from_str("Retrieved ").concat(
                decimal_string(n as u64).as_str(),
            ).concat(" items successfully");
            DatabaseResponse { success: true, message, rows_affected: n as u64, data: Some(items) }
        },
        Err(_) => refusal(String::from_str("Failed to retrieve watch list items from database")),
    }
}

/// Decides an insert once the store has said whether the entry exists: an
/// existing entry is refused as a duplicate, a failed lookup is refused, and
/// otherwise the entry is stored.
pub fn after_duplicate_check(entry: NewEntry, exists: Result<bool, StoreFailure>) -> (r:
    InsertStep)
    ensures
        exists == Ok::<bool, StoreFailure>(true) ==> (r matches InsertStep::Reply(d) && refused(
            d,
            message_of(Fault::DuplicateEntry(media_label(entry.media_type), entry.name@)),
        )),
        exists is Err ==> (r matches InsertStep::Reply(d) && refused(
            d,
            "Failed to verify uniqueness. Please try again."@,
        )),
        exists == Ok::<bool, StoreFailure>(false) ==> r == InsertStep::Store(entry),
{
    match exists {
        Ok(true) => {
            let label = String::from_str(entry.media_type.label());
            InsertStep::Reply(refusal_for(ValidationError::DuplicateEntry(label, entry.name)))
        },
        Ok(false) => InsertStep::Store(entry),
        Err(_) => InsertStep::Reply(
            refusal(String::from_str("Failed to verify uniqueness. Please try again.")),
        ),
    }
}

/// What an insert answers once the store has replied: the rows it affected,
/// or a message by the kind of failure.
pub fn insert_response(result: Result<u64, StoreFailure>) -> (r: DatabaseResponse)
    ensures
        match result {
            Ok(n) => r.success && r.rows_affected == n && r.data is None && r.message@
                == "Item added to watch list successfully"@,
            Err(StoreFailure::PermissionDenied) => refused(
                r,
                "Database permission error: Insufficient privileges to insert data."@,
            ),
            Err(StoreFailure::Connection) => refused(
                r,
                "Database connection error: Unable to connect to database."@,
            ),
            Err(StoreFailure::Other) => refused(r, "Failed to add item to watch list."@),
        },
{
    match result {
        Ok(n) => DatabaseResponse {
            success: true,
            message: String::from_str("Item added to watch list successfully"),
            rows_affected: n,
            data: None,
        },
        Err(StoreFailure::PermissionDenied) => refusal(
            String::from_str("Database permission error: Insufficient privileges to insert data."),
        ),
        Err(StoreFailure::Connection) => refusal(
            String::from_str("Database connection error: Unable to connect to database."),
        ),
        Err(StoreFailure::Other) => refusal(String::from_str("Failed to add item to watch list.")),
    }
}

/// What a delete answers once the store has replied: however many rows matched.
pub fn delete_response(result: Result<u64, StoreFailure>) -> (r: DatabaseResponse)
    ensures
        match result {
            Ok(n) => r.success && r.rows_affected == n && r.data is None && r.message@
                == "Successfully deleted "@ + decimal(n as nat) + " item(s)"@,
            Err(_) => refused(r, "Failed to delete items from watch list"@),
        },
{
    match result {
        Ok(n) => DatabaseResponse {
            success: true,
            message: String::from_str("Successfully deleted ").concat(decimal_string(n).as_str()).concat(
                " item(s)",
            ),
            rows_affected: n,
            data: None,
        },
        Err(_) => refusal(String::from_str("Failed to delete items from watch list")),
    }
}

} // verus!
