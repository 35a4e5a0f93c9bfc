use watchlist::connection::{
    begin_authenticate, build_database_url, AuthStep, Probe, ProbeNext, ProbeResult,
};
use watchlist::gateway::{
    after_duplicate_check, classify_failure, delete_response, insert_response, item_from_row,
    list_response, DeleteStep, InsertStep, ListStep, NewEntry, StoreFailure, StoredRow,
    LIST_QUERY,
};
use watchlist::model::{DatabaseCredentials, DatabaseResponse, MediaType, WatchListItem};
use watchlist::session::{ConnectOutcome, Session};

const AUTH_FAILED: &str = "Authentication failed. Please check your credentials and permissions.";
const AUTH_REQUIRED: &str = "Authentication required. Please login first.";

fn logged_in() -> Session<u32> {
    let mut s: Session<u32> = Session::new();
    let (reply, closed) = s.finish_authentication(ConnectOutcome::Verified(1));
    assert!(reply.success);
    assert_eq!(closed, None);
    s
}

fn inception() -> WatchListItem {
    WatchListItem {
        id: None,
        media_type: MediaType::Movie,
        name: "Inception".to_string(),
        rating: 9,
        would_watch_again: true,
    }
}

fn assert_refused(d: &DatabaseResponse, message: &str) {
    assert!(!d.success);
    assert_eq!(d.message, message);
    assert_eq!(d.rows_affected, 0);
    assert!(d.data.is_none());
}

fn creds(u: &str, p: &str) -> DatabaseCredentials {
    DatabaseCredentials { username: u.to_string(), password: p.to_string() }
}

#[test]
fn database_url_embeds_the_credentials() {
    assert_eq!(
        build_database_url("ann", "pw"),
        "postgresql://ann:pw@vultr-prod-44a7761f-10fc-493b-8699-2d7253da7113-vultr-prod-fa3d.vultrdb.com:16751/defaultdb?sslmode=require"
    );
}

#[test]
fn blank_credentials_are_refused_locally() {
    match begin_authenticate(&creds("  ", "pw")) {
        AuthStep::Reply(a) => {
            assert!(!a.success);
            assert_eq!(a.message, "Username cannot be empty");
        }
        AuthStep::Connect(_) => panic!("blank user name reached the network"),
    }
    match begin_authenticate(&creds("ann", "\t")) {
        AuthStep::Reply(a) => {
            assert!(!a.success);
            assert_eq!(a.message, "Password cannot be empty");
        }
        AuthStep::Connect(_) => panic!("blank password reached the network"),
    }
}

#[test]
fn valid_credentials_lead_to_a_connection() {
    match begin_authenticate(&creds("ann", "pw")) {
        AuthStep::Connect(url) => assert_eq!(url, build_database_url("ann", "pw")),
        AuthStep::Reply(_) => panic!("expected a connection attempt"),
    }
}

#[test]
fn probes_run_in_order_until_verified() {
    let p = Probe::first();
    assert_eq!(p, Probe::Liveness);
    assert_eq!(p.query(), "SELECT 1");
    assert_eq!(p.next(ProbeResult::Answered(true)), ProbeNext::Run(Probe::TableExists));
    assert_eq!(
        Probe::TableExists.next(ProbeResult::Answered(true)),
        ProbeNext::Run(Probe::TableReadable)
    );
    assert_eq!(Probe::TableReadable.next(ProbeResult::Answered(true)), ProbeNext::Verified);
}

#[test]
fn a_failed_probe_rejects_the_pool() {
    assert_eq!(Probe::Liveness.next(ProbeResult::Failed), ProbeNext::Rejected);
    assert_eq!(Probe::TableExists.next(ProbeResult::Answered(false)), ProbeNext::Rejected);
    assert_eq!(Probe::TableReadable.next(ProbeResult::Failed), ProbeNext::Rejected);
}

#[test]
fn failed_authentication_leaves_the_session_as_it_was() {
    let mut s: Session<u32> = Session::new();
    let (reply, closed) = s.finish_authentication(ConnectOutcome::ConnectFailed);
    assert!(!reply.success);
    assert_eq!(reply.message, AUTH_FAILED);
    assert_eq!(closed, None);
    assert!(!s.is_authenticated());

    let (reply, closed) = s.finish_authentication(ConnectOutcome::Rejected(7));
    assert!(!reply.success);
    assert_eq!(reply.message, AUTH_FAILED);
    assert!(!reply.message.contains("watch_list"));
    assert_eq!(closed, Some(7));
    assert!(!s.is_authenticated());

    let mut s = logged_in();
    let (_, closed) = s.finish_authentication(ConnectOutcome::Rejected(9));
    assert_eq!(closed, Some(9));
    assert_eq!(s.pool().ok(), Some(&1));
}

#[test]
fn reauthentication_hands_back_the_old_pool() {
    let mut s = logged_in();
    let (reply, closed) = s.finish_authentication(ConnectOutcome::Verified(2));
    assert!(reply.success);
    assert_eq!(reply.message, "Authentication successful");
    assert_eq!(closed, Some(1));
    assert_eq!(s.pool().ok(), Some(&2));
}

#[test]
fn logout_releases_the_pool_and_is_idempotent() {
    let mut s = logged_in();
    let (reply, closed) = s.logout();
    assert!(reply.success);
    assert_eq!(reply.message, "Logged out successfully");
    assert_eq!(closed, Some(1));
    assert!(!s.is_authenticated());
    let (reply, closed) = s.logout();
    assert!(reply.success);
    assert_eq!(closed, None);
}

#[test]
fn data_operations_need_a_login() {
    let s: Session<u32> = Session::new();
    match s.pool() {
        Err(e) => assert_eq!(e.message(), AUTH_REQUIRED),
        Ok(_) => panic!("a fresh session holds no pool"),
    }
    match s.begin_list() {
        ListStep::Reply(d) => assert_refused(&d, AUTH_REQUIRED),
        ListStep::Fetch(_) => panic!("listing reached the network"),
    }
    match s.begin_insert(&inception()) {
        InsertStep::Reply(d) => assert_refused(&d, AUTH_REQUIRED),
        _ => panic!("insert reached the network"),
    }
    match s.begin_delete(&vec![1, 2]) {
        DeleteStep::Reply(d) => assert_refused(&d, AUTH_REQUIRED),
        DeleteStep::Execute(_) => panic!("delete reached the network"),
    }
}

#[test]
fn listing_after_login_fetches() {
    match logged_in().begin_list() {
        ListStep::Fetch(q) => assert_eq!(q, LIST_QUERY),
        ListStep::Reply(_) => panic!("expected a fetch"),
    }
}

#[test]
fn rows_read_leniently_and_sanitized() {
    let rows = vec![
        StoredRow {
            id: 1,
            media_type: "tv".to_string(),
            name: " Lost <1> ".to_string(),
            rating: 7,
            would_watch_again: false,
        },
        StoredRow {
            id: 2,
            media_type: "series".to_string(),
            name: "Heat".to_string(),
            rating: 8,
            would_watch_again: true,
        },
    ];
    let item = item_from_row(&rows[0]);
    assert_eq!(item.id, Some(1));
    assert_eq!(item.media_type, MediaType::Tv);
    assert_eq!(item.name, "Lost &lt;1&gt;");
    let d = list_response(Ok(rows));
    assert!(d.success);
    assert_eq!(d.message, "Retrieved 2 items successfully");
    assert_eq!(d.rows_affected, 2);
    let items = d.data.unwrap();
    assert_eq!(items.len(), 2);
    assert_eq!(items[1].media_type, MediaType::Movie);
    assert!(items[1].would_watch_again);
}

#[test]
fn empty_and_failed_listings() {
    let d = list_response(Ok(vec![]));
    assert!(d.success);
    assert_eq!(d.message, "Retrieved 0 items successfully");
    assert_eq!(d.data.unwrap().len(), 0);
    assert_refused(
        &list_response(Err(StoreFailure::Connection)),
        "Failed to retrieve watch list items from database",
    );
}

fn entry_of(step: InsertStep) -> NewEntry {
    match step {
        InsertStep::CheckDuplicate(e) => e,
        _ => panic!("expected a duplicate check"),
    }
}

#[test]
fn second_identical_insert_is_a_duplicate() {
    let s = logged_in();
    let first = entry_of(s.begin_insert(&inception()));
    assert_eq!(first.name, "Inception");
    assert_eq!(first.media_type, MediaType::Movie);
    assert_eq!(first.rating, 9);
    assert!(first.would_watch_again);
    match after_duplicate_check(first, Ok(false)) {
        InsertStep::Store(e) => assert_eq!(e.name, "Inception"),
        _ => panic!("first insert should be stored"),
    }
    let d = insert_response(Ok(1));
    assert!(d.success);
    assert_eq!(d.rows_affected, 1);
    assert_eq!(d.message, "Item added to watch list successfully");

    let second = entry_of(s.begin_insert(&inception()));
    match after_duplicate_check(second, Ok(true)) {
        InsertStep::Reply(d) => assert_refused(
            &d,
            "A movie with the name 'Inception' already exists in your watch list",
        ),
        _ => panic!("second insert should be refused"),
    }
}

#[test]
fn duplicate_show_is_named_as_a_show() {
    let s = logged_in();
    let mut item = inception();
    item.media_type = MediaType::Tv;
    item.name = "  Lost  ".to_string();
    let e = entry_of(s.begin_insert(&item));
    assert_eq!(e.name, "Lost");
    match after_duplicate_check(e, Ok(true)) {
        InsertStep::Reply(d) => assert_refused(
            &d,
            "A TV show with the name 'Lost' already exists in your watch list",
        ),
        _ => panic!("expected a refusal"),
    }
}

#[test]
fn failed_duplicate_lookup_refuses_the_insert() {
    let e = entry_of(logged_in().begin_insert(&inception()));
    match after_duplicate_check(e, Err(StoreFailure::Other)) {
        InsertStep::Reply(d) => {
            assert_refused(&d, "Failed to verify uniqueness. Please try again.")
        }
        _ => panic!("expected a refusal"),
    }
}

#[test]
fn insert_validates_the_sanitized_name_and_rating() {
    let s = logged_in();
    let mut item = inception();
    item.name = "😀".to_string();
    match s.begin_insert(&item) {
        InsertStep::Reply(d) => assert_refused(&d, "Name cannot be empty"),
        _ => panic!("expected a refusal"),
    }
    item.name = "Rock's".to_string();
    match s.begin_insert(&item) {
        InsertStep::Reply(d) => assert_refused(
            &d,
            "Name contains invalid characters. Only letters, numbers, spaces, and basic punctuation are allowed",
        ),
        _ => panic!("expected a refusal"),
    }
    item.name = "Tom & Jerry".to_string();
    item.rating = 12;
    match s.begin_insert(&item) {
        InsertStep::Reply(d) => {
            assert_refused(&d, "Rating value 12 is invalid. Must be between 1 and 10")
        }
        _ => panic!("expected a refusal"),
    }
    item.rating = 5;
    assert_eq!(entry_of(s.begin_insert(&item)).name, "Tom &amp; Jerry");
}

#[test]
fn insert_failures_are_reported_by_kind() {
    assert_refused(
        &insert_response(Err(StoreFailure::PermissionDenied)),
        "Database permission error: Insufficient privileges to insert data.",
    );
    assert_refused(
        &insert_response(Err(StoreFailure::Connection)),
        "Database connection error: Unable to connect to database.",
    );
    assert_refused(&insert_response(Err(StoreFailure::Other)), "Failed to add item to watch list.");
}

#[test]
fn failures_are_classified_by_their_text() {
    assert_eq!(
        classify_failure("error returned from database: permission denied for table watch_list"),
        StoreFailure::PermissionDenied
    );
    assert_eq!(classify_failure("pool timed out while waiting for an open connection"), StoreFailure::Connection);
    assert_eq!(classify_failure("permission denied: connection refused"), StoreFailure::PermissionDenied);
    assert_eq!(classify_failure("duplicate key"), StoreFailure::Other);
    assert_eq!(classify_failure(""), StoreFailure::Other);
}

#[test]
fn repeated_ids_are_deleted_once() {
    match logged_in().begin_delete(&vec![5, 5, 3, 3, 3]) {
        DeleteStep::Execute(st) => {
            assert_eq!(st.ids, vec![3, 5]);
            assert_eq!(st.sql, "DELETE FROM watch_list WHERE id IN ($1, $2)");
        }
        DeleteStep::Reply(_) => panic!("duplicate ids must not fail"),
    }
    let d = delete_response(Ok(2));
    assert!(d.success);
    assert_eq!(d.rows_affected, 2);
    assert_eq!(d.message, "Successfully deleted 2 item(s)");
}

#[test]
fn delete_statement_binds_one_placeholder_per_id() {
    let ids: Vec<i32> = (1..=12).rev().collect();
    match logged_in().begin_delete(&ids) {
        DeleteStep::Execute(st) => {
            assert_eq!(st.ids, (1..=12).collect::<Vec<i32>>());
            assert_eq!(
                st.sql,
                "DELETE FROM watch_list WHERE id IN ($1, $2, $3, $4, $5, $6, $7, $8, $9, $10, $11, $12)"
            );
        }
        DeleteStep::Reply(_) => panic!("expected a statement"),
    }
}

#[test]
fn invalid_delete_requests_are_refused() {
    let s = logged_in();
    match s.begin_delete(&vec![]) {
        DeleteStep::Reply(d) => assert_refused(&d, "ID list cannot be empty"),
        DeleteStep::Execute(_) => panic!("expected a refusal"),
    }
    match s.begin_delete(&vec![4, -1]) {
        DeleteStep::Reply(d) => {
            assert_refused(&d, "ID value -1 is invalid. Must be between 1 and 2147483647")
        }
        DeleteStep::Execute(_) => panic!("expected a refusal"),
    }
    let many: Vec<i32> = (1..=101).collect();
    match s.begin_delete(&many) {
        DeleteStep::Reply(d) => assert_refused(&d, "ID list cannot exceed 100 items"),
        DeleteStep::Execute(_) => panic!("expected a refusal"),
    }
    assert_refused(&delete_response(Err(StoreFailure::Other)), "Failed to delete items from watch list");
}

#[test]
fn media_types_have_tags_and_labels() {
    assert_eq!(MediaType::Movie.tag(), "movie");
    assert_eq!(MediaType::Tv.tag(), "tv");
    assert_eq!(MediaType::Tv.label(), "TV show");
    assert_eq!(MediaType::from_tag("tv"), MediaType::Tv);
    assert_eq!(MediaType::from_tag("movie"), MediaType::Movie);
    assert_eq!(MediaType::from_tag("TV"), MediaType::Movie);
}
