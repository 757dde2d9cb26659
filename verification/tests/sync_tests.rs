use yt_sync::config::create_default_config;
use yt_sync::listing::{interpret_listing, parse_listing, ListError, RemoteItem};
use yt_sync::reconcile::{
    compute_fetch_list, expected_filename, make_report, normalize_snapshot, plan_sync,
};
use yt_sync::sanitize::sanitize_filename;

fn item(id: &str, title: &str) -> RemoteItem {
    RemoteItem { id: id.to_string(), title: title.to_string() }
}

#[test]
fn sanitize_replaces_each_reserved_character() {
    assert_eq!(sanitize_filename("<>:\"/\\|?*"), "_________");
    assert_eq!(sanitize_filename("a\u{FF1F}b"), "a_b");
}

#[test]
fn sanitize_keeps_all_other_characters() {
    assert_eq!(sanitize_filename("S\u{F6}ng Name 123.opus []"), "S\u{F6}ng Name 123.opus []");
    assert_eq!(sanitize_filename(""), "");
}

#[test]
fn sanitize_is_idempotent() {
    let once = sanitize_filename("a<b>c:d\"e/f\\g|h?i*j\u{FF1F}k");
    let twice = sanitize_filename(&once);
    assert_eq!(once, twice);
    assert_eq!(once, "a_b_c_d_e_f_g_h_i_j_k");
}

#[test]
fn expected_filename_composes_and_sanitizes_title() {
    assert_eq!(expected_filename("a2", "Song/Two"), "Song_Two [a2].opus");
    assert_eq!(expected_filename("a1", "Song One"), "Song One [a1].opus");
}

#[test]
fn empty_directory_fetches_everything() {
    let items = vec![item("a1", "Song One"), item("a2", "Song/Two")];
    let local: Vec<String> = Vec::new();
    let fetch = compute_fetch_list(&items, &local);
    assert_eq!(fetch, vec!["a1".to_string(), "a2".to_string()]);
    let results = vec![true, true];
    assert_eq!(make_report(&results).fetched_count, 2);
}

#[test]
fn present_item_is_skipped() {
    let items = vec![item("a1", "Song One"), item("a2", "Song/Two")];
    let local = vec!["Song One [a1].opus".to_string()];
    let fetch = compute_fetch_list(&items, &local);
    assert_eq!(fetch, vec!["a2".to_string()]);
    let results = vec![true];
    assert_eq!(make_report(&results).fetched_count, 1);
}

#[test]
fn second_pass_fetches_nothing() {
    let items = vec![item("a1", "Song One"), item("a2", "Song/Two")];
    let mut local: Vec<String> = Vec::new();
    for id in compute_fetch_list(&items, &local) {
        let it = items.iter().find(|i| i.id == id).unwrap();
        local.push(expected_filename(&it.id, &it.title));
    }
    assert_eq!(local, vec!["Song One [a1].opus".to_string(), "Song_Two [a2].opus".to_string()]);
    let second = compute_fetch_list(&items, &local);
    assert_eq!(second, Vec::<String>::new());
}

#[test]
fn normalize_snapshot_sanitizes_every_entry() {
    let local = vec!["Song One [a1].opus".to_string(), "odd?name".to_string()];
    let normalized = normalize_snapshot(&local);
    assert_eq!(normalized, vec!["Song One [a1].opus".to_string(), "odd_name".to_string()]);
}

#[test]
fn listing_records_are_parsed_in_order() {
    let lines = vec![
        "{\"id\":\"a1\",\"title\":\"Song One\",\"duration\":31}".to_string(),
        "{\"id\":\"a2\",\"title\":\"Song/Two\"}".to_string(),
    ];
    let items = parse_listing(&lines).unwrap();
    assert_eq!(items.len(), 2);
    assert_eq!(items[0].id, "a1");
    assert_eq!(items[0].title, "Song One");
    assert_eq!(items[1].id, "a2");
    assert_eq!(items[1].title, "Song/Two");
}

#[test]
fn malformed_record_aborts_the_listing() {
    let lines = vec![
        "{\"id\":\"a1\",\"title\":\"Song One\"}".to_string(),
        "not json at all".to_string(),
    ];
    assert_eq!(parse_listing(&lines), Err(ListError::ParseFailure));
}

#[test]
fn record_without_title_aborts_the_listing() {
    let lines = vec!["{\"id\":\"a1\"}".to_string()];
    assert_eq!(parse_listing(&lines), Err(ListError::ParseFailure));
    let lines = vec!["{\"title\":\"Song One\"}".to_string()];
    assert_eq!(parse_listing(&lines), Err(ListError::ParseFailure));
}

#[test]
fn record_with_non_string_fields_aborts_the_listing() {
    let lines = vec!["{\"id\":7,\"title\":\"Song One\"}".to_string()];
    assert_eq!(parse_listing(&lines), Err(ListError::ParseFailure));
}

#[test]
fn failed_listing_call_aborts_before_any_fetch() {
    let lines = vec!["{\"id\":\"a1\",\"title\":\"Song One\"}".to_string()];
    assert_eq!(interpret_listing(false, &lines), Err(ListError::ServiceFailure));
    let local: Vec<String> = Vec::new();
    assert_eq!(plan_sync(false, &lines, &local), Err(ListError::ServiceFailure));
}

#[test]
fn plan_sync_runs_the_whole_decision() {
    let lines = vec![
        "{\"id\":\"a1\",\"title\":\"Song One\"}".to_string(),
        "{\"id\":\"a2\",\"title\":\"Song/Two\"}".to_string(),
    ];
    let local: Vec<String> = Vec::new();
    assert_eq!(plan_sync(true, &lines, &local), Ok(vec!["a1".to_string(), "a2".to_string()]));
    let local = vec!["Song_Two [a2].opus".to_string()];
    assert_eq!(plan_sync(true, &lines, &local), Ok(vec!["a1".to_string()]));
    let bad = vec!["nope".to_string()];
    assert_eq!(plan_sync(true, &bad, &local), Err(ListError::ParseFailure));
}

#[test]
fn make_report_counts_only_successes() {
    let results = vec![true, false, true, false];
    assert_eq!(make_report(&results).fetched_count, 2);
    let none: Vec<bool> = Vec::new();
    assert_eq!(make_report(&none).fetched_count, 0);
}

#[test]
fn default_config_holds_two_placeholders() {
    let c = create_default_config();
    assert_eq!(c.items.len(), 2);
    assert_eq!(c.items[0].id, "aaaaaaaaaaaaaaaaaaaaaaaaaaaaaaaaaa");
    assert_eq!(c.items[0].location, "/home/user/Downloads/file_output");
    assert_eq!(c.items[1].id, "bbbbbbbbbbbbbbbbbbbbbbbbbbbbbbbbbb");
    assert_eq!(c.items[1].location, "/home/user/Downloads/file_output2");
}
