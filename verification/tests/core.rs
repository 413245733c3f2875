use places_to_mentat::builder::TransactBuilder;
use places_to_mentat::escape::escape_string;
use places_to_mentat::escape::unescape_string;
use places_to_mentat::grouping::Grouper;
use places_to_mentat::grouping::PlaceRow;
use places_to_mentat::numeral::i64_to_dec_string;
use places_to_mentat::numeral::u64_to_dec_string;
use places_to_mentat::record::PlaceEntry;
use places_to_mentat::record::VisitInfo;
use places_to_mentat::remap::add_origins;
use places_to_mentat::remap::build_remap;
use places_to_mentat::remap::RemapTable;
use places_to_mentat::statement::render_statement;
use places_to_mentat::statement::Value;

fn row(place_id: i64, url: &str, guid: &str, date: i64, visit_type: i8) -> PlaceRow {
    PlaceRow {
        place_id,
        url: url.to_string(),
        description: None,
        preview_image_url: None,
        title: Some(format!("title-{}", place_id)),
        origin_id: 1,
        guid: guid.to_string(),
        visit_date: date,
        visit_type,
    }
}

fn entry(id: i64, url: &str, origin_id: i64, visits: Vec<VisitInfo>) -> PlaceEntry {
    PlaceEntry {
        id,
        url: url.to_string(),
        description: None,
        preview_image_url: None,
        title: "a title".to_string(),
        sync_guid: format!("guid-{}", id),
        origin_id,
        visits,
    }
}

fn statement_lines(batch: &str) -> Vec<String> {
    batch
        .lines()
        .filter(|l| l.starts_with(" [:db/add"))
        .map(|l| l.to_string())
        .collect()
}

#[test]
fn commit_is_noop_iff_no_statements() {
    let mut b = TransactBuilder::new_with_size(0);
    // empty batch: nothing committed, no statement text issued
    assert!(b.transact().is_none());
    assert!(b.maybe_transact().is_none());
    let id = b.next_tempid();
    // minting alone adds no statement
    assert!(b.transact().is_none());
    b.add_str(&id, ":page/url", "http://example.com/");
    let batch = b.transact();
    assert!(batch.is_some());
    // after a commit the batch is empty again
    assert!(b.transact().is_none());
}

#[test]
fn tempids_are_unique_across_batches() {
    let mut b = TransactBuilder::new_with_size(0);
    let mut seen = std::collections::HashSet::new();
    for expected in 1..=100u64 {
        let id = b.next_tempid();
        assert_eq!(id, expected.to_string());
        assert!(seen.insert(id));
        if expected % 10 == 0 {
            // commits and resets never reset the tempid counter
            b.add_str("1", ":page/url", "u");
            assert!(b.transact().is_some());
        }
    }
}

#[test]
fn grouping_folds_rows_by_key() {
    // 6 rows, 3 distinct contiguous ascending keys
    let rows = vec![
        row(1, "http://a/", "g1", 10, 1),
        row(1, "http://a/", "g1", 11, 2),
        row(2, "http://b/", "g2", 20, 1),
        row(3, "http://c/", "g3", 30, 1),
        row(3, "http://c/", "g3", 31, 1),
        row(3, "http://c/", "g3", 32, 2),
    ];
    let mut g = Grouper::new();
    let mut emitted = Vec::new();
    for r in &rows {
        if let Some(e) = g.step(r) {
            emitted.push(e);
        }
    }
    if let Some(e) = g.finish() {
        emitted.push(e);
    }
    assert_eq!(emitted.len(), 3);
    assert_eq!(emitted[0].id, 1);
    assert_eq!(emitted[1].id, 2);
    assert_eq!(emitted[2].id, 3);
    assert_eq!(emitted[0].visits.len(), 2);
    assert_eq!(emitted[1].visits.len(), 1);
    assert_eq!(emitted[2].visits.len(), 3);
    // visits stay in original row order
    assert_eq!(emitted[0].visits[0].date, 10);
    assert_eq!(emitted[0].visits[1].date, 11);
    assert_eq!(emitted[2].visits[0].date, 30);
    assert_eq!(emitted[2].visits[1].date, 31);
    assert_eq!(emitted[2].visits[2].date, 32);
    // parent fields come from the group's first row
    assert_eq!(emitted[0].url, "http://a/");
    assert_eq!(emitted[2].sync_guid, "g3");
}

#[test]
fn grouping_emits_last_group_without_sentinel() {
    // single-row input: exactly one record with one visit, only at finish
    let mut g = Grouper::new();
    assert!(g.step(&row(7, "http://x/", "g7", 42, 1)).is_none());
    let last = g.finish();
    let e = last.expect("last group must be emitted");
    assert_eq!(e.id, 7);
    assert_eq!(e.visits.len(), 1);
    assert_eq!(e.visits[0].date, 42);
}

#[test]
fn from_row_defaults_missing_title() {
    let mut r = row(5, "http://t/", "g5", 1, 1);
    r.title = None;
    let e = PlaceEntry::from_row(&r);
    assert_eq!(e.title, "");
    assert_eq!(e.url, "http://t/");
    assert_eq!(e.visits.len(), 1);
}

#[test]
fn escape_then_parse_gives_back_original() {
    let original = "pa\\th \"quoted\" end\\";
    let escaped = escape_string(original);
    assert_eq!(escaped, "pa\\\\th \\\"quoted\\\" end\\\\");
    // parse the full rendered statement per the batch-text grammar:
    // the value is the quoted region before the closing bracket
    let stmt = render_statement("1", ":page/url", &Value::Text(original.to_string()));
    let end = stmt.rfind('"').unwrap();
    let head = &stmt[..end];
    let start = head.find(":page/url \"").unwrap() + ":page/url \"".len();
    let body = &head[start..];
    let parsed = unescape_string(body).expect("well-formed escaped body");
    assert_eq!(parsed, original);
}

#[test]
fn unescape_rejects_malformed_bodies() {
    assert!(unescape_string("bare\"quote").is_none());
    assert!(unescape_string("bad\\escape").is_none());
    assert!(unescape_string("trailing\\").is_none());
    assert_eq!(unescape_string("plain").unwrap(), "plain");
}

#[test]
fn numerals_render_exactly() {
    assert_eq!(u64_to_dec_string(0), "0");
    assert_eq!(u64_to_dec_string(10), "10");
    assert_eq!(u64_to_dec_string(18446744073709551615), "18446744073709551615");
    assert_eq!(i64_to_dec_string(0), "0");
    assert_eq!(i64_to_dec_string(-42), "-42");
    assert_eq!(i64_to_dec_string(i64::MAX), "9223372036854775807");
    assert_eq!(i64_to_dec_string(i64::MIN), "-9223372036854775808");
}

#[test]
fn statements_render_exactly() {
    assert_eq!(
        render_statement("3", ":visit/date", &Value::Instant(12345)),
        " [:db/add \"3\" :visit/date #instmicros 12345]\n"
    );
    assert_eq!(
        render_statement("4", ":visit/sync15_type", &Value::Long(-5)),
        " [:db/add \"4\" :visit/sync15_type -5]\n"
    );
    assert_eq!(
        render_statement("2", ":sync15.history/page", &Value::Ref("1".to_string())),
        " [:db/add \"2\" :sync15.history/page \"1\"]\n"
    );
    assert_eq!(
        render_statement("1", ":page/title", &Value::Text("a \"b\"".to_string())),
        " [:db/add \"1\" :page/title \"a \\\"b\\\"\"]\n"
    );
}

#[test]
fn watermark_gates_the_flush() {
    // a huge watermark is never reached by a small buffer
    let mut big = TransactBuilder::new_with_size(1024 * 1024);
    big.add_str("1", ":page/url", "u");
    assert!(!big.should_finish());
    assert!(big.maybe_transact().is_none());
    // a zero watermark is reached at once
    let mut zero = TransactBuilder::new_with_size(0);
    assert!(zero.should_finish());
    // ... but an empty batch is still never committed
    assert!(zero.maybe_transact().is_none());
    zero.add_str("1", ":page/url", "u");
    assert!(zero.maybe_transact().is_some());
}

#[test]
fn remap_table_from_two_origins() {
    let mut b = TransactBuilder::new_with_size(usize::MAX);
    let origins = vec![
        (1i64, "http://".to_string(), "a.com".to_string()),
        (2i64, "https://".to_string(), "b.com".to_string()),
    ];
    let pairs = add_origins(&mut b, &origins);
    assert_eq!(pairs.len(), 2);
    assert_eq!(pairs[0], (1, "1".to_string()));
    assert_eq!(pairs[1], (2, "2".to_string()));
    // one commit for the whole origin batch
    let batch = b.transact().expect("origin batch must commit");
    assert_eq!(statement_lines(&batch).len(), 4);
    // each origin's prefix under :origin/prefix, its host under :origin/host
    assert!(batch.contains(" [:db/add \"1\" :origin/prefix \"http://\"]"));
    assert!(batch.contains(" [:db/add \"1\" :origin/host \"a.com\"]"));
    assert!(batch.contains(" [:db/add \"2\" :origin/prefix \"https://\"]"));
    assert!(batch.contains(" [:db/add \"2\" :origin/host \"b.com\"]"));
    // the store's resolution for the two tempids, as a commit report gives it
    let resolutions = vec![("1".to_string(), 100i64), ("2".to_string(), 200i64)];
    let table = build_remap(&pairs, &resolutions);
    assert_eq!(table.len(), 2);
    assert_eq!(table.get(1), Some(100));
    assert_eq!(table.get(2), Some(200));
    assert_eq!(table.get(3), None);
}

#[test]
fn zero_threshold_commits_whole_record_at_once() {
    let mut b = TransactBuilder::new_with_size(0);
    let mut table = RemapTable::new();
    table.insert(9, 900);
    let contexts = vec![7i64];
    let first = entry(1, "http://first/", 9, vec![
        VisitInfo { date: 100, sync15_type: 1 },
        VisitInfo { date: 101, sync15_type: 1 },
        VisitInfo { date: 102, sync15_type: 2 },
    ]);
    let batch = first
        .add(&mut b, &contexts, &table)
        .expect("zero threshold must commit right after the record");
    let lines = statement_lines(&batch);
    // url, origin, title, guid, page ref, and five statements per visit
    assert_eq!(lines.len(), 5 + 3 * 5);
    assert!(batch.contains(":page/url \"http://first/\""));
    assert!(batch.contains(":page/origin 900"));
    assert!(batch.contains(":visit/date #instmicros 100"));
    assert!(batch.contains(":visit/date #instmicros 102"));
    // the next record's batch holds none of the first record's statements
    let second = entry(2, "http://second/", 9, vec![VisitInfo { date: 200, sync15_type: 1 }]);
    let batch2 = second.add(&mut b, &contexts, &table).expect("commit again");
    assert!(!batch2.contains("http://first/"));
    assert!(!batch2.contains("#instmicros 100"));
    assert!(batch2.contains(":page/url \"http://second/\""));
}

#[test]
fn visit_context_comes_from_the_pool() {
    let mut b = TransactBuilder::new_with_size(0);
    let table = RemapTable::new();
    // a one-element pool pins the random draw
    let contexts = vec![42i64];
    let e = entry(1, "http://ctx/", 1, vec![VisitInfo { date: 5, sync15_type: 1 }]);
    let batch = e.add(&mut b, &contexts, &table).unwrap();
    assert!(batch.contains(":visit/context 42"));
    // the deliberate self-reference: the visit's source is itself
    assert!(batch.contains(":visit/source_visit \"3\""));
    assert!(batch.contains(" [:db/add \"3\" :visit/page \"1\""));
}

#[test]
fn missing_origin_omits_reference_and_run_goes_on() {
    let mut b = TransactBuilder::new_with_size(0);
    let table = RemapTable::new();  // origin id resolves to nothing
    let contexts = vec![7i64];
    let e = entry(1, "http://no-origin/", 55, vec![VisitInfo { date: 1, sync15_type: 1 }]);
    let batch = e.add(&mut b, &contexts, &table).expect("emission is not fatal");
    assert!(batch.contains(":page/url \"http://no-origin/\""));
    assert!(batch.contains(":page/title"));
    assert!(!batch.contains(":page/origin"));
    // the run goes on: the next record still commits
    let e2 = entry(2, "http://after/", 55, vec![VisitInfo { date: 2, sync15_type: 1 }]);
    assert!(e2.add(&mut b, &contexts, &table).is_some());
}

#[test]
fn empty_stream_yields_no_record() {
    let g = Grouper::new();
    assert!(g.finish().is_none());
}

#[test]
fn bulk_mode_commits_once_at_the_end() {
    let mut b = TransactBuilder::new_with_size(usize::MAX);
    let table = RemapTable::new();
    let contexts = vec![7i64];
    let first = entry(1, "http://one/", 1, vec![VisitInfo { date: 1, sync15_type: 1 }]);
    let second = entry(2, "http://two/", 1, vec![VisitInfo { date: 2, sync15_type: 1 }]);
    // below the watermark nothing is handed over mid-stream
    assert!(first.add(&mut b, &contexts, &table).is_none());
    assert!(second.add(&mut b, &contexts, &table).is_none());
    // the end-of-run commit carries both records
    let batch = b.transact().expect("pending statements must commit");
    assert!(batch.contains("http://one/"));
    assert!(batch.contains("http://two/"));
}

#[test]
fn batch_text_is_bracketed() {
    let mut b = TransactBuilder::new_with_size(usize::MAX);
    b.add_long("1", ":visit/context", 3);
    let batch = b.transact().unwrap();
    assert!(batch.starts_with("[\n"));
    assert!(batch.ends_with("]"));
    assert_eq!(batch, "[\n [:db/add \"1\" :visit/context 3]\n]");
}
