//! The event query language.

use ctxd::event::Event;
use ctxd::json::Json;
use ctxd::query::{
    extract_quoted_value, filter_events, is_readable, parse_query, select_subjects,
    sql_like_match, try_parse_query, Condition,
};
use ctxd::time::Timestamp;

#[test]
fn parse_basic_query() {
    let q = parse_query(
        r#"FROM e IN events WHERE e.subject LIKE "/test/%" AND e.type = "ctx.note" PROJECT INTO e"#,
    )
    .unwrap();
    assert_eq!(q.var, "e");
    assert_eq!(q.conditions.len(), 2);
    assert!(matches!(&q.conditions[0], Condition::SubjectLike(p) if p == "/test/%"));
    assert!(matches!(&q.conditions[1], Condition::TypeEquals(t) if t == "ctx.note"));
}

#[test]
fn parse_time_conditions() {
    let q = parse_query(
        r#"FROM e IN events WHERE e.time > "2025-01-01T00:00:00Z" AND e.time < "2025-12-31T23:59:59Z" PROJECT INTO e"#,
    )
    .unwrap();
    assert_eq!(q.conditions.len(), 2);
    assert!(matches!(&q.conditions[0], Condition::TimeAfter(t) if t == "2025-01-01T00:00:00Z"));
    assert!(matches!(&q.conditions[1], Condition::TimeBefore(t) if t == "2025-12-31T23:59:59Z"));
}

#[test]
fn parse_full_query() {
    let q = parse_query(
        r#"FROM e IN events WHERE e.subject LIKE "/pattern/%" AND e.type = "ctx.note" AND e.time > "2025-01-01T00:00:00Z" PROJECT INTO e"#,
    )
    .unwrap();
    assert_eq!(q.var, "e");
    assert_eq!(q.conditions.len(), 3);
}

#[test]
fn parse_no_where() {
    let q = parse_query("FROM e IN events PROJECT INTO e").unwrap();
    assert_eq!(q.var, "e");
    assert_eq!(q.conditions.len(), 0);
}

#[test]
fn parse_error_no_from() {
    assert!(parse_query("SELECT * FROM events").is_err());
}

#[test]
fn parse_error_wrong_collection() {
    assert!(parse_query("FROM e IN tables").is_err());
}

#[test]
fn sql_like_matching() {
    assert!(sql_like_match("/test/hello", "/test/%"));
    assert!(!sql_like_match("/other/hello", "/test/%"));
    assert!(sql_like_match("/anything", "%"));
    assert!(sql_like_match("/test/hello", "%hello"));
    assert!(sql_like_match("/test/hello", "/test/hello"));
}

#[test]
fn like_patterns_with_inner_wildcards() {
    assert!(sql_like_match("/a/x/b", "/a/%/b"));
    assert!(!sql_like_match("/a/x/c", "/a/%/b"));
    assert!(sql_like_match("", "%"));
    assert!(sql_like_match("/test/hello", "%test%"));
    assert!(sql_like_match("/a/b/c/d", "/a/%/c/%"));
    assert!(!sql_like_match("/a/b/d", "/a/%/c/%"));
    assert!(sql_like_match("aba", "%a%a%") && !sql_like_match("ab", "%a%a%"));
    assert!(!sql_like_match("ab", "") && sql_like_match("", ""));
    assert!(!sql_like_match("/test", "/test/hello"));
}

#[test]
fn keywords_are_read_in_any_case() {
    let q = parse_query(r#"from x in events where x.type = "a" project into x"#).unwrap();
    assert_eq!(q.var, "x");
    assert!(matches!(&q.conditions[0], Condition::TypeEquals(t) if t == "a"));
}

#[test]
fn quoted_values_end_at_the_closing_quote() {
    let (value, rest) = extract_quoted_value("\"abc\" AND more").unwrap();
    assert_eq!(value, "abc");
    assert_eq!(rest.trim(), "AND more");
    assert!(extract_quoted_value("abc").is_err());
    assert!(extract_quoted_value("\"abc").is_err());
}

#[test]
fn a_text_that_is_cut_inside_a_character_is_not_read() {
    // Uppercasing lengthens this letter, so byte offsets no longer fit.
    let odd = "FROM e IN \u{0149}vents";
    match try_parse_query(odd) {
        None => assert!(!is_readable(odd)),
        Some(r) => {
            assert!(is_readable(odd));
            assert!(r.is_err());
        }
    }
    assert!(try_parse_query("FROM e IN events").is_some());
}

fn event(id: &str, subject: &str, kind: &str, secs: i64) -> Event {
    Event {
        id: id.to_string(),
        source: "test".to_string(),
        subject: subject.to_string(),
        event_type: kind.to_string(),
        time: Timestamp { secs, nanos: 0 },
        data: Json::Null,
        parents: vec![],
        signature: None,
    }
}

#[test]
fn filters_keep_the_matching_events_in_order() {
    let q = parse_query(
        r#"FROM e IN events WHERE e.type = "note" AND e.time > "1970-01-01T00:00:10Z" AND e.time < "1970-01-01T00:00:40Z""#,
    )
    .unwrap();
    let kept = filter_events(
        &q,
        vec![
            event("a", "/x", "note", 10),
            event("b", "/x", "note", 20),
            event("c", "/x", "file", 25),
            event("d", "/x", "note", 30),
            event("e", "/x", "note", 40),
        ],
    );
    let ids: Vec<&str> = kept.iter().map(|e| e.id.as_str()).collect();
    assert_eq!(ids, vec!["b", "d"]);
}

#[test]
fn every_condition_counts() {
    let q = parse_query(
        r#"FROM e IN events WHERE e.type = "a" AND e.type = "b" AND e.subject LIKE "/me/%""#,
    )
    .unwrap();
    assert!(filter_events(&q, vec![event("1", "/me/x", "a", 1), event("2", "/me/x", "b", 1)])
        .is_empty());
    let q = parse_query(
        r#"FROM e IN events WHERE e.subject LIKE "/me/%" AND e.subject LIKE "%b""#,
    )
    .unwrap();
    assert_eq!(
        select_subjects(&q, &["/me/a".to_string(), "/me/b".to_string(), "/b".to_string()]),
        vec!["/me/b".to_string()]
    );
}

#[test]
fn subjects_are_selected_by_pattern() {
    let q = parse_query(r#"FROM e IN events WHERE e.subject LIKE "/me/%""#).unwrap();
    let picked = select_subjects(
        &q,
        &["/me/a".to_string(), "/you/b".to_string(), "/me/c".to_string()],
    );
    assert_eq!(picked, vec!["/me/a".to_string(), "/me/c".to_string()]);
}

#[test]
fn a_written_query_is_read_back() {
    let q = parse_query(
        "from ev\n  in Events\n  Where ev.Subject like \"/a/%\"\n  And ev.TYPE = \"\"\n  aNd ev.time < \"x\"\nproject Into ev",
    )
    .unwrap();
    assert_eq!(q.var, "ev");
    assert_eq!(q.conditions.len(), 3);
    assert!(matches!(&q.conditions[0], Condition::SubjectLike(p) if p == "/a/%"));
    assert!(matches!(&q.conditions[1], Condition::TypeEquals(t) if t.is_empty()));
    assert!(matches!(&q.conditions[2], Condition::TimeBefore(t) if t == "x"));
}
