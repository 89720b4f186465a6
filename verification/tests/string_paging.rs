use relay_connection::connection::Connection;
use relay_connection::params::Params;
use relay_connection::string_cursor::{
    query, Identifiable, StringConnectionFields, StringCursor, StringCursorError,
};

#[derive(Debug, Clone, PartialEq)]
struct Dir {
    title: String,
    rank: usize,
}

impl Identifiable for Dir {
    fn get_id(&self) -> String {
        self.title.clone()
    }
}

fn dirs(titles: &[&str]) -> Vec<Dir> {
    let mut out = Vec::new();
    for (rank, t) in titles.iter().enumerate() {
        out.push(Dir { title: t.to_string(), rank });
    }
    out
}

fn ten() -> Vec<Dir> {
    dirs(&["d0", "d1", "d2", "d3", "d4", "d5", "d6", "d7", "d8", "d9"])
}

fn ranks(c: &Connection<Dir, StringConnectionFields>) -> Vec<usize> {
    c.edges.iter().map(|e| e.node.rank).collect()
}

fn cursors(c: &Connection<Dir, StringConnectionFields>) -> Vec<String> {
    c.edges.iter().map(|e| e.cursor.clone()).collect()
}

fn s(x: &str) -> Option<String> {
    Some(x.to_string())
}

#[test]
fn string_default_page_is_cut_at_the_default_size() {
    let c = query(ten(), Params::new(None, None, None, None), 3).unwrap();
    assert_eq!(ranks(&c), vec![0, 1, 2]);
    assert_eq!(cursors(&c), vec!["d0", "d1", "d2"]);
    assert!(!c.has_previous_page);
    assert!(c.has_next_page);
    assert_eq!(c.additional_fields.total_count, 10);
}

#[test]
fn string_default_page_of_full_size_holds_everything() {
    let c = query(ten(), Params::new(None, None, None, None), 10).unwrap();
    assert_eq!(ranks(&c), vec![0, 1, 2, 3, 4, 5, 6, 7, 8, 9]);
    assert!(!c.has_previous_page);
    assert!(!c.has_next_page);
    assert_eq!(c.additional_fields.total_count, 10);
}

#[test]
fn string_forward_paging() {
    let c = query(ten(), Params::new(s("d3"), None, Some(2), None), 10).unwrap();
    assert_eq!(ranks(&c), vec![4, 5]);
    assert_eq!(cursors(&c), vec!["d4", "d5"]);
    assert!(c.has_previous_page);
    assert!(c.has_next_page);
    assert_eq!(c.additional_fields.total_count, 10);
}

#[test]
fn string_backward_paging() {
    let c = query(ten(), Params::new(None, s("d6"), None, Some(2)), 10).unwrap();
    assert_eq!(ranks(&c), vec![4, 5]);
    assert!(c.has_previous_page);
    assert!(c.has_next_page);
    assert_eq!(c.additional_fields.total_count, 10);
}

#[test]
fn string_unmatched_after_counts_as_absent() {
    let items = dirs(&["a", "b", "c", "d", "e"]);
    let c = query(items, Params::new(s("zzz"), None, None, None), 10).unwrap();
    assert_eq!(cursors(&c), vec!["a", "b", "c", "d", "e"]);
    assert_eq!(ranks(&c), vec![0, 1, 2, 3, 4]);
    assert!(!c.has_previous_page);
    assert!(!c.has_next_page);
    assert_eq!(c.additional_fields.total_count, 5);
}

#[test]
fn string_unmatched_before_counts_as_absent() {
    let items = dirs(&["a", "b", "c", "d", "e"]);
    let c = query(items, Params::new(None, s("zzz"), None, Some(2)), 10).unwrap();
    assert_eq!(cursors(&c), vec!["d", "e"]);
    assert!(c.has_previous_page);
    assert!(!c.has_next_page);
}

#[test]
fn string_empty_sequence_gives_an_empty_page() {
    let all = vec![
        Params::new(None, None, None, None),
        Params::new(s("a"), None, Some(3), None),
        Params::new(None, s("a"), None, Some(3)),
        Params::new(s("a"), s("b"), Some(0), None),
        Params::new(s("a"), s("b"), None, Some(i32::MAX)),
    ];
    for p in all {
        let c = query(Vec::<Dir>::new(), p, 10).unwrap();
        assert!(c.edges.is_empty());
        assert!(!c.has_previous_page);
        assert!(!c.has_next_page);
        assert_eq!(c.additional_fields.total_count, 0);
    }
}

#[test]
fn string_total_count_is_the_length_whatever_the_window() {
    let all = vec![
        Params::new(None, None, None, None),
        Params::new(s("d3"), None, Some(2), None),
        Params::new(None, s("d6"), None, Some(2)),
        Params::new(s("d8"), s("d1"), Some(5), None),
        Params::new(s("nope"), s("nope"), None, Some(0)),
    ];
    for p in all {
        let c = query(ten(), p, 4).unwrap();
        assert_eq!(c.additional_fields.total_count, 10);
    }
}

#[test]
fn string_same_input_gives_the_same_page() {
    let a = query(ten(), Params::new(s("d2"), s("d8"), Some(4), None), 10).unwrap();
    let b = query(ten(), Params::new(s("d2"), s("d8"), Some(4), None), 10).unwrap();
    assert_eq!(cursors(&a), cursors(&b));
    assert_eq!(ranks(&a), ranks(&b));
    assert_eq!(ranks(&a), vec![3, 4, 5, 6]);
    assert_eq!(a.has_previous_page, b.has_previous_page);
    assert_eq!(a.has_next_page, b.has_next_page);
    assert_eq!(a.additional_fields.total_count, b.additional_fields.total_count);
}

#[test]
fn string_before_ahead_of_after_gives_an_empty_page() {
    let c = query(ten(), Params::new(s("d7"), s("d2"), Some(3), None), 10).unwrap();
    assert!(c.edges.is_empty());
    assert!(c.has_previous_page);
    assert!(c.has_next_page);
    assert_eq!(c.additional_fields.total_count, 10);
}

#[test]
fn string_default_size_bounds_the_end_from_position_zero() {
    let c = query(ten(), Params::new(s("d1"), None, None, None), 4).unwrap();
    assert_eq!(ranks(&c), vec![2, 3]);
    assert!(c.has_previous_page);
    assert!(c.has_next_page);
    let c = query(ten(), Params::new(s("d6"), None, None, None), 4).unwrap();
    assert!(c.edges.is_empty());
    assert!(c.has_previous_page);
    assert!(c.has_next_page);
}

#[test]
fn string_first_stops_at_before() {
    let c = query(ten(), Params::new(s("d3"), s("d6"), Some(5), None), 10).unwrap();
    assert_eq!(ranks(&c), vec![4, 5]);
    assert!(c.has_previous_page);
    assert!(c.has_next_page);
}

#[test]
fn string_last_stops_at_after() {
    let c = query(ten(), Params::new(s("d3"), s("d6"), None, Some(5)), 10).unwrap();
    assert_eq!(ranks(&c), vec![4, 5]);
    let c = query(ten(), Params::new(None, None, None, Some(3)), 10).unwrap();
    assert_eq!(ranks(&c), vec![7, 8, 9]);
    assert!(c.has_previous_page);
    assert!(!c.has_next_page);
    let c = query(ten(), Params::new(None, None, None, Some(i32::MAX)), 10).unwrap();
    assert_eq!(ranks(&c).len(), 10);
    assert!(!c.has_previous_page);
}

#[test]
fn string_huge_first_does_not_overflow() {
    let c = query(ten(), Params::new(s("d8"), None, Some(i32::MAX), None), 10).unwrap();
    assert_eq!(ranks(&c), vec![9]);
    assert!(c.has_previous_page);
    assert!(!c.has_next_page);
}

#[test]
fn string_first_zero_gives_an_empty_page() {
    let c = query(ten(), Params::new(None, None, Some(0), None), 10).unwrap();
    assert!(c.edges.is_empty());
    assert!(!c.has_previous_page);
    assert!(c.has_next_page);
}

#[test]
fn string_repeated_identity_is_found_at_its_last_place() {
    let items = dirs(&["a", "b", "a", "c", "d"]);
    let c = query(items, Params::new(s("a"), None, Some(10), None), 10).unwrap();
    assert_eq!(ranks(&c), vec![3, 4]);
    let items = dirs(&["a", "b", "a", "c", "d"]);
    let c = query(items, Params::new(None, s("a"), None, Some(10)), 10).unwrap();
    assert_eq!(ranks(&c), vec![0, 1]);
}

#[test]
fn string_cursor_is_the_identity_letter_for_letter() {
    for id in ["", "a", "with space", "d%20x", "\u{00e9}t\u{00e9}/\u{1f600}", "a\"b\\c"] {
        let cursor = StringCursor::new(id.to_string());
        let token = cursor.encode();
        assert_eq!(token, id);
        let back = StringCursor::decode(&token).unwrap();
        assert_eq!(back.0, id);
    }
}

#[test]
fn string_decode_takes_any_token() {
    let c = StringCursor::decode("not-a-valid-id").unwrap();
    assert_eq!(c.0, "not-a-valid-id");
    assert_eq!(c.encode(), "not-a-valid-id");
}

#[test]
fn string_error_message() {
    assert_eq!(StringCursorError::Invalid.to_string(), "Invalid cursor");
}
