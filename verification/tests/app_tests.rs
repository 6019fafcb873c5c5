use log_viewer::app::{select_logs, App};
use log_viewer::model::Key;
use log_viewer::entry::{parse_log_line, LogEntry};
use log_viewer::history::History;
use log_viewer::text::push_decimal;
use regex::Regex;

fn entries(lines: &[&str]) -> Vec<LogEntry> {
    lines.iter().filter_map(|line| parse_log_line(line)).collect()
}

fn sample() -> App {
    App::new(entries(&[
        "\x1B[32mINFO\x1B[0m start",
        "\x1B[31mERROR\x1B[0m disk full",
        "\x1B[33mWARN\x1B[0m slow",
        "\x1B[31mERROR\x1B[0m net down",
        "plain ERROR line",
        "\x1B[32mINFO\x1B[0m stop",
    ]))
}

fn numbered(n: usize) -> App {
    let lines: Vec<String> = (0..n).map(|i| format!("line {}", i)).collect();
    let refs: Vec<&str> = lines.iter().map(|s| s.as_str()).collect();
    App::new(entries(&refs))
}

fn raws(app: &App) -> Vec<String> {
    app.filtered_logs().iter().map(|e| e.raw_content().clone()).collect()
}

fn saved(app: &App) -> Vec<String> {
    let h = app.saved_patterns();
    (0..h.len()).map(|i| h.get(i).clone()).collect()
}

fn confirm(app: &mut App, pattern: &str) {
    app.begin_search();
    while !app.search_pattern().is_empty() {
        app.pop_search_char();
    }
    for c in pattern.chars() {
        app.push_search_char(c);
    }
    app.confirm_search();
}

#[test]
fn new_app_shows_everything() {
    let app = sample();
    assert!(!app.is_searching());
    assert!(!app.has_filter());
    assert_eq!(app.search_pattern(), "");
    assert_eq!(app.saved_patterns().len(), 0);
    assert_eq!(app.scroll(), 0);
    assert_eq!(app.logs().len(), 6);
    assert_eq!(raws(&app).len(), 6);
}

#[test]
fn unfiltered_view_is_every_line_in_file_order() {
    let app = sample();
    let all: Vec<String> = app.logs().iter().map(|e| e.raw_content().clone()).collect();
    assert_eq!(raws(&app), all);
}

#[test]
fn filtered_view_is_the_matching_lines_in_order() {
    let mut app = sample();
    confirm(&mut app, "ERROR");
    assert!(app.has_filter());
    assert_eq!(
        raws(&app),
        vec![
            "\x1B[31mERROR\x1B[0m disk full".to_string(),
            "\x1B[31mERROR\x1B[0m net down".to_string(),
            "plain ERROR line".to_string(),
        ]
    );
}

#[test]
fn filter_matches_the_raw_text_with_its_escape_codes() {
    let mut app = sample();
    confirm(&mut app, r"\[31mERROR");
    assert_eq!(
        raws(&app),
        vec![
            "\x1B[31mERROR\x1B[0m disk full".to_string(),
            "\x1B[31mERROR\x1B[0m net down".to_string(),
        ]
    );
    confirm(&mut app, "^INFO");
    assert!(raws(&app).is_empty());
}

#[test]
fn typing_is_ignored_outside_an_edit() {
    let mut app = sample();
    app.push_search_char('x');
    app.pop_search_char();
    assert_eq!(app.search_pattern(), "");
    app.confirm_search();
    app.cancel_search();
    assert!(!app.is_searching());
    assert!(!app.has_filter());
}

#[test]
fn editing_appends_and_removes_characters() {
    let mut app = sample();
    app.begin_search();
    app.begin_search();
    assert!(app.is_searching());
    app.push_search_char('a');
    app.push_search_char('é');
    app.push_search_char('c');
    assert_eq!(app.search_pattern(), "aéc");
    app.pop_search_char();
    assert_eq!(app.search_pattern(), "aé");
    app.pop_search_char();
    app.pop_search_char();
    app.pop_search_char();
    assert_eq!(app.search_pattern(), "");
    assert!(app.is_searching());
}

#[test]
fn cancel_clears_pattern_and_filter_but_not_history() {
    let mut app = sample();
    confirm(&mut app, "ERROR");
    app.begin_search();
    app.push_search_char('x');
    app.cancel_search();
    assert!(!app.is_searching());
    assert!(!app.has_filter());
    assert_eq!(app.search_pattern(), "");
    assert_eq!(saved(&app), vec!["ERROR".to_string()]);
    assert_eq!(raws(&app).len(), 6);
}

#[test]
fn confirming_an_empty_pattern_keeps_the_filter() {
    let mut app = sample();
    confirm(&mut app, "ERROR");
    let before = raws(&app);
    confirm(&mut app, "");
    assert!(!app.is_searching());
    assert!(app.has_filter());
    assert_eq!(raws(&app), before);
    assert_eq!(before.len(), 3);
    assert_eq!(saved(&app), vec!["ERROR".to_string()]);
}

#[test]
fn confirming_a_malformed_pattern_keeps_filter_and_history() {
    let mut app = sample();
    confirm(&mut app, "WARN");
    confirm(&mut app, "[");
    assert!(!app.is_searching());
    assert!(app.has_filter());
    assert_eq!(raws(&app), vec!["\x1B[33mWARN\x1B[0m slow".to_string()]);
    assert_eq!(saved(&app), vec!["WARN".to_string()]);
    assert_eq!(app.search_pattern(), "[");
}

#[test]
fn confirming_a_malformed_pattern_without_filter_shows_everything() {
    let mut app = sample();
    confirm(&mut app, "(");
    assert!(!app.has_filter());
    assert_eq!(saved(&app), Vec::<String>::new());
    assert_eq!(raws(&app).len(), 6);
}

#[test]
fn history_keeps_the_last_ten_distinct_patterns() {
    let mut app = sample();
    let patterns: Vec<String> = (1..=11).map(|i| format!("p{}", i)).collect();
    for p in &patterns {
        confirm(&mut app, p);
    }
    assert_eq!(app.saved_patterns().len(), 10);
    assert_eq!(saved(&app), patterns[1..].to_vec());
    assert!(!app.saved_patterns().contains(&"p1".to_string()));
}

#[test]
fn confirming_a_remembered_pattern_does_not_move_it() {
    let mut app = sample();
    confirm(&mut app, "a");
    confirm(&mut app, "b");
    confirm(&mut app, "a");
    assert_eq!(saved(&app), vec!["a".to_string(), "b".to_string()]);
}

#[test]
fn recalling_slot_zero_shows_everything() {
    let mut app = sample();
    confirm(&mut app, "ERROR");
    confirm(&mut app, "WARN");
    app.load_pattern(0);
    assert!(!app.has_filter());
    assert_eq!(app.search_pattern(), "");
    assert_eq!(raws(&app).len(), 6);
    assert_eq!(saved(&app), vec!["ERROR".to_string(), "WARN".to_string()]);
    let mut fresh = sample();
    fresh.load_pattern(0);
    assert_eq!(raws(&fresh).len(), 6);
}

#[test]
fn recalling_a_slot_puts_its_pattern_in_force() {
    let mut app = sample();
    confirm(&mut app, "ERROR");
    confirm(&mut app, "WARN");
    app.load_pattern(1);
    assert_eq!(app.search_pattern(), "ERROR");
    assert_eq!(raws(&app).len(), 3);
    app.load_pattern(2);
    assert_eq!(app.search_pattern(), "WARN");
    assert_eq!(raws(&app), vec!["\x1B[33mWARN\x1B[0m slow".to_string()]);
}

#[test]
fn recalling_an_unused_slot_changes_nothing() {
    let mut app = sample();
    confirm(&mut app, "ERROR");
    app.load_pattern(2);
    app.load_pattern(9);
    app.load_pattern(200);
    assert_eq!(app.search_pattern(), "ERROR");
    assert_eq!(raws(&app).len(), 3);
}

#[test]
fn recalling_during_an_edit_is_ignored() {
    let mut app = sample();
    confirm(&mut app, "ERROR");
    app.begin_search();
    app.load_pattern(0);
    assert!(app.has_filter());
    assert!(app.is_searching());
    assert_eq!(app.search_pattern(), "ERROR");
}

#[test]
fn confirm_with_a_given_outcome() {
    let mut app = sample();
    app.begin_search();
    app.push_search_char('x');
    app.confirm_search_with(None);
    assert!(!app.is_searching());
    assert!(!app.has_filter());
    assert_eq!(app.saved_patterns().len(), 0);
    app.begin_search();
    app.confirm_search_with(Some(Regex::new("WARN").unwrap()));
    assert!(app.has_filter());
    assert_eq!(saved(&app), vec!["x".to_string()]);
    assert_eq!(raws(&app), vec!["\x1B[33mWARN\x1B[0m slow".to_string()]);
    let mut empty = sample();
    empty.begin_search();
    empty.confirm_search_with(Some(Regex::new("WARN").unwrap()));
    assert!(!empty.has_filter());
    assert_eq!(empty.saved_patterns().len(), 0);
}

#[test]
fn load_with_a_given_outcome() {
    let mut app = sample();
    confirm(&mut app, "ERROR");
    confirm(&mut app, "WARN");
    app.load_pattern_with(1, None);
    assert_eq!(app.search_pattern(), "ERROR");
    assert_eq!(raws(&app), vec!["\x1B[33mWARN\x1B[0m slow".to_string()]);
    app.load_pattern_with(2, Some(Regex::new("INFO").unwrap()));
    assert_eq!(app.search_pattern(), "WARN");
    assert_eq!(raws(&app).len(), 2);
    app.load_pattern_with(3, Some(Regex::new("ERROR").unwrap()));
    assert_eq!(raws(&app).len(), 2);
}

#[test]
fn scroll_down_stops_at_the_last_full_viewport() {
    let mut app = numbered(5);
    app.scroll_down(3);
    assert_eq!(app.scroll(), 1);
    app.scroll_down(3);
    assert_eq!(app.scroll(), 2);
    app.scroll_down(3);
    assert_eq!(app.scroll(), 2);
}

#[test]
fn scroll_down_in_a_tall_viewport_stays_at_zero() {
    let mut app = numbered(5);
    app.scroll_down(5);
    assert_eq!(app.scroll(), 0);
    app.scroll_down(50);
    assert_eq!(app.scroll(), 0);
    app.page_down(usize::MAX);
    assert_eq!(app.scroll(), 0);
}

#[test]
fn scroll_up_stops_at_zero() {
    let mut app = numbered(5);
    app.scroll_up();
    assert_eq!(app.scroll(), 0);
    app.scroll_down(1);
    app.scroll_down(1);
    app.scroll_up();
    assert_eq!(app.scroll(), 1);
    app.scroll_up();
    app.scroll_up();
    assert_eq!(app.scroll(), 0);
}

#[test]
fn paging_moves_by_one_viewport() {
    let mut app = numbered(25);
    app.page_down(10);
    assert_eq!(app.scroll(), 10);
    app.page_down(10);
    assert_eq!(app.scroll(), 15);
    app.page_down(10);
    assert_eq!(app.scroll(), 15);
    app.page_up(10);
    assert_eq!(app.scroll(), 5);
    app.page_up(10);
    assert_eq!(app.scroll(), 0);
}

#[test]
fn a_smaller_viewport_lets_scroll_further_and_a_larger_one_pulls_back() {
    let mut app = numbered(20);
    app.page_down(5);
    app.page_down(5);
    app.page_down(5);
    assert_eq!(app.scroll(), 15);
    app.scroll_down(10);
    assert_eq!(app.scroll(), 10);
    app.page_up(18);
    assert_eq!(app.scroll(), 0);
}

#[test]
fn a_new_filter_pulls_the_scroll_offset_back() {
    let mut app = numbered(30);
    app.page_down(10);
    app.page_down(10);
    assert_eq!(app.scroll(), 20);
    confirm(&mut app, "line 1");
    assert_eq!(raws(&app).len(), 11);
    assert_eq!(app.scroll(), 1);
    confirm(&mut app, "line 29");
    assert_eq!(app.scroll(), 0);
    app.load_pattern(0);
    assert_eq!(app.scroll(), 0);
}

#[test]
fn visible_logs_is_the_window_at_the_scroll_offset() {
    let mut app = numbered(10);
    app.page_down(4);
    let rows: Vec<String> = app.visible_logs(4).iter().map(|e| e.raw_content().clone()).collect();
    assert_eq!(rows, vec!["line 4", "line 5", "line 6", "line 7"]);
    app.page_down(4);
    let rows: Vec<String> = app.visible_logs(8).iter().map(|e| e.raw_content().clone()).collect();
    assert_eq!(rows, vec!["line 6", "line 7", "line 8", "line 9"]);
    assert!(app.visible_logs(0).is_empty());
}

#[test]
fn history_remembers_without_duplicates() {
    let mut h = History::new();
    assert_eq!(h.len(), 0);
    h.remember(&"a".to_string());
    h.remember(&"b".to_string());
    h.remember(&"a".to_string());
    assert_eq!(h.len(), 2);
    assert_eq!(h.get(0), "a");
    assert_eq!(h.get(1), "b");
    assert!(h.contains(&"b".to_string()));
    assert!(!h.contains(&"c".to_string()));
}

#[test]
fn history_evicts_the_oldest_when_full() {
    let mut h = History::new();
    for i in 0..10 {
        h.remember(&format!("p{}", i));
    }
    assert_eq!(h.len(), 10);
    h.remember(&"p3".to_string());
    assert_eq!(h.get(0), "p0");
    h.remember(&"new".to_string());
    assert_eq!(h.len(), 10);
    assert_eq!(h.get(0), "p1");
    assert_eq!(h.get(9), "new");
    assert!(!h.contains(&"p0".to_string()));
}

#[test]
fn select_logs_keeps_the_flagged_entries_in_order() {
    let logs = entries(&["a", "b", "c", "d"]);
    let shown = select_logs(&logs, &vec![true, false, true, true]);
    let raws: Vec<&str> = shown.iter().map(|e| e.raw_content().as_str()).collect();
    assert_eq!(raws, vec!["a", "c", "d"]);
    assert!(select_logs(&logs, &vec![false, false, false, false]).is_empty());
    assert_eq!(select_logs(&logs, &vec![true, true, true, true]).len(), 4);
}

#[test]
fn select_logs_with_flags_of_another_length_keeps_nothing() {
    let logs = entries(&["a", "b"]);
    assert!(select_logs(&logs, &vec![true]).is_empty());
    assert!(select_logs(&logs, &vec![true, true, true]).is_empty());
    assert!(select_logs(&Vec::new(), &Vec::new()).is_empty());
}

#[test]
fn status_text_lists_the_slots() {
    let mut app = sample();
    assert_eq!(app.get_status_text(), "Searches: ");
    confirm(&mut app, "ERROR");
    confirm(&mut app, "W.RN");
    assert_eq!(app.get_status_text(), "Searches: [1:'ERROR'] [2:'W.RN'] ");
}

#[test]
fn status_text_numbers_the_tenth_slot() {
    let mut app = sample();
    for i in 0..10 {
        confirm(&mut app, &format!("p{}", i));
    }
    let expected: String = std::iter::once("Searches: ".to_string())
        .chain((0..10).map(|i| format!("[{}:'p{}'] ", i + 1, i)))
        .collect();
    assert_eq!(app.get_status_text(), expected);
    assert!(app.get_status_text().ends_with("[10:'p9'] "));
}

#[test]
fn title_shows_the_edit_or_the_status() {
    let mut app = sample();
    assert_eq!(app.title(), "Log Viewer - Searches: ");
    app.begin_search();
    assert_eq!(app.title(), "Search: _");
    app.push_search_char('E');
    app.push_search_char('R');
    assert_eq!(app.title(), "Search: ER_");
    app.confirm_search();
    assert_eq!(app.title(), "Log Viewer - Searches: [1:'ER'] ");
}

#[test]
fn push_decimal_writes_numerals() {
    for n in [0usize, 7, 10, 42, 100, 909, 65535, usize::MAX] {
        let mut s = String::from("n=");
        push_decimal(&mut s, n);
        assert_eq!(s, format!("n={}", n));
    }
}

#[test]
fn keys_outside_an_edit() {
    let mut app = numbered(30);
    assert!(!app.handle_key(Key::Down, 10));
    assert_eq!(app.scroll(), 1);
    assert!(!app.handle_key(Key::Up, 10));
    assert_eq!(app.scroll(), 0);
    assert!(!app.handle_key(Key::PageDown, 10));
    assert_eq!(app.scroll(), 10);
    assert!(!app.handle_key(Key::Char(' '), 10));
    assert_eq!(app.scroll(), 20);
    assert!(!app.handle_key(Key::PageUp, 10));
    assert_eq!(app.scroll(), 10);
    assert!(!app.handle_key(Key::Char('x'), 10));
    assert!(!app.handle_key(Key::Enter, 10));
    assert!(!app.handle_key(Key::Esc, 10));
    assert!(!app.handle_key(Key::Backspace, 10));
    assert!(!app.handle_key(Key::Other, 10));
    assert_eq!(app.scroll(), 10);
    assert_eq!(app.search_pattern(), "");
    assert!(!app.is_searching());
    assert!(app.handle_key(Key::Char('q'), 10));
    assert_eq!(app.scroll(), 10);
}

#[test]
fn keys_during_an_edit() {
    let mut app = sample();
    assert!(!app.handle_key(Key::Char('/'), 10));
    assert!(app.is_searching());
    for c in "q/ 1x".chars() {
        assert!(!app.handle_key(Key::Char(c), 10));
    }
    assert_eq!(app.search_pattern(), "q/ 1x");
    for _ in 0..5 {
        app.handle_key(Key::Backspace, 10);
    }
    for c in "WARN".chars() {
        app.handle_key(Key::Char(c), 10);
    }
    assert!(!app.handle_key(Key::Enter, 10));
    assert!(!app.is_searching());
    assert_eq!(raws(&app), vec!["\x1B[33mWARN\x1B[0m slow".to_string()]);
    app.handle_key(Key::Char('/'), 10);
    app.handle_key(Key::Esc, 10);
    assert!(!app.is_searching());
    assert!(!app.has_filter());
    assert_eq!(app.search_pattern(), "");
}

#[test]
fn digit_keys_recall_slots() {
    let mut app = sample();
    confirm(&mut app, "ERROR");
    confirm(&mut app, "INFO");
    app.handle_key(Key::Char('1'), 10);
    assert_eq!(app.search_pattern(), "ERROR");
    assert_eq!(raws(&app).len(), 3);
    app.handle_key(Key::Char('2'), 10);
    assert_eq!(app.search_pattern(), "INFO");
    assert_eq!(raws(&app).len(), 2);
    app.handle_key(Key::Char('9'), 10);
    assert_eq!(app.search_pattern(), "INFO");
    app.handle_key(Key::Char('0'), 10);
    assert_eq!(app.search_pattern(), "");
    assert_eq!(raws(&app).len(), 6);
}

#[test]
fn scrolling_keys_work_during_an_edit() {
    let mut app = numbered(30);
    app.handle_key(Key::Char('/'), 10);
    app.handle_key(Key::PageDown, 10);
    app.handle_key(Key::Down, 10);
    assert_eq!(app.scroll(), 11);
    app.handle_key(Key::Up, 10);
    app.handle_key(Key::PageUp, 10);
    assert_eq!(app.scroll(), 0);
    assert!(app.is_searching());
}

#[test]
fn scroll_offset_stays_within_bounds_over_a_session() {
    let mut app = numbered(40);
    let height = 7;
    let keys = [
        Key::PageDown, Key::PageDown, Key::PageDown, Key::PageDown, Key::PageDown,
        Key::PageDown, Key::Char('/'), Key::Char('3'), Key::Enter, Key::Down,
        Key::Char('0'), Key::PageDown, Key::Char('/'), Key::Char('['), Key::Enter,
        Key::Char('1'), Key::Up, Key::Char('/'), Key::Esc, Key::PageDown, Key::PageDown,
        Key::PageDown, Key::PageDown, Key::PageDown, Key::PageDown, Key::Char('1'),
    ];
    let mut offsets = Vec::new();
    for key in keys {
        app.handle_key(key, height);
        let count = app.filtered_logs().len();
        assert!(app.scroll() <= count.saturating_sub(height));
        offsets.push(app.scroll());
    }
    assert_eq!(
        offsets,
        vec![7, 14, 21, 28, 33, 33, 33, 33, 6, 6, 6, 13, 13, 13, 13, 6, 5, 5, 5, 12, 19, 26, 33, 33, 33, 6]
    );
}
