use notesman::filenames::{archive_filename, backup_filename, is_ledger_name, journal_filename};
use notesman::stamp::{now, Timestamp};
use notesman::text::{render_document, replace_marker, split_lines};

fn doc(lines: &[&str]) -> Vec<String> {
    lines.iter().map(|s| s.to_string()).collect()
}

#[test]
fn split_keeps_one_line_per_terminator_plus_one() {
    assert_eq!(split_lines("a\nb\n"), doc(&["a", "b", ""]));
    assert_eq!(split_lines("a\nb"), doc(&["a", "b"]));
    assert_eq!(split_lines(""), doc(&[""]));
    assert_eq!(split_lines("\n"), doc(&["", ""]));
}

#[test]
fn render_joins_with_single_terminators() {
    assert_eq!(render_document(&doc(&["a", "b"])), "a\nb");
    assert_eq!(render_document(&doc(&["a", "b", ""])), "a\nb\n");
    assert_eq!(render_document(&doc(&[""])), "");
}

#[test]
fn split_then_render_restores_the_document() {
    for text in ["", "\n", "one line", "a\nb\nc\n", "trailing\n\n", "\n\nleading"] {
        assert_eq!(render_document(&split_lines(text)), text);
    }
}

#[test]
fn replace_rewrites_every_occurrence_left_to_right() {
    assert_eq!(replace_marker("a.b.c", ".", "-"), "a-b-c");
    assert_eq!(replace_marker("xxxx", "xx", "y"), "yy");
    assert_eq!(replace_marker("none here", "zz", "y"), "none here");
}

#[test]
fn date_and_clock_stamps_are_zero_padded() {
    let t = Timestamp { year: 2024, month: 1, day: 15, hour: 9, minute: 30, pm: false };
    assert_eq!(t.date_stamp(), "2024-01-15");
    assert_eq!(t.clock_stamp(), "09:30am");
    assert_eq!(t.clock_stamp_upper(), "09:30AM");
    assert_eq!(t.bracket_stamp(), "[2024-01-15, 09:30am]");
}

#[test]
fn stamps_render_afternoon_and_small_years() {
    let t = Timestamp { year: 800, month: 12, day: 3, hour: 12, minute: 5, pm: true };
    assert_eq!(t.date_stamp(), "800-12-03");
    assert_eq!(t.bracket_stamp(), "[800-12-03, 12:05pm]");
}

#[test]
fn clock_reading_lies_on_the_dial() {
    let t = now();
    assert!((1..=12).contains(&t.month));
    assert!((1..=31).contains(&t.day));
    assert!((1..=12).contains(&t.hour));
    assert!(t.minute <= 59);
}

#[test]
fn filenames_derive_from_the_document_name() {
    assert_eq!(journal_filename("todo.md"), "todo.journal.md");
    assert_eq!(archive_filename("todo.md"), "todo.archive.md");
    assert_eq!(backup_filename("todo.md"), ".todo.md.bak");
}

#[test]
fn only_the_recognized_extension_is_accepted() {
    assert!(is_ledger_name("todo.md"));
    assert!(is_ledger_name("a.md"));
    assert!(!is_ledger_name("todo.txt"));
    assert!(!is_ledger_name("md"));
    assert!(!is_ledger_name(""));
}
