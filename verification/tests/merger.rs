use notesman::merger::merge_lines;
use notesman::stamp::Timestamp;

fn stamp() -> Timestamp {
    Timestamp { year: 2024, month: 1, day: 15, hour: 9, minute: 30, pm: false }
}

fn doc(lines: &[&str]) -> Vec<String> {
    lines.iter().map(|s| s.to_string()).collect()
}

fn fresh_header(label: &str) -> Vec<String> {
    doc(&[
        "+++",
        &format!("Title = \"TODO {}, 2024-01-15 09:30AM\"", label),
        "Date = \"2024-01-15\"",
        &format!("Tags = [\"TODO-{}\"]", label),
        "+++",
    ])
}

#[test]
fn merge_into_missing_target_writes_header_and_new_body() {
    let new_lines = doc(&["task one", "- task two"]);
    let merged = merge_lines("journal", &stamp(), &new_lines, None);
    let mut expected = fresh_header("journal");
    expected.extend(doc(&["- task one", "- task two"]));
    assert_eq!(merged, expected);
}

#[test]
fn merge_strips_old_header_and_keeps_old_body_after_new() {
    let old = doc(&[
        "+++",
        "Title = \"TODO archive, 2023-11-02 08:00PM\"",
        "Date = \"2023-11-02\"",
        "Tags = [\"TODO-archive\"]",
        "+++",
        "- old item",
    ]);
    let new_lines = doc(&["new item"]);
    let merged = merge_lines("archive", &stamp(), &new_lines, Some(&old));
    let mut expected = fresh_header("archive");
    expected.extend(doc(&["- new item", "- old item"]));
    assert_eq!(merged, expected);
    // One header and one line per old or new body line: 5 + 1 + 1.
    assert_eq!(merged.len(), 7);
}

#[test]
fn merge_with_no_new_lines_changes_only_the_header() {
    let old = doc(&[
        "+++",
        "Title = \"TODO journal, 2023-11-02 08:00PM\"",
        "Date = \"2023-11-02\"",
        "Tags = [\"TODO-journal\"]",
        "+++",
        "- kept one",
        "kept two",
    ]);
    let merged = merge_lines("journal", &stamp(), &doc(&[]), Some(&old));
    let mut expected = fresh_header("journal");
    expected.extend(doc(&["- kept one", "- kept two"]));
    assert_eq!(merged, expected);
    // The body count is unchanged: two lines in, two lines out.
    assert_eq!(merged.len() - fresh_header("journal").len(), 2);
}

#[test]
fn merge_drops_short_and_field_lines_of_the_old_header_only() {
    let old = doc(&[
        "+++",
        "Title = \"old\"",
        "+++",
        "ab",
        "Title = kept outside the header block",
    ]);
    let merged = merge_lines("journal", &stamp(), &doc(&[]), Some(&old));
    let mut expected = fresh_header("journal");
    // "ab" is two characters and is dropped; the field-looking line stands
    // outside the header block and survives, as a list item.
    expected.extend(doc(&["- Title = kept outside the header block"]));
    assert_eq!(merged, expected);
}

#[test]
fn merge_keeps_non_field_lines_found_inside_the_old_header() {
    let old = doc(&["+++", "stray note", "+++"]);
    let merged = merge_lines("journal", &stamp(), &doc(&[]), Some(&old));
    let mut expected = fresh_header("journal");
    expected.extend(doc(&["- stray note"]));
    assert_eq!(merged, expected);
}

#[test]
fn merge_uses_capital_half_day_mark_in_the_title() {
    let evening = Timestamp { year: 2022, month: 6, day: 7, hour: 8, minute: 3, pm: true };
    let merged = merge_lines("archive", &evening, &doc(&[]), None);
    assert_eq!(merged[1], "Title = \"TODO archive, 2022-06-07 08:03PM\"");
    assert_eq!(merged[2], "Date = \"2022-06-07\"");
}
