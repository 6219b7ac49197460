use notesman::classifier::classify;
use notesman::notes_utils::NotesMetadata;
use notesman::stamp::Timestamp;

fn rules() -> NotesMetadata {
    NotesMetadata::default()
}

fn stamp() -> Timestamp {
    Timestamp { year: 2024, month: 1, day: 15, hour: 9, minute: 30, pm: false }
}

fn doc(lines: &[&str]) -> Vec<String> {
    lines.iter().map(|s| s.to_string()).collect()
}

#[test]
fn scenario_journaling() {
    let out = classify(&rules(), &stamp(), &doc(&["## ACTIVE", "- [ ] buy milk] . "]));
    assert_eq!(out.journaled, doc(&["- [ ] buy milk] [2024-01-15, 09:30am] "]));
    assert_eq!(out.retained, doc(&["## ACTIVE", "- [ ] buy milk] "]));
    assert_eq!(out.archived, doc(&[]));
}

#[test]
fn scenario_completion() {
    let out = classify(&rules(), &stamp(), &doc(&["## ACTIVE", "- [x] finish report"]));
    assert_eq!(out.archived, doc(&["- [2024-01-15, 09:30am]  finish report"]));
    assert_eq!(out.retained, doc(&["## ACTIVE"]));
    assert_eq!(out.journaled, doc(&[]));
}

#[test]
fn scenario_backlog_passthrough() {
    let out = classify(&rules(), &stamp(), &doc(&["## BACKLOG", "- some idea"]));
    assert_eq!(out.retained, doc(&["## BACKLOG", "- some idea"]));
    assert_eq!(out.journaled, doc(&[]));
    assert_eq!(out.archived, doc(&[]));
}

#[test]
fn scenario_front_matter_date_update() {
    let out = classify(&rules(), &stamp(), &doc(&["---", "date: 2023-01-01"]));
    assert_eq!(out.retained, doc(&["---", "date: \"2024-01-15\""]));
    assert_eq!(out.journaled, doc(&[]));
    assert_eq!(out.archived, doc(&[]));
}

#[test]
fn front_matter_date_key_is_case_insensitive() {
    let out = classify(&rules(), &stamp(), &doc(&["---", "Date: 2023-01-01"]));
    assert_eq!(out.retained, doc(&["---", "date: \"2024-01-15\""]));
}

#[test]
fn unrecognized_header_resets_section() {
    let lines = doc(&["## ACTIVE", "- [x] swept", "## NOTES", "- [x] kept as is"]);
    let out = classify(&rules(), &stamp(), &lines);
    assert_eq!(out.retained, doc(&["## ACTIVE", "## NOTES", "- [x] kept as is"]));
    assert_eq!(out.archived, doc(&["- [2024-01-15, 09:30am]  swept"]));
}

#[test]
fn done_section_archives_completed_lines() {
    let out = classify(&rules(), &stamp(), &doc(&["## DONE", "- [x] shipped", "- note"]));
    assert_eq!(out.archived, doc(&["- [2024-01-15, 09:30am]  shipped"]));
    assert_eq!(out.retained, doc(&["## DONE", "- note"]));
}

#[test]
fn touched_and_completed_line_is_journaled_and_archived() {
    let out = classify(&rules(), &stamp(), &doc(&["## ACTIVE", "- [x] did thing] . "]));
    assert_eq!(out.journaled, doc(&["- [x] did thing] [2024-01-15, 09:30am] "]));
    assert_eq!(out.archived, doc(&["- [2024-01-15, 09:30am]  did thing] . "]));
    assert_eq!(out.retained, doc(&["## ACTIVE"]));
}

#[test]
fn second_boundary_stays_in_front_matter() {
    // The boundary marker toggles front matter on only: a second boundary
    // line while already inside does not leave it, so later lines are still
    // treated as front matter until the next recognized header.
    let lines = doc(&["---", "title: x", "---", "plain line", "## ACTIVE", "- [x] a"]);
    let out = classify(&rules(), &stamp(), &lines);
    assert_eq!(
        out.retained,
        doc(&["---", "title: x", "---", "plain line", "## ACTIVE"])
    );
    assert_eq!(out.archived, doc(&["- [2024-01-15, 09:30am]  a"]));
}

#[test]
fn empty_document_gives_three_empty_outputs() {
    let out = classify(&rules(), &stamp(), &doc(&[]));
    assert_eq!(out.retained, doc(&[]));
    assert_eq!(out.journaled, doc(&[]));
    assert_eq!(out.archived, doc(&[]));
}

#[test]
fn blank_and_plain_lines_are_retained_verbatim() {
    let lines = doc(&["", "free text", "- a list item"]);
    let out = classify(&rules(), &stamp(), &lines);
    assert_eq!(out.retained, lines);
    assert_eq!(out.journaled, doc(&[]));
    assert_eq!(out.archived, doc(&[]));
}

#[test]
fn no_line_is_lost_in_a_mixed_document() {
    let lines = doc(&[
        "---",
        "date: old",
        "---",
        "## ACTIVE",
        "- [ ] touched] . ",
        "- [x] closed",
        "",
        "## BACKLOG",
        "- idea",
        "## DONE",
        "- [x] archived",
        "afterword",
    ]);
    let out = classify(&rules(), &stamp(), &lines);
    assert_eq!(out.retained.len() + out.archived.len(), lines.len());
    assert!(out.journaled.len() <= lines.len());
}

#[test]
fn touch_marker_alone_is_replaced_by_one_space() {
    let out = classify(&rules(), &stamp(), &doc(&["## ACTIVE", "- [ ] polish . draft"]));
    // The needle carries its surrounding spaces, so one space is left behind.
    assert_eq!(out.retained, doc(&["## ACTIVE", "- [ ] polish draft"]));
    // No compound marker, so nothing is journaled.
    assert_eq!(out.journaled, doc(&[]));
}

#[test]
fn pm_stamp_is_rendered_in_the_outputs() {
    let noon = Timestamp { year: 2023, month: 12, day: 3, hour: 12, minute: 5, pm: true };
    let out = classify(&rules(), &noon, &doc(&["## ACTIVE", "- [x] lunch"]));
    assert_eq!(out.archived, doc(&["- [2023-12-03, 12:05pm]  lunch"]));
}
