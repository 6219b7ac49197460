//! The recognition rules: the literal marker strings the classifier matches
//! lines against, gathered into one immutable configuration value that is
//! built once per run and passed explicitly wherever it is read.

use vstd::prelude::*;

verus! {

/// The marker strings that drive line classification: needles that flag a
/// line as touched or completed, the markdown section titles, and the
/// front-matter markers.
pub struct NotesMetadata {
    /// The string whose presence says "journal this line"; replaced by the
    /// stamp when the line is journaled.
    pub journal_needle: String,
    /// The compound marker a journal-ready line carries: a closing checkbox
    /// bracket followed by the journal needle.
    pub journal_line_needle: String,
    /// A checked checkbox: the line is done and is swept to the archive.
    pub archive_line_needle: String,
    /// The markdown list-item marker.
    pub list_line_needle: String,
    /// The generic section-header prefix; any header resets the section.
    pub todo_section_title_prefix: String,
    /// The header that opens the active section.
    pub active_todo_section_title: String,
    /// The header that opens the done section.
    pub done_todo_section_title: String,
    /// The header that opens the backlog section.
    pub backlog_todo_section_title: String,
    /// The front-matter boundary marker of the static-site generator.
    pub front_matter_section_boundry: String,
    /// The front-matter key whose line is rewritten to the current date.
    pub front_matter_date_key: String,
}

impl NotesMetadata {
    /// The two needles that are replaced within a line must be non-empty,
    /// or replacement would be meaningless.
    pub open spec fn wf(self) -> bool {
        &&& self.journal_needle@.len() > 0
        &&& self.archive_line_needle@.len() > 0
    }
}

impl Default for NotesMetadata {
    /// The standard markers of the ledger's file format.
    fn default() -> (r: Self)
        ensures
            r.journal_needle@ == " . "@,
            r.journal_line_needle@ == "] . "@,
            r.archive_line_needle@ == "- [x] "@,
            r.list_line_needle@ == "- "@,
            r.todo_section_title_prefix@ == "## "@,
            r.active_todo_section_title@ == "## ACTIVE"@,
            r.done_todo_section_title@ == "## DONE"@,
            r.backlog_todo_section_title@ == "## BACKLOG"@,
            r.front_matter_section_boundry@ == "---"@,
            r.front_matter_date_key@ == "date:"@,
            r.wf(),
    {
        let r = NotesMetadata {
            journal_needle: String::from_str(" . "),
            journal_line_needle: String::from_str("] . "),
            archive_line_needle: String::from_str("- [x] "),
            list_line_needle: String::from_str("- "),
            todo_section_title_prefix: String::from_str("## "),
            active_todo_section_title: String::from_str("## ACTIVE"),
            done_todo_section_title: String::from_str("## DONE"),
            backlog_todo_section_title: String::from_str("## BACKLOG"),
            front_matter_section_boundry: String::from_str("---"),
            front_matter_date_key: String::from_str("date:"),
        };
        proof {
            reveal_strlit(" . ");
            reveal_strlit("- [x] ");
        }
        r
    }
}

} // verus!
