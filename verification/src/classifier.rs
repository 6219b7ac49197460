//! The section-aware line classifier: one forward pass over the current
//! document, a single current-section state value, and a routing of every
//! line into the retained, journaled and archived output sequences.

use vstd::multiset::Multiset;
use vstd::prelude::*;

use crate::notes_utils::NotesMetadata;
use crate::stamp::Timestamp;
use crate::text::{
    begins_with, begins_with_ci, begins_with_marker, begins_with_marker_ci, has_marker,
    has_marker_exec, replace_all, replace_marker,
};

verus! {

/// The section the scan is currently inside. Exactly one is current at any
/// point; every generic header resets it before the same line may set a
/// more specific one.
#[derive(Clone, Copy, Debug, PartialEq, Eq, Structural)]
pub enum Section {
    NoSection,
    FrontMatter,
    Active,
    Backlog,
    Done,
}

/// The section after reading `line` while in `cur`, checked in priority
/// order: the generic header prefix resets, a named section title
/// overrides the reset, and the front-matter boundary turns the
/// front-matter section on only when it is not already current — a second
/// boundary line inside front matter does not toggle it off; only the next
/// recognized header leaves it.
pub open spec fn next_section(rules: NotesMetadata, cur: Section, line: Seq<char>) -> Section {
    let s1 = if begins_with(line, rules.todo_section_title_prefix@) {
        Section::NoSection
    } else {
        cur
    };
    let s2 = if begins_with(line, rules.active_todo_section_title@) {
        Section::Active
    } else {
        s1
    };
    let s3 = if begins_with(line, rules.backlog_todo_section_title@) {
        Section::Backlog
    } else {
        s2
    };
    let s4 = if begins_with(line, rules.done_todo_section_title@) {
        Section::Done
    } else {
        s3
    };
    if begins_with(line, rules.front_matter_section_boundry@) && s4 != Section::FrontMatter {
        Section::FrontMatter
    } else {
        s4
    }
}

/// The replacement a journaled line receives for the touch needle: the
/// bracketed stamp, padded with the surrounding spaces the needle carried.
pub open spec fn spec_journal_mark(stamp: Timestamp) -> Seq<char> {
    seq![' '] + stamp.spec_bracket_stamp() + seq![' ']
}

/// The replacement an archived line receives for the complete marker: the
/// bracketed stamp as a list item.
pub open spec fn spec_archive_mark(stamp: Timestamp) -> Seq<char> {
    seq!['-', ' '] + stamp.spec_bracket_stamp() + seq![' ', ' ']
}

/// The rewritten front-matter date line: the date key and the quoted
/// current date.
pub open spec fn spec_date_line(rules: NotesMetadata, stamp: Timestamp) -> Seq<char> {
    rules.front_matter_date_key@ + seq![' ', '"'] + stamp.spec_date_stamp() + seq!['"']
}

/// Where one line goes, given the section it stands in: the lines it adds
/// to the retained, journaled and archived outputs, in that order. A line
/// adds exactly one line to retained or archived, and at most one to
/// journaled.
pub open spec fn classify_line(
    rules: NotesMetadata,
    stamp: Timestamp,
    sec: Section,
    line: Seq<char>,
) -> (Seq<Seq<char>>, Seq<Seq<char>>, Seq<Seq<char>>) {
    match sec {
        Section::FrontMatter => {
            if begins_with_ci(line, rules.front_matter_date_key@) {
                (seq![spec_date_line(rules, stamp)], Seq::empty(), Seq::empty())
            } else {
                (seq![line], Seq::empty(), Seq::empty())
            }
        },
        Section::Active => {
            let journaled: Seq<Seq<char>> = if has_marker(line, rules.journal_line_needle@) {
                seq![replace_all(line, rules.journal_needle@, spec_journal_mark(stamp))]
            } else {
                Seq::empty()
            };
            if has_marker(line, rules.archive_line_needle@) {
                (
                    Seq::empty(),
                    journaled,
                    seq![replace_all(line, rules.archive_line_needle@, spec_archive_mark(stamp))],
                )
            } else {
                (
                    seq![replace_all(line, rules.journal_needle@, seq![' '])],
                    journaled,
                    Seq::empty(),
                )
            }
        },
        Section::Backlog | Section::Done => {
            if has_marker(line, rules.archive_line_needle@) {
                (
                    Seq::empty(),
                    Seq::empty(),
                    seq![replace_all(line, rules.archive_line_needle@, spec_archive_mark(stamp))],
                )
            } else {
                (seq![line], Seq::empty(), Seq::empty())
            }
        },
        Section::NoSection => (seq![line], Seq::empty(), Seq::empty()),
    }
}

/// The section current after scanning all of `lines`, starting outside any
/// section.
pub open spec fn section_after(rules: NotesMetadata, lines: Seq<Seq<char>>) -> Section
    decreases lines.len(),
{
    if lines.len() == 0 {
        Section::NoSection
    } else {
        next_section(rules, section_after(rules, lines.drop_last()), lines.last())
    }
}

/// The three output sequences of one classification pass over `lines`,
/// in document order.
pub open spec fn classify_rec(
    rules: NotesMetadata,
    stamp: Timestamp,
    lines: Seq<Seq<char>>,
) -> (Seq<Seq<char>>, Seq<Seq<char>>, Seq<Seq<char>>)
    decreases lines.len(),
{
    if lines.len() == 0 {
        (Seq::empty(), Seq::empty(), Seq::empty())
    } else {
        let prev = classify_rec(rules, stamp, lines.drop_last());
        let one = classify_line(rules, stamp, section_after(rules, lines), lines.last());
        (prev.0 + one.0, prev.1 + one.1, prev.2 + one.2)
    }
}

/// The three outputs of one classification pass.
pub struct ClassifiedLines {
    /// Lines that stay in the current document, in order, possibly rewritten.
    pub retained: Vec<String>,
    /// Lines copied to the journal, the touch needle replaced by the stamp.
    pub journaled: Vec<String>,
    /// Lines moved to the archive, the complete marker replaced by the
    /// stamped list prefix.
    pub archived: Vec<String>,
}

/// Advance the current-section state over one line.
pub fn advance_section(rules: &NotesMetadata, cur: Section, line: &str) -> (s: Section)
    ensures
        s == next_section(*rules, cur, line@),
{
    let mut sec = cur;
    if begins_with_marker(line, rules.todo_section_title_prefix.as_str()) {
        sec = Section::NoSection;
    }
    if begins_with_marker(line, rules.active_todo_section_title.as_str()) {
        sec = Section::Active;
    }
    if begins_with_marker(line, rules.backlog_todo_section_title.as_str()) {
        sec = Section::Backlog;
    }
    if begins_with_marker(line, rules.done_todo_section_title.as_str()) {
        sec = Section::Done;
    }
    if begins_with_marker(line, rules.front_matter_section_boundry.as_str()) && sec
        != Section::FrontMatter {
        sec = Section::FrontMatter;
    }
    sec
}

/// Render the journal replacement for the touch needle.
pub fn journal_mark(stamp: &Timestamp) -> (r: String)
    requires
        stamp.wf(),
    ensures
        r@ == spec_journal_mark(*stamp),
{
    let mut out = String::new();
    out.append(" ");
    let bracket = stamp.bracket_stamp();
    out.append(bracket.as_str());
    out.append(" ");
    proof {
        reveal_strlit(" ");
        assert(out@ =~= spec_journal_mark(*stamp));
    }
    out
}

/// Render the archive replacement for the complete marker.
pub fn archive_mark(stamp: &Timestamp) -> (r: String)
    requires
        stamp.wf(),
    ensures
        r@ == spec_archive_mark(*stamp),
{
    let mut out = String::new();
    out.append("- ");
    let bracket = stamp.bracket_stamp();
    out.append(bracket.as_str());
    out.append("  ");
    proof {
        reveal_strlit("- ");
        reveal_strlit("  ");
        assert(out@ =~= spec_archive_mark(*stamp));
    }
    out
}

/// Render the rewritten front-matter date line.
pub fn date_line(rules: &NotesMetadata, stamp: &Timestamp) -> (r: String)
    requires
        stamp.wf(),
    ensures
        r@ == spec_date_line(*rules, *stamp),
{
    let mut out = String::new();
    out.append(rules.front_matter_date_key.as_str());
    out.append(" \"");
    let date = stamp.date_stamp();
    out.append(date.as_str());
    out.append("\"");
    proof {
        reveal_strlit(" \"");
        reveal_strlit("\"");
        assert(out@ =~= spec_date_line(*rules, *stamp));
    }
    out
}

/// One classification pass: scan `lines` in order, thread the section
/// state, and route every line into the three outputs.
pub fn classify(rules: &NotesMetadata, stamp: &Timestamp, lines: &Vec<String>) -> (out:
    ClassifiedLines)
    requires
        rules.wf(),
        stamp.wf(),
    ensures
        out.retained.deep_view() == classify_rec(*rules, *stamp, lines.deep_view()).0,
        out.journaled.deep_view() == classify_rec(*rules, *stamp, lines.deep_view()).1,
        out.archived.deep_view() == classify_rec(*rules, *stamp, lines.deep_view()).2,
{
    let mut retained: Vec<String> = Vec::new();
    let mut journaled: Vec<String> = Vec::new();
    let mut archived: Vec<String> = Vec::new();
    let mut sec = Section::NoSection;
    let mut i: usize = 0;
    proof {
        assert(lines.deep_view().take(0) =~~= Seq::<Seq<char>>::empty());
    }
    while i < lines.len()
        invariant
            i <= lines@.len(),
            rules.wf(),
            stamp.wf(),
            sec == section_after(*rules, lines.deep_view().take(i as int)),
            retained.deep_view() == classify_rec(*rules, *stamp, lines.deep_view().take(i as int)).0,
            journaled.deep_view() == classify_rec(*rules, *stamp, lines.deep_view().take(i as int)).1,
            archived.deep_view() == classify_rec(*rules, *stamp, lines.deep_view().take(i as int)).2,
        decreases lines@.len() - i,
    {
        let ghost prefix = lines.deep_view().take(i as int);
        let ghost prefix1 = lines.deep_view().take(i + 1);
        let ghost r0 = retained.deep_view();
        let ghost j0 = journaled.deep_view();
        let ghost a0 = archived.deep_view();
        proof {
            assert(prefix1.drop_last() =~~= prefix);
            assert(prefix1.last() == lines.deep_view()[i as int]);
        }
        let line = &lines[i];
        sec = advance_section(rules, sec, line.as_str());
        proof {
            assert(sec == section_after(*rules, prefix1));
        }
        match sec {
            Section::FrontMatter => {
                if begins_with_marker_ci(line.as_str(), rules.front_matter_date_key.as_str()) {
                    let rewritten = date_line(rules, stamp);
                    retained.push(rewritten);
                } else {
                    retained.push(line.clone());
                }
            },
            Section::Active => {
                if has_marker_exec(line.as_str(), rules.journal_line_needle.as_str()) {
                    let mark = journal_mark(stamp);
                    journaled.push(
                        replace_marker(
                            line.as_str(),
                            rules.journal_needle.as_str(),
                            mark.as_str(),
                        ),
                    );
                }
                if has_marker_exec(line.as_str(), rules.archive_line_needle.as_str()) {
                    let mark = archive_mark(stamp);
                    archived.push(
                        replace_marker(
                            line.as_str(),
                            rules.archive_line_needle.as_str(),
                            mark.as_str(),
                        ),
                    );
                } else {
                    proof {
                        reveal_strlit(" ");
                        assert(" "@ =~= seq![' ']);
                    }
                    retained.push(
                        replace_marker(line.as_str(), rules.journal_needle.as_str(), " "),
                    );
                }
            },
            Section::Backlog | Section::Done => {
                if has_marker_exec(line.as_str(), rules.archive_line_needle.as_str()) {
                    let mark = archive_mark(stamp);
                    archived.push(
                        replace_marker(
                            line.as_str(),
                            rules.archive_line_needle.as_str(),
                            mark.as_str(),
                        ),
                    );
                } else {
                    retained.push(line.clone());
                }
            },
            Section::NoSection => {
                retained.push(line.clone());
            },
        }
        proof {
            let one = classify_line(*rules, *stamp, sec, lines.deep_view()[i as int]);
            assert(classify_rec(*rules, *stamp, prefix1).0 == classify_rec(
                *rules,
                *stamp,
                prefix,
            ).0 + one.0);
            assert(classify_rec(*rules, *stamp, prefix1).1 == classify_rec(
                *rules,
                *stamp,
                prefix,
            ).1 + one.1);
            assert(classify_rec(*rules, *stamp, prefix1).2 == classify_rec(
                *rules,
                *stamp,
                prefix,
            ).2 + one.2);
            assert(retained.deep_view() =~~= r0 + one.0);
            assert(journaled.deep_view() =~~= j0 + one.1);
            assert(archived.deep_view() =~~= a0 + one.2);
        }
        i = i + 1;
    }
    proof {
        assert(lines.deep_view().take(lines@.len() as int) =~~= lines.deep_view());
    }
    ClassifiedLines { retained, journaled, archived }
}

/// No line is ever lost: over any document, every line contributes exactly
/// one line to the retained and archived outputs taken together, and at
/// most one further copy to the journaled output (the copy a touched line
/// earns), so the classification pass accounts for each input line exactly
/// once.
pub proof fn lemma_classify_no_loss(rules: NotesMetadata, stamp: Timestamp, lines: Seq<Seq<char>>)
    ensures
        classify_rec(rules, stamp, lines).0.len() + classify_rec(rules, stamp, lines).2.len()
            == lines.len(),
        classify_rec(rules, stamp, lines).1.len() <= lines.len(),
    decreases lines.len(),
{
    if lines.len() > 0 {
        lemma_classify_no_loss(rules, stamp, lines.drop_last());
        let one = classify_line(rules, stamp, section_after(rules, lines), lines.last());
        assert(one.0.len() + one.2.len() == 1);
        assert(one.1.len() <= 1);
    }
}

/// The one line that `line` adds to the retained and archived outputs
/// together, given the section it stands in.
pub open spec fn routed_line(
    rules: NotesMetadata,
    stamp: Timestamp,
    sec: Section,
    line: Seq<char>,
) -> Seq<char> {
    let one = classify_line(rules, stamp, sec, line);
    (one.0 + one.2)[0]
}

/// The per-line contributions of a whole document to the retained and
/// archived outputs, in document order: the i-th entry is what the i-th
/// line becomes, under the section current at that line.
pub open spec fn routed_lines(
    rules: NotesMetadata,
    stamp: Timestamp,
    lines: Seq<Seq<char>>,
) -> Seq<Seq<char>> {
    Seq::new(
        lines.len(),
        |i: int|
            routed_line(rules, stamp, section_after(rules, lines.take(i + 1)), lines[i]),
    )
}

/// No loss, as a multiset: the lines of the retained and archived outputs
/// taken together are, as a multiset, exactly the per-line images of the
/// document — each input line is accounted for once, as the line it
/// became; the journaled output holds only the extra copies that touched
/// lines earn.
pub proof fn lemma_classify_no_loss_multiset(
    rules: NotesMetadata,
    stamp: Timestamp,
    lines: Seq<Seq<char>>,
)
    ensures
        (classify_rec(rules, stamp, lines).0 + classify_rec(rules, stamp, lines).2).to_multiset()
            == routed_lines(rules, stamp, lines).to_multiset(),
    decreases lines.len(),
{
    broadcast use vstd::seq_lib::group_to_multiset_ensures;
    broadcast use vstd::multiset::group_multiset_axioms;

    if lines.len() == 0 {
        assert(classify_rec(rules, stamp, lines).0 + classify_rec(rules, stamp, lines).2
            =~~= Seq::<Seq<char>>::empty());
        assert(routed_lines(rules, stamp, lines) =~~= Seq::<Seq<char>>::empty());
        assert((classify_rec(rules, stamp, lines).0 + classify_rec(rules, stamp, lines).2)
            .to_multiset() =~= routed_lines(rules, stamp, lines).to_multiset());
    } else {
        let prev = lines.drop_last();
        lemma_classify_no_loss_multiset(rules, stamp, prev);
        let p = classify_rec(rules, stamp, prev);
        let whole = classify_rec(rules, stamp, lines);
        let one = classify_line(rules, stamp, section_after(rules, lines), lines.last());
        let img = routed_line(rules, stamp, section_after(rules, lines), lines.last());
        assert(one.0 + one.2 =~~= seq![img]);
        vstd::seq_lib::lemma_multiset_commutative(whole.0, whole.2);
        vstd::seq_lib::lemma_multiset_commutative(p.0, one.0);
        vstd::seq_lib::lemma_multiset_commutative(p.2, one.2);
        vstd::seq_lib::lemma_multiset_commutative(p.0, p.2);
        assert((whole.0 + whole.2).to_multiset() =~= (p.0 + p.2).to_multiset().add(
            seq![img].to_multiset(),
        ));
        let routed_prev = routed_lines(rules, stamp, prev);
        assert forall|i: int| 0 <= i < lines.len() implies routed_lines(rules, stamp, lines)[i]
            == routed_prev.push(img)[i] by {
            if i < lines.len() - 1 {
                assert(prev.take(i + 1) =~~= lines.take(i + 1));
                assert(prev[i] == lines[i]);
            } else {
                assert(lines.take(lines.len() as int) =~~= lines);
            }
        }
        assert(routed_lines(rules, stamp, lines) =~= routed_prev.push(img));
        vstd::seq_lib::to_multiset_build(routed_prev, img);
        assert(seq![img] =~~= Seq::<Seq<char>>::empty().push(img));
        vstd::seq_lib::to_multiset_build(Seq::<Seq<char>>::empty(), img);
        assert(Seq::<Seq<char>>::empty().to_multiset() =~= Multiset::<Seq<char>>::empty());
        assert((whole.0 + whole.2).to_multiset() =~= routed_lines(
            rules,
            stamp,
            lines,
        ).to_multiset());
    }
}

/// A generic header line that is none of the named section titles, and not
/// a front-matter boundary, resets the current section to none, whatever
/// it was.
pub proof fn lemma_section_reset(rules: NotesMetadata, cur: Section, line: Seq<char>)
    requires
        begins_with(line, rules.todo_section_title_prefix@),
        !begins_with(line, rules.active_todo_section_title@),
        !begins_with(line, rules.backlog_todo_section_title@),
        !begins_with(line, rules.done_todo_section_title@),
        !begins_with(line, rules.front_matter_section_boundry@),
    ensures
        next_section(rules, cur, line) == Section::NoSection,
{
}

/// A blank line is retained verbatim whatever section it stands in — it is
/// never journaled, archived or rewritten — as long as the markers that
/// could match it are not themselves empty.
pub proof fn lemma_blank_line_retained(rules: NotesMetadata, stamp: Timestamp, sec: Section)
    requires
        rules.wf(),
        rules.journal_line_needle@.len() > 0,
        rules.front_matter_date_key@.len() > 0,
    ensures
        classify_line(rules, stamp, sec, Seq::empty()) == (
            seq![Seq::<char>::empty()],
            Seq::<Seq<char>>::empty(),
            Seq::<Seq<char>>::empty(),
        ),
{
    let blank = Seq::<char>::empty();
    assert(!has_marker(blank, rules.journal_line_needle@));
    assert(!has_marker(blank, rules.archive_line_needle@));
    assert(replace_all(blank, rules.journal_needle@, seq![' ']) == blank);
}

/// Outside every recognized section a line is retained verbatim: it is
/// neither journaled nor archived nor rewritten.
pub proof fn lemma_no_section_retains(rules: NotesMetadata, stamp: Timestamp, line: Seq<char>)
    ensures
        classify_line(rules, stamp, Section::NoSection, line) == (
            seq![line],
            Seq::<Seq<char>>::empty(),
            Seq::<Seq<char>>::empty(),
        ),
{
}

} // verus!
