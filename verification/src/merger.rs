//! The ledger merger: build a fresh front-matter header, format the newly
//! extracted lines as list items, strip the old header out of the previous
//! contents of the side document, and put the new content first.

use vstd::prelude::*;

use crate::stamp::Timestamp;
use crate::text::{begins_with, begins_with_marker};

verus! {

/// `line` as a markdown list item: already-formatted list items pass
/// through unchanged, anything else gets the list marker prepended.
pub open spec fn as_list_item(line: Seq<char>) -> Seq<char> {
    if begins_with(line, "- "@) {
        line
    } else {
        "- "@ + line
    }
}

/// `line` opens with one of the known header field names of a side
/// document's front-matter block.
pub open spec fn is_field_line(line: Seq<char>) -> bool {
    ||| begins_with(line, "Title ="@)
    ||| begins_with(line, "Date ="@)
    ||| begins_with(line, "Tags ="@)
    ||| begins_with(line, "Category ="@)
}

/// The fresh header block written at the top of a merged side document:
/// boundary, title with the label and the stamp, date, tags, boundary.
pub open spec fn spec_header_lines(label: Seq<char>, stamp: Timestamp) -> Seq<Seq<char>> {
    seq![
        "+++"@,
        "Title = \"TODO "@ + label + ", "@ + stamp.spec_date_stamp() + seq![' ']
            + stamp.spec_clock_stamp_upper() + seq!['"'],
        "Date = \""@ + stamp.spec_date_stamp() + seq!['"'],
        "Tags = [\"TODO-"@ + label + "\"]"@,
        "+++"@,
    ]
}

/// The header-stripping state after one old line: a boundary line toggles
/// whether the scan stands inside the old front-matter block.
pub open spec fn strip_step_state(inside: bool, line: Seq<char>) -> bool {
    if begins_with(line, "+++"@) {
        !inside
    } else {
        inside
    }
}

/// What one old line contributes to the merged body: boundary lines and,
/// inside the old header block, field lines are dropped; so is anything of
/// two characters or fewer; every surviving line is kept as a list item.
pub open spec fn strip_step_out(inside: bool, line: Seq<char>) -> Seq<Seq<char>> {
    if begins_with(line, "+++"@) {
        Seq::empty()
    } else if inside && is_field_line(line) {
        Seq::empty()
    } else if line.len() > 2 {
        seq![as_list_item(line)]
    } else {
        Seq::empty()
    }
}

/// The header-stripping state after scanning all of `lines` from `inside`.
pub open spec fn strip_state_from(inside: bool, lines: Seq<Seq<char>>) -> bool
    decreases lines.len(),
{
    if lines.len() == 0 {
        inside
    } else {
        strip_step_state(strip_state_from(inside, lines.drop_last()), lines.last())
    }
}

/// The lines that survive header stripping of `lines`, scanned from
/// `inside`, in order and re-formatted as list items.
pub open spec fn strip_from(inside: bool, lines: Seq<Seq<char>>) -> Seq<Seq<char>>
    decreases lines.len(),
{
    if lines.len() == 0 {
        Seq::empty()
    } else {
        strip_from(inside, lines.drop_last()) + strip_step_out(
            strip_state_from(inside, lines.drop_last()),
            lines.last(),
        )
    }
}

/// The old contents of a side document with its header block stripped,
/// starting outside any block.
pub open spec fn spec_strip(lines: Seq<Seq<char>>) -> Seq<Seq<char>> {
    strip_from(false, lines)
}

/// The new lines, each formatted as a list item.
pub open spec fn spec_new_body(new_lines: Seq<Seq<char>>) -> Seq<Seq<char>> {
    new_lines.map_values(|line: Seq<char>| as_list_item(line))
}

/// The view of an optional old document, line by line.
pub open spec fn opt_lines_view(old_lines: Option<&Vec<String>>) -> Option<Seq<Seq<char>>> {
    match old_lines {
        Some(v) => Some(v.deep_view()),
        None => None,
    }
}

/// The whole merged side document: fresh header, then the new lines as
/// list items (newest content first), then what survives of the old
/// contents.
pub open spec fn spec_merge(
    label: Seq<char>,
    stamp: Timestamp,
    new_lines: Seq<Seq<char>>,
    old_lines: Option<Seq<Seq<char>>>,
) -> Seq<Seq<char>> {
    spec_header_lines(label, stamp) + spec_new_body(new_lines) + (match old_lines {
        Some(lines) => spec_strip(lines),
        None => Seq::empty(),
    })
}

/// Decide whether `line` opens with a known header field name.
fn is_field_marker(line: &str) -> (r: bool)
    ensures
        r == is_field_line(line@),
{
    begins_with_marker(line, "Title =") || begins_with_marker(line, "Date =")
        || begins_with_marker(line, "Tags =") || begins_with_marker(line, "Category =")
}

/// Append `line` to `out` as a list item.
fn push_list_item(out: &mut Vec<String>, line: &String)
    ensures
        final(out).deep_view() == old(out).deep_view().push(as_list_item(line@)),
{
    if begins_with_marker(line.as_str(), "- ") {
        out.push(line.clone());
    } else {
        let mut item = String::from_str("- ");
        item.append(line.as_str());
        out.push(item);
    }
    proof {
        assert(out.deep_view() =~~= old(out).deep_view().push(as_list_item(line@)));
    }
}

/// Render the fresh header block for a side document.
pub fn header_lines(label: &str, stamp: &Timestamp) -> (r: Vec<String>)
    requires
        stamp.wf(),
    ensures
        r.deep_view() == spec_header_lines(label@, *stamp),
{
    let date = stamp.date_stamp();
    let clock = stamp.clock_stamp_upper();
    let mut r: Vec<String> = Vec::new();
    r.push(String::from_str("+++"));
    let mut title = String::from_str("Title = \"TODO ");
    title.append(label);
    title.append(", ");
    title.append(date.as_str());
    title.append(" ");
    title.append(clock.as_str());
    title.append("\"");
    r.push(title);
    let mut date_field = String::from_str("Date = \"");
    date_field.append(date.as_str());
    date_field.append("\"");
    r.push(date_field);
    let mut tags = String::from_str("Tags = [\"TODO-");
    tags.append(label);
    tags.append("\"]");
    r.push(tags);
    r.push(String::from_str("+++"));
    proof {
        reveal_strlit(" ");
        reveal_strlit("\"");
        assert(r.deep_view() =~~= spec_header_lines(label@, *stamp));
    }
    r
}

/// Merge the newly extracted `new_lines` into the previous contents of a
/// side document, if it had any: fresh header first, then the new lines as
/// list items, then the old contents with their header stripped.
pub fn merge_lines(
    label: &str,
    stamp: &Timestamp,
    new_lines: &Vec<String>,
    old_lines: Option<&Vec<String>>,
) -> (r: Vec<String>)
    requires
        stamp.wf(),
    ensures
        r.deep_view() == spec_merge(label@, *stamp, new_lines.deep_view(), opt_lines_view(
            old_lines,
        )),
{
    let mut out = header_lines(label, stamp);
    let ghost header = out.deep_view();
    let mut j: usize = 0;
    proof {
        assert(new_lines.deep_view().take(0) =~~= Seq::<Seq<char>>::empty());
        assert(out.deep_view() =~~= header + spec_new_body(new_lines.deep_view().take(0)));
    }
    while j < new_lines.len()
        invariant
            j <= new_lines@.len(),
            header == spec_header_lines(label@, *stamp),
            out.deep_view() == header + spec_new_body(new_lines.deep_view().take(j as int)),
        decreases new_lines@.len() - j,
    {
        let ghost prev = out.deep_view();
        push_list_item(&mut out, &new_lines[j]);
        proof {
            assert(new_lines.deep_view().take(j + 1).drop_last() =~~= new_lines.deep_view().take(
                j as int,
            ));
            assert(out.deep_view() =~~= header + spec_new_body(
                new_lines.deep_view().take(j + 1),
            ));
        }
        j = j + 1;
    }
    proof {
        assert(new_lines.deep_view().take(new_lines@.len() as int) =~~= new_lines.deep_view());
    }
    let ghost with_new = header + spec_new_body(new_lines.deep_view());
    match old_lines {
        None => {
            proof {
                assert(out.deep_view() =~~= spec_merge(
                    label@,
                    *stamp,
                    new_lines.deep_view(),
                    opt_lines_view(old_lines),
                ));
            }
            out
        },
        Some(old_doc) => {
            let mut inside = false;
            let mut k: usize = 0;
            proof {
                assert(old_doc.deep_view().take(0) =~~= Seq::<Seq<char>>::empty());
                assert(out.deep_view() =~~= with_new + strip_from(
                    false,
                    old_doc.deep_view().take(0),
                ));
            }
            while k < old_doc.len()
                invariant
                    k <= old_doc@.len(),
                    with_new == header + spec_new_body(new_lines.deep_view()),
                    inside == strip_state_from(false, old_doc.deep_view().take(k as int)),
                    out.deep_view() == with_new + strip_from(
                        false,
                        old_doc.deep_view().take(k as int),
                    ),
                decreases old_doc@.len() - k,
            {
                let ghost prefix = old_doc.deep_view().take(k as int);
                let ghost prefix1 = old_doc.deep_view().take(k + 1);
                let ghost out0 = out.deep_view();
                proof {
                    assert(prefix1.drop_last() =~~= prefix);
                    assert(prefix1.last() == old_doc.deep_view()[k as int]);
                }
                let line = &old_doc[k];
                if begins_with_marker(line.as_str(), "+++") {
                    // a boundary line: toggles the block, and is dropped
                    inside = !inside;
                } else if inside && is_field_marker(line.as_str()) {
                    // an old header field: dropped, never kept
                } else if line.as_str().unicode_len() > 2 {
                    push_list_item(&mut out, line);
                }
                proof {
                    assert(inside == strip_state_from(false, prefix1));
                    assert(out.deep_view() =~~= with_new + strip_from(false, prefix1));
                }
                k = k + 1;
            }
            proof {
                assert(old_doc.deep_view().take(old_doc@.len() as int) =~~= old_doc.deep_view());
                assert(out.deep_view() =~~= spec_merge(
                    label@,
                    *stamp,
                    new_lines.deep_view(),
                    opt_lines_view(old_lines),
                ));
            }
            out
        },
    }
}

/// Stripping distributes over concatenation: the second part is scanned
/// from the state the first part left behind.
pub proof fn lemma_strip_append(inside: bool, first: Seq<Seq<char>>, second: Seq<Seq<char>>)
    ensures
        strip_state_from(inside, first + second) == strip_state_from(
            strip_state_from(inside, first),
            second,
        ),
        strip_from(inside, first + second) == strip_from(inside, first) + strip_from(
            strip_state_from(inside, first),
            second,
        ),
    decreases second.len(),
{
    if second.len() == 0 {
        assert(first + second =~~= first);
        assert(strip_from(inside, first) + strip_from(strip_state_from(inside, first), second)
            =~~= strip_from(inside, first));
    } else {
        lemma_strip_append(inside, first, second.drop_last());
        assert((first + second).drop_last() =~~= first + second.drop_last());
        assert((first + second).last() == second.last());
        assert(strip_from(inside, first) + strip_from(strip_state_from(inside, first), second)
            =~~= strip_from(inside, first + second));
    }
}

/// A body line is "clean" when it cannot be mistaken for header material:
/// it does not open with the boundary marker and is longer than two
/// characters.
pub open spec fn clean_body(body: Seq<Seq<char>>) -> bool {
    forall|i: int|
        0 <= i < body.len() ==> !begins_with(#[trigger] body[i], "+++"@) && body[i].len() > 2
}

/// Scanned from outside any block, a clean body survives stripping in
/// full: every line is kept, in order, as a list item, and the scan stays
/// outside.
pub proof fn lemma_strip_clean_body(body: Seq<Seq<char>>)
    requires
        clean_body(body),
    ensures
        strip_state_from(false, body) == false,
        strip_from(false, body) == body.map_values(|line: Seq<char>| as_list_item(line)),
    decreases body.len(),
{
    if body.len() == 0 {
        assert(strip_from(false, body) =~~= body.map_values(
            |line: Seq<char>| as_list_item(line),
        ));
    } else {
        assert(clean_body(body.drop_last()));
        lemma_strip_clean_body(body.drop_last());
        assert(strip_from(false, body) =~~= body.map_values(
            |line: Seq<char>| as_list_item(line),
        ));
    }
}

/// A well-formed prior header block: a boundary line, three field lines,
/// and a closing boundary line.
pub open spec fn well_formed_header(header: Seq<Seq<char>>) -> bool {
    &&& header.len() == 5
    &&& begins_with(header[0], "+++"@)
    &&& begins_with(header[4], "+++"@)
    &&& forall|i: int|
        1 <= i <= 3 ==> is_field_line(#[trigger] header[i]) && !begins_with(header[i], "+++"@)
}

/// A well-formed prior header block is stripped away entirely, and the
/// scan leaves it standing outside any block.
pub proof fn lemma_strip_header(header: Seq<Seq<char>>)
    requires
        well_formed_header(header),
    ensures
        strip_state_from(false, header) == false,
        strip_from(false, header) == Seq::<Seq<char>>::empty(),
{
    let p1 = header.take(1);
    let p2 = header.take(2);
    let p3 = header.take(3);
    let p4 = header.take(4);
    assert(p1.drop_last() =~~= Seq::<Seq<char>>::empty());
    assert(p2.drop_last() =~~= p1);
    assert(p3.drop_last() =~~= p2);
    assert(p4.drop_last() =~~= p3);
    assert(header.drop_last() =~~= p4);
    assert(p1.last() == header[0]);
    assert(p2.last() == header[1]);
    assert(p3.last() == header[2]);
    assert(p4.last() == header[3]);
    assert(header.last() == header[4]);
    assert(strip_state_from(false, Seq::<Seq<char>>::empty()) == false);
    assert(strip_from(false, Seq::<Seq<char>>::empty()) =~~= Seq::<Seq<char>>::empty());
    assert(strip_state_from(false, p1) == true);
    assert(strip_from(false, p1) =~~= Seq::<Seq<char>>::empty());
    assert(strip_state_from(false, p2) == true);
    assert(strip_from(false, p2) =~~= Seq::<Seq<char>>::empty());
    assert(strip_state_from(false, p3) == true);
    assert(strip_from(false, p3) =~~= Seq::<Seq<char>>::empty());
    assert(strip_state_from(false, p4) == true);
    assert(strip_from(false, p4) =~~= Seq::<Seq<char>>::empty());
    assert(strip_state_from(false, header) == false);
    assert(strip_from(false, header) =~~= Seq::<Seq<char>>::empty());
}

/// Header-stripping round trip: a target that holds exactly one
/// well-formed prior header followed by a clean body, merged with any new
/// lines, yields exactly the fresh header, then the new lines, then the
/// old body — one header, and every old and new body line present once; in
/// all, five header lines plus one line per old or new line.
pub proof fn lemma_header_round_trip(
    label: Seq<char>,
    stamp: Timestamp,
    new_lines: Seq<Seq<char>>,
    header: Seq<Seq<char>>,
    body: Seq<Seq<char>>,
)
    requires
        well_formed_header(header),
        clean_body(body),
    ensures
        spec_merge(label, stamp, new_lines, Some(header + body)) == spec_header_lines(label, stamp)
            + spec_new_body(new_lines) + body.map_values(|line: Seq<char>| as_list_item(line)),
        spec_merge(label, stamp, new_lines, Some(header + body)).len() == 5 + new_lines.len()
            + body.len(),
{
    lemma_strip_append(false, header, body);
    lemma_strip_header(header);
    lemma_strip_clean_body(body);
    assert(spec_strip(header + body) =~~= body.map_values(|line: Seq<char>| as_list_item(line)));
    assert(spec_header_lines(label, stamp).len() == 5);
    assert(spec_new_body(new_lines).len() == new_lines.len());
}

/// Merging an empty new-lines sequence changes only the header block: the
/// old body comes through in full, in order and as list items, with its
/// line count unchanged.
pub proof fn lemma_merge_empty_preserves_body(
    label: Seq<char>,
    stamp: Timestamp,
    header: Seq<Seq<char>>,
    body: Seq<Seq<char>>,
)
    requires
        well_formed_header(header),
        clean_body(body),
    ensures
        spec_merge(label, stamp, Seq::empty(), Some(header + body)) == spec_header_lines(
            label,
            stamp,
        ) + body.map_values(|line: Seq<char>| as_list_item(line)),
        spec_merge(label, stamp, Seq::empty(), Some(header + body)).len() == 5 + body.len(),
{
    lemma_header_round_trip(label, stamp, Seq::empty(), header, body);
    assert(spec_header_lines(label, stamp) + spec_new_body(Seq::empty()) + body.map_values(
        |line: Seq<char>| as_list_item(line),
    ) =~~= spec_header_lines(label, stamp) + body.map_values(
        |line: Seq<char>| as_list_item(line),
    ));
}

} // verus!
