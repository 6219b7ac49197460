//! Verified building blocks for line-oriented text handling: prefix and
//! substring matching, marker replacement, and splitting a document into
//! lines and joining it back.

use vstd::prelude::*;

verus! {

/// `needle` occurs in `hay` starting at position `at`.
pub open spec fn matches_at(hay: Seq<char>, needle: Seq<char>, at: int) -> bool {
    &&& 0 <= at
    &&& at + needle.len() <= hay.len()
    &&& forall|k: int| 0 <= k < needle.len() ==> hay[at + k] == needle[k]
}

/// `hay` begins with `prefix`.
pub open spec fn begins_with(hay: Seq<char>, prefix: Seq<char>) -> bool {
    matches_at(hay, prefix, 0)
}

/// `needle` occurs somewhere in `hay`.
pub open spec fn has_marker(hay: Seq<char>, needle: Seq<char>) -> bool {
    exists|at: int| matches_at(hay, needle, at)
}

/// Decide whether `needle` occurs in `hay` at position `at`.
pub fn check_at(hay: &str, needle: &str, at: usize) -> (r: bool)
    ensures
        r == matches_at(hay@, needle@, at as int),
{
    let hay_len = hay.unicode_len();
    let needle_len = needle.unicode_len();
    if at > hay_len || needle_len > hay_len - at {
        return false;
    }
    let mut k: usize = 0;
    while k < needle_len
        invariant
            k <= needle_len,
            at + needle_len <= hay_len,
            hay_len == hay@.len(),
            needle_len == needle@.len(),
            forall|j: int| 0 <= j < k ==> hay@[at + j] == needle@[j],
        decreases needle_len - k,
    {
        if hay.get_char(at + k) != needle.get_char(k) {
            return false;
        }
        k = k + 1;
    }
    true
}

/// Decide whether `hay` begins with `prefix`.
pub fn begins_with_marker(hay: &str, prefix: &str) -> (r: bool)
    ensures
        r == begins_with(hay@, prefix@),
{
    check_at(hay, prefix, 0)
}

/// Find the first occurrence of `needle` in `hay`, if any.
pub fn find_marker(hay: &str, needle: &str) -> (r: Option<usize>)
    ensures
        match r {
            Some(at) => matches_at(hay@, needle@, at as int) && forall|j: int|
                0 <= j < at ==> !matches_at(hay@, needle@, j),
            None => !has_marker(hay@, needle@),
        },
{
    let hay_len = hay.unicode_len();
    let needle_len = needle.unicode_len();
    if needle_len > hay_len {
        return None;
    }
    let mut at: usize = 0;
    while at <= hay_len - needle_len
        invariant
            hay_len == hay@.len(),
            needle_len == needle@.len(),
            needle_len <= hay_len,
            at <= hay_len,
            forall|j: int| 0 <= j < at ==> !matches_at(hay@, needle@, j),
        decreases hay_len - at,
    {
        if check_at(hay, needle, at) {
            return Some(at);
        }
        at = at + 1;
    }
    None
}

/// Decide whether `needle` occurs anywhere in `hay`.
pub fn has_marker_exec(hay: &str, needle: &str) -> (r: bool)
    ensures
        r == has_marker(hay@, needle@),
{
    match find_marker(hay, needle) {
        Some(_) => true,
        None => false,
    }
}

/// `hay` ends with `suffix`.
pub open spec fn ends_with(hay: Seq<char>, suffix: Seq<char>) -> bool {
    matches_at(hay, suffix, hay.len() - suffix.len())
}

/// Decide whether `hay` ends with `suffix`.
pub fn ends_with_marker(hay: &str, suffix: &str) -> (r: bool)
    ensures
        r == ends_with(hay@, suffix@),
{
    let hay_len = hay.unicode_len();
    let suffix_len = suffix.unicode_len();
    if suffix_len > hay_len {
        return false;
    }
    check_at(hay, suffix, hay_len - suffix_len)
}

/// The code point of `c`, with an ASCII capital letter folded to its small
/// form; the measure under which markers are compared case-insensitively.
pub open spec fn folded_code(c: char) -> int {
    if 65 <= c as u32 <= 90 {
        c as u32 + 32
    } else {
        c as u32 as int
    }
}

/// `hay` begins with `prefix` up to ASCII letter case.
pub open spec fn begins_with_ci(hay: Seq<char>, prefix: Seq<char>) -> bool {
    &&& prefix.len() <= hay.len()
    &&& forall|k: int| 0 <= k < prefix.len() ==> folded_code(hay[k]) == folded_code(prefix[k])
}

/// Fold an ASCII capital letter to its small form, as a code point.
fn fold_char(c: char) -> (r: u32)
    ensures
        r == folded_code(c),
{
    let u = c as u32;
    if 65 <= u && u <= 90 {
        u + 32
    } else {
        u
    }
}

/// Decide whether `hay` begins with `prefix` up to ASCII letter case.
pub fn begins_with_marker_ci(hay: &str, prefix: &str) -> (r: bool)
    ensures
        r == begins_with_ci(hay@, prefix@),
{
    let hay_len = hay.unicode_len();
    let prefix_len = prefix.unicode_len();
    if prefix_len > hay_len {
        return false;
    }
    let mut k: usize = 0;
    while k < prefix_len
        invariant
            k <= prefix_len <= hay_len,
            hay_len == hay@.len(),
            prefix_len == prefix@.len(),
            forall|j: int| 0 <= j < k ==> folded_code(hay@[j]) == folded_code(prefix@[j]),
        decreases prefix_len - k,
    {
        if fold_char(hay.get_char(k)) != fold_char(prefix.get_char(k)) {
            return false;
        }
        k = k + 1;
    }
    true
}

/// The tail of `hay` from position `at` on, with every occurrence of
/// `needle` replaced by `subst`, scanning left to right without overlap.
pub open spec fn replace_from(
    hay: Seq<char>,
    needle: Seq<char>,
    subst: Seq<char>,
    at: int,
) -> Seq<char>
    decreases hay.len() - at
        when 0 <= at && needle.len() > 0
{
    if at >= hay.len() {
        Seq::empty()
    } else if matches_at(hay, needle, at) {
        subst + replace_from(hay, needle, subst, at + needle.len())
    } else {
        seq![hay[at]] + replace_from(hay, needle, subst, at + 1)
    }
}

/// `hay` with every occurrence of `needle` replaced by `subst`.
pub open spec fn replace_all(hay: Seq<char>, needle: Seq<char>, subst: Seq<char>) -> Seq<char> {
    replace_from(hay, needle, subst, 0)
}

/// Replace every occurrence of `needle` in `hay` by `subst`.
pub fn replace_marker(hay: &str, needle: &str, subst: &str) -> (r: String)
    requires
        needle@.len() > 0,
    ensures
        r@ == replace_all(hay@, needle@, subst@),
{
    let hay_len = hay.unicode_len();
    let needle_len = needle.unicode_len();
    let mut out = String::new();
    let mut at: usize = 0;
    let mut seg: usize = 0;
    while at < hay_len
        invariant
            needle@.len() > 0,
            needle_len == needle@.len(),
            hay_len == hay@.len(),
            seg <= at <= hay_len,
            out@ + hay@.subrange(seg as int, at as int) + replace_from(
                hay@,
                needle@,
                subst@,
                at as int,
            ) == replace_all(hay@, needle@, subst@),
        decreases hay_len - at,
    {
        if check_at(hay, needle, at) {
            proof {
                assert(replace_from(hay@, needle@, subst@, at as int) == subst@ + replace_from(
                    hay@,
                    needle@,
                    subst@,
                    at + needle@.len(),
                ));
            }
            let ghost out0 = out@;
            let piece = hay.substring_char(seg, at);
            out.append(piece);
            out.append(subst);
            at = at + needle_len;
            seg = at;
            proof {
                assert(out@ + hay@.subrange(at as int, at as int) + replace_from(
                    hay@,
                    needle@,
                    subst@,
                    at as int,
                ) =~= replace_all(hay@, needle@, subst@));
            }
        } else {
            proof {
                assert(hay@.subrange(seg as int, at + 1) =~= hay@.subrange(seg as int, at as int)
                    + seq![hay@[at as int]]);
            }
            at = at + 1;
        }
    }
    let piece = hay.substring_char(seg, hay_len);
    out.append(piece);
    proof {
        assert(replace_from(hay@, needle@, subst@, hay_len as int) =~= Seq::<char>::empty());
    }
    out
}

/// The logical lines of `text`, split on the line terminator. A document of
/// n terminators has n + 1 logical lines; in particular the empty document
/// has one empty line, and a document ending in a terminator ends with an
/// empty line. `spec_render` inverts this exactly.
pub open spec fn spec_lines(text: Seq<char>) -> Seq<Seq<char>>
    decreases text.len(),
{
    if text.len() == 0 {
        seq![Seq::<char>::empty()]
    } else {
        let rest = spec_lines(text.drop_last());
        if text.last() == '\n' {
            rest.push(Seq::<char>::empty())
        } else {
            rest.update(rest.len() - 1, rest.last().push(text.last()))
        }
    }
}

/// `lines`, joined with the line terminator as a separator.
pub open spec fn spec_render(lines: Seq<Seq<char>>) -> Seq<char>
    decreases lines.len(),
{
    if lines.len() == 0 {
        Seq::empty()
    } else if lines.len() == 1 {
        lines[0]
    } else {
        spec_render(lines.drop_last()) + seq!['\n'] + lines.last()
    }
}

/// A document always has at least one logical line.
pub proof fn lemma_spec_lines_len(text: Seq<char>)
    ensures
        spec_lines(text).len() >= 1,
    decreases text.len(),
{
    if text.len() > 0 {
        lemma_spec_lines_len(text.drop_last());
    }
}

/// How many line terminators `text` holds.
pub open spec fn terminator_count(text: Seq<char>) -> int
    decreases text.len(),
{
    if text.len() == 0 {
        0
    } else {
        terminator_count(text.drop_last()) + if text.last() == '\n' {
            1int
        } else {
            0int
        }
    }
}

/// Splitting preserves exactly the count of terminators: a document with n
/// of them has n + 1 logical lines, so no trailing line is silently
/// duplicated or dropped.
pub proof fn lemma_lines_count(text: Seq<char>)
    ensures
        spec_lines(text).len() == terminator_count(text) + 1,
    decreases text.len(),
{
    if text.len() > 0 {
        lemma_lines_count(text.drop_last());
        lemma_spec_lines_len(text.drop_last());
    }
}

/// Splitting a document into lines and joining them again gives the
/// document back unchanged: no line, and no terminator, is lost or added.
pub proof fn lemma_render_lines(text: Seq<char>)
    ensures
        spec_render(spec_lines(text)) == text,
    decreases text.len(),
{
    if text.len() == 0 {
        assert(spec_render(spec_lines(text)) =~= text);
    } else {
        let rest = spec_lines(text.drop_last());
        lemma_spec_lines_len(text.drop_last());
        lemma_render_lines(text.drop_last());
        if text.last() == '\n' {
            let whole = rest.push(Seq::<char>::empty());
            assert(whole.drop_last() =~= rest);
            assert(spec_render(whole) == spec_render(rest) + seq!['\n'] + Seq::<char>::empty());
            assert(text.drop_last() + seq!['\n'] + Seq::<char>::empty() =~= text);
        } else {
            let whole = rest.update(rest.len() - 1, rest.last().push(text.last()));
            if rest.len() == 1 {
                assert(spec_render(rest) == rest[0]);
                assert(spec_render(whole) == whole[0]);
                assert(spec_render(whole) =~= text);
            } else {
                assert(whole.drop_last() =~= rest.drop_last());
                assert(spec_render(whole) == spec_render(rest.drop_last()) + seq!['\n']
                    + whole.last());
                assert(spec_render(rest) == spec_render(rest.drop_last()) + seq!['\n']
                    + rest.last());
                assert(spec_render(whole) =~= spec_render(rest) + seq![text.last()]);
                assert(spec_render(rest) + seq![text.last()] =~= text);
            }
        }
    }
}

/// Split `text` into its logical lines.
pub fn split_lines(text: &str) -> (r: Vec<String>)
    ensures
        r.deep_view() == spec_lines(text@),
{
    let len = text.unicode_len();
    let mut r: Vec<String> = Vec::new();
    let mut at: usize = 0;
    let mut seg: usize = 0;
    proof {
        assert(text@.take(0) =~= Seq::<char>::empty());
        assert(r.deep_view().push(text@.subrange(0, 0)) =~~= spec_lines(text@.take(0)));
    }
    while at < len
        invariant
            seg <= at <= len,
            len == text@.len(),
            r.deep_view().push(text@.subrange(seg as int, at as int)) == spec_lines(
                text@.take(at as int),
            ),
        decreases len - at,
    {
        let ghost prefix = text@.take(at as int);
        let ghost prev = r.deep_view();
        proof {
            assert(text@.take(at + 1).drop_last() =~= prefix);
            assert(text@.take(at + 1).last() == text@[at as int]);
            lemma_spec_lines_len(prefix);
        }
        if text.get_char(at) == '\n' {
            let piece = text.substring_char(seg, at);
            r.push(String::from_str(piece));
            at = at + 1;
            seg = at;
            proof {
                assert(r.deep_view() =~~= prev.push(piece@));
                assert(r.deep_view().push(text@.subrange(at as int, at as int)) =~~= spec_lines(
                    text@.take(at as int),
                ));
            }
        } else {
            at = at + 1;
            proof {
                let spl = spec_lines(prefix);
                assert(spl == prev.push(text@.subrange(seg as int, at - 1)));
                assert(spl.last() == text@.subrange(seg as int, at - 1));
                assert(text@.subrange(seg as int, at as int) =~= text@.subrange(
                    seg as int,
                    at - 1,
                ).push(text@[at - 1]));
                assert(spl.update(spl.len() - 1, spl.last().push(text@[at - 1])) =~~= prev.push(
                    text@.subrange(seg as int, at as int),
                ));
            }
        }
    }
    let piece = text.substring_char(seg, len);
    r.push(String::from_str(piece));
    proof {
        assert(text@.take(len as int) =~= text@);
        assert(r.deep_view() =~~= spec_lines(text@));
    }
    r
}

/// Join `lines` back into one document, separating them with the line
/// terminator.
pub fn render_document(lines: &Vec<String>) -> (r: String)
    ensures
        r@ == spec_render(lines.deep_view()),
{
    let mut out = String::new();
    let mut i: usize = 0;
    while i < lines.len()
        invariant
            i <= lines.len(),
            i == 0 ==> out@ == Seq::<char>::empty(),
            i > 0 ==> out@ == spec_render(lines.deep_view().take(i as int)),
        decreases lines.len() - i,
    {
        let ghost prefix = lines.deep_view().take(i as int);
        if i > 0 {
            out.append("\n");
            proof {
                reveal_strlit("\n");
            }
        }
        out.append(lines[i].as_str());
        proof {
            let whole = lines.deep_view().take(i + 1);
            assert(whole.drop_last() =~= prefix);
            assert(whole.last() == lines.deep_view()[i as int]);
            assert(out@ =~= spec_render(whole));
        }
        i = i + 1;
    }
    proof {
        assert(lines.deep_view().take(lines@.len() as int) =~= lines.deep_view());
        if lines.len() == 0 {
            assert(out@ =~= spec_render(lines.deep_view()));
        }
    }
    out
}

} // verus!
