//! Derivation of the side-document and backup file names from the current
//! document's name, and the check that a name carries the recognized
//! extension.

use vstd::prelude::*;

use crate::text::{ends_with, ends_with_marker, replace_all, replace_marker};

verus! {

/// `name` carries the recognized markdown extension; only such a document
/// is processed at all.
pub open spec fn spec_is_ledger_name(name: Seq<char>) -> bool {
    ends_with(name, ".md"@)
}

/// Decide whether `name` carries the recognized extension.
pub fn is_ledger_name(name: &str) -> (r: bool)
    ensures
        r == spec_is_ledger_name(name@),
{
    ends_with_marker(name, ".md")
}

/// The journal's file name: the extension replaced by its journal form.
pub fn journal_filename(name: &str) -> (r: String)
    ensures
        r@ == replace_all(name@, ".md"@, ".journal.md"@),
{
    proof {
        reveal_strlit(".md");
    }
    replace_marker(name, ".md", ".journal.md")
}

/// The archive's file name: the extension replaced by its archive form.
pub fn archive_filename(name: &str) -> (r: String)
    ensures
        r@ == replace_all(name@, ".md"@, ".archive.md"@),
{
    proof {
        reveal_strlit(".md");
    }
    replace_marker(name, ".md", ".archive.md")
}

/// The hidden backup name a document is copied to before it is rewritten.
pub fn backup_filename(name: &str) -> (r: String)
    ensures
        r@ == "."@ + name@ + ".bak"@,
{
    let mut out = String::new();
    out.append(".");
    out.append(name);
    out.append(".bak");
    out
}

} // verus!
