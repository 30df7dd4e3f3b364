//! The version that the program reports.
use crate::text::{trim, trimmed};
use crate::text_laws::{blank, law_trimming_takes_white_space, tight};
use vstd::prelude::*;

verus! {

/// The revision that a build is stamped with: what the version control system
/// printed, or `unknown` where it printed nothing.
pub open spec fn revision(printed: Option<Seq<char>>) -> Seq<char> {
    match printed {
        Some(s) => if trimmed(s).len() > 0 {
            trimmed(s)
        } else {
            "unknown"@
        },
        None => "unknown"@,
    }
}

/// The revision that a build is stamped with.
pub fn build_revision(printed: Option<&str>) -> (r: String)
    ensures
        printed is None ==> r@ == revision(None),
        printed matches Some(s) ==> r@ == revision(Some(s@)),
{
    match printed {
        Some(s) => {
            let t: String = trim(s);
            if t.as_str().is_empty() {
                "unknown".to_owned()
            } else {
                t
            }
        },
        None => "unknown".to_owned(),
    }
}

/// The full version: the number of the release and, in parentheses, the
/// revision that it was built from.
pub fn full_version(release: &str, revision: &str) -> (r: String)
    ensures
        r@ == release@ + " ("@ + revision@ + ")"@,
{
    let mut out: String = release.to_owned();
    out.append(" (");
    out.append(revision);
    out.append(")");
    out
}

/// The revision is what was printed, without the white space around it, and
/// `unknown` where nothing else was printed.
pub proof fn law_revision(before: Seq<char>, text: Seq<char>, behind: Seq<char>)
    requires
        blank(before),
        blank(behind),
        tight(text),
    ensures
        text.len() > 0 ==> revision(Some(before + text + behind)) == text,
        text.len() == 0 ==> revision(Some(before + text + behind)) == "unknown"@,
        revision(None) == "unknown"@,
{
    law_trimming_takes_white_space(before, text, behind);
}

} // verus!
