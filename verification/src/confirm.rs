//! Reading the operator's answers.

use crate::decision::Confirmation;
use crate::text::same_text;
use crate::text::trim;
use crate::text::trimmed;
use vstd::prelude::*;

verus! {

/// The answer is `y` or `yes`, white space around it aside.
pub open spec fn is_short_yes(answer: Seq<char>) -> bool {
    trimmed(answer) == "y"@ || trimmed(answer) == "yes"@
}

/// The answer is `yes`, white space around it aside.
pub open spec fn is_full_yes(answer: Seq<char>) -> bool {
    trimmed(answer) == "yes"@
}

/// Whether the answer grants what a short `y` may grant.
pub fn accepts_short_yes(answer: &str) -> (r: bool)
    ensures
        r == is_short_yes(answer@),
{
    let t = trim(answer);
    same_text(t, "y") || same_text(t, "yes")
}

/// Whether the answer is a `yes` in full.
pub fn accepts_full_yes(answer: &str) -> (r: bool)
    ensures
        r == is_full_yes(answer@),
{
    same_text(trim(answer), "yes")
}

/// Whether the answer grants the confirmation asked for: installing into
/// a directory in use takes a `yes` in full, an upgrade or a pre-release
/// takes `y` or `yes`.
pub fn grants(kind: Confirmation, answer: &str) -> (r: bool)
    ensures
        r == match kind {
            Confirmation::InstallIntoUsedDirectory => is_full_yes(answer@),
            Confirmation::Upgrade => is_short_yes(answer@),
            Confirmation::InstallPrerelease => is_short_yes(answer@),
        },
{
    match kind {
        Confirmation::InstallIntoUsedDirectory => accepts_full_yes(answer),
        Confirmation::Upgrade => accepts_short_yes(answer),
        Confirmation::InstallPrerelease => accepts_short_yes(answer),
    }
}

} // verus!
