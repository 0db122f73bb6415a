//! The report a probe's check produces, and its terminal rendering.

use crate::text::trimmed;
use crate::text::trim_str;
use vstd::prelude::*;

verus! {

/// What one check reports: a title, a body, and whether a fix is on offer.
/// Produced by exactly one check call and immutable afterwards.
pub struct Output {
    pub title: String,
    pub content: String,
    pub fix_available: bool,
}

/// The rendered report block: a highlighted title line, annotated when a fix
/// is available, then the trimmed body and a final line break.
pub open spec fn rendered(title: Seq<char>, content: Seq<char>, fix_available: bool) -> Seq<char> {
    "\u{1b}[36;1m"@ + title + (if fix_available {
        " (fix available)"@
    } else {
        Seq::<char>::empty()
    }) + ":\u{1b}[0m\n"@ + trimmed(content) + "\n"@
}

impl Output {
    pub fn new(title: String, content: String, fix_available: bool) -> (out: Output)
        ensures
            out.title == title,
            out.content == content,
            out.fix_available == fix_available,
    {
        Output { title, content, fix_available }
    }

    /// Renders the report for the terminal, as [`rendered`] describes.
    pub fn render(&self) -> (r: String)
        ensures
            r@ == rendered(self.title@, self.content@, self.fix_available),
    {
        let mut out = "\u{1b}[36;1m".to_owned();
        out.append(self.title.as_str());
        if self.fix_available {
            out.append(" (fix available)");
        }
        out.append(":\u{1b}[0m\n");
        let body = trim_str(self.content.as_str());
        out.append(body.as_str());
        out.append("\n");
        proof {
            assert(out@ =~= rendered(self.title@, self.content@, self.fix_available));
        }
        out
    }
}

} // verus!
