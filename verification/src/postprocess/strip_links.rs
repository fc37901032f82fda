//! Removes every HTML link, text included.
use vstd::prelude::*;
use crate::pattern::replace_all;
use crate::postprocess::PostProcessor;

verus! {

/// `<a ...>...</a>`, shortest match first.
pub open spec fn link_pattern() -> Seq<char> {
    "<a.*?</a>"@
}

/// Post-processor that removes all HTML links from content.
pub struct StripLinksProcessor;

impl PostProcessor for StripLinksProcessor {
    open spec fn spec_name(&self) -> Seq<char> {
        "strip-links"@
    }

    open spec fn accepts(&self, content: Seq<char>) -> bool {
        true
    }

    open spec fn transformed(&self, content: Seq<char>) -> Seq<char> {
        crate::pattern::replace_all_spec(link_pattern(), content, ""@)
    }

    fn name(&self) -> (n: &str) {
        "strip-links"
    }

    fn accepts_exec(&self, content: &str) -> (b: bool) {
        true
    }

    fn process(&self, content: &str) -> (out: String) {
        replace_all("<a.*?</a>", content, "")
    }
}

} // verus!
