//! Mrsha's writing, set in a styled span upstream, becomes emphasis.
use vstd::prelude::*;
use crate::pattern::{scan, splice_exec, RegexScan};
use crate::postprocess::PostProcessor;

verus! {

/// A span whose opening tag mentions `mrsha-write`, capturing its text.
pub open spec fn mrsha_pattern() -> Seq<char> {
    "<span.*?mrsha-write.*?>(.*?)</span>"@
}

/// What one match becomes: its captured text, emphasised.
pub open spec fn emphasised(m: crate::pattern::MatchView) -> Seq<char> {
    "<em>"@ + crate::pattern::group_or_empty(m, 1) + "</em>"@
}

pub open spec fn mrsha_rewritten(content: Seq<char>) -> Seq<char> {
    match crate::pattern::regex_scan(mrsha_pattern(), content) {
        Some(s) => crate::pattern::splice(s, Seq::new(s.matches.len(), |i: int| emphasised(s.matches[i]))),
        None => content,
    }
}

/// Group `i` of match `j`, or the empty text when it did not take part.
pub fn group_text(s: &RegexScan, j: usize, i: usize) -> (g: &str)
    requires
        j < s.matches@.len(),
    ensures
        g@ == crate::pattern::group_or_empty(s@.matches[j as int], i as int),
{
    let m = &s.matches[j];
    proof {
        reveal_strlit("");
        assert(s@.matches[j as int] == m@);
    }
    if i < m.groups.len() {
        proof {
            assert(m@.groups[i as int] == crate::pattern::group_view(m.groups@[i as int]));
        }
        match &m.groups[i] {
            Some(t) => t.as_str(),
            None => "",
        }
    } else {
        ""
    }
}

/// Post-processor that converts Mrsha's writing style to italic emphasis.
pub struct MrshaWriteProcessor;

impl PostProcessor for MrshaWriteProcessor {
    open spec fn spec_name(&self) -> Seq<char> {
        "mrsha-write"@
    }

    open spec fn accepts(&self, content: Seq<char>) -> bool {
        true
    }

    open spec fn transformed(&self, content: Seq<char>) -> Seq<char> {
        mrsha_rewritten(content)
    }

    fn name(&self) -> (n: &str) {
        "mrsha-write"
    }

    fn accepts_exec(&self, content: &str) -> (b: bool) {
        true
    }

    fn process(&self, content: &str) -> (out: String) {
        match scan("<span.*?mrsha-write.*?>(.*?)</span>", content) {
            Some(s) => {
                let mut reps: Vec<String> = Vec::new();
                let mut j: usize = 0;
                while j < s.matches.len()
                    invariant
                        j <= s.matches@.len(),
                        reps@.len() == j,
                        forall|k: int| 0 <= k < j ==> #[trigger] reps@[k]@ == emphasised(s@.matches[k]),
                    decreases s.matches.len() - j,
                {
                    let mut r = String::new();
                    r.append("<em>");
                    r.append(group_text(&s, j, 1));
                    r.append("</em>");
                    reps.push(r);
                    j = j + 1;
                }
                proof {
                    let sv = s@;
                    assert(reps@.map_values(|r: String| r@) =~= Seq::new(sv.matches.len(), |i: int| emphasised(sv.matches[i])));
                }
                splice_exec(&s, &reps)
            },
            None => content.to_string(),
        }
    }
}

} // verus!
