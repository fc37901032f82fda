//! Regular-expression scanning, and replacement built on top of it.
//!
//! The regex engine is the `regex` crate. It is reached through a single
//! trusted function, [`scan`], which reports every match of a pattern as the
//! text that precedes it and its capture groups. Everything that rewrites
//! text from those matches is verified here against that report.
use vstd::prelude::*;

verus! {

/// One match: the text between the previous match (or the start) and this
/// one, and the capture groups of the match (group 0 is the whole match).
pub struct RegexMatch {
    pub before: String,
    pub groups: Vec<Option<String>>,
}

/// Every match of a pattern in a text, in order, and the text after the last.
pub struct RegexScan {
    pub matches: Vec<RegexMatch>,
    pub tail: String,
}

/// The mathematical form of a [`RegexMatch`].
pub struct MatchView {
    pub before: Seq<char>,
    pub groups: Seq<Option<Seq<char>>>,
}

/// The mathematical form of a [`RegexScan`].
pub struct ScanView {
    pub matches: Seq<MatchView>,
    pub tail: Seq<char>,
}

pub open spec fn group_view(g: Option<String>) -> Option<Seq<char>> {
    match g {
        Some(s) => Some(s@),
        None => None,
    }
}

impl View for RegexMatch {
    type V = MatchView;

    open spec fn view(&self) -> MatchView {
        MatchView { before: self.before@, groups: self.groups@.map_values(|g: Option<String>| group_view(g)) }
    }
}

impl View for RegexScan {
    type V = ScanView;

    open spec fn view(&self) -> ScanView {
        ScanView { matches: self.matches@.map_values(|m: RegexMatch| m@), tail: self.tail@ }
    }
}

pub open spec fn scan_view(r: Option<RegexScan>) -> Option<ScanView> {
    match r {
        Some(s) => Some(s@),
        None => None,
    }
}

/// The matches of the regular expression `pattern` in `text`, as the `regex`
/// crate finds them (`None` when the pattern does not compile).
pub uninterp spec fn regex_scan(pattern: Seq<char>, text: Seq<char>) -> Option<ScanView>;

/// Group `i` of a match, or the empty text when the group did not take part.
pub open spec fn group_or_empty(m: MatchView, i: int) -> Seq<char> {
    if 0 <= i < m.groups.len() {
        match m.groups[i] {
            Some(g) => g,
            None => Seq::empty(),
        }
    } else {
        Seq::empty()
    }
}

/// The text rebuilt from the first `n` matches, each followed by `reps[i]`.
pub open spec fn splice_prefix(ms: Seq<MatchView>, reps: Seq<Seq<char>>, n: nat) -> Seq<char>
    decreases n,
{
    if n == 0 {
        Seq::empty()
    } else {
        splice_prefix(ms, reps, (n - 1) as nat) + ms[n - 1].before + reps[n - 1]
    }
}

/// The text with match `i` replaced by `reps[i]`.
pub open spec fn splice(scan: ScanView, reps: Seq<Seq<char>>) -> Seq<char> {
    splice_prefix(scan.matches, reps, scan.matches.len()) + scan.tail
}

/// The whole text of each match.
pub open spec fn whole_matches(scan: ScanView) -> Seq<Seq<char>> {
    Seq::new(scan.matches.len(), |i: int| group_or_empty(scan.matches[i], 0))
}

/// What every scan satisfies: putting each match back where it was gives the
/// scanned text again, and every match has its whole-match group.
pub open spec fn scan_partitions(scan: ScanView, text: Seq<char>) -> bool {
    &&& splice(scan, whole_matches(scan)) == text
    &&& forall|i: int| 0 <= i < scan.matches.len() ==> #[trigger] scan.matches[i].groups.len() >= 1
        && scan.matches[i].groups[0] is Some
}

/// Scans `text` with the regular expression `pattern`.
///
/// Trusted: calls `regex::Regex::new` and `Regex::captures_iter`. The
/// contract claims that the result is a function of the pattern and the text
/// (named `regex_scan`), `None` exactly when the pattern does not compile,
/// and that the successive non-overlapping matches, put back between the
/// text that precedes each of them and the text after the last, make up the
/// scanned text. Which matches the regex engine finds is not stated.
#[verifier::external_body]
pub fn scan(pattern: &str, text: &str) -> (r: Option<RegexScan>)
    ensures
        scan_view(r) == regex_scan(pattern@, text@),
        r matches Some(s) ==> scan_partitions(s@, text@),
{
    let re = regex::Regex::new(pattern).ok()?;
    let mut matches = Vec::new();
    let mut last: usize = 0;
    for caps in re.captures_iter(text) {
        let whole = caps.get(0).unwrap();
        let groups = caps.iter().map(|g| g.map(|g| g.as_str().to_string())).collect();
        matches.push(RegexMatch { before: text[last..whole.start()].to_string(), groups });
        last = whole.end();
    }
    Some(RegexScan { matches, tail: text[last..].to_string() })
}

/// Rebuilds the scanned text with match `i` replaced by `reps[i]`.
pub fn splice_exec(scan: &RegexScan, reps: &Vec<String>) -> (out: String)
    requires
        reps.len() == scan.matches.len(),
    ensures
        out@ == splice(scan@, reps@.map_values(|r: String| r@)),
{
    let ghost sv = scan@;
    let ghost rv = reps@.map_values(|r: String| r@);
    let mut out = String::new();
    let mut i: usize = 0;
    while i < scan.matches.len()
        invariant
            sv == scan@,
            rv == reps@.map_values(|r: String| r@),
            reps.len() == scan.matches.len(),
            i <= scan.matches.len(),
            out@ == splice_prefix(sv.matches, rv, i as nat),
        decreases scan.matches.len() - i,
    {
        out.append(scan.matches[i].before.as_str());
        out.append(reps[i].as_str());
        i = i + 1;
    }
    out.append(scan.tail.as_str());
    out
}

/// `text` with every match of `pattern` replaced by `rep` (the text itself
/// when the pattern does not compile).
pub open spec fn replace_all_spec(pattern: Seq<char>, text: Seq<char>, rep: Seq<char>) -> Seq<char> {
    match regex_scan(pattern, text) {
        Some(s) => splice(s, Seq::new(s.matches.len(), |i: int| rep)),
        None => text,
    }
}

/// Replaces every match of `pattern` in `text` with the literal `rep`.
pub fn replace_all(pattern: &str, text: &str, rep: &str) -> (out: String)
    ensures
        out@ == replace_all_spec(pattern@, text@, rep@),
{
    match scan(pattern, text) {
        Some(s) => {
            let mut reps: Vec<String> = Vec::new();
            let mut i: usize = 0;
            while i < s.matches.len()
                invariant
                    i <= s.matches.len(),
                    reps.len() == i,
                    forall|j: int| 0 <= j < i ==> #[trigger] reps@[j]@ == rep@,
                decreases s.matches.len() - i,
            {
                reps.push(rep.to_string());
                i = i + 1;
            }
            let out = splice_exec(&s, &reps);
            proof {
                let sv = s@;
                assert(reps@.map_values(|r: String| r@) =~= Seq::new(sv.matches.len(), |i: int| rep@));
            }
            out
        },
        None => text.to_string(),
    }
}

/// Whether `pattern` matches anywhere in `text`.
pub open spec fn is_match_spec(pattern: Seq<char>, text: Seq<char>) -> bool {
    match regex_scan(pattern, text) {
        Some(s) => s.matches.len() > 0,
        None => false,
    }
}

pub fn is_match(pattern: &str, text: &str) -> (b: bool)
    ensures
        b == is_match_spec(pattern@, text@),
{
    match scan(pattern, text) {
        Some(s) => s.matches.len() > 0,
        None => false,
    }
}

} // verus!
