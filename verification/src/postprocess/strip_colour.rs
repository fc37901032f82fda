//! Coloured spans become text that names their colour.
use vstd::prelude::*;
use crate::pattern::{scan, splice_exec, RegexScan};
use crate::postprocess::mrsha_write::group_text;
use crate::postprocess::PostProcessor;
use crate::text::chars_of;

verus! {

/// A span with an inline `color: #xxxxxx` style, capturing the colour and
/// the span's text.
pub open spec fn colour_pattern() -> Seq<char> {
    "<span style=\"color:\\s*(#......).*?\">(.*?)</span>"@
}

/// The value of a hexadecimal digit, either case.
pub open spec fn hex_value(c: char) -> Option<u8> {
    if '0' <= c && c <= '9' {
        Some((c as u32 - '0' as u32) as u8)
    } else if 'a' <= c && c <= 'f' {
        Some((c as u32 - 'a' as u32 + 10) as u8)
    } else if 'A' <= c && c <= 'F' {
        Some((c as u32 - 'A' as u32 + 10) as u8)
    } else {
        None
    }
}

/// Pairs of hexadecimal digits as bytes; `None` for an odd length or any
/// other character.
pub open spec fn hex_decoded(s: Seq<char>) -> Option<Seq<u8>>
    decreases s.len(),
{
    if s.len() == 0 {
        Some(Seq::empty())
    } else if s.len() == 1 {
        None
    } else {
        match (hex_value(s[0]), hex_value(s[1]), hex_decoded(s.skip(2))) {
            (Some(h), Some(l), Some(rest)) => Some(seq![(h * 16 + l) as u8] + rest),
            _ => None,
        }
    }
}

/// Decodes hexadecimal text. Trusted: calls `hex::decode`, which the `hex`
/// crate documents as decoding pairs of hexadecimal digits of either case,
/// failing on an odd length or any other character.
#[verifier::external_body]
fn hex_decode(s: &str) -> (r: Option<Vec<u8>>)
    ensures
        match r {
            Some(b) => hex_decoded(s@) == Some(b@),
            None => hex_decoded(s@) is None,
        },
{
    hex::decode(s).ok()
}

/// The CSS colour keyword nearest to an RGB value, as `color_name` finds it.
pub uninterp spec fn nearest_colour(r: u8, g: u8, b: u8) -> Seq<char>;

/// Trusted: calls `color_name::css::Color::similar`, which returns the name
/// of the CSS colour nearest to the given RGB value. The result is named
/// `nearest_colour`.
#[verifier::external_body]
fn colour_name(r: u8, g: u8, b: u8) -> (name: String)
    ensures
        name@ == nearest_colour(r, g, b),
{
    color_name::css::Color::similar([r, g, b])
}

/// The RGB value that a match's colour group names, if its six characters
/// after the `#` are hexadecimal digits.
pub open spec fn match_rgb(m: crate::pattern::MatchView) -> Option<Seq<u8>> {
    let g = crate::pattern::group_or_empty(m, 1);
    if g.len() == 0 {
        None
    } else {
        match hex_decoded(g.drop_first()) {
            Some(b) => if b.len() >= 3 { Some(b) } else { None },
            None => None,
        }
    }
}

/// What one match becomes: `<colour|text|colour>`, with the brackets escaped.
pub open spec fn colour_label(m: crate::pattern::MatchView) -> Seq<char> {
    let b = match_rgb(m).unwrap();
    let name = nearest_colour(b[0], b[1], b[2]);
    "<span>&lt;"@ + name + "|"@ + crate::pattern::group_or_empty(m, 2) + "|"@ + name + "&gt;</span>"@
}

/// Every colour that the pattern finds is six hexadecimal digits.
pub open spec fn colours_readable(content: Seq<char>) -> bool {
    match crate::pattern::regex_scan(colour_pattern(), content) {
        Some(s) => forall|i: int| 0 <= i < s.matches.len() ==> #[trigger] match_rgb(s.matches[i]) is Some,
        None => true,
    }
}

pub open spec fn colours_labelled(content: Seq<char>) -> Seq<char> {
    match crate::pattern::regex_scan(colour_pattern(), content) {
        Some(s) => crate::pattern::splice(s, Seq::new(s.matches.len(), |i: int| colour_label(s.matches[i]))),
        None => content,
    }
}

/// The RGB value of match `j`, if readable.
fn rgb_of(s: &RegexScan, j: usize) -> (r: Option<Vec<u8>>)
    requires
        j < s.matches@.len(),
    ensures
        match r {
            Some(b) => match_rgb(s@.matches[j as int]) == Some(b@),
            None => match_rgb(s@.matches[j as int]) is None,
        },
{
    let g = group_text(s, j, 1);
    let chars = chars_of(g);
    if chars.len() == 0 {
        return None;
    }
    let mut rest = String::new();
    let mut i: usize = 1;
    while i < chars.len()
        invariant
            1 <= i <= chars.len(),
            rest@ == chars@.subrange(1, i as int),
        decreases chars.len() - i,
    {
        rest.push(chars[i]);
        proof {
            assert(chars@.subrange(1, i + 1) =~= chars@.subrange(1, i as int).push(chars@[i as int]));
        }
        i = i + 1;
    }
    proof {
        assert(chars@.subrange(1, chars@.len() as int) =~= chars@.drop_first());
    }
    match hex_decode(rest.as_str()) {
        Some(b) => if b.len() >= 3 {
            Some(b)
        } else {
            None
        },
        None => None,
    }
}

/// Post-processor that converts coloured spans to a text representation.
pub struct StripColourProcessor;

impl PostProcessor for StripColourProcessor {
    open spec fn spec_name(&self) -> Seq<char> {
        "strip-colour"@
    }

    /// A colour that is not six hexadecimal digits cannot be named; such
    /// content is refused rather than guessed at.
    open spec fn accepts(&self, content: Seq<char>) -> bool {
        colours_readable(content)
    }

    open spec fn transformed(&self, content: Seq<char>) -> Seq<char> {
        colours_labelled(content)
    }

    fn name(&self) -> (n: &str) {
        "strip-colour"
    }

    fn accepts_exec(&self, content: &str) -> (b: bool) {
        match scan("<span style=\"color:\\s*(#......).*?\">(.*?)</span>", content) {
            Some(s) => {
                let mut j: usize = 0;
                while j < s.matches.len()
                    invariant
                        j <= s.matches@.len(),
                        crate::pattern::regex_scan(colour_pattern(), content@) == Some(s@),
                        forall|k: int| 0 <= k < j ==> #[trigger] match_rgb(s@.matches[k]) is Some,
                    decreases s.matches.len() - j,
                {
                    if rgb_of(&s, j).is_none() {
                        proof {
                            assert(!(match_rgb(s@.matches[j as int]) is Some));
                        }
                        return false;
                    }
                    j = j + 1;
                }
                true
            },
            None => true,
        }
    }

    fn process(&self, content: &str) -> (out: String) {
        match scan("<span style=\"color:\\s*(#......).*?\">(.*?)</span>", content) {
            Some(s) => {
                let mut reps: Vec<String> = Vec::new();
                let mut j: usize = 0;
                while j < s.matches.len()
                    invariant
                        j <= s.matches@.len(),
                        crate::pattern::regex_scan(colour_pattern(), content@) == Some(s@),
                        colours_readable(content@),
                        reps@.len() == j,
                        forall|k: int| 0 <= k < j ==> #[trigger] reps@[k]@ == colour_label(s@.matches[k]),
                    decreases s.matches.len() - j,
                {
                    proof {
                        assert(match_rgb(s@.matches[j as int]) is Some);
                    }
                    let b = match rgb_of(&s, j) {
                        Some(b) => b,
                        None => Vec::new(),
                    };
                    let name = colour_name(b[0], b[1], b[2]);
                    let mut r = String::new();
                    r.append("<span>&lt;");
                    r.append(name.as_str());
                    r.append("|");
                    r.append(group_text(&s, j, 2));
                    r.append("|");
                    r.append(name.as_str());
                    r.append("&gt;</span>");
                    reps.push(r);
                    j = j + 1;
                }
                proof {
                    let sv = s@;
                    assert(reps@.map_values(|r: String| r@) =~= Seq::new(sv.matches.len(), |i: int| colour_label(sv.matches[i])));
                }
                splice_exec(&s, &reps)
            },
            None => content.to_string(),
        }
    }
}

} // verus!
