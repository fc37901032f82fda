//! The single definition of "word" for this project.
//!
//! A word is a maximal run of non-whitespace characters in the stored HTML
//! once the contents of `<style>` and `<script>` elements and then every tag
//! have been replaced by a space. Entities are not decoded: `&nbsp;` is part
//! of a token.
use vstd::prelude::*;
use crate::pattern::replace_all;
use crate::text::count_tokens_exec;

verus! {

/// `<style>` elements with their contents.
pub open spec fn style_pattern() -> Seq<char> {
    "(?is)<style\\b[^>]*>.*?</style\\s*>"@
}

/// `<script>` elements with their contents.
pub open spec fn script_pattern() -> Seq<char> {
    "(?is)<script\\b[^>]*>.*?</script\\s*>"@
}

/// Any tag.
pub open spec fn tag_pattern() -> Seq<char> {
    "<[^>]+>"@
}

/// The text of a chapter whose words are counted: style and script
/// elements, then every remaining tag, each replaced by a space.
pub open spec fn prose_of(html: Seq<char>) -> Seq<char> {
    let without_style = crate::pattern::replace_all_spec(style_pattern(), html, " "@);
    let without_script = crate::pattern::replace_all_spec(script_pattern(), without_style, " "@);
    crate::pattern::replace_all_spec(tag_pattern(), without_script, " "@)
}

/// The number of words in a chapter's stored HTML.
pub open spec fn word_count(html: Seq<char>) -> nat {
    crate::text::count_tokens(prose_of(html))
}

/// Count words in a chapter's stored HTML.
pub fn count_words(html: &str) -> (n: usize)
    ensures
        n == word_count(html@),
{
    let without_style = replace_all("(?is)<style\\b[^>]*>.*?</style\\s*>", html, " ");
    let without_script = replace_all(
        "(?is)<script\\b[^>]*>.*?</script\\s*>",
        without_style.as_str(),
        " ",
    );
    let text = replace_all("<[^>]+>", without_script.as_str(), " ");
    count_tokens_exec(text.as_str())
}

} // verus!
