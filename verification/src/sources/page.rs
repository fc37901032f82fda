//! What a scraper reads off a page, as plain values: the HTML queries that
//! find them are `soup`'s, and what is made of them is decided here.
use vstd::prelude::*;
use crate::sources::dom::{attr_of, found, found_count, text_of, NodeAt, Query};
use crate::sources::traits::ScrapedChapter;

verus! {

/// A link as a page gives it: its `href` attribute, if it has one, and its
/// text.
#[derive(Clone, Debug)]
pub struct PageLink {
    pub href: Option<String>,
    pub text: String,
}

/// A `<link>` element of a page's head: its `rel` and `href` attributes,
/// where it has them.
#[derive(Clone, Debug)]
pub struct HeadLink {
    pub rel: Option<String>,
    pub href: Option<String>,
}

/// A link as its `href`, if any, and its text; `None` where there is no
/// link.
pub type LinkView = Option<(Option<Seq<char>>, Seq<char>)>;

/// A link as `LinkView`.
pub open spec fn link_view(l: Option<PageLink>) -> LinkView {
    match l {
        Some(link) => Some((text_view(link.href), link.text@)),
        None => None,
    }
}

/// A head link as its `rel` and `href`.
pub open spec fn head_view(l: HeadLink) -> (Option<Seq<char>>, Option<Seq<char>>) {
    (text_view(l.rel), text_view(l.href))
}

/// The text of the first `tag` element under the node at `at`, if there is
/// one.
pub open spec fn first_text(at: NodeAt, tag: Seq<char>) -> Option<Seq<char>> {
    if found_count(at, Query::Tag(tag)) > 0 {
        Some(text_of(found(at, Query::Tag(tag), 0)))
    } else {
        None
    }
}

/// The first `link` element under the node at `at`, as its `href` and
/// text.
pub open spec fn link_at(at: NodeAt, link: Seq<char>) -> LinkView {
    if found_count(at, Query::Tag(link)) > 0 {
        let l = found(at, Query::Tag(link), 0);
        Some((attr_of(l, "href"@), text_of(l)))
    } else {
        None
    }
}

/// A chapter as title, URI and volume name.
pub open spec fn chapter_view(c: ScrapedChapter) -> (Seq<char>, Seq<char>, Seq<char>) {
    (c.title@, c.uri@, c.volume_name@)
}

/// The chapters of a table of contents as titles, URIs and volume names.
pub open spec fn chapter_views(cs: Seq<ScrapedChapter>) -> Seq<(Seq<char>, Seq<char>, Seq<char>)> {
    cs.map_values(|c: ScrapedChapter| chapter_view(c))
}

/// An optional text as its characters.
pub open spec fn text_view(t: Option<String>) -> Option<Seq<char>> {
    match t {
        Some(s) => Some(s@),
        None => None,
    }
}

/// Appending a chapter appends its view.
pub proof fn lemma_views_push(cs: Seq<ScrapedChapter>, c: ScrapedChapter)
    ensures
        chapter_views(cs.push(c)) == chapter_views(cs).push(chapter_view(c)),
{
    assert(chapter_views(cs.push(c)) =~= chapter_views(cs).push(chapter_view(c)));
}

} // verus!
