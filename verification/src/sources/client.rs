//! What the scraping client decides: which headers carry cookies, and what
//! becomes of a downloaded chapter.
use vstd::prelude::*;
use crate::config::to_lowercase;
use crate::sources::traits::ChapterContent;
use crate::text::str_eq;

verus! {

/// The values of the headers named `Cookie`, in any case, in order.
pub open spec fn cookie_values(headers: Seq<(String, String)>) -> Seq<Seq<char>>
    decreases headers.len(),
{
    if headers.len() == 0 {
        Seq::empty()
    } else {
        let prev = cookie_values(headers.drop_last());
        if crate::config::lowercased(headers.last().0@) == "cookie"@ {
            prev.push(headers.last().1@)
        } else {
            prev
        }
    }
}

/// The cookies to send with a request, from the scraper's authentication
/// headers: every header named `cookie`, whatever its case.
pub fn cookie_headers(headers: &Vec<(String, String)>) -> (r: Vec<String>)
    ensures
        r@.map_values(|s: String| s@) == cookie_values(headers@),
{
    let mut r: Vec<String> = Vec::new();
    let mut i: usize = 0;
    proof {
        assert(headers@.take(0) =~= Seq::<(String, String)>::empty());
        assert(r@.map_values(|s: String| s@) =~= Seq::<Seq<char>>::empty());
    }
    while i < headers.len()
        invariant
            i <= headers@.len(),
            r@.map_values(|s: String| s@) == cookie_values(headers@.take(i as int)),
        decreases headers.len() - i,
    {
        proof {
            assert(headers@.take(i + 1).drop_last() == headers@.take(i as int));
            assert(headers@.take(i + 1).last() == headers@[i as int]);
        }
        let (name, value) = (&headers[i].0, &headers[i].1);
        let lower = to_lowercase(name.as_str());
        if str_eq(lower.as_str(), "cookie") {
            let ghost before = r@;
            r.push(value.clone());
            proof {
                assert(r@.map_values(|s: String| s@) =~= before.map_values(|s: String| s@).push(value@));
            }
        }
        i = i + 1;
    }
    proof {
        assert(headers@.take(headers@.len() as int) == headers@);
    }
    r
}

/// A chapter found through a page's link to the next one.
#[derive(Debug)]
pub struct DiscoveredChapter {
    pub title: String,
    pub uri: String,
    pub volume_name: String,
}

/// What becomes of a downloaded chapter.
#[derive(Debug)]
pub enum ChapterAction {
    /// Patron-only content fetched without credentials: the chapter's row
    /// is removed.
    Remove,
    /// The content is stored; a next chapter found on the page is to be
    /// added if it is new.
    Store { html: String, next: Option<DiscoveredChapter> },
}

/// Whether a source's post-processors include `strip-links`.
pub open spec fn strips_links(post_processors: Seq<String>) -> bool {
    crate::config::texts(post_processors).contains("strip-links"@)
}

/// The content as stored: links removed, text included, when the source
/// asks for it.
pub open spec fn stored_html(html: Seq<char>, post_processors: Seq<String>) -> Seq<char> {
    if strips_links(post_processors) {
        crate::pattern::replace_all_spec(crate::postprocess::strip_links::link_pattern(), html, ""@)
    } else {
        html
    }
}

/// The next chapter a page announces: titled as the page gives it, else
/// after the chapter it was found from; in the volume of that chapter, else
/// in the "Main Story".
pub open spec fn discovered(
    content: ChapterContent,
    chapter_name: Seq<char>,
    volume_name: Option<String>,
    d: DiscoveredChapter,
) -> bool {
    &&& content.next_chapter_url matches Some(u) && d.uri@ == u@
    &&& d.title@ == match content.next_chapter_title {
        Some(t) => t@,
        None => "Chapter (discovered from "@ + chapter_name + ")"@,
    }
    &&& d.volume_name@ == match volume_name {
        Some(v) => v@,
        None => "Main Story"@,
    }
}

fn has_strip_links(post_processors: &Vec<String>) -> (b: bool)
    ensures
        b == strips_links(post_processors@),
{
    let mut i: usize = 0;
    while i < post_processors.len()
        invariant
            i <= post_processors@.len(),
            forall|k: int| 0 <= k < i ==> post_processors@[k]@ != "strip-links"@,
        decreases post_processors.len() - i,
    {
        if str_eq(post_processors[i].as_str(), "strip-links") {
            proof {
                assert(crate::config::texts(post_processors@)[i as int] == "strip-links"@);
            }
            return true;
        }
        i = i + 1;
    }
    proof {
        if strips_links(post_processors@) {
            let k = choose|k: int| 0 <= k < crate::config::texts(post_processors@).len() && crate::config::texts(post_processors@)[k] == "strip-links"@;
            assert(post_processors@[k]@ == "strip-links"@);
        }
    }
    false
}

/// What to do with a downloaded chapter. `authenticated` says whether the
/// request carried credentials; `volume_name` is the name of the chapter's
/// volume, if it could be read.
pub fn chapter_action(
    content: ChapterContent,
    authenticated: bool,
    post_processors: &Vec<String>,
    chapter_name: &str,
    volume_name: Option<String>,
) -> (a: ChapterAction)
    ensures
        content.is_patreon_only && !authenticated ==> a is Remove,
        !(content.is_patreon_only && !authenticated) ==> match a {
            ChapterAction::Store { html, next } => {
                &&& html@ == stored_html(content.html@, post_processors@)
                &&& next is Some <==> content.next_chapter_url is Some
                &&& next matches Some(d) ==> discovered(content, chapter_name@, volume_name, d)
            },
            ChapterAction::Remove => false,
        },
{
    if content.is_patreon_only && !authenticated {
        return ChapterAction::Remove;
    }
    // Apply strip-links post-processor during download
    let html = if has_strip_links(post_processors) {
        crate::pattern::replace_all("<a.*?</a>", content.html.as_str(), "")
    } else {
        content.html
    };
    // Chapter discovery: a next chapter URL is added to the database
    let next = match content.next_chapter_url {
        Some(uri) => {
            let title = match content.next_chapter_title {
                Some(t) => t,
                None => {
                    let mut t = String::from_str("Chapter (discovered from ");
                    t.append(chapter_name);
                    t.append(")");
                    t
                },
            };
            let volume_name = match volume_name {
                Some(v) => v,
                None => String::from_str("Main Story"),
            };
            Some(DiscoveredChapter { title, uri, volume_name })
        },
        None => None,
    };
    ChapterAction::Store { html, next }
}

/// The name a chapter pulled by its URL is added under: the given title,
/// else the title its page gives; `None` when that name is empty.
pub fn seed_name(title: Option<&str>, page_title: &str) -> (r: Option<String>)
    ensures
        ({
            let name = match title {
                Some(t) => t@,
                None => page_title@,
            };
            &&& r is Some <==> name.len() > 0
            &&& r matches Some(n) ==> n@ == name
        }),
{
    let name = match title {
        Some(t) => t.to_string(),
        None => page_title.to_string(),
    };
    if name.as_str().is_empty() {
        None
    } else {
        Some(name)
    }
}

/// The volume a chapter pulled by its URL goes into: the given one, else
/// the latest volume in the database; `None` when there is neither.
pub fn seed_volume(volume: Option<&str>, latest: Option<String>) -> (r: Option<String>)
    ensures
        crate::sources::page::text_view(r) == match volume {
            Some(v) => Some(v@),
            None => crate::sources::page::text_view(latest),
        },
{
    match volume {
        Some(v) => Some(v.to_string()),
        None => latest,
    }
}

} // verus!
