//! Royal Road, whose pages have a fixed shape.
use vstd::prelude::*;
use crate::config::SourceConfig;
use crate::sources::dom::{
    attr_of, find_all_class, find_all_tag, find_attr, find_class, find_tag, found, found_count, html_of, node_attr,
    node_display, node_text, parse_document, DomNode, NodeAt, Query,
};
use crate::sources::page::{
    chapter_view, chapter_views, first_text, head_view, lemma_views_push, link_at, link_view, text_view, HeadLink,
    LinkView, PageLink,
};
use crate::sources::traits::{chapter_document, chapter_document_of, escape_entities, ChapterContent, ScrapeError, ScrapedChapter, SourceScraper};
use crate::text::{contains_str, contains_text, starts_with, str_eq, trim, trim_spaces};

verus! {

/// Royal Road's address.
pub open spec fn royal_road_base() -> Seq<char> {
    "https://www.royalroad.com"@
}

/// A chapter URL made absolute: one that starts with `http` is kept, one
/// that starts with `/` is taken relative to Royal Road, anything else is
/// kept.
pub open spec fn normalized_url(url: Seq<char>) -> Seq<char> {
    if url.len() >= 4 && url.take(4) == "http"@ {
        url
    } else if url.len() >= 1 && url[0] == '/' {
        royal_road_base() + url
    } else {
        url
    }
}

/// What Royal Road's table of contents yields: titled chapters of the
/// "Main Story", each with an absolute URL when it was given a rooted one.
pub open spec fn royal_road_entries(chapters: Seq<ScrapedChapter>) -> bool {
    forall|i: int|
        0 <= i < chapters.len() ==> {
            let c = #[trigger] chapters[i];
            &&& c.title@.len() > 0
            &&& crate::text::is_trimmed(c.title@)
            &&& c.volume_name@ == "Main Story"@
            &&& exists|href: Seq<char>| c.uri@ == normalized_url(href)
        }
}

/// The chapter a row's link gives: one with an `href` and non-empty
/// trimmed text that, where `chapter_path` asks for it, points to a
/// `/chapter/` page; in the "Main Story", with its URL made absolute.
pub open spec fn row_chapters(link: LinkView, chapter_path: bool) -> Seq<(Seq<char>, Seq<char>, Seq<char>)> {
    match link {
        Some((Some(h), text)) => if trim_spaces(text).len() > 0 && (!chapter_path || contains_text(h, "/chapter/"@)) {
            seq![(trim_spaces(text), normalized_url(h), "Main Story"@)]
        } else {
            Seq::empty()
        },
        _ => Seq::empty(),
    }
}

/// The chapters the links of `rows` give, in order.
pub open spec fn rows_chapters(rows: Seq<LinkView>, chapter_path: bool) -> Seq<(Seq<char>, Seq<char>, Seq<char>)>
    decreases rows.len(),
{
    if rows.len() == 0 {
        Seq::empty()
    } else {
        rows_chapters(rows.drop_last(), chapter_path) + row_chapters(rows.last(), chapter_path)
    }
}

/// The chapters of a table of contents: those the first links of the
/// `chapter-row` elements give, or, when they give none, those the links of
/// the rows of the `chapters` table give, where there is one.
pub open spec fn royal_road_toc(
    rows: Seq<LinkView>,
    table: Option<Seq<LinkView>>,
) -> Seq<(Seq<char>, Seq<char>, Seq<char>)> {
    if rows_chapters(rows, false).len() > 0 {
        rows_chapters(rows, false)
    } else {
        match table {
            Some(t) => rows_chapters(t, true),
            None => Seq::empty(),
        }
    }
}

/// The `href` of the first `<link>` whose `rel` is `next`, if there is one
/// (`Some(None)` when that link has no `href`).
pub open spec fn first_next(links: Seq<(Option<Seq<char>>, Option<Seq<char>>)>) -> Option<Option<Seq<char>>>
    decreases links.len(),
{
    if links.len() == 0 {
        None
    } else if links[0].0 == Some("next"@) {
        Some(links[0].1)
    } else {
        first_next(links.drop_first())
    }
}

/// The next chapter's URL: the first `rel="next"` link's `href`, made
/// absolute.
pub open spec fn next_url_of(links: Seq<(Option<Seq<char>>, Option<Seq<char>>)>) -> Option<Seq<char>> {
    match first_next(links) {
        Some(Some(h)) => Some(normalized_url(h)),
        _ => None,
    }
}

/// A chapter's title: the trimmed text of the page's first `h1` when it is
/// not empty, else the title it is listed under.
pub open spec fn heading_title(h1: Option<Seq<char>>, title: Seq<char>) -> Seq<char> {
    match h1 {
        Some(t) => if trim_spaces(t).len() > 0 {
            trim_spaces(t)
        } else {
            title
        },
        None => title,
    }
}

/// The first link of each `chapter-row` element of the page `html`.
pub open spec fn page_rows(html: Seq<char>) -> Seq<LinkView> {
    let doc = NodeAt::Document(html);
    Seq::new(
        found_count(doc, Query::Class("chapter-row"@)),
        |i: int| link_at(found(doc, Query::Class("chapter-row"@), i as nat), "a"@),
    )
}

/// The first link of each row of the page's `chapters` table, if it has one.
pub open spec fn page_table(html: Seq<char>) -> Option<Seq<LinkView>> {
    let doc = NodeAt::Document(html);
    let table_query = Query::Attr("id"@, "chapters"@);
    if found_count(doc, table_query) > 0 {
        let table = found(doc, table_query, 0);
        Some(Seq::new(found_count(table, Query::Tag("tr"@)), |i: int| link_at(found(table, Query::Tag("tr"@), i as nat), "a"@)))
    } else {
        None
    }
}

/// What the Royal Road scraper reads off the table of contents `html`:
/// what `royal_road_toc` makes of its rows and its table, titled chapters
/// of the "Main Story".
pub open spec fn toc_read(html: Seq<char>, chapters: Seq<ScrapedChapter>) -> bool {
    &&& royal_road_entries(chapters)
    &&& chapter_views(chapters) == royal_road_toc(page_rows(html), page_table(html))
}

/// The `<link>` elements of a page, as `rel` and `href`.
pub open spec fn head_links(page: NodeAt) -> Seq<(Option<Seq<char>>, Option<Seq<char>>)> {
    Seq::new(
        found_count(page, Query::Tag("link"@)),
        |i: int| {
            let l = found(page, Query::Tag("link"@), i as nat);
            (attr_of(l, "rel"@), attr_of(l, "href"@))
        },
    )
}

/// What the Royal Road scraper makes of the chapter page `html` of `source`
/// listed under `title`: when the page (its entities escaped) has a
/// `chapter-content` element, the chapter titled by the page's first `h1`,
/// with the element's HTML in the source's document, never Patreon-only,
/// with the page's next-chapter link; when it has none, an error saying so.
pub open spec fn chapter_read(source: SourceConfig, title: Seq<char>, html: Seq<char>, r: Result<ChapterContent, ScrapeError>) -> bool {
    let page = crate::sources::generic::chapter_page(html);
    let content = Query::Class("chapter-content"@);
    match r {
        Ok(c) => {
            &&& found_count(page, content) > 0
            &&& c.title@ == heading_title(first_text(page, "h1"@), title)
            &&& c.html@ == chapter_document(
                source.metadata.author@,
                source.metadata.description@,
                source.name@,
                c.title@,
                html_of(found(page, content, 0)),
            )
            &&& !c.is_patreon_only
            &&& text_view(c.next_chapter_url) == next_url_of(head_links(page))
            &&& c.next_chapter_title is None
        },
        Err(e) => {
            &&& found_count(page, content) == 0
            &&& e matches ScrapeError::ContentNotFound(m) && m@ == "Chapter content element not found"@
        },
    }
}

/// Scraper for Royal Road fiction
pub struct RoyalRoadScraper {
    config: SourceConfig,
}

impl RoyalRoadScraper {
    pub fn new(config: SourceConfig) -> (s: Self)
        ensures
            s.source() == config,
    {
        RoyalRoadScraper { config }
    }

    /// Extract the base URL from a Royal Road fiction URL
    fn base_url(&self) -> (u: &str)
        ensures
            u@ == royal_road_base(),
    {
        "https://www.royalroad.com"
    }

    /// Normalize a chapter URL (handle relative URLs)
    pub fn normalize_url(&self, url: &str) -> (r: String)
        ensures
            r@ == normalized_url(url@),
    {
        proof {
            reveal_strlit("http");
            reveal_strlit("/");
        }
        proof {
            if url@.len() >= 1 && url@[0] == '/' {
                assert(url@.take(1) =~= "/"@);
            }
        }
        if starts_with(url, "http") {
            url.to_string()
        } else if starts_with(url, "/") {
            proof {
                assert(url@.take(1)[0] == url@[0]);
            }
            let mut s = self.base_url().to_string();
            s.append(url);
            s
        } else {
            url.to_string()
        }
    }

    fn push_entry(&self, chapters: &mut Vec<ScrapedChapter>, title: String, href: &str)
        requires
            royal_road_entries(old(chapters)@),
            title@.len() > 0,
            crate::text::is_trimmed(title@),
        ensures
            royal_road_entries(final(chapters)@),
            final(chapters)@.len() == old(chapters)@.len() + 1,
            final(chapters)@.drop_last() == old(chapters)@,
            chapter_view(final(chapters)@.last()) == (title@, normalized_url(href@), "Main Story"@),
    {
        let uri = self.normalize_url(href);
        let ghost before = chapters@;
        chapters.push(ScrapedChapter { title, uri, volume_name: String::from_str("Main Story") });
        proof {
            assert forall|i: int| 0 <= i < chapters@.len() implies {
                let c = #[trigger] chapters@[i];
                &&& c.title@.len() > 0
                &&& crate::text::is_trimmed(c.title@)
                &&& c.volume_name@ == "Main Story"@
                &&& exists|h: Seq<char>| c.uri@ == normalized_url(h)
            } by {
                if i < before.len() {
                    assert(chapters@[i] == before[i]);
                } else {
                    assert(chapters@[i].uri@ == normalized_url(href@));
                }
            }
        }
    }

    /// The chapters the links of `rows` give; see `row_chapters`.
    pub fn toc_rows(&self, rows: &Vec<Option<PageLink>>, chapter_path: bool) -> (chapters: Vec<ScrapedChapter>)
        ensures
            chapter_views(chapters@) == rows_chapters(rows@.map_values(|l: Option<PageLink>| link_view(l)), chapter_path),
            royal_road_entries(chapters@),
    {
        let ghost lv = rows@.map_values(|l: Option<PageLink>| link_view(l));
        let mut chapters: Vec<ScrapedChapter> = Vec::new();
        let mut i: usize = 0;
        proof {
            assert(lv.take(0) =~= Seq::<LinkView>::empty());
            assert(chapter_views(chapters@) =~= Seq::<(Seq<char>, Seq<char>, Seq<char>)>::empty());
        }
        while i < rows.len()
            invariant
                i <= rows@.len(),
                lv == rows@.map_values(|l: Option<PageLink>| link_view(l)),
                chapter_views(chapters@) == rows_chapters(lv.take(i as int), chapter_path),
                royal_road_entries(chapters@),
            decreases rows.len() - i,
        {
            let ghost prefix = lv.take(i + 1);
            proof {
                assert(prefix.drop_last() =~= lv.take(i as int));
                assert(prefix.last() == link_view(rows@[i as int]));
            }
            let ghost before = chapters@;
            match &rows[i] {
                Some(link) => match &link.href {
                    Some(href) => {
                        let title = trim(link.text.as_str());
                        proof {
                            crate::text::lemma_trim_spaces_trimmed(link.text@);
                        }
                        // Skip empty titles, and in the table, links that are no chapter's
                        if !title.as_str().is_empty() && (!chapter_path || contains_str(href.as_str(), "/chapter/")) {
                            self.push_entry(&mut chapters, title, href.as_str());
                            proof {
                                lemma_views_push(before, chapters@.last());
                                assert(chapters@ =~= before.push(chapters@.last()));
                                assert(row_chapters(prefix.last(), chapter_path) =~= seq![chapter_view(chapters@.last())]);
                            }
                        } else {
                            proof {
                                assert(row_chapters(prefix.last(), chapter_path) =~= Seq::empty());
                            }
                        }
                    },
                    None => {},
                },
                None => {},
            }
            proof {
                assert(chapter_views(chapters@) =~= rows_chapters(prefix, chapter_path));
            }
            i = i + 1;
        }
        proof {
            assert(lv.take(lv.len() as int) =~= lv);
        }
        chapters
    }

    /// The chapters of a fiction's table of contents: the first link of
    /// every `chapter-row`, or, when they give none, every link to a
    /// `/chapter/` page in the rows of the `chapters` table. Links without
    /// text are skipped.
    pub fn parse_toc_page(&self, html: &str) -> (chapters: Vec<ScrapedChapter>)
        ensures
            toc_read(html@, chapters@),
    {
        let root = parse_document(html);
        let chapter_rows = find_all_class(&root, "chapter-row");
        let rows = first_links(&chapter_rows);
        proof {
            assert(rows@.map_values(|l: Option<PageLink>| link_view(l)) =~= page_rows(html@));
        }
        let chapters = self.toc_rows(&rows, false);
        if chapters.len() > 0 {
            return chapters;
        }
        // No chapters via chapter-row: try the table rows
        match find_attr(&root, "id", "chapters") {
            Some(table) => {
                let table_rows = first_links(&find_all_tag(&table, "tr"));
                proof {
                    assert(Some(table_rows@.map_values(|l: Option<PageLink>| link_view(l))) =~= page_table(html@));
                }
                self.toc_rows(&table_rows, true)
            },
            None => {
                proof {
                    assert(chapter_views(chapters@) =~= royal_road_toc(page_rows(html@), page_table(html@)));
                }
                chapters
            },
        }
    }

    /// A chapter page as stored, from what was read off it: `body`, the HTML
    /// of the `chapter-content` element, in the source's XHTML document,
    /// titled by the page's first `h1` (else by `title`), with the page's
    /// first `rel="next"` link made absolute.
    pub fn chapter_content(&self, title: &str, body: &str, h1: Option<String>, links: &Vec<HeadLink>) -> (c: ChapterContent)
        ensures
            c.title@ == heading_title(text_view(h1), title@),
            c.html@ == chapter_document(
                self.source().metadata.author@,
                self.source().metadata.description@,
                self.source().name@,
                c.title@,
                body@,
            ),
            !c.is_patreon_only,
            text_view(c.next_chapter_url) == next_url_of(links@.map_values(|l: HeadLink| head_view(l))),
            c.next_chapter_title is None,
    {
        // The first `rel="next"` link decides, with or without an href.
        let ghost lv = links@.map_values(|l: HeadLink| head_view(l));
        let mut next_chapter_url: Option<String> = None;
        let mut found = false;
        let mut k: usize = 0;
        proof {
            assert(lv.skip(0) =~= lv);
        }
        while k < links.len()
            invariant
                k <= links@.len(),
                lv == links@.map_values(|l: HeadLink| head_view(l)),
                !found ==> first_next(lv) == first_next(lv.skip(k as int)) && next_chapter_url is None,
                found ==> text_view(next_chapter_url) == next_url_of(lv),
            decreases links.len() - k,
        {
            if !found {
                proof {
                    assert(lv.skip(k as int)[0] == head_view(links@[k as int]));
                    assert(lv.skip(k as int).drop_first() =~= lv.skip(k + 1));
                }
                let is_next = match &links[k].rel {
                    Some(rel) => str_eq(rel.as_str(), "next"),
                    None => false,
                };
                if is_next {
                    found = true;
                    match &links[k].href {
                        Some(url) => {
                            next_chapter_url = Some(self.normalize_url(url.as_str()));
                        },
                        None => {},
                    }
                }
            }
            k = k + 1;
        }
        let chapter_title = match h1 {
            Some(text) => {
                let t = trim(text.as_str());
                if !t.as_str().is_empty() {
                    t
                } else {
                    title.to_string()
                }
            },
            None => title.to_string(),
        };
        let full_html = chapter_document_of(&self.config, chapter_title.as_str(), body);
        ChapterContent {
            title: chapter_title,
            html: full_html,
            // Royal Road doesn't have Patreon-only chapters in the same way
            is_patreon_only: false,
            next_chapter_url,
            next_chapter_title: None,
        }
    }

    /// A chapter page as stored: what `chapter_content` makes of the HTML of
    /// the `chapter-content` element, the text of the first `h1` and the
    /// page's `<link>` elements.
    pub fn parse_chapter_page(&self, html: &str, title: &str) -> (r: Result<ChapterContent, ScrapeError>)
        ensures
            chapter_read(self.source(), title@, html@, r),
    {
        // Fix HTML entity escaping issues
        let html_string = escape_entities(html);
        let root = parse_document(html_string.as_str());
        let ghost page = root.at();

        // Royal Road chapter content is in the element with class "chapter-content"
        let content = match find_class(&root, "chapter-content") {
            Some(c) => c,
            None => return Err(ScrapeError::ContentNotFound(String::from_str("Chapter content element not found"))),
        };

        // The <link> elements of the head, for the next chapter's URL
        let found_links = find_all_tag(&root, "link");
        let mut links: Vec<HeadLink> = Vec::new();
        let mut k: usize = 0;
        while k < found_links.len()
            invariant
                k <= found_links@.len(),
                found_links@.len() == found_count(page, Query::Tag("link"@)),
                forall|j: int| 0 <= j < found_links@.len() ==> (#[trigger] found_links@[j]).at() == found(page, Query::Tag("link"@), j as nat),
                links@.len() == k,
                forall|j: int| 0 <= j < k ==> head_view(#[trigger] links@[j]) == head_links(page)[j],
            decreases found_links.len() - k,
        {
            links.push(HeadLink { rel: node_attr(&found_links[k], "rel"), href: node_attr(&found_links[k], "href") });
            k = k + 1;
        }
        proof {
            assert(links@.map_values(|l: HeadLink| head_view(l)) =~= head_links(page));
        }

        let h1 = match find_tag(&root, "h1") {
            Some(h) => Some(node_text(&h)),
            None => None,
        };
        let body = node_display(&content);
        let ghost h1_view = text_view(h1);
        proof {
            assert(h1_view == first_text(page, "h1"@));
        }
        let c = self.chapter_content(title, body.as_str(), h1, &links);
        proof {
            assert(c.title@ == heading_title(h1_view, title@));
        }
        Ok(c)
    }
}

/// The first link of each of `nodes`: its `href`, if it has one, and its
/// text.
fn first_links(nodes: &Vec<DomNode>) -> (links: Vec<Option<PageLink>>)
    ensures
        links@.len() == nodes@.len(),
        forall|k: int| 0 <= k < links@.len() ==> link_view(#[trigger] links@[k]) == link_at(nodes@[k].at(), "a"@),
{
    let mut links: Vec<Option<PageLink>> = Vec::new();
    let mut i: usize = 0;
    while i < nodes.len()
        invariant
            i <= nodes@.len(),
            links@.len() == i,
            forall|k: int| 0 <= k < i ==> link_view(#[trigger] links@[k]) == link_at(nodes@[k].at(), "a"@),
        decreases nodes.len() - i,
    {
        let link = match find_tag(&nodes[i], "a") {
            Some(a) => Some(PageLink { href: node_attr(&a, "href"), text: node_text(&a) }),
            None => None,
        };
        links.push(link);
        i = i + 1;
    }
    links
}

impl SourceScraper for RoyalRoadScraper {
    closed spec fn source(&self) -> SourceConfig {
        self.config
    }

    /// Royal Road's public chapters need no authentication.
    open spec fn needs_auth(&self) -> bool {
        false
    }

    fn source_id(&self) -> (id: &str) {
        self.config.id.as_str()
    }

    fn source_name(&self) -> (name: &str) {
        self.config.name.as_str()
    }

    fn toc_url(&self) -> (url: &str) {
        self.config.toc_url.as_str()
    }

    fn parse_toc(&self, html: &str) -> (r: Result<Vec<ScrapedChapter>, ScrapeError>)
        ensures
            r matches Ok(v) && toc_read(html@, v@),
    {
        Ok(self.parse_toc_page(html))
    }

    fn parse_chapter(&self, html: &str, title: &str) -> (r: Result<ChapterContent, ScrapeError>)
        ensures
            chapter_read(self.source(), title@, html@, r),
    {
        self.parse_chapter_page(html, title)
    }

    fn build_auth_headers(&self) -> (h: Option<Vec<(String, String)>>)
        ensures
            h is None,
    {
        // Royal Road doesn't require authentication for public chapters
        None
    }

    fn author(&self) -> (a: &str) {
        self.config.metadata.author.as_str()
    }

    fn description(&self) -> (d: &str) {
        self.config.metadata.description.as_str()
    }

    fn post_processors(&self) -> (p: &Vec<String>) {
        &self.config.post_processors
    }
}

} // verus!
