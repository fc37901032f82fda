//! A scraper driven entirely by the source's configured selectors.
use vstd::prelude::*;
use crate::config::{AuthConfig, SelectorType, Selectors, SourceConfig};
use crate::sources::dom::{
    find_all_class, find_all_tag, find_attr, find_tag, found, found_count, html_of, node_attr, node_display,
    node_text, parse_document, DomNode, NodeAt, Query,
};
use crate::sources::page::{
    chapter_view, chapter_views, first_text, lemma_views_push, link_at, link_view, text_view, LinkView, PageLink,
};
use crate::sources::traits::{chapter_document, chapter_document_of, escape_entities, ChapterContent, ScrapeError, ScrapedChapter, SourceScraper};
use crate::text::{decimal_u128, trim, trim_spaces};

verus! {

/// Milliseconds since the Unix epoch. Trusted: calls `SystemTime::elapsed`
/// on `UNIX_EPOCH` and `Duration::as_millis`; `None` when the clock is set
/// before 1970. Nothing is stated of the result, which is the time.
#[verifier::external_body]
fn epoch_millis() -> Option<u128> {
    match std::time::UNIX_EPOCH.elapsed() {
        Ok(d) => Some(d.as_millis()),
        Err(_) => None,
    }
}

/// The nodes under `at` that a configured selector picks: every element
/// with the class, the first element with the id, or every element with
/// the tag.
pub open spec fn selected(at: NodeAt, kind: SelectorType, name: Seq<char>) -> Seq<NodeAt> {
    match kind {
        SelectorType::Class => Seq::new(
            found_count(at, Query::Class(name)),
            |i: int| found(at, Query::Class(name), i as nat),
        ),
        SelectorType::Id => if found_count(at, Query::Attr("id"@, name)) > 0 {
            seq![found(at, Query::Attr("id"@, name), 0)]
        } else {
            Seq::empty()
        },
        SelectorType::Tag => Seq::new(found_count(at, Query::Tag(name)), |i: int| found(at, Query::Tag(name), i as nat)),
    }
}

/// The nodes that a configured selector picks out of `node`.
pub(crate) fn select_all(node: &DomNode, kind: SelectorType, name: &str) -> (r: Vec<DomNode>)
    ensures
        r@.len() == selected(node.at(), kind, name@).len(),
        forall|i: int| 0 <= i < r@.len() ==> (#[trigger] r@[i]).at() == selected(node.at(), kind, name@)[i],
        kind is Id ==> r@.len() <= 1,
{
    match kind {
        SelectorType::Class => find_all_class(node, name),
        SelectorType::Id => match find_attr(node, "id", name) {
            Some(n) => vec![n],
            None => Vec::new(),
        },
        SelectorType::Tag => find_all_tag(node, name),
    }
}

/// A volume of a table of contents as a page gives it: the text of its
/// title element, if it has one, and for each chapter entry the entry's
/// link, if it has one.
#[derive(Clone, Debug)]
pub struct PageVolume {
    pub title: Option<String>,
    pub entries: Vec<Option<PageLink>>,
}

/// A volume as its title text, if any, and its entries' links.
pub open spec fn volume_view(v: PageVolume) -> (Option<Seq<char>>, Seq<LinkView>) {
    (text_view(v.title), v.entries@.map_values(|l: Option<PageLink>| link_view(l)))
}

/// Volumes as `volume_view`.
pub open spec fn volumes_view(vs: Seq<PageVolume>) -> Seq<(Option<Seq<char>>, Seq<LinkView>)> {
    vs.map_values(|v: PageVolume| volume_view(v))
}

/// The volume under the node at `v`: the text of its first title element,
/// and the link of each chapter entry.
pub open spec fn volume_at(v: NodeAt, sel: Selectors) -> (Option<Seq<char>>, Seq<LinkView>) {
    (
        first_text(v, sel.volume_title@),
        selected(v, sel.selector_type, sel.chapter_entry@).map_values(|e: NodeAt| link_at(e, sel.chapter_link@)),
    )
}

/// The volumes that the selectors `sel` find in the page `html`.
pub open spec fn page_volumes(html: Seq<char>, sel: Selectors) -> Seq<(Option<Seq<char>>, Seq<LinkView>)> {
    selected(NodeAt::Document(html), sel.selector_type, sel.volume_wrapper@).map_values(|v: NodeAt| volume_at(v, sel))
}

/// A volume's name: the text of its title element, else `Unknown Volume`.
pub open spec fn volume_name_of(title: Option<Seq<char>>) -> Seq<char> {
    match title {
        Some(t) => t,
        None => "Unknown Volume"@,
    }
}

/// The chapter an entry of the volume `volume` lists: one whose link has an
/// `href`, titled by the link's trimmed text.
pub open spec fn entry_chapters(volume: Seq<char>, entry: LinkView) -> Seq<(Seq<char>, Seq<char>, Seq<char>)> {
    match entry {
        Some((Some(h), text)) => seq![(trim_spaces(text), h, volume)],
        _ => Seq::empty(),
    }
}

/// The chapters the entries of the volume `volume` list, in order.
pub open spec fn entries_chapters(volume: Seq<char>, entries: Seq<LinkView>) -> Seq<(Seq<char>, Seq<char>, Seq<char>)>
    decreases entries.len(),
{
    if entries.len() == 0 {
        Seq::empty()
    } else {
        entries_chapters(volume, entries.drop_last()) + entry_chapters(volume, entries.last())
    }
}

/// The chapters of a table of contents, volume after volume.
pub open spec fn toc_of(volumes: Seq<(Option<Seq<char>>, Seq<LinkView>)>) -> Seq<(Seq<char>, Seq<char>, Seq<char>)>
    decreases volumes.len(),
{
    if volumes.len() == 0 {
        Seq::empty()
    } else {
        toc_of(volumes.drop_last()) + entries_chapters(volume_name_of(volumes.last().0), volumes.last().1)
    }
}

/// The chapters listed by the volumes read off a table of contents.
pub fn toc_chapters(volumes: &Vec<PageVolume>) -> (chapters: Vec<ScrapedChapter>)
    ensures
        chapter_views(chapters@) == toc_of(volumes_view(volumes@)),
        titles_trimmed(chapters@),
{
    let ghost vv = volumes_view(volumes@);
    let mut chapters: Vec<ScrapedChapter> = Vec::new();
    let mut v: usize = 0;
    proof {
        assert(chapter_views(chapters@) =~= Seq::<(Seq<char>, Seq<char>, Seq<char>)>::empty());
        assert(vv.take(0) =~= Seq::<(Option<Seq<char>>, Seq<LinkView>)>::empty());
    }
    while v < volumes.len()
        invariant
            v <= volumes@.len(),
            vv == volumes_view(volumes@),
            chapter_views(chapters@) == toc_of(vv.take(v as int)),
            titles_trimmed(chapters@),
        decreases volumes.len() - v,
    {
        let volume = &volumes[v];
        let name = match &volume.title {
            Some(t) => t.clone(),
            None => String::from_str("Unknown Volume"),
        };
        let ghost lv = volume.entries@.map_values(|l: Option<PageLink>| link_view(l));
        let ghost done = chapter_views(chapters@);
        let mut e: usize = 0;
        proof {
            assert(lv.take(0) =~= Seq::<LinkView>::empty());
            assert(done + entries_chapters(name@, lv.take(0)) =~= done);
        }
        while e < volume.entries.len()
            invariant
                v < volumes@.len(),
                *volume == volumes@[v as int],
                lv == volume.entries@.map_values(|l: Option<PageLink>| link_view(l)),
                name@ == volume_name_of(text_view(volume.title)),
                e <= volume.entries@.len(),
                chapter_views(chapters@) == done + entries_chapters(name@, lv.take(e as int)),
                titles_trimmed(chapters@),
            decreases volume.entries.len() - e,
        {
            let ghost es = lv.take(e + 1);
            proof {
                assert(es.drop_last() =~= lv.take(e as int));
                assert(es.last() == link_view(volume.entries@[e as int]));
            }
            let ghost before = chapters@;
            match &volume.entries[e] {
                Some(link) => match &link.href {
                    Some(h) => {
                        let title = trim(link.text.as_str());
                        proof {
                            crate::text::lemma_trim_spaces_trimmed(link.text@);
                        }
                        let c = ScrapedChapter { title, uri: h.clone(), volume_name: name.clone() };
                        chapters.push(c);
                        proof {
                            lemma_views_push(before, c);
                            assert(entry_chapters(name@, es.last()) =~= seq![chapter_view(c)]);
                        }
                    },
                    None => {},
                },
                None => {},
            }
            proof {
                assert(chapter_views(chapters@) =~= done + entries_chapters(name@, es));
            }
            e = e + 1;
        }
        proof {
            let vs = vv.take(v + 1);
            assert(vs.drop_last() =~= vv.take(v as int));
            assert(vs.last() == volume_view(volumes@[v as int]));
            assert(lv.take(lv.len() as int) =~= lv);
        }
        v = v + 1;
    }
    proof {
        assert(vv.take(vv.len() as int) =~= vv);
    }
    chapters
}

/// A chapter page as stored, from what was read off it: the HTML of the
/// content element, in the source's XHTML document under `title`, marked
/// Patreon-only when the page's title says "Patron Early Access" in any
/// case.
pub fn chapter_content(source: &SourceConfig, title: &str, body: &str, page_title: &str) -> (c: ChapterContent)
    ensures
        c.title@ == title@,
        c.html@ == chapter_document(source.metadata.author@, source.metadata.description@, source.name@, title@, body@),
        c.is_patreon_only == crate::pattern::is_match_spec("(?i)Patron Early Access"@, page_title@),
        c.next_chapter_url is None,
        c.next_chapter_title is None,
{
    let is_patreon_only = crate::pattern::is_match("(?i)Patron Early Access", page_title);
    ChapterContent {
        title: title.to_string(),
        html: chapter_document_of(source, title, body),
        is_patreon_only,
        next_chapter_url: None,
        next_chapter_title: None,
    }
}

/// Every chapter title is trimmed.
pub open spec fn titles_trimmed(chapters: Seq<ScrapedChapter>) -> bool {
    forall|i: int| 0 <= i < chapters.len() ==> crate::text::is_trimmed(#[trigger] chapters[i].title@)
}

/// The Patreon cookie sent for `name`, stamped at `millis`.
pub open spec fn patreon_cookie(millis: nat, name: Seq<char>) -> Seq<char> {
    "patreon_verified=1; patreon_verified_time="@ + crate::text::decimal(millis)
        + "; patreon_patron_status=active_patron; patreon_user_name="@ + name + ";"@
}

/// Whether `h` is the Patreon cookie header for `name`, at some time.
pub open spec fn is_patreon_header(h: Seq<(String, String)>, name: Seq<char>) -> bool {
    &&& h.len() == 1
    &&& h[0].0@ == "Cookie"@
    &&& exists|millis: nat| h[0].1@ == patreon_cookie(millis, name)
}

/// Whether `auth` asks for Patreon authentication with a name.
pub open spec fn patreon_name_of(auth: AuthConfig) -> Option<Seq<char>> {
    match auth {
        AuthConfig::Patreon { patreon_name } => if patreon_name@.len() > 0 {
            Some(patreon_name@)
        } else {
            None
        },
        AuthConfig::NoAuth => None,
    }
}

/// The cookie header that unlocks early-access chapters for the patron
/// `auth` names, if it names one.
pub fn patreon_headers(auth: &AuthConfig) -> (h: Option<Vec<(String, String)>>)
    ensures
        h is Some <==> patreon_name_of(*auth) is Some,
        h matches Some(v) ==> is_patreon_header(v@, patreon_name_of(*auth)->0),
{
    match auth {
        AuthConfig::NoAuth => None,
        AuthConfig::Patreon { patreon_name } => {
            if patreon_name.as_str().is_empty() {
                proof {
                    assert(patreon_name@.len() == 0);
                }
                return None;
            }
            // A clock set before 1970 stamps the epoch itself.
            let epoch_stamp: u128 = match epoch_millis() {
                Some(m) => m,
                None => 0,
            };
            let mut cookie = String::from_str("patreon_verified=1; patreon_verified_time=");
            let stamp = decimal_u128(epoch_stamp);
            cookie.append(stamp.as_str());
            cookie.append("; patreon_patron_status=active_patron; patreon_user_name=");
            cookie.append(patreon_name.as_str());
            cookie.append(";");
            let v = vec![(String::from_str("Cookie"), cookie)];
            proof {
                assert(v@[0].1@ == patreon_cookie(epoch_stamp as nat, patreon_name@));
            }
            Some(v)
        },
    }
}

/// What the selector-driven scraper reads off the table of contents
/// `html` with the selectors `sel`: the chapters `toc_of` makes of the
/// volumes the selectors find, with trimmed titles.
pub open spec fn toc_read(sel: Selectors, html: Seq<char>, chapters: Seq<ScrapedChapter>) -> bool {
    &&& titles_trimmed(chapters)
    &&& chapter_views(chapters) == toc_of(page_volumes(html, sel))
}

/// The page a chapter is read from: `html` with its entities escaped.
pub open spec fn chapter_page(html: Seq<char>) -> NodeAt {
    NodeAt::Document(crate::sources::traits::entities_escaped(html))
}

/// The query for the configured content element of `source`.
pub open spec fn content_query(source: SourceConfig) -> Query {
    Query::Attr("id"@, source.selectors.main_content@)
}

/// The text of the page's `title` element, or nothing.
pub open spec fn page_title_of(page: NodeAt) -> Seq<char> {
    match first_text(page, "title"@) {
        Some(t) => t,
        None => Seq::empty(),
    }
}

/// What the selector-driven scraper makes of the chapter page `html` of
/// `source`, listed under `title`: when the page has the configured content
/// element, the chapter under that title with the element's HTML in the
/// source's document, marked Patreon-only by the page's title; when it has
/// none, an error naming it.
pub open spec fn chapter_read(source: SourceConfig, title: Seq<char>, html: Seq<char>, r: Result<ChapterContent, ScrapeError>) -> bool {
    let page = chapter_page(html);
    match r {
        Ok(c) => {
            &&& found_count(page, content_query(source)) > 0
            &&& c.title@ == title
            &&& c.html@ == chapter_document(
                source.metadata.author@,
                source.metadata.description@,
                source.name@,
                title,
                html_of(found(page, content_query(source), 0)),
            )
            &&& c.is_patreon_only == crate::pattern::is_match_spec("(?i)Patron Early Access"@, page_title_of(page))
            &&& c.next_chapter_url is None
            &&& c.next_chapter_title is None
        },
        Err(e) => {
            &&& found_count(page, content_query(source)) == 0
            &&& e matches ScrapeError::ContentNotFound(m) && m@ == "Main content element '"@
                + source.selectors.main_content@ + "' not found"@
        },
    }
}

/// Generic scraper that uses configurable selectors
pub struct GenericScraper {
    config: SourceConfig,
}

impl GenericScraper {
    pub fn new(config: SourceConfig) -> (s: Self)
        ensures
            s.source() == config,
    {
        GenericScraper { config }
    }

    /// Every chapter link of every volume of a table of contents, with the
    /// link's trimmed text as title and the volume's title (`Unknown Volume`
    /// when it has none): what `toc_chapters` makes of the volumes the
    /// configured selectors find.
    pub fn parse_toc_page(&self, html: &str) -> (chapters: Vec<ScrapedChapter>)
        ensures
            toc_read(self.source().selectors, html@, chapters@),
    {
        let root = parse_document(html);
        let selectors = &self.config.selectors;
        let ghost sel = self.config.selectors;
        let ghost want = page_volumes(html@, sel);
        let mut volumes: Vec<PageVolume> = Vec::new();

        // Find volumes
        let found_volumes = select_all(&root, selectors.selector_type, selectors.volume_wrapper.as_str());
        let mut v: usize = 0;
        while v < found_volumes.len()
            invariant
                v <= found_volumes@.len(),
                *selectors == sel,
                want == page_volumes(html@, sel),
                found_volumes@.len() == want.len(),
                forall|k: int| 0 <= k < found_volumes@.len() ==> (#[trigger] found_volumes@[k]).at()
                    == selected(NodeAt::Document(html@), sel.selector_type, sel.volume_wrapper@)[k],
                volumes@.len() == v,
                forall|k: int| 0 <= k < v ==> volume_view(#[trigger] volumes@[k]) == want[k],
            decreases found_volumes.len() - v,
        {
            let volume = &found_volumes[v];
            // Get volume title
            let title = match find_tag(volume, selectors.volume_title.as_str()) {
                Some(t) => Some(node_text(&t)),
                None => None,
            };

            // Find chapters within this volume, and each one's link
            let found_entries = select_all(volume, selectors.selector_type, selectors.chapter_entry.as_str());
            let mut entries: Vec<Option<PageLink>> = Vec::new();
            let mut e: usize = 0;
            while e < found_entries.len()
                invariant
                    e <= found_entries@.len(),
                    *selectors == sel,
                    entries@.len() == e,
                    forall|k: int| 0 <= k < e ==> link_view(#[trigger] entries@[k]) == link_at(
                        found_entries@[k].at(),
                        sel.chapter_link@,
                    ),
                decreases found_entries.len() - e,
            {
                let link = match find_tag(&found_entries[e], selectors.chapter_link.as_str()) {
                    Some(link) => Some(PageLink { href: node_attr(&link, "href"), text: node_text(&link) }),
                    None => None,
                };
                entries.push(link);
                e = e + 1;
            }
            let ghost wanted = volume_at(volume.at(), sel);
            proof {
                assert(entries@.map_values(|l: Option<PageLink>| link_view(l)) =~= wanted.1);
            }
            let page_volume = PageVolume { title, entries };
            proof {
                assert(volume_view(page_volume) == wanted);
            }
            volumes.push(page_volume);
            v = v + 1;
        }
        proof {
            assert(volumes_view(volumes@) =~= want);
        }
        toc_chapters(&volumes)
    }

    /// A chapter page as stored: what `chapter_content` makes of the HTML of
    /// the element with the configured id and the text of the page's title.
    pub fn parse_chapter_page(&self, html: &str, title: &str) -> (r: Result<ChapterContent, ScrapeError>)
        ensures
            chapter_read(self.source(), title@, html@, r),
    {
        // Fix HTML entity escaping issues
        let html_string = escape_entities(html);
        let root = parse_document(html_string.as_str());

        // Find main content by ID
        let content = match find_attr(&root, "id", self.config.selectors.main_content.as_str()) {
            Some(c) => c,
            None => {
                let mut m = String::from_str("Main content element '");
                m.append(self.config.selectors.main_content.as_str());
                m.append("' not found");
                return Err(ScrapeError::ContentNotFound(m));
            },
        };

        // The page title tells Patreon-only content
        let page_title = match find_tag(&root, "title") {
            Some(t) => node_text(&t),
            None => String::new(),
        };
        let body = node_display(&content);
        Ok(chapter_content(&self.config, title, body.as_str(), page_title.as_str()))
    }
}

impl SourceScraper for GenericScraper {
    closed spec fn source(&self) -> SourceConfig {
        self.config
    }

    /// A source authenticates when it names a patron.
    open spec fn needs_auth(&self) -> bool {
        patreon_name_of(self.source().auth) is Some
    }

    fn source_id(&self) -> (id: &str) {
        self.config.id.as_str()
    }

    fn source_name(&self) -> (name: &str) {
        self.config.name.as_str()
    }

    fn toc_url(&self) -> (url: &str) {
        self.config.toc_url.as_str()
    }

    fn parse_toc(&self, html: &str) -> (r: Result<Vec<ScrapedChapter>, ScrapeError>)
        ensures
            r matches Ok(v) && toc_read(self.source().selectors, html@, v@),
    {
        Ok(self.parse_toc_page(html))
    }

    fn parse_chapter(&self, html: &str, title: &str) -> (r: Result<ChapterContent, ScrapeError>)
        ensures
            chapter_read(self.source(), title@, html@, r),
    {
        self.parse_chapter_page(html, title)
    }

    fn build_auth_headers(&self) -> (h: Option<Vec<(String, String)>>)
        ensures
            h is Some <==> patreon_name_of(self.source().auth) is Some,
            h matches Some(v) ==> is_patreon_header(v@, patreon_name_of(self.source().auth)->0),
    {
        patreon_headers(&self.config.auth)
    }

    fn author(&self) -> (a: &str) {
        self.config.metadata.author.as_str()
    }

    fn description(&self) -> (d: &str) {
        self.config.metadata.description.as_str()
    }

    fn post_processors(&self) -> (p: &Vec<String>) {
        &self.config.post_processors
    }
}

} // verus!
