//! What a scraper produces, the operations every source offers, and the
//! XHTML document a downloaded chapter is stored as.
use vstd::prelude::*;
use crate::config::SourceConfig;

verus! {

/// Parsed chapter data from TOC
#[derive(Debug, Clone)]
pub struct ScrapedChapter {
    pub title: String,
    pub uri: String,
    pub volume_name: String,
}

/// Parsed chapter content
#[derive(Debug, Clone)]
pub struct ChapterContent {
    pub title: String,
    pub html: String,
    pub is_patreon_only: bool,
    /// The page's link to the chapter after it, if it has one.
    pub next_chapter_url: Option<String>,
    /// The title of the chapter after it, when the page gives it.
    pub next_chapter_title: Option<String>,
}

/// Errors that can occur during scraping operations
#[derive(Debug)]
pub enum ScrapeError {
    /// An HTTP request failed, with its message.
    Http(String),
    /// The HTML could not be parsed.
    Parse(String),
    /// The page lacks the element that holds the chapter.
    ContentNotFound(String),
    /// The chapter is for patrons only.
    PatreonOnly(String),
    /// A database operation failed, with its message.
    Database(String),
    /// An I/O operation failed, with its message.
    Io(String),
    /// No scraper is registered for the source.
    SourceNotFound(String),
    /// The configuration is invalid.
    Config(String),
}

/// Operations every source scraper offers.
pub trait SourceScraper {
    /// The configuration the scraper works from.
    spec fn source(&self) -> SourceConfig;

    /// Get the unique source identifier
    fn source_id(&self) -> (id: &str)
        ensures
            id@ == self.source().id@,
    ;

    /// Get the human-readable source name
    fn source_name(&self) -> (name: &str)
        ensures
            name@ == self.source().name@,
    ;

    /// Get the table of contents URL
    fn toc_url(&self) -> (url: &str)
        ensures
            url@ == self.source().toc_url@,
    ;

    /// Parse the table of contents page and extract chapters
    fn parse_toc(&self, html: &str) -> (r: Result<Vec<ScrapedChapter>, ScrapeError>);

    /// Parse a chapter page and extract content
    fn parse_chapter(&self, html: &str, title: &str) -> (r: Result<ChapterContent, ScrapeError>);

    /// Whether requests to the source carry authentication headers.
    spec fn needs_auth(&self) -> bool;

    /// Build authentication headers/cookies for requests
    fn build_auth_headers(&self) -> (h: Option<Vec<(String, String)>>)
        ensures
            h is Some <==> self.needs_auth(),
    ;

    /// Check if this source requires authentication
    fn requires_auth(&self) -> (b: bool)
        ensures
            b == self.needs_auth(),
    {
        self.build_auth_headers().is_some()
    }

    /// Get the author for EPUB metadata
    fn author(&self) -> (a: &str)
        ensures
            a@ == self.source().metadata.author@,
    ;

    /// Get the description for EPUB metadata
    fn description(&self) -> (d: &str)
        ensures
            d@ == self.source().metadata.description@,
    ;

    /// Get the list of post-processor names to apply
    fn post_processors(&self) -> (p: &Vec<String>)
        ensures
            crate::config::texts(p@) == crate::config::texts(self.source().post_processors@),
    ;
}

/// The XHTML head of a stored chapter, up to the author.
pub open spec fn head_start() -> Seq<char> {
    "<!DOCTYPE html PUBLIC \"-//W3C//DTD XHTML 1.1//EN\" \"http://www.w3.org/TR/xhtml11/DTD/xhtml11.dtd\">\n<html xmlns=\"http://www.w3.org/1999/xhtml\">\n<head>\n<meta http-equiv=\"Content-Type\" content=\"text/html; charset=UTF-8\" />\n<meta name=\"author\" content=\""@
}

/// Between the author and the description.
pub open spec fn head_after_author() -> Seq<char> {
    "\"/>\n<meta name=\"description\" content=\""@
}

/// Between the description and the title.
pub open spec fn head_after_description() -> Seq<char> {
    "\"/>\n<meta name=\"classification\" content=\"Fantasy\" />\n<title>"@
}

/// From the title to the start of the body.
pub open spec fn head_end() -> Seq<char> {
    "</title>\n<link rel=\"stylesheet\" href=\"style.css\" type = \"text/css\" />\n</head>\n<body>"@
}

/// A chapter as stored: the XHTML head naming the source's author,
/// description and name, the chapter's heading `<h1>title</h1>`, the
/// chapter's content element, and the closing tags, each on a line.
pub open spec fn chapter_document(
    author: Seq<char>,
    description: Seq<char>,
    name: Seq<char>,
    title: Seq<char>,
    body: Seq<char>,
) -> Seq<char> {
    head_start() + author + head_after_author() + description + head_after_description() + name + head_end() + "\n"@
        + "<h1>"@ + title + "</h1>"@ + "\n"@ + body + "\n"@ + "</body></html>"@ + "\n"@
}

/// Builds the document of a chapter of `source`.
pub fn chapter_document_of(source: &SourceConfig, title: &str, body: &str) -> (doc: String)
    ensures
        doc@ == chapter_document(
            source.metadata.author@,
            source.metadata.description@,
            source.name@,
            title@,
            body@,
        ),
{
    let mut doc = String::from_str(
        "<!DOCTYPE html PUBLIC \"-//W3C//DTD XHTML 1.1//EN\" \"http://www.w3.org/TR/xhtml11/DTD/xhtml11.dtd\">\n<html xmlns=\"http://www.w3.org/1999/xhtml\">\n<head>\n<meta http-equiv=\"Content-Type\" content=\"text/html; charset=UTF-8\" />\n<meta name=\"author\" content=\"",
    );
    doc.append(source.metadata.author.as_str());
    doc.append("\"/>\n<meta name=\"description\" content=\"");
    doc.append(source.metadata.description.as_str());
    doc.append("\"/>\n<meta name=\"classification\" content=\"Fantasy\" />\n<title>");
    doc.append(source.name.as_str());
    doc.append("</title>\n<link rel=\"stylesheet\" href=\"style.css\" type = \"text/css\" />\n</head>\n<body>");
    doc.append("\n");
    doc.append("<h1>");
    doc.append(title);
    doc.append("</h1>");
    doc.append("\n");
    doc.append(body);
    doc.append("\n");
    doc.append("</body></html>");
    doc.append("\n");
    doc
}

/// `&lt;`, `&gt;` and `&nbsp;` in a page, captured without the ampersand.
pub open spec fn entity_pattern() -> Seq<char> {
    "(?:&)((?:lt|gt|nbsp);)"@
}

/// What one entity becomes: its ampersand escaped, so that the entity
/// survives parsing as text.
pub open spec fn entity_escaped(m: crate::pattern::MatchView) -> Seq<char> {
    "&amp;"@ + crate::pattern::group_or_empty(m, 1)
}

/// A page with `&lt;`, `&gt;` and `&nbsp;` escaped to `&amp;lt;` and so on.
pub open spec fn entities_escaped(html: Seq<char>) -> Seq<char> {
    match crate::pattern::regex_scan(entity_pattern(), html) {
        Some(s) => crate::pattern::splice(s, Seq::new(s.matches.len(), |i: int| entity_escaped(s.matches[i]))),
        None => html,
    }
}

/// Fix HTML entity escaping issues before the page is parsed.
pub fn escape_entities(html: &str) -> (out: String)
    ensures
        out@ == entities_escaped(html@),
{
    match crate::pattern::scan("(?:&)((?:lt|gt|nbsp);)", html) {
        Some(s) => {
            let mut reps: Vec<String> = Vec::new();
            let mut j: usize = 0;
            while j < s.matches.len()
                invariant
                    j <= s.matches@.len(),
                    reps@.len() == j,
                    forall|k: int| 0 <= k < j ==> #[trigger] reps@[k]@ == entity_escaped(s@.matches[k]),
                decreases s.matches.len() - j,
            {
                let mut r = String::from_str("&amp;");
                r.append(crate::postprocess::mrsha_write::group_text(&s, j, 1));
                reps.push(r);
                j = j + 1;
            }
            proof {
                let sv = s@;
                assert(reps@.map_values(|r: String| r@) =~= Seq::new(
                    sv.matches.len(),
                    |i: int| entity_escaped(sv.matches[i]),
                ));
            }
            crate::pattern::splice_exec(&s, &reps)
        },
        None => html.to_string(),
    }
}

} // verus!
