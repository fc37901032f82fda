//! Configuration: mail, EPUB generation and the sources to scrape.
//!
//! Reading `config.json` is the application's business; this module holds
//! the configuration's shape, its defaults, the built-in source presets and
//! what is done to a configuration once it has been read.
use vstd::prelude::*;
use crate::text::{chars_of, split_char_exec, str_eq};

verus! {

pub struct MailConfig {
    pub name: String,
    pub address: String,
    pub password: String,
    pub smtp_hostname: String,
    pub smtp_port: u16,
    pub destinations: Vec<UserConfig>,
}

impl Default for MailConfig {
    fn default() -> (c: Self)
        ensures
            c.name@ == Seq::<char>::empty(),
            c.address@ == Seq::<char>::empty(),
            c.password@ == Seq::<char>::empty(),
            c.smtp_hostname@ == "smtp.gmail.com"@,
            c.smtp_port == 587,
            c.destinations@.len() == 0,
    {
        MailConfig {
            name: String::new(),
            address: String::new(),
            password: String::new(),
            smtp_hostname: String::from_str("smtp.gmail.com"),
            smtp_port: 587,
            destinations: Vec::new(),
        }
    }
}

#[derive(Clone, Debug)]
pub struct UserConfig {
    pub name: String,
    pub email: String,
    pub strip_colour: bool,
    pub send_full_volumes: bool,
    pub send_individual_chapters: bool,
}

impl Default for UserConfig {
    fn default() -> (c: Self)
        ensures
            c.name@ == Seq::<char>::empty(),
            c.email@ == Seq::<char>::empty(),
            !c.strip_colour,
            c.send_full_volumes,
            !c.send_individual_chapters,
    {
        UserConfig {
            name: String::new(),
            email: String::new(),
            strip_colour: false,
            send_full_volumes: true,
            send_individual_chapters: false,
        }
    }
}

#[derive(Debug)]
pub struct EpubGenConfig {
    pub volumes: bool,
    pub chapters: bool,
    pub strip_colour: bool,
}

impl Default for EpubGenConfig {
    fn default() -> (c: Self)
        ensures
            c.volumes,
            c.chapters,
            !c.strip_colour,
    {
        EpubGenConfig { volumes: true, chapters: true, strip_colour: false }
    }
}

/// Selector type for HTML parsing
#[derive(Clone, Copy, Debug, PartialEq, Eq, Structural)]
pub enum SelectorType {
    Class,
    Id,
    Tag,
}

impl Default for SelectorType {
    fn default() -> (t: Self)
        ensures
            t == SelectorType::Class,
    {
        SelectorType::Class
    }
}

/// HTML selectors for parsing a source's TOC and chapters
#[derive(Clone, Debug)]
pub struct Selectors {
    /// CSS class/id/tag for volume containers
    pub volume_wrapper: String,
    /// Tag for volume title (inside volume wrapper)
    pub volume_title: String,
    /// CSS class/id/tag for chapter entries
    pub chapter_entry: String,
    /// Tag for chapter links (inside chapter entry)
    pub chapter_link: String,
    /// CSS id for main content container
    pub main_content: String,
    /// How to interpret the above selectors
    pub selector_type: SelectorType,
}

/// The selectors of the Wandering Inn's pages, which are the default.
pub open spec fn default_selectors(s: Selectors) -> bool {
    &&& s.volume_wrapper@ == "volume-wrapper"@
    &&& s.volume_title@ == "h2"@
    &&& s.chapter_entry@ == "chapter-entry"@
    &&& s.chapter_link@ == "a"@
    &&& s.main_content@ == "main-content"@
    &&& s.selector_type == SelectorType::Class
}

/// The selectors of Royal Road's pages.
pub open spec fn royal_road_selectors(s: Selectors) -> bool {
    &&& s.volume_wrapper@ == "volume-selector"@
    &&& s.volume_title@ == "h6"@
    &&& s.chapter_entry@ == "chapter-row"@
    &&& s.chapter_link@ == "a"@
    &&& s.main_content@ == "chapter-content"@
    &&& s.selector_type == SelectorType::Class
}

impl Default for Selectors {
    fn default() -> (s: Self)
        ensures
            default_selectors(s),
    {
        Selectors {
            volume_wrapper: String::from_str("volume-wrapper"),
            volume_title: String::from_str("h2"),
            chapter_entry: String::from_str("chapter-entry"),
            chapter_link: String::from_str("a"),
            main_content: String::from_str("main-content"),
            selector_type: SelectorType::Class,
        }
    }
}

/// Authentication configuration for a source
#[derive(Clone, Debug)]
pub enum AuthConfig {
    /// No authentication required
    NoAuth,
    /// Patreon integration
    Patreon { patreon_name: String },
}

impl Default for AuthConfig {
    fn default() -> (a: Self)
        ensures
            a is NoAuth,
    {
        AuthConfig::NoAuth
    }
}

/// Metadata for a source (used in EPUB generation)
#[derive(Clone, Debug)]
pub struct SourceMetadata {
    pub author: String,
    pub description: String,
}

impl Default for SourceMetadata {
    fn default() -> (m: Self)
        ensures
            m.author@ == "Unknown"@,
            m.description@ == Seq::<char>::empty(),
    {
        SourceMetadata { author: String::from_str("Unknown"), description: String::new() }
    }
}

/// Configuration for a single source
#[derive(Clone, Debug)]
pub struct SourceConfig {
    /// Unique identifier for this source
    pub id: String,
    /// Human-readable name
    pub name: String,
    /// Whether this source is enabled
    pub enabled: bool,
    /// URL to the table of contents page
    pub toc_url: String,
    /// HTML selectors for parsing
    pub selectors: Selectors,
    /// Authentication configuration
    pub auth: AuthConfig,
    /// Metadata for EPUB generation
    pub metadata: SourceMetadata,
    /// Post-processors to apply (in order)
    pub post_processors: Vec<String>,
}

/// The texts of a list of strings.
pub open spec fn texts(v: Seq<String>) -> Seq<Seq<char>> {
    v.map_values(|s: String| s@)
}

impl Default for SourceConfig {
    fn default() -> (c: Self)
        ensures
            c.id@ == "unknown"@,
            c.name@ == "Unknown Source"@,
            c.enabled,
            c.toc_url@ == Seq::<char>::empty(),
            default_selectors(c.selectors),
            c.auth is NoAuth,
            c.metadata.author@ == "Unknown"@,
            c.metadata.description@ == Seq::<char>::empty(),
            c.post_processors@.len() == 0,
    {
        SourceConfig {
            id: String::from_str("unknown"),
            name: String::from_str("Unknown Source"),
            enabled: true,
            toc_url: String::new(),
            selectors: Selectors::default(),
            auth: AuthConfig::NoAuth,
            metadata: SourceMetadata::default(),
            post_processors: Vec::new(),
        }
    }
}

/// The Wandering Inn preset, apart from its table of contents and its
/// authentication.
pub open spec fn wandering_inn_preset(c: SourceConfig) -> bool {
    &&& c.id@ == "wandering-inn"@
    &&& c.name@ == "The Wandering Inn"@
    &&& c.enabled
    &&& default_selectors(c.selectors)
    &&& c.metadata.author@ == "pirate aba"@
    &&& c.metadata.description@ == "The Wandering Inn"@
    &&& texts(c.post_processors@) == seq!["mrsha-write"@, "strip-links"@]
}

/// The Wandering Inn's table of contents.
pub open spec fn wandering_inn_toc() -> Seq<char> {
    "https://wanderinginn.com/table-of-contents/"@
}

/// Whether `a` is Patreon authentication as `name`.
pub open spec fn patreon_as(a: AuthConfig, name: Seq<char>) -> bool {
    match a {
        AuthConfig::Patreon { patreon_name } => patreon_name@ == name,
        AuthConfig::NoAuth => false,
    }
}

} // verus!

verus! {

/// Whether `c` is alphanumeric in Unicode's sense, as `char::is_alphanumeric`
/// decides.
pub uninterp spec fn alphanumeric(c: char) -> bool;

/// `s` in lower case, as `str::to_lowercase` maps it.
pub uninterp spec fn lowercased(s: Seq<char>) -> Seq<char>;

/// Trusted: calls `char::is_alphanumeric`, whose result is named
/// `alphanumeric`.
#[verifier::external_body]
fn is_alphanumeric(c: char) -> (b: bool)
    ensures
        b == alphanumeric(c),
{
    c.is_alphanumeric()
}

/// Trusted: calls `str::to_lowercase`, whose result is named `lowercased`.
#[verifier::external_body]
pub(crate) fn to_lowercase(s: &str) -> (r: String)
    ensures
        r@ == lowercased(s@),
{
    s.to_lowercase()
}

/// A character of a slug: itself when alphanumeric, else a hyphen.
pub open spec fn slug_char(c: char) -> char {
    if alphanumeric(c) {
        c
    } else {
        '-'
    }
}

/// `parts` joined with `sep` between each two.
pub open spec fn join_with(parts: Seq<Seq<char>>, sep: char) -> Seq<char>
    decreases parts.len(),
{
    if parts.len() == 0 {
        Seq::empty()
    } else if parts.len() == 1 {
        parts[0]
    } else {
        join_with(parts.drop_last(), sep).push(sep) + parts.last()
    }
}

pub open spec fn nonempty(p: Seq<char>) -> bool {
    p.len() > 0
}

/// The URL slug of `name`: lower-cased, every character that is not
/// alphanumeric turned into a hyphen, runs of hyphens collapsed into one and
/// hyphens at either end dropped.
pub open spec fn slug_of(name: Seq<char>) -> Seq<char> {
    let mapped = lowercased(name).map_values(|c: char| slug_char(c));
    join_with(crate::text::split_char(mapped, '-').filter(|p: Seq<char>| nonempty(p)), '-')
}

/// Convert a name to a URL slug
pub fn slug_name(name: &str) -> (slug: String)
    ensures
        slug@ == slug_of(name@),
{
    let lower = to_lowercase(name);
    let chars = chars_of(lower.as_str());
    let mut mapped: Vec<char> = Vec::new();
    let mut i: usize = 0;
    while i < chars.len()
        invariant
            i <= chars.len(),
            mapped@ == chars@.take(i as int).map_values(|c: char| slug_char(c)),
        decreases chars.len() - i,
    {
        let c = chars[i];
        let m = if is_alphanumeric(c) {
            c
        } else {
            '-'
        };
        mapped.push(m);
        proof {
            assert(chars@.take(i + 1) == chars@.take(i as int).push(c));
        }
        i = i + 1;
    }
    proof {
        assert(chars@.take(chars@.len() as int) == chars@);
    }
    let parts = split_char_exec(&mapped, '-');
    let ghost all = crate::text::split_char(mapped@, '-');
    let ghost keep = |p: Seq<char>| nonempty(p);
    let mut out = String::new();
    let mut count: usize = 0;
    let mut j: usize = 0;
    proof {
        reveal(Seq::filter);
        assert(all.take(0) =~= Seq::<Seq<char>>::empty());
    }
    while j < parts.len()
        invariant
            j <= parts@.len(),
            parts@.len() == all.len(),
            forall|k: int| 0 <= k < parts@.len() ==> #[trigger] parts@[k]@ == all[k],
            keep == (|p: Seq<char>| nonempty(p)),
            count == all.take(j as int).filter(keep).len(),
            out@ == join_with(all.take(j as int).filter(keep), '-'),
        decreases parts.len() - j,
    {
        let ghost before = all.take(j as int).filter(keep);
        proof {
            reveal(Seq::filter);
            assert(all.take(j + 1).drop_last() == all.take(j as int));
            assert(all.take(j + 1).last() == all[j as int]);
            all.take(j as int).lemma_filter_len(keep);
            all.take(j + 1).lemma_filter_len(keep);
        }
        let part = &parts[j];
        if part.len() > 0 {
            if count > 0 {
                out.push('-');
            }
            let mut k: usize = 0;
            let ghost start = out@;
            while k < part.len()
                invariant
                    k <= part@.len(),
                    out@ == start + part@.take(k as int),
                decreases part.len() - k,
            {
                out.push(part[k]);
                proof {
                    assert(part@.take(k + 1) == part@.take(k as int).push(part@[k as int]));
                }
                k = k + 1;
            }
            proof {
                assert(part@.take(part@.len() as int) == part@);
                let after = all.take(j + 1).filter(keep);
                assert(after == before.push(all[j as int]));
                if count > 0 {
                    assert(after.drop_last() == before);
                } else {
                    assert(before.len() == 0);
                    assert(after.len() == 1);
                }
            }
            count = count + 1;
        } else {
            proof {
                assert(all.take(j + 1).filter(keep) == before);
            }
        }
        j = j + 1;
    }
    proof {
        assert(all.take(all.len() as int) == all);
    }
    out
}

} // verus!

verus! {

/// No hyphen in `p`.
pub open spec fn dash_free(p: Seq<char>) -> bool {
    forall|i: int| 0 <= i < p.len() ==> p[i] != '-'
}

/// A tidy slug: no hyphen at either end and never two hyphens in a row.
pub open spec fn tidy_slug(s: Seq<char>) -> bool {
    &&& s.len() > 0 ==> s[0] != '-' && s.last() != '-'
    &&& forall|i: int| 0 <= i < s.len() - 1 ==> !(#[trigger] s[i] == '-' && s[i + 1] == '-')
}

proof fn lemma_split_pieces_dash_free(s: Seq<char>)
    ensures
        forall|k: int|
            0 <= k < crate::text::split_char(s, '-').len() ==> dash_free(
                #[trigger] crate::text::split_char(s, '-')[k],
            ),
    decreases s.len(),
{
    if s.len() > 0 {
        lemma_split_pieces_dash_free(s.drop_last());
        crate::text::lemma_split_char_nonempty(s.drop_last(), '-');
        let prev = crate::text::split_char(s.drop_last(), '-');
        if s.last() != '-' {
            let last = prev.last().push(s.last());
            assert(dash_free(prev[prev.len() - 1]));
            assert(dash_free(last));
        } else {
            assert(dash_free(Seq::<char>::empty()));
        }
    }
}

proof fn lemma_join_tidy(parts: Seq<Seq<char>>)
    requires
        forall|k: int| 0 <= k < parts.len() ==> #[trigger] nonempty(parts[k]) && dash_free(parts[k]),
    ensures
        tidy_slug(join_with(parts, '-')),
        parts.len() > 0 ==> join_with(parts, '-').len() > 0,
    decreases parts.len(),
{
    if parts.len() == 1 {
        assert(nonempty(parts[0]) && dash_free(parts[0]));
    } else if parts.len() > 1 {
        let init = parts.drop_last();
        assert forall|k: int| 0 <= k < init.len() implies #[trigger] nonempty(init[k]) && dash_free(init[k]) by {
            assert(init[k] == parts[k]);
            assert(nonempty(parts[k]) && dash_free(parts[k]));
        }
        lemma_join_tidy(init);
        let j = join_with(init, '-');
        let last = parts.last();
        assert(nonempty(parts[parts.len() - 1]) && dash_free(parts[parts.len() - 1]));
        let r = j.push('-') + last;
        assert(r == join_with(parts, '-'));
        assert(r[0] == j[0]);
        assert(r.last() == last.last());
        assert forall|i: int| 0 <= i < r.len() - 1 implies !(#[trigger] r[i] == '-' && r[i + 1] == '-') by {
            if i < j.len() - 1 {
                assert(r[i] == j[i] && r[i + 1] == j[i + 1]);
            } else if i == j.len() - 1 {
                assert(r[i] == j.last());
            } else if i == j.len() {
                assert(r[i + 1] == last[0]);
            } else {
                assert(r[i] == last[i - j.len() - 1]);
            }
        }
    }
}

/// A slug never starts or ends with a hyphen and never holds two hyphens in
/// a row, whatever the name.
pub proof fn lemma_slug_tidy(name: Seq<char>)
    ensures
        tidy_slug(slug_of(name)),
{
    broadcast use vstd::seq_lib::group_filter_ensures;

    let mapped = lowercased(name).map_values(|c: char| slug_char(c));
    let pieces = crate::text::split_char(mapped, '-');
    let keep = |p: Seq<char>| nonempty(p);
    let kept = pieces.filter(keep);
    lemma_split_pieces_dash_free(mapped);
    assert forall|k: int| 0 <= k < kept.len() implies #[trigger] nonempty(kept[k]) && dash_free(kept[k]) by {
        assert(keep(kept[k]));
        assert(kept.contains(kept[k]));
        pieces.lemma_filter_contains_rev(keep, kept[k]);
        let idx = choose|idx: int| 0 <= idx < pieces.len() && pieces[idx] == kept[k];
        assert(dash_free(pieces[idx]));
    }
    lemma_join_tidy(kept);
}

} // verus!

verus! {

impl SourceConfig {
    /// Create a default Wandering Inn source configuration
    pub fn wandering_inn() -> (c: Self)
        ensures
            wandering_inn_preset(c),
            c.toc_url@ == wandering_inn_toc(),
            c.auth is NoAuth,
    {
        let post_processors = vec![String::from_str("mrsha-write"), String::from_str("strip-links")];
        let c = SourceConfig {
            id: String::from_str("wandering-inn"),
            name: String::from_str("The Wandering Inn"),
            enabled: true,
            toc_url: String::from_str("https://wanderinginn.com/table-of-contents/"),
            selectors: Selectors::default(),
            auth: AuthConfig::NoAuth,
            metadata: SourceMetadata {
                author: String::from_str("pirate aba"),
                description: String::from_str("The Wandering Inn"),
            },
            post_processors,
        };
        proof {
            assert(texts(c.post_processors@) =~= seq!["mrsha-write"@, "strip-links"@]);
        }
        c
    }

    /// Create a Wandering Inn source with Patreon authentication
    pub fn wandering_inn_with_patreon(patreon_name: &str) -> (c: Self)
        ensures
            wandering_inn_preset(c),
            c.toc_url@ == wandering_inn_toc(),
            patreon_as(c.auth, patreon_name@),
    {
        let mut config = Self::wandering_inn();
        config.auth = AuthConfig::Patreon { patreon_name: patreon_name.to_string() };
        config
    }

    /// Create a Royal Road source configuration
    pub fn royal_road(fiction_id: &str, name: &str, author: &str, description: &str) -> (c: Self)
        ensures
            c.id@ == "royal-road-"@ + fiction_id@,
            c.name@ == name@,
            c.enabled,
            c.toc_url@ == "https://www.royalroad.com/fiction/"@ + fiction_id@ + "/"@ + slug_of(name@),
            royal_road_selectors(c.selectors),
            c.auth is NoAuth,
            c.metadata.author@ == author@,
            c.metadata.description@ == description@,
            texts(c.post_processors@) == seq!["strip-links"@],
    {
        let mut id = String::from_str("royal-road-");
        id.append(fiction_id);
        let mut toc_url = String::from_str("https://www.royalroad.com/fiction/");
        toc_url.append(fiction_id);
        toc_url.append("/");
        let slug = slug_name(name);
        toc_url.append(slug.as_str());
        let post_processors = vec![String::from_str("strip-links")];
        let c = SourceConfig {
            id,
            name: name.to_string(),
            enabled: true,
            toc_url,
            selectors: Selectors {
                volume_wrapper: String::from_str("volume-selector"),
                volume_title: String::from_str("h6"),
                chapter_entry: String::from_str("chapter-row"),
                chapter_link: String::from_str("a"),
                main_content: String::from_str("chapter-content"),
                selector_type: SelectorType::Class,
            },
            auth: AuthConfig::NoAuth,
            metadata: SourceMetadata { author: author.to_string(), description: description.to_string() },
            post_processors,
        };
        proof {
            assert(texts(c.post_processors@) =~= seq!["strip-links"@]);
        }
        c
    }
}

pub struct Config {
    pub mail: MailConfig,
    pub epub_gen: EpubGenConfig,
    /// Global request delay in milliseconds
    pub request_delay: u64,
    /// List of sources to scrape
    pub sources: Vec<SourceConfig>,
    // Legacy fields for backward compatibility
    pub toc_url: Option<String>,
    pub patreon_name: Option<String>,
}

impl Default for Config {
    fn default() -> (c: Self)
        ensures
            c.request_delay == 1000,
            c.mail.smtp_hostname@ == "smtp.gmail.com"@,
            c.mail.smtp_port == 587,
            c.mail.destinations@.len() == 0,
            c.epub_gen.volumes && c.epub_gen.chapters && !c.epub_gen.strip_colour,
            c.sources@.len() == 1,
            wandering_inn_preset(c.sources@[0]),
            c.sources@[0].toc_url@ == wandering_inn_toc(),
            c.sources@[0].auth is NoAuth,
            c.toc_url is None,
            c.patreon_name is None,
    {
        Config {
            request_delay: 1000,
            mail: MailConfig::default(),
            epub_gen: EpubGenConfig::default(),
            sources: vec![SourceConfig::wandering_inn()],
            toc_url: None,
            patreon_name: None,
        }
    }
}

/// The enabled sources among `sources`, in order.
pub open spec fn enabled_of(sources: Seq<SourceConfig>) -> Seq<SourceConfig> {
    sources.filter(|s: SourceConfig| s.enabled)
}

/// Whether source `i` is the first with the id `id`.
pub open spec fn first_with_id(sources: Seq<SourceConfig>, id: Seq<char>, i: int) -> bool {
    &&& 0 <= i < sources.len()
    &&& sources[i].id@ == id
    &&& forall|j: int| 0 <= j < i ==> (#[trigger] sources[j]).id@ != id
}

impl Config {
    /// Get enabled sources only
    pub fn enabled_sources(&self) -> (r: Vec<&SourceConfig>)
        ensures
            r@.map_values(|s: &SourceConfig| *s) == enabled_of(self.sources@),
    {
        let ghost keep = |s: SourceConfig| s.enabled;
        let mut r: Vec<&SourceConfig> = Vec::new();
        let mut i: usize = 0;
        proof {
            reveal(Seq::filter);
            assert(self.sources@.take(0) =~= Seq::<SourceConfig>::empty());
        }
        while i < self.sources.len()
            invariant
                i <= self.sources@.len(),
                keep == (|s: SourceConfig| s.enabled),
                r@.map_values(|s: &SourceConfig| *s) == self.sources@.take(i as int).filter(keep),
            decreases self.sources.len() - i,
        {
            proof {
                reveal(Seq::filter);
                assert(self.sources@.take(i + 1).drop_last() == self.sources@.take(i as int));
                assert(self.sources@.take(i + 1).last() == self.sources@[i as int]);
            }
            let s = &self.sources[i];
            if s.enabled {
                let ghost before = r@;
                r.push(s);
                proof {
                    assert(r@.map_values(|s: &SourceConfig| *s) =~= before.map_values(|s: &SourceConfig| *s).push(*s));
                }
            }
            i = i + 1;
        }
        proof {
            assert(self.sources@.take(self.sources@.len() as int) == self.sources@);
        }
        r
    }

    /// Find a source by ID
    pub fn find_source(&self, id: &str) -> (r: Option<&SourceConfig>)
        ensures
            match r {
                Some(s) => exists|i: int| first_with_id(self.sources@, id@, i) && *s == self.sources@[i],
                None => forall|i: int| 0 <= i < self.sources@.len() ==> (#[trigger] self.sources@[i]).id@ != id@,
            },
    {
        let mut i: usize = 0;
        while i < self.sources.len()
            invariant
                i <= self.sources@.len(),
                forall|j: int| 0 <= j < i ==> (#[trigger] self.sources@[j]).id@ != id@,
            decreases self.sources.len() - i,
        {
            if str_eq(self.sources[i].id.as_str(), id) {
                proof {
                    assert(first_with_id(self.sources@, id@, i as int));
                }
                return Some(&self.sources[i]);
            }
            i = i + 1;
        }
        None
    }
}

/// The source that a configuration written for a single source stands for:
/// the Wandering Inn, with Patreon authentication when a non-empty Patreon
/// name is given and with the legacy table of contents when one is given.
pub open spec fn legacy_source(config: Config, s: SourceConfig) -> bool {
    &&& wandering_inn_preset(s)
    &&& match config.toc_url {
        Some(t) => s.toc_url@ == t@,
        None => s.toc_url@ == wandering_inn_toc(),
    }
    &&& match config.patreon_name {
        Some(p) => if p@.len() > 0 {
            patreon_as(s.auth, p@)
        } else {
            s.auth is NoAuth
        },
        None => s.auth is NoAuth,
    }
}

/// Migrate legacy single-source config to multi-source format
pub fn migrate_legacy_config(config: Config) -> (r: Config)
    ensures
        config.sources@.len() > 0 ==> r == config,
        config.sources@.len() == 0 ==> {
            &&& r.sources@.len() == 1
            &&& legacy_source(config, r.sources@[0])
            &&& r.mail == config.mail
            &&& r.epub_gen == config.epub_gen
            &&& r.request_delay == config.request_delay
            &&& r.toc_url == config.toc_url
            &&& r.patreon_name == config.patreon_name
        },
{
    let mut config = config;
    if config.sources.len() == 0 {
        let mut src = match &config.patreon_name {
            Some(patreon_name) => if !patreon_name.as_str().is_empty() {
                SourceConfig::wandering_inn_with_patreon(patreon_name.as_str())
            } else {
                SourceConfig::wandering_inn()
            },
            None => SourceConfig::wandering_inn(),
        };
        match &config.toc_url {
            Some(toc_url) => {
                src.toc_url = toc_url.clone();
            },
            None => {},
        }
        config.sources.push(src);
    }
    config
}

/// Whether any destination asks for `flag`.
pub open spec fn any_destination(dests: Seq<UserConfig>, flag: spec_fn(UserConfig) -> bool) -> bool {
    exists|i: int| 0 <= i < dests.len() && flag(#[trigger] dests[i])
}

/// What is done to a configuration once it has been read: every kind of
/// EPUB that some destination asks for is generated, and a configuration
/// written for a single source is migrated to the list of sources.
pub fn settle_loaded_config(config: Config) -> (r: Config)
    ensures
        r.epub_gen.strip_colour == (config.epub_gen.strip_colour || any_destination(
            config.mail.destinations@,
            |d: UserConfig| d.strip_colour,
        )),
        r.epub_gen.volumes == (config.epub_gen.volumes || any_destination(
            config.mail.destinations@,
            |d: UserConfig| d.send_full_volumes,
        )),
        r.epub_gen.chapters == (config.epub_gen.chapters || any_destination(
            config.mail.destinations@,
            |d: UserConfig| d.send_individual_chapters,
        )),
        r.mail == config.mail,
        r.request_delay == config.request_delay,
        r.toc_url == config.toc_url,
        r.patreon_name == config.patreon_name,
        config.sources@.len() > 0 ==> r.sources == config.sources,
        config.sources@.len() == 0 ==> r.sources@.len() == 1 && legacy_source(config, r.sources@[0]),
{
    let mut config = config;
    let ghost orig = config;
    let ghost old_gen = config.epub_gen;
    let ghost dests = config.mail.destinations@;
    let mut i: usize = 0;
    while i < config.mail.destinations.len()
        invariant
            i <= dests.len(),
            dests == config.mail.destinations@,
            config.mail == orig.mail,
            config.request_delay == orig.request_delay,
            config.sources == orig.sources,
            config.toc_url == orig.toc_url,
            config.patreon_name == orig.patreon_name,
            config.epub_gen.strip_colour == (old_gen.strip_colour || exists|k: int|
                0 <= k < i && (#[trigger] dests[k]).strip_colour),
            config.epub_gen.volumes == (old_gen.volumes || exists|k: int|
                0 <= k < i && (#[trigger] dests[k]).send_full_volumes),
            config.epub_gen.chapters == (old_gen.chapters || exists|k: int|
                0 <= k < i && (#[trigger] dests[k]).send_individual_chapters),
        decreases dests.len() - i,
    {
        let d = &config.mail.destinations[i];
        let (s, v, c) = (d.strip_colour, d.send_full_volumes, d.send_individual_chapters);
        if s {
            config.epub_gen.strip_colour = true;
        }
        if v {
            config.epub_gen.volumes = true;
        }
        if c {
            config.epub_gen.chapters = true;
        }
        i = i + 1;
    }
    migrate_legacy_config(config)
}

} // verus!

verus! {

/// Two selector sets that say the same.
pub open spec fn same_selectors(a: Selectors, b: Selectors) -> bool {
    &&& a.volume_wrapper@ == b.volume_wrapper@
    &&& a.volume_title@ == b.volume_title@
    &&& a.chapter_entry@ == b.chapter_entry@
    &&& a.chapter_link@ == b.chapter_link@
    &&& a.main_content@ == b.main_content@
    &&& a.selector_type == b.selector_type
}

/// Two authentication settings that say the same.
pub open spec fn same_auth(a: AuthConfig, b: AuthConfig) -> bool {
    match (a, b) {
        (AuthConfig::NoAuth, AuthConfig::NoAuth) => true,
        (AuthConfig::Patreon { patreon_name: x }, AuthConfig::Patreon { patreon_name: y }) => x@ == y@,
        _ => false,
    }
}

/// Two source configurations that say the same.
pub open spec fn same_source(a: SourceConfig, b: SourceConfig) -> bool {
    &&& a.id@ == b.id@
    &&& a.name@ == b.name@
    &&& a.enabled == b.enabled
    &&& a.toc_url@ == b.toc_url@
    &&& same_selectors(a.selectors, b.selectors)
    &&& same_auth(a.auth, b.auth)
    &&& a.metadata.author@ == b.metadata.author@
    &&& a.metadata.description@ == b.metadata.description@
    &&& texts(a.post_processors@) == texts(b.post_processors@)
}

/// A copy of a list of strings.
pub fn copy_strings(v: &Vec<String>) -> (r: Vec<String>)
    ensures
        texts(r@) == texts(v@),
{
    let mut r: Vec<String> = Vec::new();
    let mut i: usize = 0;
    while i < v.len()
        invariant
            i <= v@.len(),
            r@.len() == i,
            forall|k: int| 0 <= k < i ==> #[trigger] r@[k]@ == v@[k]@,
        decreases v.len() - i,
    {
        r.push(v[i].clone());
        i = i + 1;
    }
    proof {
        assert(texts(r@) =~= texts(v@));
    }
    r
}

impl SourceConfig {
    /// A copy of this configuration.
    pub fn copied(&self) -> (c: SourceConfig)
        ensures
            same_source(c, *self),
    {
        let auth = match &self.auth {
            AuthConfig::NoAuth => AuthConfig::NoAuth,
            AuthConfig::Patreon { patreon_name } => AuthConfig::Patreon { patreon_name: patreon_name.clone() },
        };
        SourceConfig {
            id: self.id.clone(),
            name: self.name.clone(),
            enabled: self.enabled,
            toc_url: self.toc_url.clone(),
            selectors: Selectors {
                volume_wrapper: self.selectors.volume_wrapper.clone(),
                volume_title: self.selectors.volume_title.clone(),
                chapter_entry: self.selectors.chapter_entry.clone(),
                chapter_link: self.selectors.chapter_link.clone(),
                main_content: self.selectors.main_content.clone(),
                selector_type: self.selectors.selector_type,
            },
            auth,
            metadata: SourceMetadata {
                author: self.metadata.author.clone(),
                description: self.metadata.description.clone(),
            },
            post_processors: copy_strings(&self.post_processors),
        }
    }
}

} // verus!
