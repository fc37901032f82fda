//! EPUB generation: what goes into each book and under which names.
//!
//! A book is first laid out as a list of [`EpubStep`]s, the calls that
//! `epub_builder` is to receive, in order; [`render_epub`] then hands them
//! to the builder. The layouts are verified exactly; the rendering is the
//! builder's.
use vstd::prelude::*;
use crate::config::SourceConfig;
use crate::db::{Chapter, Volume};
use crate::postprocess::ProcessorRegistry;
use crate::book::{Book, Contents, Epub};
use crate::text::{chars_of, decimal_digits, str_eq};

verus! {

/// Context for EPUB generation containing source metadata and processors
pub struct EpubContext<'a> {
    pub source: &'a SourceConfig,
    pub processor_registry: &'a ProcessorRegistry,
}

/// A finished EPUB, ready to be written or sent.
pub struct Attachment {
    pub filename: String,
    pub mime: String,
    pub bytes: Vec<u8>,
    pub contents: Contents,
}

impl Attachment {
    /// The calls the EPUB builder was handed to make `bytes`.
    pub closed spec fn contents(&self) -> Seq<StepView> {
        self.contents.steps()
    }
}

/// The two kinds of book made for a source.
#[derive(Clone, Copy, Debug, PartialEq, Eq, Structural)]
pub enum BookKind {
    /// One book per volume that needs regenerating.
    Volumes,
    /// Every chapter that needs regenerating, each on its own and all in one.
    Chapters,
}

/// One kind of book to make: its kind, the directory under the source's
/// build directory it is written to, and whether colour is stripped.
#[derive(Debug)]
pub struct BookJob {
    pub kind: BookKind,
    pub dir: String,
    pub strip_colour: bool,
}

/// A job as kind, directory and colour stripping.
pub open spec fn job_view(j: BookJob) -> (BookKind, Seq<char>, bool) {
    (j.kind, j.dir@, j.strip_colour)
}

/// The books the EPUB settings ask for, in the order they are made: for
/// volumes, then for chapters, the colour-stripped books first when colour
/// is stripped, then the plain ones.
pub open spec fn book_plan(volumes: bool, chapters: bool, strip_colour: bool) -> Seq<(BookKind, Seq<char>, bool)> {
    (if volumes && strip_colour { seq![(BookKind::Volumes, "volumes_stripped_colour"@, true)] } else { Seq::empty() })
        + (if volumes { seq![(BookKind::Volumes, "volumes"@, false)] } else { Seq::empty() })
        + (if chapters && strip_colour { seq![(BookKind::Chapters, "chapters_stripped_colour"@, true)] } else { Seq::empty() })
        + (if chapters { seq![(BookKind::Chapters, "chapters"@, false)] } else { Seq::empty() })
}

/// Whether `plan` lists the job `job`.
pub open spec fn plans(plan: Seq<(BookKind, Seq<char>, bool)>, job: (BookKind, Seq<char>, bool)) -> bool {
    exists|i: int| 0 <= i < plan.len() && plan[i] == job
}

/// The books the settings ask for: a plain volume book exactly when volumes
/// are made, a colour-stripped one exactly when volumes are made with
/// colour stripped, and the same for chapters; a book of a kind only when
/// that kind is made, stripped only when colour is stripped.
pub proof fn lemma_book_plan_follows_settings(volumes: bool, chapters: bool, strip_colour: bool)
    ensures
        plans(book_plan(volumes, chapters, strip_colour), (BookKind::Volumes, "volumes"@, false)) <==> volumes,
        plans(book_plan(volumes, chapters, strip_colour), (BookKind::Volumes, "volumes_stripped_colour"@, true)) <==> volumes && strip_colour,
        plans(book_plan(volumes, chapters, strip_colour), (BookKind::Chapters, "chapters"@, false)) <==> chapters,
        plans(book_plan(volumes, chapters, strip_colour), (BookKind::Chapters, "chapters_stripped_colour"@, true)) <==> chapters && strip_colour,
        forall|i: int| 0 <= i < book_plan(volumes, chapters, strip_colour).len() ==> {
            let j = #[trigger] book_plan(volumes, chapters, strip_colour)[i];
            &&& j.0 == BookKind::Volumes ==> volumes
            &&& j.0 == BookKind::Chapters ==> chapters
            &&& j.2 ==> strip_colour
        },
{
    reveal_strlit("volumes");
    reveal_strlit("volumes_stripped_colour");
    reveal_strlit("chapters");
    reveal_strlit("chapters_stripped_colour");
    let p = book_plan(volumes, chapters, strip_colour);
    if volumes && chapters && strip_colour {
        assert(p =~= seq![(BookKind::Volumes, "volumes_stripped_colour"@, true), (BookKind::Volumes, "volumes"@, false), (BookKind::Chapters, "chapters_stripped_colour"@, true), (BookKind::Chapters, "chapters"@, false)]);
        assert(p[0] == (BookKind::Volumes, "volumes_stripped_colour"@, true));
        assert(p[1] == (BookKind::Volumes, "volumes"@, false));
        assert(p[2] == (BookKind::Chapters, "chapters_stripped_colour"@, true));
        assert(p[3] == (BookKind::Chapters, "chapters"@, false));
    }
    if volumes && chapters && !strip_colour {
        assert(p =~= seq![(BookKind::Volumes, "volumes"@, false), (BookKind::Chapters, "chapters"@, false)]);
        assert(p[0] == (BookKind::Volumes, "volumes"@, false));
        assert(p[1] == (BookKind::Chapters, "chapters"@, false));
    }
    if volumes && !chapters && strip_colour {
        assert(p =~= seq![(BookKind::Volumes, "volumes_stripped_colour"@, true), (BookKind::Volumes, "volumes"@, false)]);
        assert(p[0] == (BookKind::Volumes, "volumes_stripped_colour"@, true));
        assert(p[1] == (BookKind::Volumes, "volumes"@, false));
    }
    if volumes && !chapters && !strip_colour {
        assert(p =~= seq![(BookKind::Volumes, "volumes"@, false)]);
        assert(p[0] == (BookKind::Volumes, "volumes"@, false));
    }
    if !volumes && chapters && strip_colour {
        assert(p =~= seq![(BookKind::Chapters, "chapters_stripped_colour"@, true), (BookKind::Chapters, "chapters"@, false)]);
        assert(p[0] == (BookKind::Chapters, "chapters_stripped_colour"@, true));
        assert(p[1] == (BookKind::Chapters, "chapters"@, false));
    }
    if !volumes && chapters && !strip_colour {
        assert(p =~= seq![(BookKind::Chapters, "chapters"@, false)]);
        assert(p[0] == (BookKind::Chapters, "chapters"@, false));
    }
    if !volumes && !chapters && strip_colour {
        assert(p =~= Seq::<(BookKind, Seq<char>, bool)>::empty());
    }
    if !volumes && !chapters && !strip_colour {
        assert(p =~= Seq::<(BookKind, Seq<char>, bool)>::empty());
    }
}

/// The volume books do not depend on whether chapter books are made, and
/// the chapter books do not depend on whether volume books are made.
pub proof fn lemma_book_kinds_independent(volumes: bool, chapters: bool, other: bool, strip_colour: bool)
    ensures
        forall|job: (BookKind, Seq<char>, bool)|
            job.0 == BookKind::Volumes ==> (plans(book_plan(volumes, chapters, strip_colour), job) <==> plans(
                book_plan(volumes, other, strip_colour),
                job,
            )),
        forall|job: (BookKind, Seq<char>, bool)|
            job.0 == BookKind::Chapters ==> (plans(book_plan(volumes, chapters, strip_colour), job) <==> plans(
                book_plan(other, chapters, strip_colour),
                job,
            )),
{
    lemma_book_plan_membership(volumes, chapters, strip_colour);
    lemma_book_plan_membership(volumes, other, strip_colour);
    lemma_book_plan_membership(other, chapters, strip_colour);
}

/// Which jobs a plan lists, one settings combination at a time.
proof fn lemma_book_plan_membership(volumes: bool, chapters: bool, strip_colour: bool)
    ensures
        forall|job: (BookKind, Seq<char>, bool)| #[trigger] plans(book_plan(volumes, chapters, strip_colour), job) <==> {
            ||| job == (BookKind::Volumes, "volumes_stripped_colour"@, true) && volumes && strip_colour
            ||| job == (BookKind::Volumes, "volumes"@, false) && volumes
            ||| job == (BookKind::Chapters, "chapters_stripped_colour"@, true) && chapters && strip_colour
            ||| job == (BookKind::Chapters, "chapters"@, false) && chapters
        },
{
    let p = book_plan(volumes, chapters, strip_colour);
    if volumes && chapters && strip_colour {
        assert(p =~= seq![(BookKind::Volumes, "volumes_stripped_colour"@, true), (BookKind::Volumes, "volumes"@, false), (BookKind::Chapters, "chapters_stripped_colour"@, true), (BookKind::Chapters, "chapters"@, false)]);
        assert(p[0] == (BookKind::Volumes, "volumes_stripped_colour"@, true));
        assert(p[1] == (BookKind::Volumes, "volumes"@, false));
        assert(p[2] == (BookKind::Chapters, "chapters_stripped_colour"@, true));
        assert(p[3] == (BookKind::Chapters, "chapters"@, false));
    }
    if volumes && chapters && !strip_colour {
        assert(p =~= seq![(BookKind::Volumes, "volumes"@, false), (BookKind::Chapters, "chapters"@, false)]);
        assert(p[0] == (BookKind::Volumes, "volumes"@, false));
        assert(p[1] == (BookKind::Chapters, "chapters"@, false));
    }
    if volumes && !chapters && strip_colour {
        assert(p =~= seq![(BookKind::Volumes, "volumes_stripped_colour"@, true), (BookKind::Volumes, "volumes"@, false)]);
        assert(p[0] == (BookKind::Volumes, "volumes_stripped_colour"@, true));
        assert(p[1] == (BookKind::Volumes, "volumes"@, false));
    }
    if volumes && !chapters && !strip_colour {
        assert(p =~= seq![(BookKind::Volumes, "volumes"@, false)]);
        assert(p[0] == (BookKind::Volumes, "volumes"@, false));
    }
    if !volumes && chapters && strip_colour {
        assert(p =~= seq![(BookKind::Chapters, "chapters_stripped_colour"@, true), (BookKind::Chapters, "chapters"@, false)]);
        assert(p[0] == (BookKind::Chapters, "chapters_stripped_colour"@, true));
        assert(p[1] == (BookKind::Chapters, "chapters"@, false));
    }
    if !volumes && chapters && !strip_colour {
        assert(p =~= seq![(BookKind::Chapters, "chapters"@, false)]);
        assert(p[0] == (BookKind::Chapters, "chapters"@, false));
    }
    if !volumes && !chapters && strip_colour {
        assert(p =~= Seq::<(BookKind, Seq<char>, bool)>::empty());
    }
    if !volumes && !chapters && !strip_colour {
        assert(p =~= Seq::<(BookKind, Seq<char>, bool)>::empty());
    }
}

/// The books to make under the EPUB settings `gen`.
pub fn book_jobs(gen: &crate::config::EpubGenConfig) -> (jobs: Vec<BookJob>)
    ensures
        jobs@.map_values(|j: BookJob| job_view(j)) == book_plan(gen.volumes, gen.chapters, gen.strip_colour),
        plans(jobs@.map_values(|j: BookJob| job_view(j)), (BookKind::Volumes, "volumes"@, false)) <==> gen.volumes,
        plans(jobs@.map_values(|j: BookJob| job_view(j)), (BookKind::Volumes, "volumes_stripped_colour"@, true)) <==> gen.volumes && gen.strip_colour,
        plans(jobs@.map_values(|j: BookJob| job_view(j)), (BookKind::Chapters, "chapters"@, false)) <==> gen.chapters,
        plans(jobs@.map_values(|j: BookJob| job_view(j)), (BookKind::Chapters, "chapters_stripped_colour"@, true)) <==> gen.chapters && gen.strip_colour,
        forall|i: int| 0 <= i < jobs@.len() ==> {
            &&& (#[trigger] jobs@[i]).kind == BookKind::Volumes ==> gen.volumes
            &&& jobs@[i].kind == BookKind::Chapters ==> gen.chapters
            &&& jobs@[i].strip_colour ==> gen.strip_colour
        },
{
    let mut jobs: Vec<BookJob> = Vec::new();
    if gen.volumes && gen.strip_colour {
        jobs.push(BookJob { kind: BookKind::Volumes, dir: String::from_str("volumes_stripped_colour"), strip_colour: true });
    }
    let ghost a = jobs@.map_values(|j: BookJob| job_view(j));
    if gen.volumes {
        jobs.push(BookJob { kind: BookKind::Volumes, dir: String::from_str("volumes"), strip_colour: false });
    }
    let ghost b = jobs@.map_values(|j: BookJob| job_view(j));
    if gen.chapters && gen.strip_colour {
        jobs.push(BookJob { kind: BookKind::Chapters, dir: String::from_str("chapters_stripped_colour"), strip_colour: true });
    }
    let ghost c = jobs@.map_values(|j: BookJob| job_view(j));
    if gen.chapters {
        jobs.push(BookJob { kind: BookKind::Chapters, dir: String::from_str("chapters"), strip_colour: false });
    }
    proof {
        let p1: Seq<(BookKind, Seq<char>, bool)> = if gen.volumes && gen.strip_colour { seq![(BookKind::Volumes, "volumes_stripped_colour"@, true)] } else { Seq::empty() };
        let p2: Seq<(BookKind, Seq<char>, bool)> = if gen.volumes { seq![(BookKind::Volumes, "volumes"@, false)] } else { Seq::empty() };
        let p3: Seq<(BookKind, Seq<char>, bool)> = if gen.chapters && gen.strip_colour { seq![(BookKind::Chapters, "chapters_stripped_colour"@, true)] } else { Seq::empty() };
        let p4: Seq<(BookKind, Seq<char>, bool)> = if gen.chapters { seq![(BookKind::Chapters, "chapters"@, false)] } else { Seq::empty() };
        assert(a =~= p1);
        assert(b =~= p1 + p2);
        assert(c =~= p1 + p2 + p3);
        assert(jobs@.map_values(|j: BookJob| job_view(j)) =~= p1 + p2 + p3 + p4);
        lemma_book_plan_follows_settings(gen.volumes, gen.chapters, gen.strip_colour);
        assert forall|i: int| 0 <= i < jobs@.len() implies {
            &&& (#[trigger] jobs@[i]).kind == BookKind::Volumes ==> gen.volumes
            &&& jobs@[i].kind == BookKind::Chapters ==> gen.chapters
            &&& jobs@[i].strip_colour ==> gen.strip_colour
        } by {
            assert(jobs@.map_values(|j: BookJob| job_view(j))[i] == job_view(jobs@[i]));
        }
    }
    jobs
}

/// `name` with every path separator (`/` or `\`) turned into `-`.
pub open spec fn safe_name(name: Seq<char>) -> Seq<char> {
    name.map_values(|c: char| if c == '/' || c == '\\' { '-' } else { c })
}

/// Replace path separators so chapter/volume names can be used in filenames
/// and zip-internal content paths.
pub fn sanitize_filename(name: &str) -> (r: String)
    ensures
        r@ == safe_name(name@),
{
    let chars = chars_of(name);
    let mut r = String::new();
    let mut i: usize = 0;
    while i < chars.len()
        invariant
            i <= chars@.len(),
            r@ == safe_name(chars@.take(i as int)),
        decreases chars.len() - i,
    {
        let c = chars[i];
        if c == '/' || c == '\\' {
            r.push('-');
        } else {
            r.push(c);
        }
        proof {
            assert(chars@.take(i + 1) == chars@.take(i as int).push(c));
            assert(safe_name(chars@.take(i + 1)) == safe_name(chars@.take(i as int)).push(
                if c == '/' || c == '\\' { '-' } else { c },
            ));
        }
        i = i + 1;
    }
    proof {
        assert(chars@.take(chars@.len() as int) == chars@);
    }
    r
}

/// A sanitised name holds no path separator and keeps its length.
pub proof fn lemma_safe_name_has_no_separator(name: Seq<char>)
    ensures
        safe_name(name).len() == name.len(),
        forall|i: int| 0 <= i < name.len() ==> #[trigger] safe_name(name)[i] != '/' && safe_name(name)[i] != '\\',
{
}

/// The stylesheet embedded in every book.
pub open spec fn stylesheet() -> Seq<char> {
    "body { font-family: serif; line-height: 1.4; }\np { margin: 0 0 0.8em 0; text-indent: 0; }\nem, i { font-style: italic; }\nstrong, b { font-weight: bold; }\nh1, h2, h3 { text-align: center; }\n"@
}

pub fn load_stylesheet() -> (css: &'static str)
    ensures
        css@ == stylesheet(),
{
    "body { font-family: serif; line-height: 1.4; }\np { margin: 0 0 0.8em 0; text-indent: 0; }\nem, i { font-style: italic; }\nstrong, b { font-weight: bold; }\nh1, h2, h3 { text-align: center; }\n"
}

/// Chapter text as it goes into a book: Mrsha's writing always emphasised,
/// then colours named when the stripped variant is asked for.
pub open spec fn processed(reg: Map<Seq<char>, crate::postprocess::Processor>, raw: Seq<char>, strip_colour: bool) -> Seq<char> {
    let written = crate::postprocess::registry::named_applied(reg, "mrsha-write"@, raw);
    if strip_colour {
        crate::postprocess::registry::named_applied(reg, "strip-colour"@, written)
    } else {
        written
    }
}

/// Whether both steps of [`processed`] can proceed on `raw`.
pub open spec fn process_accepts(reg: Map<Seq<char>, crate::postprocess::Processor>, raw: Seq<char>, strip_colour: bool) -> bool {
    let written = crate::postprocess::registry::named_applied(reg, "mrsha-write"@, raw);
    &&& crate::postprocess::registry::named_accepts(reg, "mrsha-write"@, raw)
    &&& strip_colour ==> crate::postprocess::registry::named_accepts(reg, "strip-colour"@, written)
}

pub fn process_chapter_data(raw_data: &str, ctx: &EpubContext, strip_colour: bool) -> (out: String)
    requires
        ctx.processor_registry.wf(),
        process_accepts(ctx.processor_registry@, raw_data@, strip_colour),
    ensures
        out@ == processed(ctx.processor_registry@, raw_data@, strip_colour),
{
    // Always apply mrsha-write processor
    let mut processed = ctx.processor_registry.apply(raw_data, "mrsha-write");

    // Optionally apply strip-colour
    if strip_colour {
        processed = ctx.processor_registry.apply(processed.as_str(), "strip-colour");
    }
    processed
}

/// Whether a book can be made of `raw` chapter text.
pub fn process_accepts_exec(raw_data: &str, ctx: &EpubContext, strip_colour: bool) -> (b: bool)
    requires
        ctx.processor_registry.wf(),
    ensures
        b == process_accepts(ctx.processor_registry@, raw_data@, strip_colour),
{
    match ctx.processor_registry.try_apply(raw_data, "mrsha-write") {
        Some(written) => !strip_colour || ctx.processor_registry.accepts(written.as_str(), "strip-colour"),
        None => false,
    }
}

/// The decimal text of an integer, with a leading `-` when negative.
pub open spec fn signed_decimal(n: int) -> Seq<char> {
    if n < 0 {
        seq!['-'] + crate::text::decimal((-n) as nat)
    } else {
        crate::text::decimal(n as nat)
    }
}

/// The decimal text of `n`, as `isize::to_string` gives it.
pub fn isize_text(n: isize) -> (s: String)
    ensures
        s@ == signed_decimal(n as int),
{
    let mut s = String::new();
    let digits = if n < 0 {
        s.push('-');
        let m: i128 = -(n as i128);
        decimal_digits(m as usize)
    } else {
        decimal_digits(n as usize)
    };
    let mut i: usize = 0;
    let ghost start = s@;
    while i < digits.len()
        invariant
            i <= digits@.len(),
            s@ == start + digits@.take(i as int),
        decreases digits.len() - i,
    {
        s.push(digits[i]);
        proof {
            assert(digits@.take(i + 1) == digits@.take(i as int).push(digits@[i as int]));
        }
        i = i + 1;
    }
    proof {
        assert(digits@.take(digits@.len() as int) == digits@);
    }
    s
}

/// `id(name)`: how a chapter is named in files, with its name sanitised.
pub open spec fn chapter_stem(id: int, name: Seq<char>) -> Seq<char> {
    signed_decimal(id) + "("@ + safe_name(name) + ")"@
}

/// The stem of a chapter's file names.
pub fn chapter_file_stem(chapter: &Chapter) -> (s: String)
    ensures
        s@ == chapter_stem(chapter.id as int, chapter.name@),
{
    let mut s = isize_text(chapter.id);
    s.append("(");
    let safe = sanitize_filename(chapter.name.as_str());
    s.append(safe.as_str());
    s.append(")");
    s
}

/// `a` followed by `b`.
pub fn concat(a: &str, b: &str) -> (s: String)
    ensures
        s@ == a@ + b@,
{
    let mut s = a.to_string();
    s.append(b);
    s
}

} // verus!

verus! {

/// One call to the EPUB builder.
#[derive(Debug)]
pub enum EpubStep {
    /// Set a metadata field (`author`, `lang`, `title`, `generator`).
    Metadata { key: String, value: String },
    /// Add the stylesheet.
    Stylesheet { css: String },
    /// Add a PNG cover image under `path`.
    Cover { path: String, image: Vec<u8> },
    /// Add an inline table of contents at this point.
    InlineToc,
    /// Add an XHTML page under `href` with a table-of-contents `title`.
    Page { href: String, title: String, body: String },
}

/// The mathematical form of an [`EpubStep`].
pub enum StepView {
    Metadata { key: Seq<char>, value: Seq<char> },
    Stylesheet { css: Seq<char> },
    Cover { path: Seq<char>, image: Seq<u8>, mime: Seq<char> },
    InlineToc,
    Page { href: Seq<char>, title: Seq<char>, body: Seq<char> },
}

impl View for EpubStep {
    type V = StepView;

    open spec fn view(&self) -> StepView {
        match self {
            EpubStep::Metadata { key, value } => StepView::Metadata { key: key@, value: value@ },
            EpubStep::Stylesheet { css } => StepView::Stylesheet { css: css@ },
            EpubStep::Cover { path, image } => StepView::Cover { path: path@, image: image@, mime: "image/png"@ },
            EpubStep::InlineToc => StepView::InlineToc,
            EpubStep::Page { href, title, body } => StepView::Page { href: href@, title: title@, body: body@ },
        }
    }
}

pub open spec fn steps_view(steps: Seq<EpubStep>) -> Seq<StepView> {
    steps.map_values(|s: EpubStep| s@)
}

pub open spec fn cover_view(cover: Option<Vec<u8>>) -> Option<Seq<u8>> {
    match cover {
        Some(v) => Some(v@),
        None => None,
    }
}

/// The program named as every book's generator.
pub open spec fn generator() -> Seq<char> {
    "rsauvehoover/wandering-inn-scraper"@
}

/// The metadata every book opens with.
pub open spec fn book_header(author: Seq<char>, title: Seq<char>) -> Seq<StepView> {
    seq![
        StepView::Metadata { key: "author"@, value: author },
        StepView::Metadata { key: "lang"@, value: "en"@ },
        StepView::Metadata { key: "title"@, value: title },
        StepView::Metadata { key: "generator"@, value: generator() },
    ]
}

/// The cover step, when there is a cover.
pub open spec fn cover_steps(cover: Option<Seq<u8>>, path: Seq<char>) -> Seq<StepView> {
    match cover {
        Some(image) => seq![StepView::Cover { path, image, mime: "image/png"@ }],
        None => Seq::empty(),
    }
}

/// A chapter's page.
pub open spec fn chapter_page(id: int, name: Seq<char>, body: Seq<char>) -> StepView {
    StepView::Page { href: chapter_stem(id, name) + ".xhtml"@, title: name, body }
}

/// A single-chapter book: metadata, the cover if any, the stylesheet, then
/// the chapter.
pub open spec fn chapter_layout(author: Seq<char>, id: int, name: Seq<char>, body: Seq<char>, cover: Option<Seq<u8>>) -> Seq<StepView> {
    book_header(author, name) + cover_steps(cover, chapter_stem(id, name) + ".png"@) + seq![
        StepView::Stylesheet { css: stylesheet() },
        chapter_page(id, name, body),
    ]
}

fn push_metadata(steps: &mut Vec<EpubStep>, key: &str, value: &str)
    ensures
        steps_view(final(steps)@) == steps_view(old(steps)@).push(StepView::Metadata { key: key@, value: value@ }),
{
    let ghost before = steps@;
    steps.push(EpubStep::Metadata { key: key.to_string(), value: value.to_string() });
    proof {
        assert(steps_view(steps@) =~= steps_view(before).push(StepView::Metadata { key: key@, value: value@ }));
    }
}

fn push_step(steps: &mut Vec<EpubStep>, step: EpubStep)
    ensures
        steps_view(final(steps)@) == steps_view(old(steps)@).push(step@),
{
    let ghost before = steps@;
    let ghost v = step@;
    steps.push(step);
    proof {
        assert(steps_view(steps@) =~= steps_view(before).push(v));
    }
}

fn header_steps(author: &str, title: &str) -> (steps: Vec<EpubStep>)
    ensures
        steps_view(steps@) == book_header(author@, title@),
{
    let mut steps: Vec<EpubStep> = Vec::new();
    proof {
        assert(steps_view(steps@) =~= Seq::<StepView>::empty());
    }
    push_metadata(&mut steps, "author", author);
    push_metadata(&mut steps, "lang", "en");
    push_metadata(&mut steps, "title", title);
    push_metadata(&mut steps, "generator", "rsauvehoover/wandering-inn-scraper");
    proof {
        assert(steps_view(steps@) =~= book_header(author@, title@));
    }
    steps
}

fn push_cover(steps: &mut Vec<EpubStep>, cover: Option<Vec<u8>>, path: String)
    ensures
        steps_view(final(steps)@) == steps_view(old(steps)@) + cover_steps(cover_view(cover), path@),
{
    let ghost before = steps_view(steps@);
    match cover {
        Some(image) => {
            push_step(steps, EpubStep::Cover { path, image });
            proof {
                assert(steps_view(steps@) =~= before + cover_steps(cover_view(cover), path@));
            }
        },
        None => {
            proof {
                assert(steps_view(steps@) =~= before + cover_steps(cover_view(cover), path@));
            }
        },
    }
}

/// The steps of a single-chapter book.
pub fn chapter_epub_steps(chapter: &Chapter, raw_data: &str, cover: Option<Vec<u8>>, ctx: &EpubContext, strip_colour: bool) -> (steps: Vec<EpubStep>)
    requires
        ctx.processor_registry.wf(),
        process_accepts(ctx.processor_registry@, raw_data@, strip_colour),
    ensures
        steps_view(steps@) == chapter_layout(
            ctx.source.metadata.author@,
            chapter.id as int,
            chapter.name@,
            processed(ctx.processor_registry@, raw_data@, strip_colour),
            cover_view(cover),
        ),
{
    let stem = chapter_file_stem(chapter);
    let mut steps = header_steps(ctx.source.metadata.author.as_str(), chapter.name.as_str());
    push_cover(&mut steps, cover, concat(stem.as_str(), ".png"));
    push_step(&mut steps, EpubStep::Stylesheet { css: load_stylesheet().to_string() });
    let body = process_chapter_data(raw_data, ctx, strip_colour);
    push_step(
        &mut steps,
        EpubStep::Page { href: concat(stem.as_str(), ".xhtml"), title: chapter.name.clone(), body },
    );
    proof {
        let l = chapter_layout(
            ctx.source.metadata.author@,
            chapter.id as int,
            chapter.name@,
            processed(ctx.processor_registry@, raw_data@, strip_colour),
            cover_view(cover),
        );
        assert(steps_view(steps@) =~= l);
    }
    steps
}

} // verus!

verus! {

/// Why a book could not be made.
#[derive(Debug)]
pub enum EpubError {
    /// A volume with no chapters.
    NoChapters,
    /// A chapter other than the last has no stored text.
    MissingChapterData { chapter_id: isize },
    /// The EPUB builder failed, with its message.
    Build(String),
}

/// The pages for the first `n` chapters, skipping those without text.
pub open spec fn volume_pages(
    reg: Map<Seq<char>, crate::postprocess::Processor>,
    chapters: Seq<Chapter>,
    data: Seq<Option<String>>,
    strip_colour: bool,
    n: nat,
) -> Seq<StepView>
    decreases n,
{
    if n == 0 {
        Seq::empty()
    } else {
        let prev = volume_pages(reg, chapters, data, strip_colour, (n - 1) as nat);
        match data[n - 1] {
            Some(d) => prev.push(
                chapter_page(chapters[n - 1].id as int, chapters[n - 1].name@, processed(reg, d@, strip_colour)),
            ),
            None => prev,
        }
    }
}

/// Chapter `i` has no text and is not the last chapter: only the last
/// chapter may lack its text, being taken for content not released yet.
pub open spec fn missing_before_last(chapters: Seq<Chapter>, data: Seq<Option<String>>, i: int) -> bool {
    data[i] is None && chapters[i].id != chapters.last().id
}

/// Whether a volume book can be made: it has chapters, and every chapter
/// but the last has its text.
pub open spec fn volume_ready(chapters: Seq<Chapter>, data: Seq<Option<String>>) -> bool {
    &&& chapters.len() > 0
    &&& forall|i: int| 0 <= i < chapters.len() ==> !#[trigger] missing_before_last(chapters, data, i)
}

/// A volume's title: the source's name and the volume's.
pub open spec fn volume_title(source_name: Seq<char>, volume_name: Seq<char>) -> Seq<char> {
    source_name + " "@ + volume_name
}

/// A volume book: metadata, the stylesheet, the cover if any, an inline
/// table of contents, then its chapters.
pub open spec fn volume_layout(
    author: Seq<char>,
    source_name: Seq<char>,
    volume_name: Seq<char>,
    cover: Option<Seq<u8>>,
    pages: Seq<StepView>,
) -> Seq<StepView> {
    book_header(author, volume_title(source_name, volume_name)) + seq![StepView::Stylesheet { css: stylesheet() }]
        + cover_steps(cover, safe_name(volume_name) + ".png"@) + seq![StepView::InlineToc] + pages
}

/// The title a step sets, if it is the `title` metadata.
pub open spec fn title_of(step: StepView) -> Option<Seq<char>> {
    match step {
        StepView::Metadata { key, value } => if key == "title"@ {
            Some(value)
        } else {
            None
        },
        _ => None,
    }
}

/// Every step of a volume's pages is a page.
pub proof fn lemma_volume_pages_are_pages(
    reg: Map<Seq<char>, crate::postprocess::Processor>,
    chapters: Seq<Chapter>,
    data: Seq<Option<String>>,
    strip_colour: bool,
    n: nat,
)
    ensures
        forall|i: int| 0 <= i < volume_pages(reg, chapters, data, strip_colour, n).len()
            ==> #[trigger] volume_pages(reg, chapters, data, strip_colour, n)[i] is Page,
    decreases n,
{
    if n > 0 {
        lemma_volume_pages_are_pages(reg, chapters, data, strip_colour, (n - 1) as nat);
    }
}

/// A volume book is titled by its source's name, a space and the volume's
/// name, and carries no other title: two volumes of one source get
/// different titles, each ending with its volume's name.
pub proof fn lemma_volume_book_title(
    author: Seq<char>,
    source_name: Seq<char>,
    volume_name: Seq<char>,
    cover: Option<Seq<u8>>,
    pages: Seq<StepView>,
)
    requires
        forall|i: int| 0 <= i < pages.len() ==> #[trigger] pages[i] is Page,
    ensures
        volume_layout(author, source_name, volume_name, cover, pages).len() > 2,
        volume_layout(author, source_name, volume_name, cover, pages)[2] == (StepView::Metadata {
            key: "title"@,
            value: source_name + " "@ + volume_name,
        }),
        forall|i: int|
            0 <= i < volume_layout(author, source_name, volume_name, cover, pages).len() && title_of(
                #[trigger] volume_layout(author, source_name, volume_name, cover, pages)[i],
            ) is Some ==> title_of(volume_layout(author, source_name, volume_name, cover, pages)[i]) == Some(
                source_name + " "@ + volume_name,
            ),
{
    reveal_strlit("title");
    reveal_strlit("author");
    reveal_strlit("lang");
    reveal_strlit("generator");
    let l = volume_layout(author, source_name, volume_name, cover, pages);
    let head = book_header(author, source_name + " "@ + volume_name) + seq![StepView::Stylesheet { css: stylesheet() }]
        + cover_steps(cover, safe_name(volume_name) + ".png"@) + seq![StepView::InlineToc];
    assert(l == head + pages);
    assert forall|i: int| 0 <= i < l.len() && title_of(#[trigger] l[i]) is Some implies title_of(l[i]) == Some(
        source_name + " "@ + volume_name,
    ) by {
        if i >= head.len() {
            assert(l[i] == pages[i - head.len()]);
        } else if i > 3 {
            assert(head[i] == l[i]);
        } else if i == 0 {
            assert("author"@[0] != "title"@[0]);
        } else if i == 1 {
            assert("lang"@[0] != "title"@[0]);
        } else if i == 3 {
            assert("generator"@[0] != "title"@[0]);
        }
    }
}

/// Two volumes of one source with different names get different book
/// titles.
pub proof fn lemma_volume_titles_differ(source_name: Seq<char>, a: Seq<char>, b: Seq<char>)
    requires
        a != b,
    ensures
        volume_title(source_name, a) != volume_title(source_name, b),
{
    let head = source_name + " "@;
    let x = head + a;
    let y = head + b;
    let n = head.len();
    if x == y {
        assert(x.len() == n + a.len());
        assert(y.len() == n + b.len());
        assert forall|k: int| 0 <= k < a.len() implies a[k] == b[k] by {
            assert(x[n + k] == a[k]);
            assert(y[n + k] == b[k]);
        }
        assert(a =~= b);
    }
}

/// Whether every chapter text present can be processed.
pub open spec fn volume_accepts(
    reg: Map<Seq<char>, crate::postprocess::Processor>,
    data: Seq<Option<String>>,
    strip_colour: bool,
) -> bool {
    forall|i: int| 0 <= i < data.len() ==> (#[trigger] data[i] matches Some(d) ==> process_accepts(reg, d@, strip_colour))
}

/// The steps of a volume book. `data[i]` is the stored text of
/// `chapters[i]`, `None` when it has none.
pub fn volume_epub_steps(
    volume: &Volume,
    chapters: &Vec<Chapter>,
    data: &Vec<Option<String>>,
    cover: Option<Vec<u8>>,
    ctx: &EpubContext,
    strip_colour: bool,
) -> (r: Result<Vec<EpubStep>, EpubError>)
    requires
        ctx.processor_registry.wf(),
        data@.len() == chapters@.len(),
        volume_accepts(ctx.processor_registry@, data@, strip_colour),
    ensures
        r is Ok <==> volume_ready(chapters@, data@),
        r matches Ok(steps) ==> steps_view(steps@) == volume_layout(
            ctx.source.metadata.author@,
            ctx.source.name@,
            volume.name@,
            cover_view(cover),
            volume_pages(ctx.processor_registry@, chapters@, data@, strip_colour, chapters@.len()),
        ),
        r matches Ok(steps) ==> steps@.len() > 2 && steps_view(steps@)[2] == (StepView::Metadata {
            key: "title"@,
            value: ctx.source.name@ + " "@ + volume.name@,
        }),
        r matches Ok(steps) ==> forall|i: int|
            0 <= i < steps@.len() && title_of(#[trigger] steps_view(steps@)[i]) is Some ==> title_of(steps_view(steps@)[i])
                == Some(ctx.source.name@ + " "@ + volume.name@),
        r matches Err(EpubError::NoChapters) <==> chapters@.len() == 0,
        r matches Err(EpubError::MissingChapterData { chapter_id }) ==> exists|i: int|
            0 <= i < chapters@.len() && missing_before_last(chapters@, data@, i) && chapters@[i].id == chapter_id
                && forall|j: int| 0 <= j < i ==> !#[trigger] missing_before_last(chapters@, data@, j),
        !(r matches Err(EpubError::Build(_))),
{
    if chapters.len() == 0 {
        return Err(EpubError::NoChapters);
    }
    let last_id = chapters[chapters.len() - 1].id;
    let mut title = concat(ctx.source.name.as_str(), " ");
    title.append(volume.name.as_str());
    let mut steps = header_steps(ctx.source.metadata.author.as_str(), title.as_str());
    push_step(&mut steps, EpubStep::Stylesheet { css: load_stylesheet().to_string() });
    let safe = sanitize_filename(volume.name.as_str());
    push_cover(&mut steps, cover, concat(safe.as_str(), ".png"));
    push_step(&mut steps, EpubStep::InlineToc);
    let ghost prefix = steps_view(steps@);
    proof {
        assert(prefix == book_header(ctx.source.metadata.author@, volume_title(ctx.source.name@, volume.name@))
            + seq![StepView::Stylesheet { css: stylesheet() }] + cover_steps(cover_view(cover), safe_name(volume.name@) + ".png"@)
            + seq![StepView::InlineToc]);
        assert(prefix + volume_pages(ctx.processor_registry@, chapters@, data@, strip_colour, 0) =~= prefix);
    }
    let mut i: usize = 0;
    while i < chapters.len()
        invariant
            ctx.processor_registry.wf(),
            data@.len() == chapters@.len(),
            volume_accepts(ctx.processor_registry@, data@, strip_colour),
            i <= chapters@.len(),
            last_id == chapters@.last().id,
            chapters@.len() > 0,
            steps_view(steps@) == prefix + volume_pages(ctx.processor_registry@, chapters@, data@, strip_colour, i as nat),
            forall|j: int| 0 <= j < i ==> !#[trigger] missing_before_last(chapters@, data@, j),
        decreases chapters.len() - i,
    {
        let chapter = &chapters[i];
        match &data[i] {
            Some(d) => {
                proof {
                    assert(data@[i as int] matches Some(dd) ==> process_accepts(ctx.processor_registry@, dd@, strip_colour));
                }
                let stem = chapter_file_stem(chapter);
                let body = process_chapter_data(d.as_str(), ctx, strip_colour);
                push_step(
                    &mut steps,
                    EpubStep::Page { href: concat(stem.as_str(), ".xhtml"), title: chapter.name.clone(), body },
                );
                proof {
                    assert(steps_view(steps@) =~= prefix + volume_pages(
                        ctx.processor_registry@,
                        chapters@,
                        data@,
                        strip_colour,
                        (i + 1) as nat,
                    ));
                }
            },
            None => {
                if chapter.id != last_id {
                    proof {
                        assert(missing_before_last(chapters@, data@, i as int));
                    }
                    return Err(EpubError::MissingChapterData { chapter_id: chapter.id });
                }
                proof {
                    assert(!missing_before_last(chapters@, data@, i as int));
                }
            },
        }
        i = i + 1;
    }
    proof {
        lemma_volume_pages_are_pages(ctx.processor_registry@, chapters@, data@, strip_colour, chapters@.len() as nat);
        lemma_volume_book_title(
            ctx.source.metadata.author@,
            ctx.source.name@,
            volume.name@,
            cover_view(cover),
            volume_pages(ctx.processor_registry@, chapters@, data@, strip_colour, chapters@.len() as nat),
        );
    }
    Ok(steps)
}

/// The pages for the first `n` chapters of a run of chapters, all with text.
pub open spec fn run_pages(
    reg: Map<Seq<char>, crate::postprocess::Processor>,
    chapters: Seq<Chapter>,
    data: Seq<String>,
    strip_colour: bool,
    n: nat,
) -> Seq<StepView>
    decreases n,
{
    if n == 0 {
        Seq::empty()
    } else {
        run_pages(reg, chapters, data, strip_colour, (n - 1) as nat).push(
            chapter_page(chapters[n - 1].id as int, chapters[n - 1].name@, processed(reg, data[n - 1]@, strip_colour)),
        )
    }
}

/// `first-last`, by the stems of the first and last chapters of a run.
pub open spec fn run_stem(first: Chapter, last: Chapter) -> Seq<char> {
    chapter_stem(first.id as int, first.name@) + "-"@ + chapter_stem(last.id as int, last.name@)
}

/// The title of a book of a run of chapters.
pub open spec fn run_title(source_name: Seq<char>, first: Chapter, last: Chapter) -> Seq<char> {
    source_name + " Chapters "@ + first.name@ + "-"@ + last.name@
}

/// A book of a run of chapters: metadata, the stylesheet, the cover if any,
/// an inline table of contents, then the chapters.
pub open spec fn run_layout(
    author: Seq<char>,
    source_name: Seq<char>,
    first: Chapter,
    last: Chapter,
    cover: Option<Seq<u8>>,
    pages: Seq<StepView>,
) -> Seq<StepView> {
    book_header(author, run_title(source_name, first, last)) + seq![StepView::Stylesheet { css: stylesheet() }]
        + cover_steps(cover, run_stem(first, last) + ".png"@) + seq![StepView::InlineToc] + pages
}

/// The stem of the file names of a book of a run of chapters.
pub fn run_file_stem(chapters: &Vec<Chapter>) -> (s: String)
    requires
        chapters@.len() > 0,
    ensures
        s@ == run_stem(chapters@[0], chapters@.last()),
{
    let first = chapter_file_stem(&chapters[0]);
    let last = chapter_file_stem(&chapters[chapters.len() - 1]);
    let mut s = concat(first.as_str(), "-");
    s.append(last.as_str());
    s
}

/// The subtitle on the cover of a book of a run of chapters.
pub fn run_cover_subtitle(chapters: &Vec<Chapter>) -> (s: String)
    requires
        chapters@.len() > 0,
    ensures
        s@ == chapters@[0].name@ + " - "@ + chapters@.last().name@,
{
    let mut s = concat(chapters[0].name.as_str(), " - ");
    s.append(chapters[chapters.len() - 1].name.as_str());
    s
}

/// The steps of a book of a run of chapters, each with its text.
pub fn run_epub_steps(
    chapters: &Vec<Chapter>,
    data: &Vec<String>,
    cover: Option<Vec<u8>>,
    ctx: &EpubContext,
    strip_colour: bool,
) -> (steps: Vec<EpubStep>)
    requires
        ctx.processor_registry.wf(),
        chapters@.len() > 0,
        data@.len() == chapters@.len(),
        forall|i: int| 0 <= i < data@.len() ==> process_accepts(ctx.processor_registry@, #[trigger] data@[i]@, strip_colour),
    ensures
        steps_view(steps@) == run_layout(
            ctx.source.metadata.author@,
            ctx.source.name@,
            chapters@[0],
            chapters@.last(),
            cover_view(cover),
            run_pages(ctx.processor_registry@, chapters@, data@, strip_colour, chapters@.len()),
        ),
{
    let mut title = concat(ctx.source.name.as_str(), " Chapters ");
    title.append(chapters[0].name.as_str());
    title.append("-");
    title.append(chapters[chapters.len() - 1].name.as_str());
    let mut steps = header_steps(ctx.source.metadata.author.as_str(), title.as_str());
    push_step(&mut steps, EpubStep::Stylesheet { css: load_stylesheet().to_string() });
    let stem = run_file_stem(chapters);
    push_cover(&mut steps, cover, concat(stem.as_str(), ".png"));
    push_step(&mut steps, EpubStep::InlineToc);
    let ghost prefix = steps_view(steps@);
    proof {
        assert(prefix + run_pages(ctx.processor_registry@, chapters@, data@, strip_colour, 0) =~= prefix);
    }
    let mut i: usize = 0;
    while i < chapters.len()
        invariant
            ctx.processor_registry.wf(),
            data@.len() == chapters@.len(),
            forall|k: int| 0 <= k < data@.len() ==> process_accepts(ctx.processor_registry@, #[trigger] data@[k]@, strip_colour),
            i <= chapters@.len(),
            steps_view(steps@) == prefix + run_pages(ctx.processor_registry@, chapters@, data@, strip_colour, i as nat),
        decreases chapters.len() - i,
    {
        let chapter = &chapters[i];
        let chapter_stem = chapter_file_stem(chapter);
        proof {
            assert(process_accepts(ctx.processor_registry@, data@[i as int]@, strip_colour));
        }
        let body = process_chapter_data(data[i].as_str(), ctx, strip_colour);
        push_step(
            &mut steps,
            EpubStep::Page { href: concat(chapter_stem.as_str(), ".xhtml"), title: chapter.name.clone(), body },
        );
        proof {
            assert(steps_view(steps@) =~= prefix + run_pages(
                ctx.processor_registry@,
                chapters@,
                data@,
                strip_colour,
                (i + 1) as nat,
            ));
        }
        i = i + 1;
    }
    proof {
        assert(steps_view(steps@) =~= run_layout(
            ctx.source.metadata.author@,
            ctx.source.name@,
            chapters@[0],
            chapters@.last(),
            cover_view(cover),
            run_pages(ctx.processor_registry@, chapters@, data@, strip_colour, chapters@.len()),
        ));
    }
    steps
}

} // verus!

verus! {

/// Hands `steps` to the EPUB builder, in order, and returns the book: an
/// EPUB whose contents are exactly those steps. Any failure is the
/// builder's.
pub fn render_epub(steps: &Vec<EpubStep>) -> (r: Result<Epub, EpubError>)
    ensures
        r matches Ok(book) ==> book.contents() == steps_view(steps@),
        r is Err ==> r matches Err(EpubError::Build(_)),
{
    let mut book = match Book::new() {
        Ok(b) => b,
        Err(e) => return Err(e),
    };
    let mut i: usize = 0;
    proof {
        assert(steps_view(steps@.take(0)) =~= Seq::<StepView>::empty());
    }
    while i < steps.len()
        invariant
            i <= steps@.len(),
            book.handed() == steps_view(steps@.take(i as int)),
        decreases steps.len() - i,
    {
        let done = match &steps[i] {
            EpubStep::Metadata { key, value } => book.metadata(key.as_str(), value.as_str()),
            EpubStep::Stylesheet { css } => book.stylesheet(css.as_str()),
            EpubStep::Cover { path, image } => book.cover(path.as_str(), image),
            EpubStep::InlineToc => {
                book.inline_toc();
                Ok(())
            },
            EpubStep::Page { href, title, body } => book.page(href.as_str(), body.as_str(), title.as_str()),
        };
        match done {
            Ok(()) => {},
            Err(e) => return Err(e),
        }
        proof {
            assert(steps_view(steps@.take(i + 1)) =~= steps_view(steps@.take(i as int)).push(steps@[i as int]@));
        }
        i = i + 1;
    }
    proof {
        assert(steps@.take(steps@.len() as int) =~= steps@);
    }
    book.generate()
}

/// The media type of an EPUB.
pub open spec fn epub_mime() -> Seq<char> {
    "application/epub+zip"@
}

fn attachment(filename: String, book: Epub) -> (a: Attachment)
    ensures
        a.filename == filename,
        a.mime@ == epub_mime(),
        a.contents() == book.contents(),
{
    let (bytes, contents) = book.into_parts();
    Attachment { filename, mime: String::from_str("application/epub+zip"), bytes, contents }
}

/// Build a single-chapter EPUB in memory from the chapter's stored text.
/// Touches no filesystem path.
pub fn build_chapter_epub(
    chapter: &Chapter,
    raw_data: &str,
    cover: Option<Vec<u8>>,
    ctx: &EpubContext,
    strip_colour: bool,
) -> (r: Result<Attachment, EpubError>)
    requires
        ctx.processor_registry.wf(),
        process_accepts(ctx.processor_registry@, raw_data@, strip_colour),
    ensures
        r matches Ok(a) ==> a.filename@ == chapter_stem(chapter.id as int, chapter.name@) + ".epub"@ && a.mime@
            == epub_mime(),
        r matches Ok(a) ==> a.contents() == chapter_layout(
            ctx.source.metadata.author@,
            chapter.id as int,
            chapter.name@,
            processed(ctx.processor_registry@, raw_data@, strip_colour),
            cover_view(cover),
        ),
        r is Err ==> r matches Err(EpubError::Build(_)),
{
    let steps = chapter_epub_steps(chapter, raw_data, cover, ctx, strip_colour);
    let book = match render_epub(&steps) {
        Ok(b) => b,
        Err(e) => return Err(e),
    };
    let stem = chapter_file_stem(chapter);
    Ok(attachment(concat(stem.as_str(), ".epub"), book))
}

/// Build a volume EPUB in memory. `data[i]` is the stored text of
/// `chapters[i]`, `None` when it has none. Touches no filesystem path.
pub fn build_volume_epub(
    volume: &Volume,
    chapters: &Vec<Chapter>,
    data: &Vec<Option<String>>,
    cover: Option<Vec<u8>>,
    ctx: &EpubContext,
    strip_colour: bool,
) -> (r: Result<Attachment, EpubError>)
    requires
        ctx.processor_registry.wf(),
        data@.len() == chapters@.len(),
        volume_accepts(ctx.processor_registry@, data@, strip_colour),
    ensures
        r matches Ok(a) ==> volume_ready(chapters@, data@) && a.filename@ == safe_name(volume.name@) + ".epub"@
            && a.mime@ == epub_mime(),
        r matches Ok(a) ==> a.contents() == volume_layout(
            ctx.source.metadata.author@,
            ctx.source.name@,
            volume.name@,
            cover_view(cover),
            volume_pages(ctx.processor_registry@, chapters@, data@, strip_colour, chapters@.len()),
        ),
        r matches Ok(a) ==> a.contents().len() > 2 && a.contents()[2] == (StepView::Metadata {
            key: "title"@,
            value: ctx.source.name@ + " "@ + volume.name@,
        }),
        r matches Ok(a) ==> forall|i: int|
            0 <= i < a.contents().len() && title_of(#[trigger] a.contents()[i]) is Some ==> title_of(a.contents()[i])
                == Some(ctx.source.name@ + " "@ + volume.name@),
        r matches Err(EpubError::NoChapters) <==> chapters@.len() == 0,
        r matches Err(EpubError::MissingChapterData { chapter_id }) ==> exists|i: int|
            0 <= i < chapters@.len() && missing_before_last(chapters@, data@, i) && chapters@[i].id == chapter_id
                && forall|j: int| 0 <= j < i ==> !#[trigger] missing_before_last(chapters@, data@, j),
        !volume_ready(chapters@, data@) ==> r is Err && !(r matches Err(EpubError::Build(_))),
{
    let steps = match volume_epub_steps(volume, chapters, data, cover, ctx, strip_colour) {
        Ok(s) => s,
        Err(e) => return Err(e),
    };
    let book = match render_epub(&steps) {
        Ok(b) => b,
        Err(e) => return Err(e),
    };
    let safe = sanitize_filename(volume.name.as_str());
    Ok(attachment(concat(safe.as_str(), ".epub"), book))
}

/// Build the book of a run of chapters in memory, each with its stored
/// text. Touches no filesystem path.
pub fn build_run_epub(
    chapters: &Vec<Chapter>,
    data: &Vec<String>,
    cover: Option<Vec<u8>>,
    ctx: &EpubContext,
    strip_colour: bool,
) -> (r: Result<Attachment, EpubError>)
    requires
        ctx.processor_registry.wf(),
        chapters@.len() > 0,
        data@.len() == chapters@.len(),
        forall|i: int| 0 <= i < data@.len() ==> process_accepts(ctx.processor_registry@, #[trigger] data@[i]@, strip_colour),
    ensures
        r matches Ok(a) ==> a.filename@ == run_stem(chapters@[0], chapters@.last()) + ".epub"@ && a.mime@ == epub_mime(),
        r matches Ok(a) ==> a.contents() == run_layout(
            ctx.source.metadata.author@,
            ctx.source.name@,
            chapters@[0],
            chapters@.last(),
            cover_view(cover),
            run_pages(ctx.processor_registry@, chapters@, data@, strip_colour, chapters@.len()),
        ),
        r is Err ==> r matches Err(EpubError::Build(_)),
{
    let steps = run_epub_steps(chapters, data, cover, ctx, strip_colour);
    let book = match render_epub(&steps) {
        Ok(b) => b,
        Err(e) => return Err(e),
    };
    let stem = run_file_stem(chapters);
    Ok(attachment(concat(stem.as_str(), ".epub"), book))
}

} // verus!
