//! A book being assembled by `epub_builder`, which records every call made
//! on it, and the finished EPUB with the record of what it was made from.
use vstd::prelude::*;
use crate::epub::{EpubError, StepView};

verus! {

#[verifier::external_type_specification]
#[verifier::external_body]
pub struct ExZipLibrary(epub_builder::ZipLibrary);

#[verifier::external_type_specification]
#[verifier::external_body]
pub struct ExEpubBuilderError(epub_builder::Error);

/// The builder being assembled by `epub_builder`: an
/// `EpubBuilder<ZipLibrary>`, which accumulates the book's files in memory.
/// The builder's type is bounded by a `Zip` trait that the crate keeps
/// private, so it cannot be declared here; it is held in this opaque struct,
/// reached only through the functions below.
#[verifier::external_body]
pub struct EpubDraft {
    builder: epub_builder::EpubBuilder<epub_builder::ZipLibrary>,
}

/// The calls made on the builder `draft` since it was created, in order:
/// what it has been handed to put in the book.
pub uninterp spec fn draft_steps(draft: EpubDraft) -> Seq<StepView>;

/// A finished EPUB as `EpubBuilder::generate` wrote it, held opaque: its
/// bytes are reached only through `epub_bytes`.
#[verifier::external_body]
pub struct Epub {
    bytes: Vec<u8>,
}

/// The calls made on the builder that wrote `epub`, in order.
pub uninterp spec fn epub_steps(epub: Epub) -> Seq<StepView>;

/// Trusted: calls `epub_builder::ZipLibrary::new`, an in-memory ZIP archive
/// holding the EPUB mimetype entry. Nothing is claimed of the result: the
/// `zip` crate's `start_file` can fail.
#[verifier::external_body]
fn zip_library() -> (r: Result<epub_builder::ZipLibrary, epub_builder::Error>) {
    epub_builder::ZipLibrary::new()
}

/// Trusted: calls `epub_builder::EpubBuilder::new` on the archive; a new
/// builder has been handed nothing.
#[verifier::external_body]
fn new_draft(zip: epub_builder::ZipLibrary) -> (r: Result<EpubDraft, epub_builder::Error>)
    ensures
        r matches Ok(d) ==> draft_steps(d) == Seq::<StepView>::empty(),
{
    match epub_builder::EpubBuilder::new(zip) {
        Ok(builder) => Ok(EpubDraft { builder }),
        Err(e) => Err(e),
    }
}

/// Trusted: calls `EpubBuilder::metadata`, which records the call when it
/// succeeds. The crate's source sets the field and returns `Ok` for the keys
/// `author`, `lang`, `title` and `generator`; it fails only on other keys.
#[verifier::external_body]
fn draft_metadata(draft: &mut EpubDraft, key: &str, value: &str) -> (r: Result<(), epub_builder::Error>)
    ensures
        key@ == "author"@ || key@ == "lang"@ || key@ == "title"@ || key@ == "generator"@ ==> r is Ok,
        r is Ok ==> draft_steps(*final(draft)) == draft_steps(*old(draft)).push(
            StepView::Metadata { key: key@, value: value@ },
        ),
{
    match draft.builder.metadata(key, value) {
        Ok(_) => Ok(()),
        Err(e) => Err(e),
    }
}

/// Trusted: calls `EpubBuilder::stylesheet` with the stylesheet's bytes,
/// which records the call when it succeeds.
#[verifier::external_body]
fn draft_stylesheet(draft: &mut EpubDraft, css: &str) -> (r: Result<(), epub_builder::Error>)
    ensures
        r is Ok ==> draft_steps(*final(draft)) == draft_steps(*old(draft)).push(StepView::Stylesheet { css: css@ }),
{
    match draft.builder.stylesheet(css.as_bytes()) {
        Ok(_) => Ok(()),
        Err(e) => Err(e),
    }
}

/// Trusted: calls `EpubBuilder::add_cover_image`, which records the call
/// when it succeeds.
#[verifier::external_body]
fn draft_cover(draft: &mut EpubDraft, path: &str, image: &[u8], mime: &str) -> (r: Result<(), epub_builder::Error>)
    ensures
        r is Ok ==> draft_steps(*final(draft)) == draft_steps(*old(draft)).push(
            StepView::Cover { path: path@, image: image@, mime: mime@ },
        ),
{
    match draft.builder.add_cover_image(path, image, mime) {
        Ok(_) => Ok(()),
        Err(e) => Err(e),
    }
}

/// Trusted: calls `EpubBuilder::inline_toc`, which always records the call.
#[verifier::external_body]
fn draft_inline_toc(draft: &mut EpubDraft)
    ensures
        draft_steps(*final(draft)) == draft_steps(*old(draft)).push(StepView::InlineToc),
{
    draft.builder.inline_toc();
}

/// Trusted: calls `EpubBuilder::add_content` with an `EpubContent` made of
/// the page's path, its body's bytes and its title, which records the call
/// when it succeeds.
#[verifier::external_body]
fn draft_page(draft: &mut EpubDraft, href: &str, body: &str, title: &str) -> (r: Result<(), epub_builder::Error>)
    ensures
        r is Ok ==> draft_steps(*final(draft)) == draft_steps(*old(draft)).push(
            StepView::Page { href: href@, title: title@, body: body@ },
        ),
{
    match draft.builder.add_content(epub_builder::EpubContent::new(href, body.as_bytes()).title(title)) {
        Ok(_) => Ok(()),
        Err(e) => Err(e),
    }
}

/// Trusted: calls `EpubBuilder::generate` into a byte vector: the EPUB
/// holds what the builder was handed. The bytes depend on a fresh
/// identifier and the time, so nothing is claimed of them.
#[verifier::external_body]
fn draft_generate(draft: EpubDraft) -> (r: Result<Epub, epub_builder::Error>)
    ensures
        r matches Ok(e) ==> epub_steps(e) == draft_steps(draft),
{
    let mut out: Vec<u8> = Vec::new();
    match draft.builder.generate(&mut out) {
        Ok(()) => Ok(Epub { bytes: out }),
        Err(e) => Err(e),
    }
}

/// Trusted: the bytes `EpubBuilder::generate` wrote for `epub`. Nothing is
/// claimed of them.
#[verifier::external_body]
fn epub_bytes(epub: Epub) -> Vec<u8> {
    epub.bytes
}

/// Trusted: the builder error's message, by its `Display`.
#[verifier::external_body]
fn builder_error_text(e: &epub_builder::Error) -> (s: String) {
    e.to_string()
}

fn build_error(r: Result<(), epub_builder::Error>) -> (out: Result<(), EpubError>)
    ensures
        r is Ok <==> out is Ok,
        out is Err ==> out matches Err(EpubError::Build(_)),
{
    match r {
        Ok(()) => Ok(()),
        Err(e) => Err(EpubError::Build(builder_error_text(&e))),
    }
}

/// A book under construction: the builder, which records what it has been
/// handed.
pub struct Book {
    draft: EpubDraft,
}

/// The calls the EPUB builder was handed to make a book.
pub struct Contents {
    steps: Ghost<Seq<StepView>>,
}

impl Contents {
    pub closed spec fn steps(&self) -> Seq<StepView> {
        self.steps@
    }
}

impl Epub {
    /// The calls the builder was handed, in order.
    pub closed spec fn contents(&self) -> Seq<StepView> {
        epub_steps(*self)
    }

    /// The EPUB's bytes, and the record of what they were made from.
    pub fn into_parts(self) -> (r: (Vec<u8>, Contents))
        ensures
            r.1.steps() == self.contents(),
    {
        let ghost steps = epub_steps(self);
        let bytes = epub_bytes(self);
        (bytes, Contents { steps: Ghost(steps) })
    }
}

impl Book {
    /// The calls handed to the builder so far, in order.
    pub closed spec fn handed(&self) -> Seq<StepView> {
        draft_steps(self.draft)
    }

    /// An empty book: a ZIP archive in memory and a builder over it.
    pub fn new() -> (r: Result<Book, EpubError>)
        ensures
            r matches Ok(b) ==> b.handed() == Seq::<StepView>::empty(),
            r is Err ==> r matches Err(EpubError::Build(_)),
    {
        let zip = match zip_library() {
            Ok(z) => z,
            Err(e) => return Err(EpubError::Build(builder_error_text(&e))),
        };
        match new_draft(zip) {
            Ok(draft) => Ok(Book { draft }),
            Err(e) => Err(EpubError::Build(builder_error_text(&e))),
        }
    }

    /// Sets a metadata field.
    pub fn metadata(&mut self, key: &str, value: &str) -> (r: Result<(), EpubError>)
        ensures
            r is Ok ==> final(self).handed() == old(self).handed().push(StepView::Metadata { key: key@, value: value@ }),
            r is Err ==> r matches Err(EpubError::Build(_)),
            key@ == "author"@ || key@ == "lang"@ || key@ == "title"@ || key@ == "generator"@ ==> r is Ok,
    {
        build_error(draft_metadata(&mut self.draft, key, value))
    }

    /// Adds the stylesheet.
    pub fn stylesheet(&mut self, css: &str) -> (r: Result<(), EpubError>)
        ensures
            r is Ok ==> final(self).handed() == old(self).handed().push(StepView::Stylesheet { css: css@ }),
            r is Err ==> r matches Err(EpubError::Build(_)),
    {
        build_error(draft_stylesheet(&mut self.draft, css))
    }

    /// Adds a PNG cover image under `path`.
    pub fn cover(&mut self, path: &str, image: &Vec<u8>) -> (r: Result<(), EpubError>)
        ensures
            r is Ok ==> final(self).handed() == old(self).handed().push(
                StepView::Cover { path: path@, image: image@, mime: "image/png"@ },
            ),
            r is Err ==> r matches Err(EpubError::Build(_)),
    {
        build_error(draft_cover(&mut self.draft, path, image.as_slice(), "image/png"))
    }

    /// Adds an inline table of contents at this point.
    pub fn inline_toc(&mut self)
        ensures
            final(self).handed() == old(self).handed().push(StepView::InlineToc),
    {
        draft_inline_toc(&mut self.draft);
    }

    /// Adds an XHTML page under `href` with a table-of-contents `title`.
    pub fn page(&mut self, href: &str, body: &str, title: &str) -> (r: Result<(), EpubError>)
        ensures
            r is Ok ==> final(self).handed() == old(self).handed().push(
                StepView::Page { href: href@, title: title@, body: body@ },
            ),
            r is Err ==> r matches Err(EpubError::Build(_)),
    {
        build_error(draft_page(&mut self.draft, href, body, title))
    }

    /// Writes the book out.
    pub fn generate(self) -> (r: Result<Epub, EpubError>)
        ensures
            r matches Ok(e) ==> e.contents() == self.handed(),
            r is Err ==> r matches Err(EpubError::Build(_)),
    {
        match draft_generate(self.draft) {
            Ok(epub) => Ok(epub),
            Err(e) => Err(EpubError::Build(builder_error_text(&e))),
        }
    }
}

} // verus!
