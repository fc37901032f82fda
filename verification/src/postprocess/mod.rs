//! Post-processors that transform chapter content, and their registry.
pub mod mrsha_write;
pub mod registry;
pub mod strip_colour;
pub mod strip_links;

pub use mrsha_write::MrshaWriteProcessor;
pub use registry::{Processor, ProcessorRegistry};
pub use strip_colour::StripColourProcessor;
pub use strip_links::StripLinksProcessor;

use vstd::prelude::*;

verus! {

/// A transformation of chapter content, known by the name that
/// configuration files use for it.
pub trait PostProcessor {
    /// The processor's name, as written in configuration.
    spec fn spec_name(&self) -> Seq<char>;

    /// Whether the processor can transform `content`.
    spec fn accepts(&self, content: Seq<char>) -> bool;

    /// What the processor makes of `content`.
    spec fn transformed(&self, content: Seq<char>) -> Seq<char>;

    /// Get the processor name (used in config)
    fn name(&self) -> (n: &str)
        ensures
            n@ == self.spec_name(),
    ;

    /// Whether `process` can be called on `content`.
    fn accepts_exec(&self, content: &str) -> (b: bool)
        ensures
            b == self.accepts(content@),
    ;

    /// Process the content and return the transformed result
    fn process(&self, content: &str) -> (out: String)
        requires
            self.accepts(content@),
        ensures
            out@ == self.transformed(content@),
    ;
}

} // verus!
