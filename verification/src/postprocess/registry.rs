//! The post-processors known by name.
use vstd::prelude::*;
use crate::postprocess::{MrshaWriteProcessor, PostProcessor, StripColourProcessor, StripLinksProcessor};
use crate::text_map::TextMap;

verus! {

/// One of the post-processors this library provides.
pub enum Processor {
    StripColour(StripColourProcessor),
    StripLinks(StripLinksProcessor),
    MrshaWrite(MrshaWriteProcessor),
}

impl PostProcessor for Processor {
    open spec fn spec_name(&self) -> Seq<char> {
        match self {
            Processor::StripColour(p) => p.spec_name(),
            Processor::StripLinks(p) => p.spec_name(),
            Processor::MrshaWrite(p) => p.spec_name(),
        }
    }

    open spec fn accepts(&self, content: Seq<char>) -> bool {
        match self {
            Processor::StripColour(p) => p.accepts(content),
            Processor::StripLinks(p) => p.accepts(content),
            Processor::MrshaWrite(p) => p.accepts(content),
        }
    }

    open spec fn transformed(&self, content: Seq<char>) -> Seq<char> {
        match self {
            Processor::StripColour(p) => p.transformed(content),
            Processor::StripLinks(p) => p.transformed(content),
            Processor::MrshaWrite(p) => p.transformed(content),
        }
    }

    fn name(&self) -> (n: &str) {
        match self {
            Processor::StripColour(p) => p.name(),
            Processor::StripLinks(p) => p.name(),
            Processor::MrshaWrite(p) => p.name(),
        }
    }

    fn accepts_exec(&self, content: &str) -> (b: bool) {
        match self {
            Processor::StripColour(p) => p.accepts_exec(content),
            Processor::StripLinks(p) => p.accepts_exec(content),
            Processor::MrshaWrite(p) => p.accepts_exec(content),
        }
    }

    fn process(&self, content: &str) -> (out: String) {
        match self {
            Processor::StripColour(p) => p.process(content),
            Processor::StripLinks(p) => p.process(content),
            Processor::MrshaWrite(p) => p.process(content),
        }
    }
}

/// Whether applying the processor named `name` (if there is one) can
/// proceed on `content`.
pub open spec fn named_accepts(m: Map<Seq<char>, Processor>, name: Seq<char>, content: Seq<char>) -> bool {
    m.contains_key(name) ==> m[name].accepts(content)
}

/// `content` after the processor named `name`; unchanged when no processor
/// has that name.
pub open spec fn named_applied(m: Map<Seq<char>, Processor>, name: Seq<char>, content: Seq<char>) -> Seq<char> {
    if m.contains_key(name) {
        m[name].transformed(content)
    } else {
        content
    }
}

/// `content` after the processors named by the first `n` of `names`, in order.
pub open spec fn chain_applied(m: Map<Seq<char>, Processor>, names: Seq<Seq<char>>, n: nat, content: Seq<char>) -> Seq<char>
    decreases n,
{
    if n == 0 {
        content
    } else {
        named_applied(m, names[n - 1], chain_applied(m, names, (n - 1) as nat, content))
    }
}

/// Whether every step of the chain, on what the steps before it produced,
/// can proceed.
pub open spec fn chain_accepts(m: Map<Seq<char>, Processor>, names: Seq<Seq<char>>, n: nat, content: Seq<char>) -> bool
    decreases n,
{
    if n == 0 {
        true
    } else {
        chain_accepts(m, names, (n - 1) as nat, content) && named_accepts(
            m,
            names[n - 1],
            chain_applied(m, names, (n - 1) as nat, content),
        )
    }
}

/// The common processors and the Wandering Inn's, by name.
pub open spec fn default_processors() -> Map<Seq<char>, Processor> {
    Map::<Seq<char>, Processor>::empty().insert("strip-colour"@, Processor::StripColour(StripColourProcessor)).insert(
        "strip-links"@,
        Processor::StripLinks(StripLinksProcessor),
    ).insert("mrsha-write"@, Processor::MrshaWrite(MrshaWriteProcessor))
}

pub open spec fn names_of(names: Seq<String>) -> Seq<Seq<char>> {
    names.map_values(|s: String| s@)
}

/// The registry map after registering `ps`, in order, starting from `m`.
pub open spec fn after_registering(m: Map<Seq<char>, Processor>, ps: Seq<Processor>) -> Map<Seq<char>, Processor>
    decreases ps.len(),
{
    if ps.len() == 0 {
        m
    } else {
        after_registering(m, ps.drop_last()).insert(ps.last().spec_name(), ps.last())
    }
}

/// The last of `ps` named `name`, if any.
pub open spec fn last_named(ps: Seq<Processor>, name: Seq<char>) -> Option<Processor>
    decreases ps.len(),
{
    if ps.len() == 0 {
        None
    } else if ps.last().spec_name() == name {
        Some(ps.last())
    } else {
        last_named(ps.drop_last(), name)
    }
}

/// After any sequence of registrations on a new registry, the processor
/// found under a name is the last one registered with that name; failing
/// that, the built-in one of that name; failing that, none.
pub proof fn lemma_registrations(ps: Seq<Processor>, name: Seq<char>)
    ensures
        after_registering(default_processors(), ps).contains_key(name) <==> (last_named(ps, name) is Some
            || default_processors().contains_key(name)),
        after_registering(default_processors(), ps).contains_key(name) ==> after_registering(default_processors(), ps)[name]
            == match last_named(ps, name) {
                Some(p) => p,
                None => default_processors()[name],
            },
    decreases ps.len(),
{
    if ps.len() > 0 {
        lemma_registrations(ps.drop_last(), name);
    }
}

/// Registry for post-processors
pub struct ProcessorRegistry {
    processors: TextMap<Processor>,
}

impl ProcessorRegistry {
    pub closed spec fn wf(&self) -> bool {
        &&& self.processors.wf()
        &&& forall|k: Seq<char>| #[trigger] self.processors@.contains_key(k) ==> self.processors@[k].spec_name() == k
    }

    /// The registered processors, by name.
    pub closed spec fn view(&self) -> Map<Seq<char>, Processor> {
        self.processors@
    }

    /// A registry with no processors.
    pub fn empty() -> (r: Self)
        ensures
            r.wf(),
            r@ == Map::<Seq<char>, Processor>::empty(),
    {
        ProcessorRegistry { processors: TextMap::new() }
    }

    /// Create a new registry with default processors
    pub fn new() -> (r: Self)
        ensures
            r.wf(),
            r@ == default_processors(),
    {
        let mut registry = ProcessorRegistry::empty();
        registry.register(Processor::StripColour(StripColourProcessor));
        registry.register(Processor::StripLinks(StripLinksProcessor));
        registry.register(Processor::MrshaWrite(MrshaWriteProcessor));
        registry
    }

    /// Register a processor under its name, replacing one of the same name.
    pub fn register(&mut self, processor: Processor)
        requires
            old(self).wf(),
        ensures
            final(self).wf(),
            final(self)@ == old(self)@.insert(processor.spec_name(), processor),
    {
        let ghost name = processor.spec_name();
        let n = processor.name();
        let key = n.to_string();
        self.processors.insert(key.as_str(), processor);
    }

    /// Get a processor by name
    pub fn get(&self, name: &str) -> (r: Option<&Processor>)
        requires
            self.wf(),
        ensures
            r is Some <==> self@.contains_key(name@),
            r matches Some(p) ==> *p == self@[name@],
    {
        self.processors.get(name)
    }

    /// Whether `apply(content, processor_name)` can be called.
    pub fn accepts(&self, content: &str, processor_name: &str) -> (b: bool)
        requires
            self.wf(),
        ensures
            b == named_accepts(self@, processor_name@, content@),
    {
        match self.get(processor_name) {
            Some(p) => p.accepts_exec(content),
            None => true,
        }
    }

    /// Apply a single processor by name; content passes through unchanged
    /// when no processor has that name.
    pub fn apply(&self, content: &str, processor_name: &str) -> (out: String)
        requires
            self.wf(),
            named_accepts(self@, processor_name@, content@),
        ensures
            out@ == named_applied(self@, processor_name@, content@),
    {
        match self.get(processor_name) {
            Some(p) => p.process(content),
            None => content.to_string(),
        }
    }

    /// Applies the processor named `processor_name` if it accepts `content`;
    /// `None` when it does not.
    pub fn try_apply(&self, content: &str, processor_name: &str) -> (out: Option<String>)
        requires
            self.wf(),
        ensures
            out is Some <==> named_accepts(self@, processor_name@, content@),
            out matches Some(s) ==> s@ == named_applied(self@, processor_name@, content@),
    {
        if self.accepts(content, processor_name) {
            Some(self.apply(content, processor_name))
        } else {
            None
        }
    }

    /// Apply a chain of processors to content, in order. Names without a
    /// processor are skipped.
    pub fn apply_chain(&self, content: &str, processor_names: &[String]) -> (out: String)
        requires
            self.wf(),
            chain_accepts(self@, names_of(processor_names@), processor_names@.len(), content@),
        ensures
            out@ == chain_applied(self@, names_of(processor_names@), processor_names@.len(), content@),
    {
        let ghost names = names_of(processor_names@);
        let mut result = content.to_string();
        let mut i: usize = 0;
        while i < processor_names.len()
            invariant
                self.wf(),
                names == names_of(processor_names@),
                i <= processor_names@.len(),
                chain_accepts(self@, names, processor_names@.len(), content@),
                result@ == chain_applied(self@, names, i as nat, content@),
            decreases processor_names.len() - i,
        {
            proof {
                lemma_chain_accepts_prefix(self@, names, (i + 1) as nat, processor_names@.len(), content@);
            }
            result = self.apply(result.as_str(), processor_names[i].as_str());
            i = i + 1;
        }
        result
    }

    /// Applies the chain while every step accepts what it is given; `None`
    /// as soon as one does not.
    pub fn try_apply_chain(&self, content: &str, processor_names: &[String]) -> (out: Option<String>)
        requires
            self.wf(),
        ensures
            out is Some <==> chain_accepts(self@, names_of(processor_names@), processor_names@.len(), content@),
            out matches Some(s) ==> s@ == chain_applied(
                self@,
                names_of(processor_names@),
                processor_names@.len(),
                content@,
            ),
    {
        let ghost names = names_of(processor_names@);
        let mut result = content.to_string();
        let mut i: usize = 0;
        while i < processor_names.len()
            invariant
                self.wf(),
                names == names_of(processor_names@),
                i <= processor_names@.len(),
                chain_accepts(self@, names, i as nat, content@),
                result@ == chain_applied(self@, names, i as nat, content@),
            decreases processor_names.len() - i,
        {
            match self.try_apply(result.as_str(), processor_names[i].as_str()) {
                Some(next) => {
                    result = next;
                },
                None => {
                    proof {
                        lemma_chain_rejects_from(self@, names, (i + 1) as nat, processor_names@.len(), content@);
                    }
                    return None;
                },
            }
            i = i + 1;
        }
        Some(result)
    }
}

proof fn lemma_chain_accepts_prefix(m: Map<Seq<char>, Processor>, names: Seq<Seq<char>>, k: nat, n: nat, content: Seq<char>)
    requires
        k <= n,
        chain_accepts(m, names, n, content),
    ensures
        chain_accepts(m, names, k, content),
    decreases n,
{
    if k < n {
        lemma_chain_accepts_prefix(m, names, k, (n - 1) as nat, content);
    }
}

proof fn lemma_chain_rejects_from(m: Map<Seq<char>, Processor>, names: Seq<Seq<char>>, k: nat, n: nat, content: Seq<char>)
    requires
        k <= n,
        !chain_accepts(m, names, k, content),
    ensures
        !chain_accepts(m, names, n, content),
    decreases n,
{
    if k < n {
        lemma_chain_rejects_from(m, names, k, (n - 1) as nat, content);
    }
}

impl Default for ProcessorRegistry {
    fn default() -> (r: Self)
        ensures
            r.wf(),
            r@ == default_processors(),
    {
        Self::new()
    }
}

} // verus!
