//! Maps validated source IDs to open databases.
//!
//! The only way a request handler obtains a source's database. Opening a
//! database builds its file name from the source ID, so an ID of
//! `../../etc/passwd` would escape the database directory. Resolving through
//! this registry means a user-supplied string is only ever compared against
//! the configured IDs, never turned into a path.
use vstd::prelude::*;
use crate::config::{Config, SourceConfig};
use crate::config::same_source;
use crate::text_map::TextMap;

verus! {

/// A configured source and its open database.
pub struct SourceEntry<D> {
    pub config: SourceConfig,
    db: D,
}

impl<D> SourceEntry<D> {
    pub fn new(config: SourceConfig, db: D) -> (e: Self)
        ensures
            e.source() == config,
            e.handle() == db,
    {
        SourceEntry { config, db }
    }

    pub closed spec fn handle(&self) -> D {
        self.db
    }

    /// The source's configuration.
    pub closed spec fn source(&self) -> SourceConfig {
        self.config
    }

    /// This source's database.
    pub fn db(&self) -> (d: &D)
        ensures
            *d == self.handle(),
    {
        &self.db
    }
}

/// Whether an enabled source of `sources` has the id `id`.
pub open spec fn enabled_id(sources: Seq<SourceConfig>, id: Seq<char>) -> bool {
    exists|i: int| 0 <= i < sources.len() && sources[i].enabled && (#[trigger] sources[i]).id@ == id
}

/// The ids of the sources in `sources`, in order, that are enabled and whose
/// database opened: `opened[i]` says whether the database of `sources[i]`
/// opened.
pub open spec fn opened_ids(sources: Seq<SourceConfig>, opened: Seq<bool>) -> Seq<Seq<char>>
    decreases opened.len(),
{
    if opened.len() == 0 {
        Seq::empty()
    } else {
        let i = opened.len() - 1;
        let prev = opened_ids(sources, opened.drop_last());
        if sources[i].enabled && opened[i] {
            prev.push(sources[i].id@)
        } else {
            prev
        }
    }
}

pub struct SourceRegistry<D> {
    entries: TextMap<SourceEntry<D>>,
    /// Config order, for stable display.
    order: Vec<String>,
}

impl<D> SourceRegistry<D> {
    /// Every entry is stored under its source's id, and the display order
    /// lists exactly the stored ids.
    pub closed spec fn wf(&self) -> bool {
        &&& self.entries.wf()
        &&& forall|k: Seq<char>| #[trigger]
            self.entries@.contains_key(k) ==> self.entries@[k].source().id@ == k
        &&& forall|k: Seq<char>| #[trigger]
            self.entries@.contains_key(k) <==> self.ids().contains(k)
    }

    /// The sources that resolve, by id.
    pub closed spec fn view(&self) -> Map<Seq<char>, SourceEntry<D>> {
        self.entries@
    }

    /// The ids in display order.
    pub closed spec fn ids(&self) -> Seq<Seq<char>> {
        self.order@.map_values(|s: String| s@)
    }

    /// Open a database for every enabled source in `config`, in order.
    ///
    /// A source whose database cannot be opened (`open` gives `None`) is
    /// skipped rather than aborting startup: one unreadable database should
    /// not take the whole frontend down.
    pub fn from_config<F: Fn(&SourceConfig) -> Option<D>>(config: &Config, open: F) -> (r: Self)
        requires
            forall|s: &SourceConfig| #[trigger] open.requires((s,)),
        ensures
            r.wf(),
            forall|id: Seq<char>| #[trigger] r@.contains_key(id) ==> enabled_id(config.sources@, id),
            forall|id: Seq<char>|
                #[trigger] r@.contains_key(id) ==> exists|i: int|
                    0 <= i < config.sources@.len() && config.sources@[i].enabled && same_source(
                        r@[id].source(),
                        config.sources@[i],
                    ),
            forall|i: int|
                0 <= i < config.sources@.len() && config.sources@[i].enabled && !r@.contains_key(
                    (#[trigger] config.sources@[i]).id@,
                ) ==> open.ensures((&config.sources@[i],), None),
            exists|opened: Seq<bool>| {
                &&& opened.len() == config.sources@.len()
                &&& r.ids() == #[trigger] opened_ids(config.sources@, opened)
                &&& forall|i: int| 0 <= i < opened.len() && config.sources@[i].enabled && !opened[i]
                    ==> open.ensures((&config.sources@[i],), None)
                &&& forall|i: int| 0 <= i < opened.len() && #[trigger] opened[i]
                    ==> exists|d: D| open.ensures((&config.sources@[i],), Some(d))
            },
    {
        let mut entries: TextMap<SourceEntry<D>> = TextMap::new();
        let mut order: Vec<String> = Vec::new();
        let mut i: usize = 0;
        let ghost sources = config.sources@;
        let ghost mut opened: Seq<bool> = Seq::empty();
        while i < config.sources.len()
            invariant
                sources == config.sources@,
                i <= sources.len(),
                opened.len() == i,
                order@.map_values(|s: String| s@) == opened_ids(sources, opened),
                forall|j: int| 0 <= j < i && sources[j].enabled && !opened[j] ==> open.ensures((&sources[j],), None),
                forall|j: int| 0 <= j < i && #[trigger] opened[j] ==> exists|d: D| open.ensures((&sources[j],), Some(d)),
                forall|s: &SourceConfig| #[trigger] open.requires((s,)),
                (SourceRegistry { entries, order }).wf(),
                forall|id: Seq<char>|
                    #[trigger] entries@.contains_key(id) ==> exists|j: int|
                        0 <= j < i && sources[j].enabled && same_source(entries@[id].source(), sources[j]),
                forall|j: int|
                    0 <= j < i && sources[j].enabled && !entries@.contains_key(
                        (#[trigger] sources[j]).id@,
                    ) ==> open.ensures((&sources[j],), None),
            decreases sources.len() - i,
        {
            let source = &config.sources[i];
            let ghost prev_opened = opened;
            proof {
                opened = opened.push(false);
                assert(opened.drop_last() =~= prev_opened);
            }
            if source.enabled {
                match open(source) {
                    Some(db) => {
                        proof {
                            opened = prev_opened.push(true);
                            assert(opened.drop_last() =~= prev_opened);
                        }
                        let ghost before = SourceRegistry { entries, order };
                        let key = source.id.clone();
                        let entry = SourceEntry::new(source.copied(), db);
                        entries.insert(key.as_str(), entry);
                        order.push(key);
                        proof {
                            let after = SourceRegistry { entries, order };
                            assert(after.ids() == before.ids().push(source.id@));
                            assert forall|k: Seq<char>| #[trigger] entries@.contains_key(k) <==> after.ids().contains(k) by {
                                if k == source.id@ {
                                    assert(after.ids()[after.ids().len() - 1] == k);
                                } else if before.ids().contains(k) {
                                    let w = choose|w: int| 0 <= w < before.ids().len() && before.ids()[w] == k;
                                    assert(after.ids()[w] == k);
                                } else if after.ids().contains(k) {
                                    let w = choose|w: int| 0 <= w < after.ids().len() && after.ids()[w] == k;
                                    if w < before.ids().len() {
                                        assert(before.ids()[w] == k);
                                    }
                                }
                            }
                        }
                    },
                    None => {},
                }
            }
            i = i + 1;
        }
        let r = SourceRegistry { entries, order };
        proof {
            assert(r.ids() == opened_ids(config.sources@, opened));
            assert forall|id: Seq<char>| #[trigger] r@.contains_key(id) implies enabled_id(config.sources@, id) by {
                let j = choose|j: int| 0 <= j < i && sources[j].enabled && same_source(entries@[id].source(), sources[j]);
                assert(sources[j].id@ == id);
            }
        }
        r
    }

    /// Resolve a user-supplied source ID. `None` for anything not configured.
    pub fn get(&self, source_id: &str) -> (r: Option<&SourceEntry<D>>)
        requires
            self.wf(),
        ensures
            r is Some <==> self@.contains_key(source_id@),
            r matches Some(e) ==> *e == self@[source_id@] && e.source().id@ == source_id@,
    {
        self.entries.get(source_id)
    }

    /// Entries in config order.
    pub fn entries(&self) -> (r: Vec<&SourceEntry<D>>)
        requires
            self.wf(),
        ensures
            r@.len() == self.ids().len(),
            forall|k: int| 0 <= k < r@.len() ==> *(#[trigger] r@[k]) == self@[self.ids()[k]],
    {
        let mut r: Vec<&SourceEntry<D>> = Vec::new();
        let mut k: usize = 0;
        while k < self.order.len()
            invariant
                self.wf(),
                k <= self.order@.len(),
                r@.len() == k,
                forall|j: int| 0 <= j < k ==> *(#[trigger] r@[j]) == self@[self.ids()[j]],
            decreases self.order.len() - k,
        {
            proof {
                assert(self.ids()[k as int] == self.order@[k as int]@);
                assert(self.ids().contains(self.order@[k as int]@));
            }
            match self.entries.get(self.order[k].as_str()) {
                Some(e) => r.push(e),
                None => {
                    proof {
                        assert(false);
                    }
                    return r;
                },
            }
            k = k + 1;
        }
        r
    }
}

} // verus!
