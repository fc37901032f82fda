//! The decisions of a download run: chapters without text are listed and
//! fetched round by round, and a round that discovers new chapters through
//! next-chapter links starts another. The fetching, storing and reporting
//! are the caller's; what comes next is decided here.
use vstd::prelude::*;
use crate::sources::traits::ScrapedChapter;
use crate::text_map::TextMap;

verus! {

/// Where a download run stands: chapters fetched and discovered over the
/// whole run, and in the round under way.
#[derive(Clone, Copy, Debug, PartialEq, Eq, Structural)]
pub struct DownloadState {
    pub downloaded: u64,
    pub discovered: u64,
    pub round_downloaded: u64,
    pub round_discovered: u64,
}

/// What the caller reports to the run.
#[derive(Clone, Copy, Debug, PartialEq, Eq, Structural)]
pub enum DownloadEvent {
    /// The chapters still without text were listed: `pending` of them.
    Listed { pending: usize },
    /// The next chapter of the round is about to be fetched.
    NextChapter,
    /// A chapter was fetched and handled; `discovered` says that a chapter
    /// not known before was added from its next-chapter link.
    Fetched { discovered: bool },
    /// A chapter could not be fetched or handled.
    Failed,
    /// Every chapter of the round was tried.
    RoundDone,
}

/// What the caller does next.
#[derive(Clone, Copy, Debug, PartialEq, Eq, Structural)]
pub enum DownloadAction {
    /// Fetch the listed chapters one by one.
    StartRound,
    /// Fetch the chapter: first report the count fetched so far in this
    /// round when `report_progress`, and pause when `pause`.
    Fetch { report_progress: bool, pause: bool },
    /// Go on with the round.
    Continue,
    /// List the chapters without text again: the round discovered `found`.
    ListAgain { found: u64 },
    /// The run is over: report that there was nothing to download when
    /// `nothing_to_do`, and the totals when `report_totals`.
    Finish { nothing_to_do: bool, report_totals: bool },
}

/// The state a run starts in.
pub open spec fn start_state() -> DownloadState {
    DownloadState { downloaded: 0, discovered: 0, round_downloaded: 0, round_discovered: 0 }
}

/// One step of a run: the state after `event` and the action it calls for,
/// or `None` where a count would exceed `u64`.
pub open spec fn download_next(s: DownloadState, event: DownloadEvent) -> Option<(DownloadState, DownloadAction)> {
    match event {
        DownloadEvent::Listed { pending } => if pending == 0 {
            Some((s, DownloadAction::Finish { nothing_to_do: s.downloaded == 0, report_totals: s.downloaded > 0 }))
        } else {
            Some((DownloadState { round_downloaded: 0, round_discovered: 0, ..s }, DownloadAction::StartRound))
        },
        DownloadEvent::NextChapter => Some((
            s,
            DownloadAction::Fetch {
                report_progress: s.round_downloaded % 10 == 0 && s.round_downloaded != 0,
                pause: s.round_downloaded > 0,
            },
        )),
        DownloadEvent::Fetched { discovered } => {
            let found: int = if discovered { 1 } else { 0 };
            if s.round_downloaded + 1 > u64::MAX || s.round_discovered + found > u64::MAX {
                None
            } else {
                Some((
                    DownloadState {
                        round_downloaded: (s.round_downloaded + 1) as u64,
                        round_discovered: (s.round_discovered + found) as u64,
                        ..s
                    },
                    DownloadAction::Continue,
                ))
            }
        },
        DownloadEvent::Failed => Some((s, DownloadAction::Continue)),
        DownloadEvent::RoundDone => {
            if s.downloaded + s.round_downloaded > u64::MAX || s.discovered + s.round_discovered > u64::MAX {
                None
            } else {
                let t = DownloadState {
                    downloaded: (s.downloaded + s.round_downloaded) as u64,
                    discovered: (s.discovered + s.round_discovered) as u64,
                    ..s
                };
                if s.round_discovered == 0 {
                    Some((t, DownloadAction::Finish { nothing_to_do: false, report_totals: t.downloaded > 0 }))
                } else {
                    Some((t, DownloadAction::ListAgain { found: s.round_discovered }))
                }
            }
        },
    }
}

impl DownloadState {
    /// A run that has fetched nothing yet.
    pub fn new() -> (s: Self)
        ensures
            s == start_state(),
    {
        DownloadState { downloaded: 0, discovered: 0, round_downloaded: 0, round_discovered: 0 }
    }

    /// The step `event` calls for; `None` where a count would exceed `u64`.
    pub fn step(self, event: DownloadEvent) -> (r: Option<(DownloadState, DownloadAction)>)
        ensures
            r == download_next(self, event),
    {
        let s = self;
        match event {
            DownloadEvent::Listed { pending } => if pending == 0 {
                Some((s, DownloadAction::Finish { nothing_to_do: s.downloaded == 0, report_totals: s.downloaded > 0 }))
            } else {
                Some((DownloadState { round_downloaded: 0, round_discovered: 0, ..s }, DownloadAction::StartRound))
            },
            DownloadEvent::NextChapter => Some((
                s,
                DownloadAction::Fetch {
                    report_progress: s.round_downloaded % 10 == 0 && s.round_downloaded != 0,
                    pause: s.round_downloaded > 0,
                },
            )),
            DownloadEvent::Fetched { discovered } => {
                let found: u64 = if discovered { 1 } else { 0 };
                match (s.round_downloaded.checked_add(1), s.round_discovered.checked_add(found)) {
                    (Some(d), Some(f)) => Some((
                        DownloadState { round_downloaded: d, round_discovered: f, ..s },
                        DownloadAction::Continue,
                    )),
                    _ => None,
                }
            },
            DownloadEvent::Failed => Some((s, DownloadAction::Continue)),
            DownloadEvent::RoundDone => {
                match (s.downloaded.checked_add(s.round_downloaded), s.discovered.checked_add(s.round_discovered)) {
                    (Some(d), Some(f)) => {
                        let t = DownloadState { downloaded: d, discovered: f, ..s };
                        if s.round_discovered == 0 {
                            Some((t, DownloadAction::Finish { nothing_to_do: false, report_totals: d > 0 }))
                        } else {
                            Some((t, DownloadAction::ListAgain { found: s.round_discovered }))
                        }
                    },
                    _ => None,
                }
            },
        }
    }
}

/// The run goes on after a round only when the round discovered chapters,
/// and its totals grow by exactly what the round fetched and discovered.
pub proof fn lemma_round_end(s: DownloadState)
    requires
        download_next(s, DownloadEvent::RoundDone) is Some,
    ensures
        ({
            let (t, a) = download_next(s, DownloadEvent::RoundDone)->0;
            &&& t.downloaded == s.downloaded + s.round_downloaded
            &&& t.discovered == s.discovered + s.round_discovered
            &&& (a is ListAgain <==> s.round_discovered > 0)
            &&& (a is Finish <==> s.round_discovered == 0)
        }),
{
}

/// A run ends only on an empty listing or after a round that discovered
/// nothing.
pub proof fn lemma_finish_only_when_done(s: DownloadState, event: DownloadEvent)
    requires
        download_next(s, event) matches Some((_, a)) && a is Finish,
    ensures
        event == (DownloadEvent::Listed { pending: 0 }) || (event == DownloadEvent::RoundDone && s.round_discovered == 0),
{
}

/// How many of `chapters` belong to the volume named `name`.
pub open spec fn chapters_in(chapters: Seq<ScrapedChapter>, name: Seq<char>) -> nat
    decreases chapters.len(),
{
    if chapters.len() == 0 {
        0
    } else {
        chapters_in(chapters.drop_last(), name) + if chapters.last().volume_name@ == name { 1nat } else { 0nat }
    }
}

proof fn lemma_chapters_in_bound(chapters: Seq<ScrapedChapter>, name: Seq<char>)
    ensures
        chapters_in(chapters, name) <= chapters.len(),
    decreases chapters.len(),
{
    if chapters.len() > 0 {
        lemma_chapters_in_bound(chapters.drop_last(), name);
    }
}

/// The number of chapters of each volume in a table of contents, keyed by
/// volume name: every volume that holds a chapter, and no other.
pub fn volume_counts(chapters: &Vec<ScrapedChapter>) -> (m: TextMap<usize>)
    ensures
        m.wf(),
        forall|name: Seq<char>| #[trigger] m@.contains_key(name) <==> chapters_in(chapters@, name) > 0,
        forall|name: Seq<char>| #[trigger] m@.contains_key(name) ==> m@[name] == chapters_in(chapters@, name),
{
    let mut m: TextMap<usize> = TextMap::new();
    let mut i: usize = 0;
    while i < chapters.len()
        invariant
            i <= chapters@.len(),
            m.wf(),
            forall|name: Seq<char>| #[trigger] m@.contains_key(name) <==> chapters_in(chapters@.take(i as int), name) > 0,
            forall|name: Seq<char>| #[trigger] m@.contains_key(name) ==> m@[name] == chapters_in(chapters@.take(i as int), name),
        decreases chapters.len() - i,
    {
        let ghost before = m@;
        let ghost prefix = chapters@.take(i as int);
        let ghost next = chapters@.take(i + 1);
        proof {
            assert(next.drop_last() =~= prefix);
            assert(next.last() == chapters@[i as int]);
            lemma_chapters_in_bound(prefix, chapters@[i as int].volume_name@);
        }
        let name = chapters[i].volume_name.as_str();
        let count: usize = match m.get(name) {
            Some(c) => *c + 1,
            None => 1,
        };
        m.insert(name, count);
        proof {
            assert forall|k: Seq<char>| #[trigger] m@.contains_key(k) <==> chapters_in(next, k) > 0 by {
                if k != name@ {
                    assert(chapters_in(next, k) == chapters_in(prefix, k));
                }
            }
            assert forall|k: Seq<char>| #[trigger] m@.contains_key(k) implies m@[k] == chapters_in(next, k) by {
                if k != name@ {
                    assert(chapters_in(next, k) == chapters_in(prefix, k));
                }
            }
        }
        i = i + 1;
    }
    proof {
        assert(chapters@.take(chapters@.len() as int) =~= chapters@);
    }
    m
}

} // verus!
