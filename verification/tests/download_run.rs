use wandering_inn_scraper::sources::download::{volume_counts, DownloadAction, DownloadEvent, DownloadState};
use wandering_inn_scraper::sources::ScrapedChapter;

fn run(state: &mut DownloadState, event: DownloadEvent) -> DownloadAction {
    let (next, action) = state.step(event).expect("no overflow");
    *state = next;
    action
}

#[test]
fn empty_listing_finishes_with_nothing_to_do() {
    let mut s = DownloadState::new();
    assert_eq!(
        run(&mut s, DownloadEvent::Listed { pending: 0 }),
        DownloadAction::Finish { nothing_to_do: true, report_totals: false }
    );
    assert_eq!(s, DownloadState::new());
}

#[test]
fn discovered_chapter_starts_another_round() {
    let mut s = DownloadState::new();
    assert_eq!(run(&mut s, DownloadEvent::Listed { pending: 2 }), DownloadAction::StartRound);
    assert_eq!(
        run(&mut s, DownloadEvent::NextChapter),
        DownloadAction::Fetch { report_progress: false, pause: false }
    );
    assert_eq!(run(&mut s, DownloadEvent::Fetched { discovered: true }), DownloadAction::Continue);
    assert_eq!(
        run(&mut s, DownloadEvent::NextChapter),
        DownloadAction::Fetch { report_progress: false, pause: true }
    );
    assert_eq!(run(&mut s, DownloadEvent::Failed), DownloadAction::Continue);
    assert_eq!(run(&mut s, DownloadEvent::RoundDone), DownloadAction::ListAgain { found: 1 });
    assert_eq!((s.downloaded, s.discovered), (1, 1));

    assert_eq!(run(&mut s, DownloadEvent::Listed { pending: 1 }), DownloadAction::StartRound);
    assert_eq!((s.round_downloaded, s.round_discovered), (0, 0));
    assert_eq!(
        run(&mut s, DownloadEvent::NextChapter),
        DownloadAction::Fetch { report_progress: false, pause: false }
    );
    assert_eq!(run(&mut s, DownloadEvent::Fetched { discovered: false }), DownloadAction::Continue);
    assert_eq!(
        run(&mut s, DownloadEvent::RoundDone),
        DownloadAction::Finish { nothing_to_do: false, report_totals: true }
    );
    assert_eq!((s.downloaded, s.discovered), (2, 1));
}

#[test]
fn progress_is_reported_every_ten_chapters() {
    let mut s = DownloadState::new();
    run(&mut s, DownloadEvent::Listed { pending: 25 });
    let mut reports = Vec::new();
    for i in 0..25u64 {
        if let DownloadAction::Fetch { report_progress: true, .. } = run(&mut s, DownloadEvent::NextChapter) {
            reports.push(i);
        }
        run(&mut s, DownloadEvent::Fetched { discovered: false });
    }
    assert_eq!(reports, vec![10, 20]);
}

#[test]
fn round_with_only_failures_finishes_without_totals() {
    let mut s = DownloadState::new();
    run(&mut s, DownloadEvent::Listed { pending: 1 });
    run(&mut s, DownloadEvent::NextChapter);
    run(&mut s, DownloadEvent::Failed);
    assert_eq!(
        run(&mut s, DownloadEvent::RoundDone),
        DownloadAction::Finish { nothing_to_do: false, report_totals: false }
    );
}

#[test]
fn count_overflow_is_refused() {
    let s = DownloadState { downloaded: 0, discovered: 0, round_downloaded: u64::MAX, round_discovered: 0 };
    assert!(s.step(DownloadEvent::Fetched { discovered: false }).is_none());
    let t = DownloadState { downloaded: u64::MAX, discovered: 0, round_downloaded: 1, round_discovered: 0 };
    assert!(t.step(DownloadEvent::RoundDone).is_none());
}

fn chapter(volume: &str) -> ScrapedChapter {
    ScrapedChapter { title: "t".to_string(), uri: "u".to_string(), volume_name: volume.to_string() }
}

#[test]
fn volume_counts_tally_each_volume() {
    let chapters = vec![chapter("Volume 1"), chapter("Volume 2"), chapter("Volume 1")];
    let counts = volume_counts(&chapters);
    assert_eq!(counts.len(), 2);
    assert_eq!(counts.get("Volume 1"), Some(&2));
    assert_eq!(counts.get("Volume 2"), Some(&1));
    assert_eq!(counts.get("Volume 3"), None);
    assert_eq!(volume_counts(&Vec::new()).len(), 0);
}
