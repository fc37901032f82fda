//! Per-source statistics, computed from the rows of a source's database.
//!
//! A chapter the table of contents lists but the scraper has not downloaded
//! yet (no stored data) is listed with no words, but kept out of the word and
//! chapter totals and of the mean.
use vstd::prelude::*;
use crate::text::{chars_of, str_eq, parse_digits_exec, split_char_exec, string_of};

verus! {

/// Whether a URI path segment can take part in a date: non-empty, and not
/// the scheme (`https:`) or a host with a port.
pub open spec fn keep_segment(seg: Seq<char>) -> bool {
    seg.len() > 0 && !seg.contains(':')
}

/// The segments of `segs` that `keep_segment` admits, in order.
pub open spec fn kept_segments(segs: Seq<Seq<char>>) -> Seq<Seq<char>>
    decreases segs.len(),
{
    if segs.len() == 0 {
        segs
    } else {
        let prev = kept_segments(segs.drop_last());
        if keep_segment(segs.last()) {
            prev.push(segs.last())
        } else {
            prev
        }
    }
}

/// The path segments of a URI that a date is looked for in.
pub open spec fn uri_segments(uri: Seq<char>) -> Seq<Seq<char>> {
    kept_segments(crate::text::split_char(uri, '/'))
}

/// Whether the numbers parsed from a `YYYY/MM/DD` triple form a plausible date.
pub open spec fn plausible_date(y: nat, m: nat, d: nat) -> bool {
    1990 <= y <= 2100 && 1 <= m <= 12 && 1 <= d <= 31
}

/// The first date found in the windows of three consecutive segments that
/// start at `i` or later: segments of 4, 2 and 2 ASCII digits that form a
/// plausible date. Any other window is skipped.
pub open spec fn date_from(segs: Seq<Seq<char>>, i: int) -> Option<Seq<char>>
    decreases segs.len() - i,
{
    if i + 3 > segs.len() {
        None
    } else if segs[i].len() != 4 || segs[i + 1].len() != 2 || segs[i + 2].len() != 2 {
        date_from(segs, i + 1)
    } else {
        match (
            crate::text::parse_digits(segs[i]),
            crate::text::parse_digits(segs[i + 1]),
            crate::text::parse_digits(segs[i + 2]),
        ) {
            (Some(y), Some(m), Some(d)) => {
                if plausible_date(y, m, d) {
                    Some(segs[i] + seq!['-'] + segs[i + 1] + seq!['-'] + segs[i + 2])
                } else {
                    date_from(segs, i + 1)
                }
            },
            _ => date_from(segs, i + 1),
        }
    }
}

/// The publication date that a URI carries as `YYYY/MM/DD` path segments.
pub open spec fn published_spec(uri: Seq<char>) -> Option<Seq<char>> {
    date_from(uri_segments(uri), 0)
}

pub open spec fn opt_string_view(o: Option<String>) -> Option<Seq<char>> {
    match o {
        Some(s) => Some(s@),
        None => None,
    }
}

proof fn lemma_date_shape(segs: Seq<Seq<char>>, i: int)
    ensures
        date_from(segs, i) matches Some(d) ==> d.len() == 10 && d[4] == '-' && d[7] == '-',
    decreases segs.len() - i,
{
    if i + 3 <= segs.len() {
        lemma_date_shape(segs, i + 1);
    }
}

fn contains_colon(seg: &Vec<char>) -> (b: bool)
    ensures
        b == seg@.contains(':'),
{
    let mut i: usize = 0;
    while i < seg.len()
        invariant
            i <= seg.len(),
            forall|k: int| 0 <= k < i ==> seg@[k] != ':',
        decreases seg.len() - i,
    {
        if seg[i] == ':' {
            proof {
                assert(seg@[i as int] == ':');
            }
            return true;
        }
        i = i + 1;
    }
    false
}

/// Extract a `YYYY/MM/DD` path segment triple as `YYYY-MM-DD`.
///
/// WordPress sources put the publication date in the URI. Royal Road does
/// not, and nothing else in the database does either, so this returns `None`
/// there rather than guessing.
pub fn published_from_uri(uri: &str) -> (r: Option<String>)
    ensures
        opt_string_view(r) == published_spec(uri@),
        r matches Some(d) ==> d@.len() == 10 && d@[4] == '-' && d@[7] == '-',
{
    let chars = chars_of(uri);
    let parts = split_char_exec(&chars, '/');
    let ghost all = crate::text::split_char(uri@, '/');
    let mut segs: Vec<Vec<char>> = Vec::new();
    let mut i: usize = 0;
    while i < parts.len()
        invariant
            i <= parts.len(),
            parts@.len() == all.len(),
            forall|k: int| 0 <= k < parts@.len() ==> #[trigger] parts@[k]@ == all[k],
            segs@.map_values(|s: Vec<char>| s@) == kept_segments(all.take(i as int)),
        decreases parts.len() - i,
    {
        proof {
            assert(all.take(i + 1).drop_last() =~= all.take(i as int));
            assert(all.take(i + 1).last() == all[i as int]);
        }
        let keep = parts[i].len() > 0 && !contains_colon(&parts[i]);
        if keep {
            segs.push(parts[i].clone());
        }
        proof {
            assert(segs@.map_values(|s: Vec<char>| s@) =~= kept_segments(all.take(i + 1)));
        }
        i = i + 1;
    }
    proof {
        assert(all.take(all.len() as int) =~= all);
        lemma_date_shape(uri_segments(uri@), 0);
    }
    let ghost sv = segs@.map_values(|s: Vec<char>| s@);
    let mut w: usize = 0;
    while segs.len() >= 3 && w <= segs.len() - 3
        invariant
            sv == segs@.map_values(|s: Vec<char>| s@),
            sv == uri_segments(uri@),
            w <= segs.len(),
            date_from(sv, w as int) == date_from(sv, 0),
        decreases segs.len() - w,
    {
        let y = &segs[w];
        let m = &segs[w + 1];
        let d = &segs[w + 2];
        proof {
            assert(sv[w as int] == y@);
            assert(sv[w + 1] == m@);
            assert(sv[w + 2] == d@);
        }
        if y.len() == 4 && m.len() == 2 && d.len() == 2 {
            let yn = parse_digits_exec(y);
            let mn = parse_digits_exec(m);
            let dn = parse_digits_exec(d);
            match (yn, mn, dn) {
                (Some(yv), Some(mv), Some(dv)) => {
                    if 1990 <= yv && yv <= 2100 && 1 <= mv && mv <= 12 && 1 <= dv && dv <= 31 {
                        let mut out: Vec<char> = y.clone();
                        out.push('-');
                        let mut k: usize = 0;
                        while k < 2
                            invariant
                                k <= 2,
                                m@.len() == 2,
                                out@ == y@ + seq!['-'] + m@.take(k as int),
                            decreases 2 - k,
                        {
                            out.push(m[k]);
                            proof {
                                assert(m@.take(k + 1) =~= m@.take(k as int).push(m@[k as int]));
                            }
                            k = k + 1;
                        }
                        out.push('-');
                        k = 0;
                        while k < 2
                            invariant
                                k <= 2,
                                m@.len() == 2,
                                d@.len() == 2,
                                out@ == y@ + seq!['-'] + m@ + seq!['-'] + d@.take(k as int),
                            decreases 2 - k,
                        {
                            out.push(d[k]);
                            proof {
                                assert(d@.take(k + 1) =~= d@.take(k as int).push(d@[k as int]));
                            }
                            k = k + 1;
                        }
                        proof {
                            assert(m@.take(2) =~= m@);
                            assert(d@.take(2) =~= d@);
                        }
                        return Some(string_of(&out));
                    }
                },
                _ => {},
            }
        }
        w = w + 1;
    }
    None
}

/// Mean words per chapter, or zero for a source with no downloaded chapters.
pub fn mean_words(total_words: usize, chapters: usize) -> (m: usize)
    ensures
        chapters == 0 ==> m == 0,
        chapters > 0 ==> m == total_words / chapters,
{
    if chapters == 0 {
        0
    } else {
        total_words / chapters
    }
}

} // verus!

verus! {

/// One chapter row: its id, name and URI, and its stored HTML if the
/// scraper has downloaded it.
pub struct ChapterRow {
    pub id: isize,
    pub name: String,
    pub uri: String,
    pub data: Option<String>,
}

/// One volume row with its chapter rows, in id order.
pub struct VolumeRows {
    pub id: isize,
    pub name: String,
    pub chapters: Vec<ChapterRow>,
}

pub struct ChapterStat {
    pub id: isize,
    pub name: String,
    pub uri: String,
    pub words: usize,
    /// `YYYY-MM-DD`, only where the source's URIs carry one.
    pub published: Option<String>,
    /// Whether this chapter has stored data yet. A chapter that has not been
    /// downloaded also has `words: 0`, so callers check this field rather
    /// than `words == 0`.
    pub downloaded: bool,
}

pub struct VolumeStat {
    pub id: isize,
    pub name: String,
    pub chapters: Vec<ChapterStat>,
    pub words: usize,
    /// Chapters in `chapters` that have not been downloaded yet.
    pub pending_chapters: usize,
}

pub struct SourceStat {
    pub source_id: String,
    pub name: String,
    pub volumes: Vec<VolumeStat>,
    pub total_words: usize,
    pub total_chapters: usize,
    pub pending_chapters: usize,
    pub mean_chapter_words: usize,
    pub latest_published: Option<String>,
}

/// The words a chapter contributes: its word count once downloaded, else none.
pub open spec fn chapter_words(c: ChapterRow) -> nat {
    match c.data {
        Some(d) => crate::stats::wordcount::word_count(d@),
        None => 0,
    }
}

/// Total words of the first `n` chapters.
pub open spec fn chapters_words(cs: Seq<ChapterRow>, n: nat) -> nat
    decreases n,
{
    if n == 0 {
        0
    } else {
        chapters_words(cs, (n - 1) as nat) + chapter_words(cs[n - 1])
    }
}

/// Number of chapters among the first `n` that have not been downloaded.
pub open spec fn chapters_pending(cs: Seq<ChapterRow>, n: nat) -> nat
    decreases n,
{
    if n == 0 {
        0
    } else {
        chapters_pending(cs, (n - 1) as nat) + if cs[n - 1].data is None {
            1nat
        } else {
            0nat
        }
    }
}

pub open spec fn volume_words(v: VolumeRows) -> nat {
    chapters_words(v.chapters@, v.chapters@.len())
}

pub open spec fn volume_pending(v: VolumeRows) -> nat {
    chapters_pending(v.chapters@, v.chapters@.len())
}

/// Total words of the first `n` volumes.
pub open spec fn volumes_words(vs: Seq<VolumeRows>, n: nat) -> nat
    decreases n,
{
    if n == 0 {
        0
    } else {
        volumes_words(vs, (n - 1) as nat) + volume_words(vs[n - 1])
    }
}

/// Undownloaded chapters in the first `n` volumes.
pub open spec fn volumes_pending(vs: Seq<VolumeRows>, n: nat) -> nat
    decreases n,
{
    if n == 0 {
        0
    } else {
        volumes_pending(vs, (n - 1) as nat) + volume_pending(vs[n - 1])
    }
}

/// Listed chapters in the first `n` volumes.
pub open spec fn volumes_listed(vs: Seq<VolumeRows>, n: nat) -> nat
    decreases n,
{
    if n == 0 {
        0
    } else {
        volumes_listed(vs, (n - 1) as nat) + vs[n - 1].chapters@.len()
    }
}


/// The larger of an accumulated latest date and a chapter's date.
pub open spec fn later_of(acc: Option<Seq<char>>, p: Option<Seq<char>>) -> Option<Seq<char>> {
    match p {
        None => acc,
        Some(x) => match acc {
            None => Some(x),
            Some(a) => if crate::text::text_less(x, a) {
                Some(a)
            } else {
                Some(x)
            },
        },
    }
}

pub open spec fn latest_in_chapters(cs: Seq<ChapterRow>, n: nat, acc: Option<Seq<char>>) -> Option<
    Seq<char>,
>
    decreases n,
{
    if n == 0 {
        acc
    } else {
        later_of(latest_in_chapters(cs, (n - 1) as nat, acc), published_spec(cs[n - 1].uri@))
    }
}

/// The latest publication date among the chapters of the first `n` volumes.
pub open spec fn latest_in_volumes(vs: Seq<VolumeRows>, n: nat) -> Option<Seq<char>>
    decreases n,
{
    if n == 0 {
        None
    } else {
        latest_in_chapters(vs[n - 1].chapters@, vs[n - 1].chapters@.len(), latest_in_volumes(vs, (n - 1) as nat))
    }
}

/// How a chapter row is summarised.
pub open spec fn chapter_stat_of(row: ChapterRow, st: ChapterStat) -> bool {
    &&& st.id == row.id
    &&& st.name@ == row.name@
    &&& st.uri@ == row.uri@
    &&& st.words == chapter_words(row)
    &&& opt_string_view(st.published) == published_spec(row.uri@)
    &&& st.downloaded == row.data is Some
}

/// How a volume's rows are summarised.
pub open spec fn volume_stat_of(v: VolumeRows, st: VolumeStat) -> bool {
    &&& st.id == v.id
    &&& st.name@ == v.name@
    &&& st.chapters@.len() == v.chapters@.len()
    &&& forall|j: int| 0 <= j < st.chapters@.len() ==> chapter_stat_of(v.chapters@[j], #[trigger] st.chapters@[j])
    &&& st.words == volume_words(v)
    &&& st.pending_chapters == volume_pending(v)
}

proof fn lemma_chapters_words_mono(cs: Seq<ChapterRow>, k: nat, n: nat)
    requires
        k <= n,
    ensures
        chapters_words(cs, k) <= chapters_words(cs, n),
    decreases n,
{
    if k < n {
        lemma_chapters_words_mono(cs, k, (n - 1) as nat);
    }
}

proof fn lemma_volumes_words_mono(vs: Seq<VolumeRows>, k: nat, n: nat)
    requires
        k <= n,
    ensures
        volumes_words(vs, k) <= volumes_words(vs, n),
    decreases n,
{
    if k < n {
        lemma_volumes_words_mono(vs, k, (n - 1) as nat);
    }
}

proof fn lemma_volumes_listed_mono(vs: Seq<VolumeRows>, k: nat, n: nat)
    requires
        k <= n,
    ensures
        volumes_listed(vs, k) <= volumes_listed(vs, n),
    decreases n,
{
    if k < n {
        lemma_volumes_listed_mono(vs, k, (n - 1) as nat);
    }
}

proof fn lemma_chapters_pending_bound(cs: Seq<ChapterRow>, n: nat)
    ensures
        chapters_pending(cs, n) <= n,
    decreases n,
{
    if n > 0 {
        lemma_chapters_pending_bound(cs, (n - 1) as nat);
    }
}

proof fn lemma_volumes_pending_bound(vs: Seq<VolumeRows>, n: nat)
    ensures
        volumes_pending(vs, n) <= volumes_listed(vs, n),
    decreases n,
{
    if n > 0 {
        lemma_volumes_pending_bound(vs, (n - 1) as nat);
        lemma_chapters_pending_bound(vs[n - 1].chapters@, vs[n - 1].chapters@.len());
    }
}


/// Folds one chapter's date into the running latest date.
fn fold_latest(acc: Option<String>, p: &Option<String>) -> (r: Option<String>)
    ensures
        opt_string_view(r) == later_of(opt_string_view(acc), opt_string_view(*p)),
{
    match p {
        None => acc,
        Some(x) => match acc {
            None => Some(x.clone()),
            Some(a) => {
                let xc = chars_of(x.as_str());
                let ac = chars_of(a.as_str());
                if crate::text::text_less_exec(&xc, &ac) {
                    Some(a)
                } else {
                    Some(x.clone())
                }
            },
        },
    }
}

/// Summarises one chapter row.
fn chapter_stat(row: &ChapterRow) -> (st: ChapterStat)
    ensures
        chapter_stat_of(*row, st),
{
    let words = match &row.data {
        Some(html) => crate::stats::wordcount::count_words(html.as_str()),
        None => 0,
    };
    ChapterStat {
        id: row.id,
        name: row.name.clone(),
        uri: row.uri.clone(),
        words,
        published: published_from_uri(row.uri.as_str()),
        downloaded: row.data.is_some(),
    }
}

/// Summarises every volume of a source and totals them.
///
/// `None` when the source's total word count does not fit in a `usize`.
pub fn compute_source_stat(source_id: &str, name: &str, volumes: &Vec<VolumeRows>) -> (r: Option<
    SourceStat,
>)
    requires
        volumes_listed(volumes@, volumes@.len()) <= usize::MAX,
    ensures
        r is None <==> volumes_words(volumes@, volumes@.len()) > usize::MAX,
        r matches Some(st) ==> {
            &&& st.source_id@ == source_id@
            &&& st.name@ == name@
            &&& st.volumes@.len() == volumes@.len()
            &&& forall|i: int|
                0 <= i < st.volumes@.len() ==> volume_stat_of(volumes@[i], #[trigger] st.volumes@[i])
            &&& st.total_words == volumes_words(volumes@, volumes@.len())
            &&& st.pending_chapters == volumes_pending(volumes@, volumes@.len())
            &&& st.total_chapters + st.pending_chapters == volumes_listed(volumes@, volumes@.len())
            &&& st.mean_chapter_words == (if st.total_chapters == 0 {
                0
            } else {
                st.total_words / st.total_chapters
            })
            &&& opt_string_view(st.latest_published) == latest_in_volumes(volumes@, volumes@.len())
        },
{
    let ghost vs = volumes@;
    let mut stats: Vec<VolumeStat> = Vec::new();
    let mut total_words: usize = 0;
    let mut total_pending: usize = 0;
    let mut total_listed: usize = 0;
    let mut latest: Option<String> = None;
    let mut i: usize = 0;
    while i < volumes.len()
        invariant
            vs == volumes@,
            i <= volumes.len(),
            stats@.len() == i,
            forall|k: int| 0 <= k < i ==> volume_stat_of(vs[k], #[trigger] stats@[k]),
            total_words == volumes_words(vs, i as nat),
            total_pending == volumes_pending(vs, i as nat),
            total_listed == volumes_listed(vs, i as nat),
            volumes_listed(vs, vs.len()) <= usize::MAX,
            total_pending <= total_listed,
            opt_string_view(latest) == latest_in_volumes(vs, i as nat),
        decreases volumes.len() - i,
    {
        let vol = &volumes[i];
        let mut chapters: Vec<ChapterStat> = Vec::new();
        let mut words: usize = 0;
        let mut pending: usize = 0;
        let mut j: usize = 0;
        let ghost cs = vol.chapters@;
        while j < vol.chapters.len()
            invariant
                vs == volumes@,
                i < volumes.len(),
                vol == volumes@[i as int],
                cs == vol.chapters@,
                j <= cs.len(),
                chapters@.len() == j,
                forall|k: int| 0 <= k < j ==> chapter_stat_of(cs[k], #[trigger] chapters@[k]),
                words == chapters_words(cs, j as nat),
                pending == chapters_pending(cs, j as nat),
                total_words == volumes_words(vs, i as nat),
                pending <= j,
                opt_string_view(latest) == latest_in_chapters(cs, j as nat, latest_in_volumes(vs, i as nat)),
            decreases cs.len() - j,
        {
            let st = chapter_stat(&vol.chapters[j]);
            match words.checked_add(st.words) {
                Some(w) => {
                    words = w;
                },
                None => {
                    proof {
                        lemma_chapters_words_mono(cs, (j + 1) as nat, cs.len());
                        lemma_volumes_words_mono(vs, (i + 1) as nat, vs.len());
                    }
                    return None;
                },
            }
            if !st.downloaded {
                pending = pending + 1;
            }
            latest = fold_latest(latest, &st.published);
            chapters.push(st);
            j = j + 1;
        }
        proof {
            lemma_chapters_pending_bound(cs, cs.len());
            lemma_volumes_listed_mono(vs, (i + 1) as nat, vs.len());
        }
        match total_words.checked_add(words) {
            Some(t) => {
                total_words = t;
            },
            None => {
                proof {
                    lemma_volumes_words_mono(vs, (i + 1) as nat, vs.len());
                }
                return None;
            },
        }
        total_pending = total_pending + pending;
        total_listed = total_listed + vol.chapters.len();
        stats.push(
            VolumeStat {
                id: vol.id,
                name: vol.name.clone(),
                chapters,
                words,
                pending_chapters: pending,
            },
        );
        i = i + 1;
    }
    proof {
        lemma_volumes_pending_bound(vs, vs.len());
    }
    let total_chapters = total_listed - total_pending;
    Some(
        SourceStat {
            source_id: source_id.to_string(),
            name: name.to_string(),
            volumes: stats,
            total_words,
            total_chapters,
            pending_chapters: total_pending,
            mean_chapter_words: mean_words(total_words, total_chapters),
            latest_published: latest,
        },
    )
}

} // verus!

verus! {

struct CachedStat {
    source_id: String,
    version: Option<i64>,
    stat: SourceStat,
}

/// Memoises `SourceStat` per source, keyed on a change-detection token of the
/// source's database: a lookup with any other token misses.
pub struct StatsCache {
    entries: Vec<CachedStat>,
}

/// What a lookup of `id` under the data version `version` finds in `c`.
pub open spec fn cached(c: StatsCache, id: Seq<char>, version: Option<i64>) -> Option<SourceStat> {
    if c.ids().contains(id) && c.version_of(id) == version {
        Some(c.stat_of(id))
    } else {
        None
    }
}

/// What `insert(id, version, stat)` does to a cache: `id` is cached with
/// `stat` under `version`; other sources keep theirs.
pub open spec fn inserted(before: StatsCache, after: StatsCache, id: Seq<char>, version: Option<i64>, stat: SourceStat) -> bool {
    &&& after.ids() == before.ids().insert(id)
    &&& after.version_of(id) == version
    &&& after.stat_of(id) == stat
    &&& forall|other: Seq<char>|
        other != id && #[trigger] before.ids().contains(other) ==> after.version_of(other) == before.version_of(other)
            && after.stat_of(other) == before.stat_of(other)
}

/// After statistics are cached for a source under a data version, a lookup
/// under that version finds them and a lookup under any other version finds
/// nothing, until the source is cached again; other sources are looked up
/// as before.
pub proof fn lemma_cache_hit_only_at_same_version(
    before: StatsCache,
    after: StatsCache,
    id: Seq<char>,
    version: Option<i64>,
    stat: SourceStat,
)
    requires
        inserted(before, after, id, version, stat),
    ensures
        cached(after, id, version) == Some(stat),
        forall|v: Option<i64>| v != version ==> cached(after, id, v) is None,
        forall|other: Seq<char>, v: Option<i64>|
            other != id ==> #[trigger] cached(after, other, v) == cached(before, other, v),
{
    assert forall|other: Seq<char>, v: Option<i64>| other != id implies #[trigger] cached(after, other, v) == cached(before, other, v) by {
        assert(after.ids().contains(other) == before.ids().contains(other));
    }
}

impl StatsCache {
    /// Source ids with a cached entry.
    pub closed spec fn ids(&self) -> Set<Seq<char>> {
        Set::new(|id: Seq<char>| exists|i: int| 0 <= i < self.entries@.len() && #[trigger] self.entries@[i].source_id@ == id)
    }

    /// The token an entry was cached under.
    pub closed spec fn version_of(&self, id: Seq<char>) -> Option<i64> {
        let i = choose|i: int| 0 <= i < self.entries@.len() && #[trigger] self.entries@[i].source_id@ == id;
        self.entries@[i].version
    }

    /// The statistics cached for a source.
    pub closed spec fn stat_of(&self, id: Seq<char>) -> SourceStat {
        let i = choose|i: int| 0 <= i < self.entries@.len() && #[trigger] self.entries@[i].source_id@ == id;
        self.entries@[i].stat
    }

    /// No source id is cached twice.
    pub closed spec fn wf(&self) -> bool {
        forall|i: int, j: int|
            0 <= i < j < self.entries@.len() ==> #[trigger] self.entries@[i].source_id@ != #[trigger] self.entries@[j].source_id@
    }

    pub fn new() -> (c: Self)
        ensures
            c.wf(),
            c.ids() == Set::<Seq<char>>::empty(),
    {
        let c = StatsCache { entries: Vec::new() };
        proof {
            assert(c.ids() =~= Set::<Seq<char>>::empty());
        }
        c
    }

    fn find(&self, source_id: &str) -> (r: Option<usize>)
        requires
            self.wf(),
        ensures
            r matches Some(i) ==> i < self.entries@.len() && self.entries@[i as int].source_id@ == source_id@,
            r is None ==> !self.ids().contains(source_id@),
    {
        let mut i: usize = 0;
        while i < self.entries.len()
            invariant
                i <= self.entries@.len(),
                forall|k: int| 0 <= k < i ==> self.entries@[k].source_id@ != source_id@,
            decreases self.entries.len() - i,
        {
            if str_eq(self.entries[i].source_id.as_str(), source_id) {
                return Some(i);
            }
            i = i + 1;
        }
        None
    }

    /// The statistics cached for `source_id`, if they were cached under
    /// `version`.
    pub fn lookup(&self, source_id: &str, version: Option<i64>) -> (r: Option<&SourceStat>)
        requires
            self.wf(),
        ensures
            r is Some <==> (self.ids().contains(source_id@) && self.version_of(source_id@) == version),
            r matches Some(st) ==> *st == self.stat_of(source_id@),
            match r {
                Some(st) => cached(*self, source_id@, version) == Some(*st),
                None => cached(*self, source_id@, version) is None,
            },
    {
        match self.find(source_id) {
            Some(i) => {
                proof {
                    self.lemma_entry(i as int);
                }
                if self.entries[i].version == version {
                    Some(&self.entries[i].stat)
                } else {
                    None
                }
            },
            None => None,
        }
    }

    proof fn lemma_entry(&self, i: int)
        requires
            self.wf(),
            0 <= i < self.entries@.len(),
        ensures
            self.ids().contains(self.entries@[i].source_id@),
            self.version_of(self.entries@[i].source_id@) == self.entries@[i].version,
            self.stat_of(self.entries@[i].source_id@) == self.entries@[i].stat,
    {
        let id = self.entries@[i].source_id@;
        assert(self.ids().contains(id));
        let k = choose|k: int| 0 <= k < self.entries@.len() && #[trigger] self.entries@[k].source_id@ == id;
        assert(k == i);
    }

    /// Caches `stat` for `source_id` under `version`, replacing any earlier
    /// entry for that source.
    pub fn insert(&mut self, source_id: &str, version: Option<i64>, stat: SourceStat)
        requires
            old(self).wf(),
        ensures
            final(self).wf(),
            inserted(*old(self), *final(self), source_id@, version, stat),
    {
        let ghost before = *self;
        let entry = CachedStat { source_id: source_id.to_string(), version, stat };
        let found = self.find(source_id);
        let ghost pos: int = match found {
            Some(i) => i as int,
            None => before.entries@.len() as int,
        };
        match found {
            Some(i) => {
                self.entries.set(i, entry);
            },
            None => {
                self.entries.push(entry);
            },
        }
        proof {
            assert(0 <= pos < self.entries@.len());
            assert(self.entries@[pos].source_id@ == source_id@);
            assert(forall|k: int| 0 <= k < self.entries@.len() && k != pos ==> self.entries@[k] == before.entries@[k]);
            if found is None {
                assert(forall|k: int| 0 <= k < before.entries@.len() ==> before.entries@[k].source_id@ != source_id@) by {
                    assert forall|k: int| 0 <= k < before.entries@.len() implies before.entries@[k].source_id@ != source_id@ by {
                        if before.entries@[k].source_id@ == source_id@ {
                            assert(before.ids().contains(source_id@));
                        }
                    }
                }
            }
            assert(self.wf());
            assert forall|id: Seq<char>| #[trigger] self.ids().contains(id) <==> before.ids().insert(source_id@).contains(id) by {
                if self.ids().contains(id) && id != source_id@ {
                    let k = choose|k: int| 0 <= k < self.entries@.len() && #[trigger] self.entries@[k].source_id@ == id;
                    assert(k != pos);
                    assert(before.entries@[k].source_id@ == id);
                    assert(before.ids().contains(id));
                }
                if before.ids().contains(id) && id != source_id@ {
                    let k = choose|k: int| 0 <= k < before.entries@.len() && #[trigger] before.entries@[k].source_id@ == id;
                    assert(k != pos);
                    assert(self.entries@[k].source_id@ == id);
                    assert(self.ids().contains(id));
                }
                if id == source_id@ {
                    assert(self.ids().contains(id));
                }
            }
            assert(self.ids() =~= before.ids().insert(source_id@));
            self.lemma_entry(pos);
            assert forall|id: Seq<char>|
                id != source_id@ && #[trigger] before.ids().contains(id) implies self.version_of(id)
                    == before.version_of(id) && self.stat_of(id) == before.stat_of(id) by {
                let k = choose|k: int| 0 <= k < before.entries@.len() && #[trigger] before.entries@[k].source_id@ == id;
                before.lemma_entry(k);
                assert(k != pos);
                assert(self.entries@[k] == before.entries@[k]);
                self.lemma_entry(k);
            }
        }
    }
}

} // verus!

verus! {

/// Downloaded chapters among the first `n` volume summaries, each counted
/// as its listed chapters less its pending ones.
pub open spec fn summaries_downloaded(vs: Seq<VolumeStat>, n: nat) -> int
    decreases n,
{
    if n == 0 {
        0
    } else {
        summaries_downloaded(vs, (n - 1) as nat) + (vs[n - 1].chapters@.len() - vs[n - 1].pending_chapters)
    }
}

/// A source's page and its volume lines count the same chapters: the
/// source's total is the sum, over its volumes, of listed chapters less
/// pending ones. Pending chapters are listed but never counted as
/// downloaded.
pub proof fn lemma_volume_counts_add_up(volumes: Seq<VolumeRows>, st: SourceStat)
    requires
        st.volumes@.len() == volumes.len(),
        forall|i: int| 0 <= i < volumes.len() ==> volume_stat_of(volumes[i], #[trigger] st.volumes@[i]),
        st.pending_chapters == volumes_pending(volumes, volumes.len()),
        st.total_chapters + st.pending_chapters == volumes_listed(volumes, volumes.len()),
    ensures
        st.total_chapters == summaries_downloaded(st.volumes@, volumes.len()),
{
    lemma_downloaded_is_listed_less_pending(volumes, st.volumes@, volumes.len());
}

proof fn lemma_downloaded_is_listed_less_pending(volumes: Seq<VolumeRows>, sums: Seq<VolumeStat>, n: nat)
    requires
        n <= volumes.len(),
        sums.len() == volumes.len(),
        forall|i: int| 0 <= i < volumes.len() ==> volume_stat_of(volumes[i], #[trigger] sums[i]),
    ensures
        summaries_downloaded(sums, n) == volumes_listed(volumes, n) - volumes_pending(volumes, n),
    decreases n,
{
    if n > 0 {
        lemma_downloaded_is_listed_less_pending(volumes, sums, (n - 1) as nat);
        assert(volume_stat_of(volumes[n - 1], sums[n - 1]));
    }
}

impl VolumeStat {
    /// Chapters of the volume that have been downloaded: those listed less
    /// the pending ones.
    pub fn downloaded_chapters(&self) -> (n: usize)
        requires
            self.pending_chapters <= self.chapters@.len(),
        ensures
            n == self.chapters@.len() - self.pending_chapters,
    {
        self.chapters.len() - self.pending_chapters
    }

    /// Mean words per downloaded chapter, `0` for a volume with none.
    /// Pending chapters carry no words and are not counted.
    pub fn mean_words(&self) -> (m: usize)
        requires
            self.pending_chapters <= self.chapters@.len(),
        ensures
            self.chapters@.len() == self.pending_chapters ==> m == 0,
            self.chapters@.len() > self.pending_chapters ==> m == self.words / (self.chapters@.len()
                - self.pending_chapters) as usize,
    {
        let d = self.downloaded_chapters();
        mean_words(self.words, d)
    }
}

/// The words, downloaded chapters and pending chapters of the first `n`
/// sources, summed.
pub open spec fn overview_sums(stats: Seq<SourceStat>, n: nat) -> (nat, nat, nat)
    decreases n,
{
    if n == 0 || n > stats.len() {
        (0, 0, 0)
    } else {
        let prev = overview_sums(stats, (n - 1) as nat);
        let s = stats[n - 1];
        (prev.0 + s.total_words as nat, prev.1 + s.total_chapters as nat, prev.2 + s.pending_chapters as nat)
    }
}

/// The totals over all sources of words, downloaded chapters and pending
/// chapters; `None` when one of them does not fit in a `usize`.
pub fn overview_totals(stats: &Vec<SourceStat>) -> (r: Option<(usize, usize, usize)>)
    ensures
        ({
            let t = overview_sums(stats@, stats@.len() as nat);
            &&& r is Some <==> (t.0 <= usize::MAX && t.1 <= usize::MAX && t.2 <= usize::MAX)
            &&& r matches Some(v) ==> v.0 == t.0 && v.1 == t.1 && v.2 == t.2
        }),
{
    let mut words: usize = 0;
    let mut chapters: usize = 0;
    let mut pending: usize = 0;
    let mut i: usize = 0;
    while i < stats.len()
        invariant
            i <= stats@.len(),
            overview_sums(stats@, i as nat) == (words as nat, chapters as nat, pending as nat),
        decreases stats.len() - i,
    {
        let s = &stats[i];
        let next = (words.checked_add(s.total_words), chapters.checked_add(s.total_chapters), pending.checked_add(s.pending_chapters));
        match next {
            (Some(w), Some(c), Some(p)) => {
                words = w;
                chapters = c;
                pending = p;
            },
            _ => {
                proof {
                    lemma_overview_sums_grow(stats@, (i + 1) as nat, stats@.len() as nat);
                }
                return None;
            },
        }
        i = i + 1;
    }
    Some((words, chapters, pending))
}

proof fn lemma_overview_sums_grow(stats: Seq<SourceStat>, k: nat, n: nat)
    requires
        k <= n <= stats.len(),
    ensures
        overview_sums(stats, k).0 <= overview_sums(stats, n).0,
        overview_sums(stats, k).1 <= overview_sums(stats, n).1,
        overview_sums(stats, k).2 <= overview_sums(stats, n).2,
    decreases n - k,
{
    if k < n {
        lemma_overview_sums_grow(stats, k, (n - 1) as nat);
    }
}

} // verus!
