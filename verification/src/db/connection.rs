//! The decisions that a source database's operations make: how a URI is
//! matched whatever its trailing slashes, what a table-of-contents sync does
//! to an existing row, and when stored content counts as changed.
use vstd::prelude::*;
use crate::text::{chars_of, str_eq, string_of};

verus! {

/// `s` without the slashes at its end.
pub open spec fn trim_trailing_slashes(s: Seq<char>) -> Seq<char>
    decreases s.len(),
{
    if s.len() > 0 && s.last() == '/' {
        trim_trailing_slashes(s.drop_last())
    } else {
        s
    }
}

/// Return both trailing-slash variants of a URI for slash-insensitive matching
pub fn uri_variants(uri: &str) -> (r: (String, String))
    ensures
        r.1@ == trim_trailing_slashes(uri@),
        r.0@ == trim_trailing_slashes(uri@).push('/'),
{
    let chars = chars_of(uri);
    let mut end: usize = chars.len();
    proof {
        assert(chars@.take(end as int) == chars@);
    }
    while end > 0 && chars[end - 1] == '/'
        invariant
            end <= chars@.len(),
            trim_trailing_slashes(chars@.take(end as int)) == trim_trailing_slashes(chars@),
        decreases end,
    {
        proof {
            assert(chars@.take(end as int).drop_last() == chars@.take(end - 1));
        }
        end = end - 1;
    }
    let mut kept: Vec<char> = Vec::new();
    let mut i: usize = 0;
    while i < end
        invariant
            i <= end <= chars@.len(),
            kept@ == chars@.take(i as int),
        decreases end - i,
    {
        kept.push(chars[i]);
        proof {
            assert(chars@.take(i + 1) == chars@.take(i as int).push(chars@[i as int]));
        }
        i = i + 1;
    }
    let without = string_of(&kept);
    let mut with = string_of(&kept);
    with.push('/');
    proof {
        assert(chars@.take(chars@.len() as int) == chars@);
    }
    (with, without)
}

/// Two URIs name the same chapter when they differ only in trailing slashes.
pub open spec fn same_uri(a: Seq<char>, b: Seq<char>) -> bool {
    trim_trailing_slashes(a) == trim_trailing_slashes(b)
}

proof fn lemma_trim_is_trimmed(s: Seq<char>)
    ensures
        trim_trailing_slashes(trim_trailing_slashes(s)) == trim_trailing_slashes(s),
        trim_trailing_slashes(s).len() == 0 || trim_trailing_slashes(s).last() != '/',
    decreases s.len(),
{
    if s.len() > 0 && s.last() == '/' {
        lemma_trim_is_trimmed(s.drop_last());
    }
}

/// A stored URI is found by a lookup of `uri` (which asks for either of
/// `uri_variants(uri)`) exactly when it is the trimmed URI with at most one
/// slash after it; every such URI names the same chapter as `uri`, and a URI
/// with slashes added at its end is looked up by the same pair.
pub proof fn lemma_variants_match_same_chapter(uri: Seq<char>, stored: Seq<char>)
    ensures
        (stored == trim_trailing_slashes(uri) || stored == trim_trailing_slashes(uri).push('/'))
            ==> same_uri(stored, uri),
        trim_trailing_slashes(uri.push('/')) == trim_trailing_slashes(uri),
{
    lemma_trim_is_trimmed(uri);
    let t = trim_trailing_slashes(uri);
    assert(t.push('/').drop_last() == t);
    assert(uri.push('/').drop_last() == uri);
}

/// What a table-of-contents sync does to the chapter table.
#[derive(Debug, Clone, Copy, PartialEq, Eq, Structural)]
pub enum TocUpsert {
    /// No row has the URI: a new chapter row is added.
    Insert,
    /// The row with this id has the URI but another title or volume: its
    /// title and volume are corrected in place, keeping its content and its
    /// regeneration flag.
    Correct { id: isize },
    /// The row already says what the table of contents says.
    Keep,
}

/// Insert a chapter from the TOC, or update the existing row with the same
/// URI (trailing-slash insensitive) in place. `existing` is the
/// lowest-numbered row whose URI is one of `uri_variants` of the chapter's,
/// as its id, title and volume.
pub fn toc_upsert(existing: &Option<(isize, String, Option<isize>)>, name: &str, volume_id: isize) -> (r: TocUpsert)
    ensures
        match existing {
            None => r == TocUpsert::Insert,
            Some((id, ex_name, ex_volume)) => if ex_name@ != name@ || *ex_volume != Some(volume_id) {
                r == (TocUpsert::Correct { id: *id })
            } else {
                r == TocUpsert::Keep
            },
        },
{
    match existing {
        None => TocUpsert::Insert,
        Some((id, ex_name, ex_volume)) => {
            let same_volume = match ex_volume {
                Some(v) => *v == volume_id,
                None => false,
            };
            if !str_eq(ex_name.as_str(), name) || !same_volume {
                TocUpsert::Correct { id: *id }
            } else {
                TocUpsert::Keep
            }
        },
    }
}

/// Whether storing `data` for a chapter changes its content, so that the
/// chapter's EPUB and its volume's are to be generated again. A chapter
/// with no stored content counts as holding the empty text.
pub fn data_changed(existing: &Option<String>, data: &str) -> (changed: bool)
    ensures
        changed == match existing {
            Some(e) => e@ != data@,
            None => data@ != Seq::<char>::empty(),
        },
{
    match existing {
        Some(e) => {
            let same = str_eq(e.as_str(), data);
            !same
        },
        None => {
            let empty = data.is_empty();
            proof {
                assert(empty == (data@.len() == 0));
                if data@.len() == 0 {
                    assert(data@ =~= Seq::<char>::empty());
                }
            }
            !empty
        },
    }
}

} // verus!
