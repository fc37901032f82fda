//! On-demand EPUB downloads: the query that selects a variant and the
//! `Content-Disposition` header that names the file.
use vstd::prelude::*;
use vstd::utf8::encode_utf8;
use crate::text::{chars_of, str_eq};

verus! {

pub struct DownloadQuery {
    /// `?stripped=1` serves the colour-stripped variant.
    pub stripped: Option<String>,
}

impl Default for DownloadQuery {
    fn default() -> (q: Self)
        ensures
            q.stripped is None,
    {
        DownloadQuery { stripped: None }
    }
}

impl DownloadQuery {
    /// Whether the colour-stripped variant is asked for: `stripped` is `1`
    /// or `true`.
    pub fn strip_colour(&self) -> (b: bool)
        ensures
            b == match self.stripped {
                Some(s) => s@ == "1"@ || s@ == "true"@,
                None => false,
            },
    {
        match &self.stripped {
            Some(s) => str_eq(s.as_str(), "1") || str_eq(s.as_str(), "true"),
            None => false,
        }
    }
}

/// Whether `c` is an ASCII letter or digit.
pub open spec fn ascii_alnum(c: char) -> bool {
    ('a' <= c && c <= 'z') || ('A' <= c && c <= 'Z') || ('0' <= c && c <= '9')
}

/// A character of the quoted ASCII fallback name: letters, digits and
/// `- _ . ( )` and space stay, anything else becomes `_`.
pub open spec fn fallback_char(c: char) -> char {
    if ascii_alnum(c) || c == '-' || c == '_' || c == '.' || c == ' ' || c == '(' || c == ')' {
        c
    } else {
        '_'
    }
}

/// The ASCII fallback for a file name.
pub open spec fn ascii_fallback(name: Seq<char>) -> Seq<char> {
    name.map_values(|c: char| fallback_char(c))
}

/// RFC 5987 `attr-char` among the ASCII bytes: letters, digits and
/// `- . _ ~`. Every other byte is percent-encoded.
pub open spec fn attr_byte(b: u8) -> bool {
    ascii_alnum(b as char) || b == 45 || b == 46 || b == 95 || b == 126
}

/// An upper-case hexadecimal digit.
pub open spec fn upper_hex(d: u8) -> char {
    if d < 10 {
        crate::text::digit_char(d as nat)
    } else if d == 10 {
        'A'
    } else if d == 11 {
        'B'
    } else if d == 12 {
        'C'
    } else if d == 13 {
        'D'
    } else if d == 14 {
        'E'
    } else {
        'F'
    }
}

/// One byte, percent-encoded.
pub open spec fn percent_byte(b: u8) -> Seq<char> {
    seq!['%', upper_hex(b / 16), upper_hex(b % 16)]
}

/// `bytes` with every byte that is not an `attr-char` percent-encoded.
pub open spec fn percent_encoded(bytes: Seq<u8>) -> Seq<char>
    decreases bytes.len(),
{
    if bytes.len() == 0 {
        Seq::empty()
    } else {
        percent_encoded(bytes.drop_last()) + if attr_byte(bytes.last()) {
            seq![bytes.last() as char]
        } else {
            percent_byte(bytes.last())
        }
    }
}

/// The header value for a download of `name`.
pub open spec fn disposition(name: Seq<char>) -> Seq<char> {
    "attachment; filename=\""@ + ascii_fallback(name) + "\"; filename*=UTF-8''"@ + percent_encoded(
        encode_utf8(name),
    )
}

/// Trusted: calls `percent_encoding::percent_encode_byte`, which returns `%`
/// followed by the byte's two hexadecimal digits in upper case (the crate's
/// encoding table).
#[verifier::external_body]
fn percent_encode_byte(b: u8) -> (s: &'static str)
    ensures
        s@ == percent_byte(b),
{
    percent_encoding::percent_encode_byte(b)
}

/// The character of an ASCII byte.
fn ascii_char(b: u8) -> (c: char)
    requires
        b < 128,
    ensures
        c == b as char,
{
    b as char
}

fn is_attr_byte(b: u8) -> (r: bool)
    ensures
        r == attr_byte(b),
{
    (97 <= b && b <= 122) || (65 <= b && b <= 90) || (48 <= b && b <= 57) || b == 45 || b == 46 || b == 95
        || b == 126
}

/// Build a `Content-Disposition` value that survives spaces, colons and
/// non-ASCII, and cannot inject a header.
pub fn content_disposition(filename: &str) -> (h: String)
    ensures
        h@ == disposition(filename@),
{
    let chars = chars_of(filename);
    let mut out = String::from_str("attachment; filename=\"");
    let ghost start = out@;
    let mut i: usize = 0;
    while i < chars.len()
        invariant
            i <= chars@.len(),
            out@ == start + ascii_fallback(chars@.take(i as int)),
        decreases chars.len() - i,
    {
        let c = chars[i];
        let keep = ('a' <= c && c <= 'z') || ('A' <= c && c <= 'Z') || ('0' <= c && c <= '9') || c == '-'
            || c == '_' || c == '.' || c == ' ' || c == '(' || c == ')';
        if keep {
            out.push(c);
        } else {
            out.push('_');
        }
        proof {
            assert(chars@.take(i + 1) == chars@.take(i as int).push(c));
            assert(ascii_fallback(chars@.take(i + 1)) == ascii_fallback(chars@.take(i as int)).push(
                fallback_char(c),
            ));
        }
        i = i + 1;
    }
    proof {
        assert(chars@.take(chars@.len() as int) == chars@);
    }
    out.append("\"; filename*=UTF-8''");
    let ghost middle = out@;
    let bytes = filename.as_bytes();
    let mut j: usize = 0;
    while j < bytes.len()
        invariant
            j <= bytes@.len(),
            bytes@ == encode_utf8(filename@),
            out@ == middle + percent_encoded(bytes@.take(j as int)),
        decreases bytes.len() - j,
    {
        let b = bytes[j];
        proof {
            assert(bytes@.take(j + 1).drop_last() == bytes@.take(j as int));
            assert(bytes@.take(j + 1).last() == b);
        }
        if is_attr_byte(b) {
            out.push(ascii_char(b));
        } else {
            out.append(percent_encode_byte(b));
        }
        j = j + 1;
    }
    proof {
        assert(bytes@.take(bytes@.len() as int) == bytes@);
    }
    out
}

/// A character that can stand in a header value without ending it.
pub open spec fn single_line(c: char) -> bool {
    c != '\r' && c != '\n'
}

proof fn lemma_percent_encoded_plain(bytes: Seq<u8>)
    ensures
        forall|i: int|
            0 <= i < percent_encoded(bytes).len() ==> {
                let c = #[trigger] percent_encoded(bytes)[i];
                ascii_alnum(c) || c == '-' || c == '.' || c == '_' || c == '~' || c == '%'
            },
    decreases bytes.len(),
{
    if bytes.len() > 0 {
        lemma_percent_encoded_plain(bytes.drop_last());
        let b = bytes.last();
        let prev = percent_encoded(bytes.drop_last());
        let tail = if attr_byte(b) {
            seq![b as char]
        } else {
            percent_byte(b)
        };
        assert(percent_encoded(bytes) == prev + tail);
        assert forall|i: int| 0 <= i < percent_encoded(bytes).len() implies {
            let c = #[trigger] percent_encoded(bytes)[i];
            ascii_alnum(c) || c == '-' || c == '.' || c == '_' || c == '~' || c == '%'
        } by {
            if i < prev.len() {
                assert(percent_encoded(bytes)[i] == prev[i]);
            } else {
                assert(percent_encoded(bytes)[i] == tail[i - prev.len()]);
                if attr_byte(b) {
                    assert(b == 45 ==> b as char == '-');
                    assert(b == 46 ==> b as char == '.');
                    assert(b == 95 ==> b as char == '_');
                    assert(b == 126 ==> b as char == '~');
                } else {
                    let h = b / 16;
                    let l = b % 16;
                    assert(h < 16 && l < 16);
                }
            }
        }
    }
}

/// The header is one line whatever the file name, and the quoted fallback
/// holds no quote, so the name can neither end the header nor the quoted
/// string: the value is the fixed prefix, a fallback made only of ASCII
/// letters, digits, `- _ . ( )` and spaces, the fixed middle, and a
/// percent-encoding made only of ASCII letters, digits, `- . _ ~` and `%`.
pub proof fn lemma_disposition_cannot_inject(name: Seq<char>)
    ensures
        forall|i: int| 0 <= i < disposition(name).len() ==> single_line(#[trigger] disposition(name)[i]),
        forall|i: int|
            0 <= i < ascii_fallback(name).len() ==> {
                let c = #[trigger] ascii_fallback(name)[i];
                ascii_alnum(c) || c == '-' || c == '_' || c == '.' || c == ' ' || c == '(' || c == ')'
            },
{
    reveal_strlit("attachment; filename=\"");
    reveal_strlit("\"; filename*=UTF-8''");
    let p = "attachment; filename=\""@;
    let f = ascii_fallback(name);
    let m = "\"; filename*=UTF-8''"@;
    let e = percent_encoded(encode_utf8(name));
    lemma_percent_encoded_plain(encode_utf8(name));
    let d = disposition(name);
    assert(d == p + f + m + e);
    assert forall|i: int| 0 <= i < d.len() implies single_line(#[trigger] d[i]) by {
        if i < p.len() {
            assert(d[i] == p[i]);
        } else if i < p.len() + f.len() {
            assert(d[i] == f[i - p.len()]);
        } else if i < p.len() + f.len() + m.len() {
            assert(d[i] == m[i - p.len() - f.len()]);
        } else {
            assert(d[i] == e[i - p.len() - f.len() - m.len()]);
        }
    }
}

} // verus!
