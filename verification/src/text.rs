//! Character-level helpers shared by the rest of the library.
use vstd::prelude::*;

verus! {

/// `String::push` appends one character to the end of the string.
pub assume_specification[ String::push ](s: &mut String, ch: char)
    ensures
        final(s)@ == old(s)@.push(ch),
;

/// The characters of `s`, in order.
pub fn chars_of(s: &str) -> (v: Vec<char>)
    ensures
        v@ == s@,
{
    let mut v: Vec<char> = Vec::new();
    broadcast use vstd::string::group_string_axioms;
    for c in it: s.chars()
        invariant
            it.seq() == s@,
            v@ == s@.take(it.index() as int),
    {
        v.push(c);
    }
    v
}

/// A `String` holding exactly the characters of `v`.
pub fn string_of(v: &Vec<char>) -> (s: String)
    ensures
        s@ == v@,
{
    let mut s = String::new();
    let mut i: usize = 0;
    while i < v.len()
        invariant
            i <= v.len(),
            s@ == v@.take(i as int),
        decreases v.len() - i,
    {
        s.push(v[i]);
        i = i + 1;
    }
    proof {
        assert(v@.take(v.len() as int) == v@);
    }
    s
}

} // verus!

verus! {

/// The Unicode `White_Space` characters, which `char::is_whitespace` and
/// `str::split_whitespace` treat as separators.
pub open spec fn is_space(c: char) -> bool {
    ||| ('\u{9}' <= c && c <= '\u{d}')
    ||| c == ' '
    ||| c == '\u{85}'
    ||| c == '\u{a0}'
    ||| c == '\u{1680}'
    ||| ('\u{2000}' <= c && c <= '\u{200a}')
    ||| c == '\u{2028}'
    ||| c == '\u{2029}'
    ||| c == '\u{202f}'
    ||| c == '\u{205f}'
    ||| c == '\u{3000}'
}

pub fn is_space_exec(c: char) -> (b: bool)
    ensures
        b == is_space(c),
{
    ('\u{9}' <= c && c <= '\u{d}') || c == ' ' || c == '\u{85}' || c == '\u{a0}' || c == '\u{1680}'
        || ('\u{2000}' <= c && c <= '\u{200a}') || c == '\u{2028}' || c == '\u{2029}' || c
        == '\u{202f}' || c == '\u{205f}' || c == '\u{3000}'
}

/// Whether a whitespace-separated token starts at position `i` of `s`.
pub open spec fn token_starts_at(s: Seq<char>, i: int) -> bool {
    &&& 0 <= i < s.len()
    &&& !is_space(s[i])
    &&& (i == 0 || is_space(s[i - 1]))
}

/// The number of whitespace-separated tokens among the first `n` characters.
pub open spec fn count_tokens_prefix(s: Seq<char>, n: nat) -> nat
    decreases n,
{
    if n == 0 {
        0
    } else {
        count_tokens_prefix(s, (n - 1) as nat) + if token_starts_at(s, n - 1) {
            1nat
        } else {
            0nat
        }
    }
}

/// The number of maximal runs of non-whitespace characters in `s`: what
/// `str::split_whitespace().count()` returns.
pub open spec fn count_tokens(s: Seq<char>) -> nat {
    count_tokens_prefix(s, s.len())
}

pub proof fn lemma_count_tokens_prefix_bound(s: Seq<char>, n: nat)
    ensures
        count_tokens_prefix(s, n) <= n,
    decreases n,
{
    if n > 0 {
        lemma_count_tokens_prefix_bound(s, (n - 1) as nat);
    }
}

/// Counts the whitespace-separated tokens of `s`.
pub fn count_tokens_exec(s: &str) -> (n: usize)
    ensures
        n == count_tokens(s@),
{
    let v = chars_of(s);
    let mut n: usize = 0;
    let mut i: usize = 0;
    let mut prev_space = true;
    while i < v.len()
        invariant
            i <= v.len(),
            n == count_tokens_prefix(v@, i as nat),
            prev_space == (i == 0 || is_space(v@[i - 1])),
        decreases v.len() - i,
    {
        proof {
            lemma_count_tokens_prefix_bound(v@, i as nat);
        }
        let sp = is_space_exec(v[i]);
        if !sp && prev_space {
            n = n + 1;
        }
        prev_space = sp;
        i = i + 1;
    }
    n
}

} // verus!

verus! {

/// `s` cut at every `sep`, keeping empty pieces (what `str::split` yields).
pub open spec fn split_char(s: Seq<char>, sep: char) -> Seq<Seq<char>>
    decreases s.len(),
{
    if s.len() == 0 {
        seq![Seq::<char>::empty()]
    } else {
        let prev = split_char(s.drop_last(), sep);
        if s.last() == sep {
            prev.push(Seq::empty())
        } else {
            prev.update(prev.len() - 1, prev.last().push(s.last()))
        }
    }
}

pub proof fn lemma_split_char_nonempty(s: Seq<char>, sep: char)
    ensures
        split_char(s, sep).len() >= 1,
    decreases s.len(),
{
    if s.len() > 0 {
        lemma_split_char_nonempty(s.drop_last(), sep);
    }
}

/// Splits `s` at every `sep`.
pub fn split_char_exec(s: &Vec<char>, sep: char) -> (parts: Vec<Vec<char>>)
    ensures
        parts@.len() == split_char(s@, sep).len(),
        forall|i: int| 0 <= i < parts@.len() ==> #[trigger] parts@[i]@ == split_char(s@, sep)[i],
{
    let mut parts: Vec<Vec<char>> = Vec::new();
    let mut cur: Vec<char> = Vec::new();
    let mut i: usize = 0;
    proof {
        assert(s@.take(0) =~= Seq::<char>::empty());
    }
    while i < s.len()
        invariant
            i <= s.len(),
            ({
                let sp = split_char(s@.take(i as int), sep);
                &&& sp.len() == parts@.len() + 1
                &&& forall|k: int| 0 <= k < parts@.len() ==> #[trigger] parts@[k]@ == sp[k]
                &&& cur@ == sp.last()
            }),
        decreases s.len() - i,
    {
        proof {
            assert(s@.take(i + 1).drop_last() =~= s@.take(i as int));
            lemma_split_char_nonempty(s@.take(i as int), sep);
        }
        let c = s[i];
        if c == sep {
            let done = cur;
            parts.push(done);
            cur = Vec::new();
        } else {
            cur.push(c);
        }
        i = i + 1;
    }
    proof {
        assert(s@.take(s@.len() as int) =~= s@);
    }
    parts.push(cur);
    parts
}

/// Whether `c` is an ASCII decimal digit.
pub open spec fn is_digit(c: char) -> bool {
    '0' <= c && c <= '9'
}

/// The value of a run of decimal digits.
pub open spec fn digits_value(s: Seq<char>) -> nat
    decreases s.len(),
{
    if s.len() == 0 {
        0
    } else {
        digits_value(s.drop_last()) * 10 + ((s.last() as int - '0' as int) as nat)
    }
}

pub open spec fn all_digits(s: Seq<char>) -> bool {
    forall|i: int| 0 <= i < s.len() ==> is_digit(#[trigger] s[i])
}

/// The value of a text made of at least one ASCII decimal digit and
/// nothing else.
pub open spec fn parse_digits(s: Seq<char>) -> Option<nat> {
    if s.len() > 0 && all_digits(s) {
        Some(digits_value(s))
    } else {
        None
    }
}

/// Parses at most four ASCII decimal digits as a number.
pub fn parse_digits_exec(s: &Vec<char>) -> (r: Option<u32>)
    requires
        s.len() <= 4,
    ensures
        r matches Some(v) ==> parse_digits(s@) == Some(v as nat),
        r is None ==> parse_digits(s@) is None,
{
    if s.len() == 0 {
        return None;
    }
    let mut v: u32 = 0;
    let mut i: usize = 0;
    while i < s.len()
        invariant
            i <= s.len(),
            s.len() <= 4,
            all_digits(s@.take(i as int)),
            v as nat == digits_value(s@.take(i as int)),
            v < pow10_spec(i as nat),
        decreases s.len() - i,
    {
        let c = s[i];
        if !('0' <= c && c <= '9') {
            proof {
                assert(!is_digit(s@[i as int]));
                assert(!all_digits(s@));
            }
            return None;
        }
        proof {
            let sub = s@.take(i + 1);
            assert(sub.drop_last() =~= s@.take(i as int));
            assert(sub.last() == c);
            assert(pow10_spec((i + 1) as nat) == pow10_spec(i as nat) * 10);
            assert(i < 4);
            lemma_pow10_small(i as nat);
            assert forall|k: int| 0 <= k < i + 1 implies is_digit(#[trigger] sub[k]) by {
                if k < i {
                    assert(sub[k] == s@.take(i as int)[k]);
                }
            }
        }
        v = v * 10 + ((c as u32) - ('0' as u32));
        i = i + 1;
    }
    proof {
        assert(s@.take(s@.len() as int) =~= s@);
    }
    Some(v)
}

pub open spec fn pow10_spec(n: nat) -> nat
    decreases n,
{
    if n == 0 {
        1
    } else {
        pow10_spec((n - 1) as nat) * 10
    }
}

pub proof fn lemma_pow10_small(n: nat)
    requires
        n < 4,
    ensures
        pow10_spec(n) <= 1000,
{
    reveal_with_fuel(pow10_spec, 5);
}

} // verus!

verus! {

/// Whether two character vectors are equal.
pub fn chars_eq(a: &Vec<char>, b: &Vec<char>) -> (r: bool)
    ensures
        r == (a@ == b@),
{
    if a.len() != b.len() {
        return false;
    }
    let mut i: usize = 0;
    while i < a.len()
        invariant
            a.len() == b.len(),
            i <= a.len(),
            forall|k: int| 0 <= k < i ==> a@[k] == b@[k],
        decreases a.len() - i,
    {
        if a[i] != b[i] {
            return false;
        }
        i = i + 1;
    }
    proof {
        assert(a@ =~= b@);
    }
    true
}

/// Whether two texts are equal.
pub fn str_eq(a: &str, b: &str) -> (r: bool)
    ensures
        r == (a@ == b@),
{
    let av = chars_of(a);
    let bv = chars_of(b);
    chars_eq(&av, &bv)
}

} // verus!

verus! {

/// The digit character for `d < 10`.
pub open spec fn digit_char(d: nat) -> char {
    if d == 0 {
        '0'
    } else if d == 1 {
        '1'
    } else if d == 2 {
        '2'
    } else if d == 3 {
        '3'
    } else if d == 4 {
        '4'
    } else if d == 5 {
        '5'
    } else if d == 6 {
        '6'
    } else if d == 7 {
        '7'
    } else if d == 8 {
        '8'
    } else {
        '9'
    }
}

/// The decimal representation of `n`, without leading zeros.
pub open spec fn decimal(n: nat) -> Seq<char>
    decreases n,
{
    if n < 10 {
        seq![digit_char(n)]
    } else {
        decimal(n / 10).push(digit_char(n % 10))
    }
}

pub proof fn lemma_decimal_len(n: nat)
    ensures
        decimal(n).len() >= 1,
    decreases n,
{
    if n >= 10 {
        lemma_decimal_len(n / 10);
    }
}

/// The decimal representation of `n`, as `usize::to_string` gives it.
pub fn decimal_digits(n: usize) -> (v: Vec<char>)
    ensures
        v@ == decimal(n as nat),
{
    // Digits from the least significant one.
    let mut rev: Vec<char> = Vec::new();
    let mut m: usize = n;
    let ghost mut out_tail: Seq<char> = Seq::empty();
    while m >= 10
        invariant
            m <= n,
            decimal(n as nat) == decimal(m as nat) + out_tail,
            rev@ == out_tail.reverse(),
        decreases m,
    {
        let c = char_of_digit(m % 10);
        rev.push(c);
        proof {
            let t = out_tail;
            assert(decimal(m as nat) == decimal((m / 10) as nat).push(c));
            assert(decimal(n as nat) =~= decimal((m / 10) as nat) + (seq![c] + t));
            assert(rev@ =~= (seq![c] + t).reverse());
            out_tail = seq![c] + t;
        }
        m = m / 10;
    }
    let c = char_of_digit(m);
    rev.push(c);
    proof {
        let t = out_tail;
        assert(decimal(m as nat) == seq![c]);
        assert(rev@ =~= (seq![c] + t).reverse());
        out_tail = seq![c] + t;
        assert(decimal(n as nat) =~= out_tail);
    }
    let mut v: Vec<char> = Vec::new();
    let mut i: usize = rev.len();
    while i > 0
        invariant
            i <= rev.len(),
            rev@ == out_tail.reverse(),
            decimal(n as nat) == out_tail,
            v@ == out_tail.take((rev.len() - i) as int),
        decreases i,
    {
        i = i - 1;
        v.push(rev[i]);
        proof {
            assert(out_tail.take((rev.len() - i) as int) =~= out_tail.take((rev.len() - i - 1) as int).push(out_tail[(rev.len() - i - 1) as int]));
        }
    }
    proof {
        assert(out_tail.take(rev.len() as int) =~= out_tail);
    }
    v
}

fn char_of_digit(d: usize) -> (c: char)
    requires
        d < 10,
    ensures
        c == digit_char(d as nat),
{
    if d == 0 {
        '0'
    } else if d == 1 {
        '1'
    } else if d == 2 {
        '2'
    } else if d == 3 {
        '3'
    } else if d == 4 {
        '4'
    } else if d == 5 {
        '5'
    } else if d == 6 {
        '6'
    } else if d == 7 {
        '7'
    } else if d == 8 {
        '8'
    } else {
        '9'
    }
}

} // verus!

verus! {

/// `s` without its leading whitespace.
pub open spec fn trim_start_spaces(s: Seq<char>) -> Seq<char>
    decreases s.len(),
{
    if s.len() > 0 && is_space(s[0]) {
        trim_start_spaces(s.drop_first())
    } else {
        s
    }
}

/// `s` without its trailing whitespace.
pub open spec fn trim_end_spaces(s: Seq<char>) -> Seq<char>
    decreases s.len(),
{
    if s.len() > 0 && is_space(s.last()) {
        trim_end_spaces(s.drop_last())
    } else {
        s
    }
}

/// `s` without leading or trailing whitespace, as `str::trim` gives it.
pub open spec fn trim_spaces(s: Seq<char>) -> Seq<char> {
    trim_end_spaces(trim_start_spaces(s))
}

/// Whether `s` has no whitespace at either end.
pub open spec fn is_trimmed(s: Seq<char>) -> bool {
    s.len() > 0 ==> !is_space(s[0]) && !is_space(s.last())
}

proof fn lemma_trim_start_shape(s: Seq<char>)
    ensures
        trim_start_spaces(s).len() > 0 ==> !is_space(trim_start_spaces(s)[0]),
    decreases s.len(),
{
    if s.len() > 0 && is_space(s[0]) {
        lemma_trim_start_shape(s.drop_first());
    }
}

proof fn lemma_trim_end_shape(s: Seq<char>)
    ensures
        trim_end_spaces(s).len() > 0 ==> !is_space(trim_end_spaces(s).last()),
        trim_end_spaces(s) == s.take(trim_end_spaces(s).len() as int),
        trim_end_spaces(s).len() <= s.len(),
    decreases s.len(),
{
    if s.len() > 0 && is_space(s.last()) {
        lemma_trim_end_shape(s.drop_last());
        let t = trim_end_spaces(s.drop_last());
        assert(s.drop_last().take(t.len() as int) == s.take(t.len() as int));
    } else {
        assert(s.take(s.len() as int) == s);
    }
}

/// Trimmed text has no whitespace at either end.
pub proof fn lemma_trim_spaces_trimmed(s: Seq<char>)
    ensures
        is_trimmed(trim_spaces(s)),
{
    let a = trim_start_spaces(s);
    lemma_trim_start_shape(s);
    lemma_trim_end_shape(a);
    let t = trim_end_spaces(a);
    if t.len() > 0 {
        assert(t[0] == a[0]);
    }
}

/// `s` with leading and trailing whitespace removed.
pub fn trim(s: &str) -> (r: String)
    ensures
        r@ == trim_spaces(s@),
{
    let v = chars_of(s);
    let mut start: usize = 0;
    proof {
        assert(v@.skip(0) == v@);
    }
    while start < v.len() && is_space_exec(v[start])
        invariant
            start <= v@.len(),
            trim_start_spaces(v@.skip(start as int)) == trim_start_spaces(v@),
        decreases v.len() - start,
    {
        proof {
            assert(v@.skip(start as int).drop_first() == v@.skip(start + 1));
        }
        start = start + 1;
    }
    proof {
        assert(v@.skip(0) == v@);
    }
    let ghost a = v@.skip(start as int);
    let mut end: usize = v.len();
    while end > start && is_space_exec(v[end - 1])
        invariant
            start <= end <= v@.len(),
            a == v@.skip(start as int),
            trim_end_spaces(v@.subrange(start as int, end as int)) == trim_end_spaces(a),
        decreases end,
    {
        proof {
            assert(v@.subrange(start as int, end as int).drop_last() == v@.subrange(start as int, end - 1));
        }
        end = end - 1;
    }
    proof {
        assert(v@.subrange(start as int, v@.len() as int) == a);
        if start < v@.len() {
            assert(!is_space(a[0]));
            assert(trim_start_spaces(a) == a);
        } else {
            assert(a.len() == 0);
        }
        assert(trim_start_spaces(v@) == a);
        if end > start {
            assert(!is_space(v@.subrange(start as int, end as int).last()));
        }
        assert(trim_end_spaces(v@.subrange(start as int, end as int)) == v@.subrange(start as int, end as int));
    }
    let mut r = String::new();
    let mut i: usize = start;
    while i < end
        invariant
            start <= i <= end <= v@.len(),
            r@ == v@.subrange(start as int, i as int),
        decreases end - i,
    {
        r.push(v[i]);
        proof {
            assert(v@.subrange(start as int, i + 1) == v@.subrange(start as int, i as int).push(v@[i as int]));
        }
        i = i + 1;
    }
    r
}

/// Whether `s` begins with `prefix`.
pub fn starts_with(s: &str, prefix: &str) -> (b: bool)
    ensures
        b == (prefix@.len() <= s@.len() && s@.take(prefix@.len() as int) == prefix@),
{
    let sv = chars_of(s);
    let pv = chars_of(prefix);
    if pv.len() > sv.len() {
        return false;
    }
    let mut i: usize = 0;
    while i < pv.len()
        invariant
            sv@ == s@,
            pv@ == prefix@,
            pv@.len() <= sv@.len(),
            i <= pv@.len(),
            forall|k: int| 0 <= k < i ==> sv@[k] == pv@[k],
        decreases pv.len() - i,
    {
        if sv[i] != pv[i] {
            proof {
                assert(sv@.take(pv@.len() as int)[i as int] == sv@[i as int]);
                assert(s@.take(prefix@.len() as int) != prefix@);
            }
            return false;
        }
        i = i + 1;
    }
    proof {
        assert(sv@.take(pv@.len() as int) =~= pv@);
    }
    true
}

/// Whether `s` contains `c`.
pub fn contains_char(s: &str, c: char) -> (b: bool)
    ensures
        b == s@.contains(c),
{
    let v = chars_of(s);
    let mut i: usize = 0;
    while i < v.len()
        invariant
            v@ == s@,
            i <= v@.len(),
            forall|k: int| 0 <= k < i ==> v@[k] != c,
        decreases v.len() - i,
    {
        if v[i] == c {
            proof {
                assert(s@[i as int] == c);
                assert(s@.contains(c));
            }
            return true;
        }
        i = i + 1;
    }
    false
}

/// Whether `s` contains `needle` as a contiguous part.
pub open spec fn contains_text(s: Seq<char>, needle: Seq<char>) -> bool {
    exists|i: int| 0 <= i && i + needle.len() <= s.len() && #[trigger] s.subrange(i, i + needle.len()) == needle
}

/// Whether `s` contains `needle` as a contiguous part, as `str::contains`
/// answers with a text pattern.
pub fn contains_str(s: &str, needle: &str) -> (b: bool)
    ensures
        b == contains_text(s@, needle@),
{
    let sv = chars_of(s);
    let nv = chars_of(needle);
    if nv.len() > sv.len() {
        proof {
            assert forall|i: int| 0 <= i && i + nv@.len() <= sv@.len() implies #[trigger] sv@.subrange(i, i + nv@.len()) != nv@ by {
            }
        }
        return false;
    }
    let mut i: usize = 0;
    while i <= sv.len() - nv.len()
        invariant
            sv@ == s@,
            nv@ == needle@,
            nv@.len() <= sv@.len(),
            i <= sv@.len() - nv@.len() + 1,
            forall|k: int| 0 <= k < i ==> #[trigger] sv@.subrange(k, k + nv@.len()) != nv@,
        decreases sv.len() - i,
    {
        let mut j: usize = 0;
        let mut same = true;
        while j < nv.len()
            invariant
                sv@ == s@,
                nv@ == needle@,
                sv@.len() == sv.len(),
                i + nv@.len() <= sv@.len(),
                j <= nv@.len(),
                same == forall|k: int| 0 <= k < j ==> sv@[i + k] == nv@[k],
            decreases nv.len() - j,
        {
            if sv[i + j] != nv[j] {
                same = false;
            }
            j = j + 1;
        }
        if same {
            proof {
                assert(sv@.subrange(i as int, i + nv@.len()) =~= nv@);
                assert(s@.subrange(i as int, i + needle@.len()) == needle@);
            }
            return true;
        }
        proof {
            let k = choose|k: int| 0 <= k < nv@.len() && sv@[i + k] != nv@[k];
            assert(sv@.subrange(i as int, i + nv@.len())[k] != nv@[k]);
        }
        i = i + 1;
    }
    proof {
        assert forall|k: int| 0 <= k && k + nv@.len() <= sv@.len() implies #[trigger] sv@.subrange(k, k + nv@.len()) != nv@ by {
            assert(k < i);
        }
    }
    false
}

/// The decimal representation of `n`, as `u128::to_string` gives it.
pub fn decimal_u128(n: u128) -> (s: String)
    ensures
        s@ == decimal(n as nat),
{
    let mut rev: Vec<char> = Vec::new();
    let mut m: u128 = n;
    let ghost mut out_tail: Seq<char> = Seq::empty();
    while m >= 10
        invariant
            m <= n,
            decimal(n as nat) == decimal(m as nat) + out_tail,
            rev@ == out_tail.reverse(),
        decreases m,
    {
        let c = char_of_digit((m % 10) as usize);
        rev.push(c);
        proof {
            let t = out_tail;
            assert(decimal(m as nat) == decimal((m / 10) as nat).push(c));
            assert(decimal(n as nat) =~= decimal((m / 10) as nat) + (seq![c] + t));
            assert(rev@ =~= (seq![c] + t).reverse());
            out_tail = seq![c] + t;
        }
        m = m / 10;
    }
    let c = char_of_digit(m as usize);
    rev.push(c);
    proof {
        let t = out_tail;
        assert(decimal(m as nat) == seq![c]);
        assert(rev@ =~= (seq![c] + t).reverse());
        out_tail = seq![c] + t;
        assert(decimal(n as nat) =~= out_tail);
    }
    let mut s = String::new();
    let mut i: usize = rev.len();
    while i > 0
        invariant
            i <= rev.len(),
            rev@ == out_tail.reverse(),
            decimal(n as nat) == out_tail,
            s@ == out_tail.take((rev.len() - i) as int),
        decreases i,
    {
        i = i - 1;
        s.push(rev[i]);
        proof {
            assert(out_tail.take((rev.len() - i) as int) =~= out_tail.take((rev.len() - i - 1) as int).push(
                out_tail[(rev.len() - i - 1) as int],
            ));
        }
    }
    proof {
        assert(out_tail.take(rev.len() as int) =~= out_tail);
    }
    s
}

} // verus!

verus! {

/// Lexicographic order of texts, as `String`'s `Ord` compares them.
pub open spec fn text_less(a: Seq<char>, b: Seq<char>) -> bool
    decreases a.len(),
{
    if a.len() == 0 {
        b.len() > 0
    } else if b.len() == 0 {
        false
    } else if a[0] != b[0] {
        a[0] < b[0]
    } else {
        text_less(a.drop_first(), b.drop_first())
    }
}

/// `a` sorts before `b` in `String` order.
pub fn text_less_exec(a: &Vec<char>, b: &Vec<char>) -> (r: bool)
    ensures
        r == text_less(a@, b@),
{
    let mut i: usize = 0;
    proof {
        assert(a@.skip(0) =~= a@);
        assert(b@.skip(0) =~= b@);
    }
    while i < a.len() && i < b.len()
        invariant
            i <= a.len(),
            i <= b.len(),
            forall|k: int| 0 <= k < i ==> a@[k] == b@[k],
            text_less(a@, b@) == text_less(a@.skip(i as int), b@.skip(i as int)),
        decreases a.len() - i,
    {
        proof {
            assert(a@.skip(i as int).drop_first() =~= a@.skip(i + 1));
            assert(b@.skip(i as int).drop_first() =~= b@.skip(i + 1));
        }
        if a[i] != b[i] {
            return a[i] < b[i];
        }
        i = i + 1;
    }
    i == a.len() && i < b.len()
}

} // verus!

verus! {

pub proof fn lemma_text_less_irreflexive(a: Seq<char>)
    ensures
        !text_less(a, a),
    decreases a.len(),
{
    if a.len() > 0 {
        lemma_text_less_irreflexive(a.drop_first());
    }
}

pub proof fn lemma_text_less_asymmetric(a: Seq<char>, b: Seq<char>)
    requires
        text_less(a, b),
    ensures
        !text_less(b, a),
    decreases a.len(),
{
    if a.len() > 0 && b.len() > 0 && a[0] == b[0] {
        lemma_text_less_asymmetric(a.drop_first(), b.drop_first());
    }
}

pub proof fn lemma_text_less_transitive(a: Seq<char>, b: Seq<char>, c: Seq<char>)
    requires
        text_less(a, b),
        text_less(b, c),
    ensures
        text_less(a, c),
    decreases a.len(),
{
    if a.len() > 0 && b.len() > 0 && c.len() > 0 && a[0] == b[0] && b[0] == c[0] {
        lemma_text_less_transitive(a.drop_first(), b.drop_first(), c.drop_first());
    }
}

pub proof fn lemma_text_less_total(a: Seq<char>, b: Seq<char>)
    requires
        a != b,
    ensures
        text_less(a, b) || text_less(b, a),
    decreases a.len(),
{
    if a.len() == 0 {
        assert(b.len() > 0) by {
            if b.len() == 0 {
                assert(a =~= b);
            }
        }
    } else if b.len() == 0 {
    } else if a[0] == b[0] {
        if a.drop_first() == b.drop_first() {
            assert(a =~= seq![a[0]] + a.drop_first());
            assert(b =~= seq![b[0]] + b.drop_first());
        }
        lemma_text_less_total(a.drop_first(), b.drop_first());
    }
}

/// Texts in strictly increasing order: sorted, no text twice.
pub open spec fn strictly_sorted(s: Seq<Seq<char>>) -> bool {
    forall|i: int, j: int| 0 <= i < j < s.len() ==> text_less(#[trigger] s[i], #[trigger] s[j])
}

/// The texts of a list of strings.
pub open spec fn string_texts(v: Seq<String>) -> Seq<Seq<char>> {
    v.map_values(|s: String| s@)
}

/// Adds `s` to a strictly sorted list, where it belongs, unless it is
/// already there.
pub fn insert_sorted(v: &mut Vec<String>, s: String)
    requires
        strictly_sorted(string_texts(old(v)@)),
    ensures
        strictly_sorted(string_texts(final(v)@)),
        forall|t: Seq<char>| #[trigger] string_texts(final(v)@).contains(t) <==> (string_texts(old(v)@).contains(t) || t == s@),
{
    let ghost before = string_texts(v@);
    let sc = chars_of(s.as_str());
    let mut p: usize = 0;
    while p < v.len()
        invariant
            before == string_texts(v@),
            strictly_sorted(before),
            sc@ == s@,
            p <= v@.len(),
            forall|k: int| 0 <= k < p ==> text_less(#[trigger] before[k], s@),
        ensures
            before == string_texts(v@),
            p <= v@.len(),
            forall|k: int| 0 <= k < p ==> text_less(#[trigger] before[k], s@),
            p == v@.len() || !text_less(before[p as int], s@),
        decreases v.len() - p,
    {
        let vc = chars_of(v[p].as_str());
        proof {
            assert(before[p as int] == v@[p as int]@);
        }
        if !text_less_exec(&vc, &sc) {
            break;
        }
        p = p + 1;
    }
    // Every text from `p` on is not below `s`.
    proof {
        assert forall|k: int| p <= k < before.len() implies !text_less(#[trigger] before[k], s@) by {
            if k > p {
                assert(!text_less(before[p as int], s@));
                assert(text_less(before[p as int], before[k]));
                if text_less(before[k], s@) {
                    lemma_text_less_transitive(before[p as int], before[k], s@);
                }
            }
        }
    }
    if p < v.len() {
        let vc = chars_of(v[p].as_str());
        if chars_eq(&vc, &sc) {
            proof {
                assert(before[p as int] == s@);
                assert forall|t: Seq<char>| #[trigger] string_texts(v@).contains(t) <==> (before.contains(t) || t == s@) by {
                    if t == s@ {
                        assert(before[p as int] == t);
                    }
                }
            }
            return;
        }
    }
    let ghost sv = s@;
    v.insert(p, s);
    proof {
        let after = string_texts(v@);
        assert(after =~= before.insert(p as int, sv));
        assert forall|i: int, j: int| 0 <= i < j < after.len() implies text_less(#[trigger] after[i], #[trigger] after[j]) by {
            if j < p {
                assert(after[i] == before[i] && after[j] == before[j]);
            } else if j == p {
                assert(after[i] == before[i] && after[j] == sv);
            } else if i < p {
                assert(after[i] == before[i] && after[j] == before[j - 1]);
                assert(text_less(before[i], sv));
                assert(!text_less(before[j - 1], sv));
                if before[j - 1] == sv {
                } else {
                    lemma_text_less_total(before[j - 1], sv);
                }
                lemma_text_less_transitive(before[i], sv, before[j - 1]);
            } else if i == p {
                assert(after[i] == sv && after[j] == before[j - 1]);
                assert(!text_less(before[j - 1], sv));
                if before[j - 1] == sv {
                    assert(before[p as int] == sv || p < j - 1);
                    if p < j - 1 {
                        assert(text_less(before[p as int], before[j - 1]));
                        assert(!text_less(before[p as int], sv));
                    }
                    assert(p < before.len());
                    assert(before[p as int] != sv);
                } else {
                    lemma_text_less_total(before[j - 1], sv);
                }
            } else {
                assert(after[i] == before[i - 1] && after[j] == before[j - 1]);
            }
        }
        assert forall|t: Seq<char>| #[trigger] after.contains(t) <==> (before.contains(t) || t == sv) by {
            if after.contains(t) {
                let k = choose|k: int| 0 <= k < after.len() && after[k] == t;
                if k < p {
                    assert(before[k] == t);
                } else if k > p {
                    assert(before[k - 1] == t);
                }
            }
            if before.contains(t) {
                let k = choose|k: int| 0 <= k < before.len() && before[k] == t;
                if k < p {
                    assert(after[k] == t);
                } else {
                    assert(after[k + 1] == t);
                }
            }
            if t == sv {
                assert(after[p as int] == t);
            }
        }
    }
}

} // verus!
