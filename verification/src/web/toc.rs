//! Numbers as the table of contents and statistics pages show them.
use vstd::prelude::*;
use crate::text::{decimal_digits, string_of};

verus! {

/// The first `n` digits of `d`, with a comma before every digit that starts
/// a group of three counted from the right.
pub open spec fn grouped(d: Seq<char>, n: nat) -> Seq<char>
    decreases n,
{
    if n == 0 {
        Seq::empty()
    } else {
        let i = n - 1;
        grouped(d, i as nat) + (if i > 0 && (d.len() - i) % 3 == 0 {
            seq![',']
        } else {
            Seq::empty()
        }) + seq![d[i]]
    }
}

/// `n` in decimal with thousands separators: 1234567 is "1,234,567".
pub open spec fn thousands(n: nat) -> Seq<char> {
    grouped(crate::text::decimal(n), crate::text::decimal(n).len())
}

/// `s` with every comma removed.
pub open spec fn without_commas(s: Seq<char>) -> Seq<char>
    decreases s.len(),
{
    if s.len() == 0 {
        s
    } else if s.last() == ',' {
        without_commas(s.drop_last())
    } else {
        without_commas(s.drop_last()).push(s.last())
    }
}

proof fn lemma_without_commas_append(a: Seq<char>, b: Seq<char>)
    ensures
        without_commas(a + b) == without_commas(a) + without_commas(b),
    decreases b.len(),
{
    if b.len() == 0 {
        assert(a + b =~= a);
        assert(without_commas(b) =~= b);
    } else {
        assert((a + b).drop_last() =~= a + b.drop_last());
        lemma_without_commas_append(a, b.drop_last());
        if b.last() != ',' {
            assert(without_commas(a) + without_commas(b.drop_last()).push(b.last()) =~= (without_commas(a) + without_commas(b.drop_last())).push(b.last()));
        }
    }
}

proof fn lemma_grouped_digits(d: Seq<char>, n: nat)
    requires
        n <= d.len(),
        forall|i: int| 0 <= i < d.len() ==> d[i] != ',',
    ensures
        without_commas(grouped(d, n)) == d.take(n as int),
    decreases n,
{
    if n > 0 {
        let i = n - 1;
        lemma_grouped_digits(d, i as nat);
        let sep: Seq<char> = if i > 0 && (d.len() - i) % 3 == 0 { seq![','] } else { Seq::empty() };
        lemma_without_commas_append(grouped(d, i as nat), sep);
        lemma_without_commas_append(grouped(d, i as nat) + sep, seq![d[i]]);
        assert(without_commas(sep) =~= Seq::<char>::empty()) by {
            reveal_with_fuel(without_commas, 2);
            if sep.len() > 0 {
                assert(sep.drop_last() =~= Seq::<char>::empty());
            }
        }
        assert(seq![d[i]].drop_last() =~= Seq::<char>::empty());
        assert(without_commas(seq![d[i]]) =~= seq![d[i]]) by {
            reveal_with_fuel(without_commas, 2);
            assert(seq![d[i]].last() == d[i]);
            assert(Seq::<char>::empty().push(d[i]) =~= seq![d[i]]);
        }
        assert(d.take(n as int) =~= d.take(i as int).push(d[i]));
    }
}

proof fn lemma_decimal_digits_only(n: nat)
    ensures
        forall|i: int| 0 <= i < crate::text::decimal(n).len() ==> '0' <= #[trigger] crate::text::decimal(n)[i] <= '9',
    decreases n,
{
    if n >= 10 {
        lemma_decimal_digits_only(n / 10);
        let p = crate::text::decimal(n / 10);
        let c = crate::text::digit_char(n % 10);
        assert('0' <= c <= '9');
        assert forall|i: int| 0 <= i < crate::text::decimal(n).len() implies '0' <= #[trigger] crate::text::decimal(n)[i] <= '9' by {
            if i < p.len() {
                assert(crate::text::decimal(n)[i] == p[i]);
            } else {
                assert(crate::text::decimal(n)[i] == c);
            }
        }
    } else {
        assert('0' <= crate::text::digit_char(n) <= '9');
    }
}

/// Taking the separators out of a formatted number gives back its plain
/// decimal digits: the separators add nothing else and lose no digit.
pub proof fn lemma_thousands_keeps_digits(n: nat)
    ensures
        without_commas(thousands(n)) == crate::text::decimal(n),
{
    lemma_decimal_digits_only(n);
    lemma_grouped_digits(crate::text::decimal(n), crate::text::decimal(n).len());
    assert(crate::text::decimal(n).take(crate::text::decimal(n).len() as int) =~= crate::text::decimal(n));
}

/// 1234567 -> "1,234,567".
pub fn format_thousands(n: usize) -> (s: String)
    ensures
        s@ == thousands(n as nat),
{
    let digits = decimal_digits(n);
    let ghost d = digits@;
    let mut out: Vec<char> = Vec::new();
    let mut i: usize = 0;
    while i < digits.len()
        invariant
            d == digits@,
            i <= digits.len(),
            out@ == grouped(d, i as nat),
        decreases digits.len() - i,
    {
        if i > 0 && (digits.len() - i) % 3 == 0 {
            out.push(',');
        }
        out.push(digits[i]);
        proof {
            assert(out@ =~= grouped(d, (i + 1) as nat));
        }
        i = i + 1;
    }
    string_of(&out)
}

} // verus!
