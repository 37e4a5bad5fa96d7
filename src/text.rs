//! ASCII text building blocks: literal fragments, decimal numerals and
//! separator-joined lists of numerals, with the facts needed to show that the
//! texts they produce can be read back unambiguously.
use vstd::prelude::*;

verus! {

broadcast use vstd::string::is_ascii_spec_bytes;

/// The bytes of an ASCII character sequence.
pub open spec fn ascii_bytes(s: Seq<char>) -> Seq<u8> {
    s.map_values(|c: char| c as u8)
}

pub open spec fn is_digit(b: u8) -> bool {
    48 <= b <= 57
}

/// Decimal numeral of `n`, most significant digit first, no leading zeros.
pub open spec fn decimal(n: nat) -> Seq<u8>
    decreases n,
{
    if n < 10 {
        seq![(48 + n) as u8]
    } else {
        decimal(n / 10).push((48 + n % 10) as u8)
    }
}

/// The numerals of `s`, in order, with `sep` between neighbours.
pub open spec fn join_decimal(s: Seq<u64>, sep: u8) -> Seq<u8>
    decreases s.len(),
{
    if s.len() == 0 {
        Seq::empty()
    } else if s.len() == 1 {
        decimal(s[0] as nat)
    } else {
        join_decimal(s.drop_last(), sep).push(sep) + decimal(s.last() as nat)
    }
}

/// Appends the bytes of an ASCII string.
pub fn push_ascii(out: &mut Vec<u8>, s: &str)
    requires
        s.is_ascii(),
    ensures
        final(out)@ == old(out)@ + ascii_bytes(s@),
{
    let b = s.as_bytes();
    let mut i: usize = 0;
    while i < b.len()
        invariant
            b@ == Seq::new(s@.len(), |j: int| s@[j] as u8),
            i <= b@.len(),
            out@ == old(out)@ + ascii_bytes(s@).take(i as int),
        decreases b@.len() - i,
    {
        out.push(b[i]);
        i += 1;
        assert(out@ =~= old(out)@ + ascii_bytes(s@).take(i as int));
    }
    assert(ascii_bytes(s@).take(i as int) =~= ascii_bytes(s@));
}

/// Appends the decimal numeral of `n`.
pub fn push_decimal(out: &mut Vec<u8>, n: u64)
    ensures
        final(out)@ == old(out)@ + decimal(n as nat),
    decreases n,
{
    if n >= 10 {
        push_decimal(out, n / 10);
    }
    out.push((48 + n % 10) as u8);
    assert(out@ =~= old(out)@ + decimal(n as nat));
}

/// Appends the numerals of `s` joined by `sep`.
pub fn push_joined(out: &mut Vec<u8>, s: &[u64], sep: u8)
    ensures
        final(out)@ == old(out)@ + join_decimal(s@, sep),
{
    let mut i: usize = 0;
    while i < s.len()
        invariant
            i <= s@.len(),
            out@ == old(out)@ + join_decimal(s@.take(i as int), sep),
        decreases s@.len() - i,
    {
        if i > 0 {
            out.push(sep);
        }
        push_decimal(out, s[i]);
        proof {
            let t = s@.take(i as int + 1);
            assert(t.drop_last() =~= s@.take(i as int));
            assert(t.last() == s@[i as int]);
            if i == 0 {
                assert(join_decimal(s@.take(0), sep) =~= Seq::empty());
            }
            assert(out@ =~= old(out)@ + join_decimal(t, sep));
        }
        i += 1;
    }
    assert(s@.take(i as int) =~= s@);
}

pub proof fn lemma_decimal_digits(n: nat)
    ensures
        decimal(n).len() >= 1,
        forall|i: int| 0 <= i < decimal(n).len() ==> is_digit(#[trigger] decimal(n)[i]),
    decreases n,
{
    if n >= 10 {
        lemma_decimal_digits(n / 10);
    }
}

/// Distinct numbers have distinct numerals.
pub proof fn lemma_decimal_injective(n: nat, m: nat)
    requires
        decimal(n) == decimal(m),
    ensures
        n == m,
    decreases n,
{
    if n < 10 && m >= 10 {
        lemma_decimal_digits(m / 10);
        assert(decimal(m).len() >= 2);
        assert(decimal(n).len() == 1);
    } else if n >= 10 && m < 10 {
        lemma_decimal_digits(n / 10);
        assert(decimal(n).len() >= 2);
        assert(decimal(m).len() == 1);
    } else if n >= 10 && m >= 10 {
        let dn = decimal(n);
        let dm = decimal(m);
        assert(dn.last() == dm.last());
        assert(n % 10 == m % 10);
        assert(dn.drop_last() =~= decimal(n / 10));
        assert(dm.drop_last() =~= decimal(m / 10));
        lemma_decimal_injective(n / 10, m / 10);
        assert(n == 10 * (n / 10) + n % 10) by (nonlinear_arith);
        assert(m == 10 * (m / 10) + m % 10) by (nonlinear_arith);
    } else {
        assert(decimal(n)[0] == (48 + n) as u8);
        assert(decimal(m)[0] == (48 + m) as u8);
    }
}

/// Every byte of a joined list is a digit or the separator.
pub proof fn lemma_join_bytes(s: Seq<u64>, sep: u8)
    ensures
        forall|i: int|
            0 <= i < join_decimal(s, sep).len() ==> is_digit(#[trigger] join_decimal(s, sep)[i])
                || join_decimal(s, sep)[i] == sep,
        s.len() >= 1 ==> join_decimal(s, sep).len() >= 1,
    decreases s.len(),
{
    if s.len() == 1 {
        lemma_decimal_digits(s[0] as nat);
    } else if s.len() >= 2 {
        lemma_join_bytes(s.drop_last(), sep);
        lemma_decimal_digits(s.last() as nat);
        let a = join_decimal(s.drop_last(), sep).push(sep);
        let d = decimal(s.last() as nat);
        assert forall|i: int| 0 <= i < join_decimal(s, sep).len() implies is_digit(
            #[trigger] join_decimal(s, sep)[i],
        ) || join_decimal(s, sep)[i] == sep by {
            if i < a.len() - 1 {
                assert(join_decimal(s, sep)[i] == join_decimal(s.drop_last(), sep)[i]);
            } else if i >= a.len() {
                assert(join_decimal(s, sep)[i] == d[i - a.len()]);
            }
        }
    }
}

/// Two texts that each put a marker byte after a marker-free head, and
/// agree, agree on the heads and on what follows.
pub proof fn lemma_split_first(x: Seq<u8>, r1: Seq<u8>, y: Seq<u8>, r2: Seq<u8>, c: u8)
    requires
        x.push(c) + r1 == y.push(c) + r2,
        !x.contains(c),
        !y.contains(c),
    ensures
        x == y,
        r1 == r2,
{
    let l = x.push(c) + r1;
    let r = y.push(c) + r2;
    if x.len() < y.len() {
        assert(l[x.len() as int] == c);
        assert(r[x.len() as int] == y[x.len() as int]);
    } else if y.len() < x.len() {
        assert(r[y.len() as int] == c);
        assert(l[y.len() as int] == x[y.len() as int]);
    } else {
        assert(x =~= l.take(x.len() as int));
        assert(y =~= r.take(y.len() as int));
        assert(r1 =~= l.skip(x.len() as int + 1));
        assert(r2 =~= r.skip(y.len() as int + 1));
    }
}

/// Two texts that each end in a marker byte and a marker-free tail, and
/// agree, agree on the tails and on what comes before.
pub proof fn lemma_split_last(a: Seq<u8>, x: Seq<u8>, b: Seq<u8>, y: Seq<u8>, c: u8)
    requires
        a.push(c) + x == b.push(c) + y,
        !x.contains(c),
        !y.contains(c),
    ensures
        x == y,
        a == b,
{
    let l = a.push(c) + x;
    let r = b.push(c) + y;
    let n = l.len();
    if x.len() < y.len() {
        let k = n - x.len() - 1;
        assert(l[k] == c);
        assert(r[k] == y[k - b.len() - 1]);
    } else if y.len() < x.len() {
        let k = n - y.len() - 1;
        assert(r[k] == c);
        assert(l[k] == x[k - a.len() - 1]);
    } else {
        assert(a =~= l.take(a.len() as int));
        assert(b =~= r.take(b.len() as int));
        assert(x =~= l.skip(a.len() as int + 1));
        assert(y =~= r.skip(b.len() as int + 1));
    }
}

/// A joined list of numerals determines the list, whatever its length,
/// provided the separator is not a digit.
pub proof fn lemma_join_injective(s: Seq<u64>, t: Seq<u64>, sep: u8)
    requires
        !is_digit(sep),
        join_decimal(s, sep) == join_decimal(t, sep),
    ensures
        s == t,
    decreases s.len(),
{
    lemma_join_bytes(s, sep);
    lemma_join_bytes(t, sep);
    if s.len() >= 2 && t.len() >= 2 {
        let x = decimal(s.last() as nat);
        let y = decimal(t.last() as nat);
        lemma_decimal_digits(s.last() as nat);
        lemma_decimal_digits(t.last() as nat);
        lemma_split_last(join_decimal(s.drop_last(), sep), x, join_decimal(t.drop_last(), sep), y, sep);
        lemma_decimal_injective(s.last() as nat, t.last() as nat);
        lemma_join_injective(s.drop_last(), t.drop_last(), sep);
        assert(s =~= s.drop_last().push(s.last()));
        assert(t =~= t.drop_last().push(t.last()));
    } else if s.len() == 1 && t.len() == 1 {
        lemma_decimal_injective(s[0] as nat, t[0] as nat);
        assert(s =~= t);
    } else if s.len() == 1 && t.len() >= 2 {
        lemma_decimal_digits(s[0] as nat);
        let k = join_decimal(t.drop_last(), sep).len() as int;
        assert(join_decimal(t, sep)[k] == sep);
    } else if s.len() >= 2 && t.len() == 1 {
        lemma_decimal_digits(t[0] as nat);
        let k = join_decimal(s.drop_last(), sep).len() as int;
        assert(join_decimal(s, sep)[k] == sep);
    } else {
        assert(s =~= t);
    }
}

} // verus!
