use vstd::prelude::*;
use crate::text::{chars_of, string_of};
use vstd::arithmetic::power2::{
    pow2, lemma2_to64, lemma2_to64_rest, lemma_pow2_unfold, lemma_pow2_strictly_increases,
};

verus! {

/// The decimal digit character for `d < 10`.
pub open spec fn digit_char(d: nat) -> char {
    if d == 0 {
        '0'
    } else if d == 1 {
        '1'
    } else if d == 2 {
        '2'
    } else if d == 3 {
        '3'
    } else if d == 4 {
        '4'
    } else if d == 5 {
        '5'
    } else if d == 6 {
        '6'
    } else if d == 7 {
        '7'
    } else if d == 8 {
        '8'
    } else {
        '9'
    }
}

/// The decimal representation of `n`, without leading zeros.
pub open spec fn decimal(n: nat) -> Seq<char>
    decreases n,
{
    if n < 10 {
        seq![digit_char(n)]
    } else {
        decimal(n / 10).push(digit_char(n % 10))
    }
}

/// `d` with a comma between each group of three characters, counted from the right.
pub open spec fn group_thousands(d: Seq<char>) -> Seq<char>
    decreases d.len(),
{
    if d.len() <= 3 {
        d
    } else {
        group_thousands(d.take(d.len() - 3)) + seq![','] + d.skip(d.len() - 3)
    }
}

/// `s` with every occurrence of `pat`, taken left to right without overlap, replaced by `rep`.
pub open spec fn replace_all(s: Seq<char>, pat: Seq<char>, rep: Seq<char>) -> Seq<char>
    decreases s.len(),
{
    if s.len() == 0 {
        s
    } else if pat.len() > 0 && pat.len() <= s.len() && s.take(pat.len() as int) == pat {
        rep + replace_all(s.skip(pat.len() as int), pat, rep)
    } else {
        seq![s[0]] + replace_all(s.skip(1), pat, rep)
    }
}

/// A table definition with a space put back where the engine's stored text
/// runs a bracketed name into a parenthesis or into a column type.
pub open spec fn tidy_ddl(s: Seq<char>) -> Seq<char> {
    let s1 = replace_all(s, "]("@, "] ("@);
    let s2 = replace_all(s1, ")("@, ") ("@);
    let s3 = replace_all(s2, "]INTEGER"@, "] INTEGER"@);
    let s4 = replace_all(s3, "]REAL"@, "] REAL"@);
    let s5 = replace_all(s4, "]TEXT"@, "] TEXT"@);
    let s6 = replace_all(s5, "]BLOB"@, "] BLOB"@);
    replace_all(s6, "]NUMERIC"@, "] NUMERIC"@)
}

/// `x / d` rounded to the nearest integer, ties to the even one.
pub open spec fn round_half_even(x: nat, d: nat) -> nat {
    let q = x / d;
    let r = x % d;
    if 2 * r > d || (2 * r == d && q % 2 == 1) {
        q + 1
    } else {
        q
    }
}

/// The number of low bits that `b as f64` cannot keep: the least `s` with
/// `b < 2^(53 + s)`, searched from `s` upward (a `u64` needs at most 11).
pub open spec fn f64_dropped_bits(b: nat, s: nat) -> nat
    decreases 11 - s,
{
    if s >= 11 || b < pow2(53 + s) {
        s
    } else {
        f64_dropped_bits(b, s + 1)
    }
}

/// The value of `b as f64`: `b` rounded to 53 significant bits, ties to even.
pub open spec fn nearest_f64(b: nat) -> nat {
    let s = f64_dropped_bits(b, 0);
    round_half_even(b, pow2(s)) * pow2(s)
}

/// The binary unit that a value of `v` bytes is shown in: 0 for bytes, then
/// KiB, MiB, GiB and TiB; the largest whose size `v` reaches.
pub open spec fn unit_index(v: nat) -> nat {
    if v >= 1099511627776 {
        4
    } else if v >= 1073741824 {
        3
    } else if v >= 1048576 {
        2
    } else if v >= 1024 {
        1
    } else {
        0
    }
}

/// The size in bytes of the binary unit `k`.
pub open spec fn unit_size(k: nat) -> nat {
    if k == 4 {
        1099511627776
    } else if k == 3 {
        1073741824
    } else if k == 2 {
        1048576
    } else if k == 1 {
        1024
    } else {
        1
    }
}

pub open spec fn unit_name(k: nat) -> Seq<char> {
    if k == 4 {
        seq!['T', 'i', 'B']
    } else if k == 3 {
        seq!['G', 'i', 'B']
    } else if k == 2 {
        seq!['M', 'i', 'B']
    } else if k == 1 {
        seq!['K', 'i', 'B']
    } else {
        seq!['B']
    }
}

/// A byte count as text: exact below 1 KiB (`512 B`), else in the largest
/// binary unit it reaches with one decimal, rounded half to even from the
/// count's nearest `f64` (`1.5 KiB`).
pub open spec fn bytes_text(b: nat) -> Seq<char> {
    let v = nearest_f64(b);
    let k = unit_index(v);
    if k == 0 {
        decimal(b) + seq![' '] + unit_name(0)
    } else {
        let t = round_half_even(10 * v, unit_size(k));
        decimal(t / 10) + seq!['.', digit_char(t % 10), ' '] + unit_name(k)
    }
}

fn digit_char_exec(d: u64) -> (r: char)
    requires
        d < 10,
    ensures
        r == digit_char(d as nat),
{
    if d == 0 {
        '0'
    } else if d == 1 {
        '1'
    } else if d == 2 {
        '2'
    } else if d == 3 {
        '3'
    } else if d == 4 {
        '4'
    } else if d == 5 {
        '5'
    } else if d == 6 {
        '6'
    } else if d == 7 {
        '7'
    } else if d == 8 {
        '8'
    } else {
        '9'
    }
}

/// Appends the decimal digits of `n`.
pub fn push_decimal(n: u64, out: &mut Vec<char>)
    ensures
        final(out)@ == old(out)@ + decimal(n as nat),
    decreases n,
{
    if n < 10 {
        out.push(digit_char_exec(n));
        assert(final(out)@ =~= old(out)@ + decimal(n as nat));
    } else {
        push_decimal(n / 10, out);
        out.push(digit_char_exec(n % 10));
        assert(final(out)@ =~= old(out)@ + decimal(n as nat));
    }
}

fn push_grouped(d: &Vec<char>, hi: usize, out: &mut Vec<char>)
    requires
        hi <= d@.len(),
    ensures
        final(out)@ == old(out)@ + group_thousands(d@.take(hi as int)),
    decreases hi,
{
    let ghost prefix = d@.take(hi as int);
    if hi <= 3 {
        let mut i: usize = 0;
        while i < hi
            invariant
                i <= hi <= d@.len(),
                out@ == old(out)@ + d@.take(i as int),
            decreases hi - i,
        {
            out.push(d[i]);
            i = i + 1;
            assert(out@ =~= old(out)@ + d@.take(i as int));
        }
    } else {
        push_grouped(d, hi - 3, out);
        let ghost mid = out@;
        out.push(',');
        out.push(d[hi - 3]);
        out.push(d[hi - 2]);
        out.push(d[hi - 1]);
        assert(prefix.take(prefix.len() - 3) =~= d@.take(hi - 3));
        assert(out@ =~= mid + seq![','] + prefix.skip(prefix.len() - 3));
    }
}

/// `n` in decimal with thousands separated by commas (`1234567` gives `1,234,567`).
pub fn format_number(n: u64) -> (r: String)
    ensures
        r@ == group_thousands(decimal(n as nat)),
{
    let mut digits: Vec<char> = Vec::new();
    push_decimal(n, &mut digits);
    assert(digits@ =~= decimal(n as nat));
    let mut out: Vec<char> = Vec::new();
    push_grouped(&digits, digits.len(), &mut out);
    assert(digits@.take(digits@.len() as int) =~= digits@);
    assert(out@ =~= group_thousands(decimal(n as nat)));
    string_of(&out)
}

fn round_half_even_exec(x: u128, d: u128) -> (r: u128)
    requires
        0 < d <= 0x1_0000_0000_0000_0000,
        x < 0x1_0000_0000_0000_0000_0000_0000,
    ensures
        r == round_half_even(x as nat, d as nat),
        r <= x / d + 1,
{
    let q = x / d;
    let r = x % d;
    if 2 * r > d || (2 * r == d && q % 2 == 1) {
        q + 1
    } else {
        q
    }
}

/// The value of `b as f64`, computed on integers.
fn nearest_f64_exec(b: u64) -> (r: u128)
    ensures
        r == nearest_f64(b as nat),
        r <= 0x1_0000_0000_0000_0800,
{
    proof {
        lemma2_to64();
        lemma2_to64_rest();
    }
    let mut s: u32 = 0;
    let mut d: u128 = 1;
    let mut lim: u128 = 0x20_0000_0000_0000;
    while s < 11 && (b as u128) >= lim
        invariant
            s <= 11,
            d == pow2(s as nat),
            lim == pow2(53 + s as nat),
            d <= 2048,
            lim <= 0x1_0000_0000_0000_0000,
            f64_dropped_bits(b as nat, 0) == f64_dropped_bits(b as nat, s as nat),
        decreases 11 - s,
    {
        proof {
            lemma_pow2_unfold(s as nat + 1);
            lemma_pow2_unfold(53 + s as nat + 1);
            lemma2_to64();
            lemma2_to64_rest();
            if s < 10 {
                lemma_pow2_strictly_increases(s as nat, 10);
                lemma_pow2_strictly_increases(53 + s as nat, 63);
            }
            assert(d * 2 <= 2048);
            assert(lim * 2 <= 0x1_0000_0000_0000_0000);
        }
        s = s + 1;
        d = d * 2;
        lim = lim * 2;
    }
    let q = round_half_even_exec(b as u128, d);
    assert(q * d <= 0x1_0000_0000_0000_0800) by (nonlinear_arith)
        requires
            q <= (b as u128) / d + 1,
            0 < d <= 2048,
            b < 0x1_0000_0000_0000_0000,
    {
        assert(((b as u128) / d) * d <= b);
    }
    q * d
}

/// A byte count as text: exact below 1 KiB (`512 B`), else in KiB, MiB, GiB or
/// TiB with one decimal (`1.5 KiB`).
pub fn format_bytes(bytes: u64) -> (r: String)
    ensures
        r@ == bytes_text(bytes as nat),
{
    let v = nearest_f64_exec(bytes);
    let (k, unit): (u64, u128) = if v >= 1099511627776 {
        (4, 1099511627776)
    } else if v >= 1073741824 {
        (3, 1073741824)
    } else if v >= 1048576 {
        (2, 1048576)
    } else if v >= 1024 {
        (1, 1024)
    } else {
        (0, 1)
    };
    let mut out: Vec<char> = Vec::new();
    if k == 0 {
        push_decimal(bytes, &mut out);
        out.push(' ');
        out.push('B');
    } else {
        let t = round_half_even_exec(10 * v, unit);
        proof {
            let x = 10 * v as int;
            vstd::arithmetic::div_mod::lemma_div_is_ordered_by_denominator(x, 1024, unit as int);
            assert(x / 1024 <= 0x2_8000_0000_0000_0014) by (nonlinear_arith)
                requires
                    x <= 10 * 0x1_0000_0000_0000_0800,
                    x >= 0,
            ;
        }
        push_decimal((t / 10) as u64, &mut out);
        out.push('.');
        out.push(digit_char_exec((t % 10) as u64));
        out.push(' ');
        if k == 4 {
            out.push('T');
        } else if k == 3 {
            out.push('G');
        } else if k == 2 {
            out.push('M');
        } else {
            out.push('K');
        }
        out.push('i');
        out.push('B');
    }
    assert(out@ =~= bytes_text(bytes as nat));
    string_of(&out)
}

fn prefix_at(s: &Vec<char>, i: usize, pat: &Vec<char>) -> (r: bool)
    requires
        i <= s@.len(),
    ensures
        r == (pat@.len() <= s@.len() - i && s@.skip(i as int).take(pat@.len() as int) == pat@),
{
    let n = s.len();
    let m = pat.len();
    if m > n - i {
        return false;
    }
    let mut j: usize = 0;
    while j < m
        invariant
            n == s@.len(),
            m == pat@.len(),
            i + m <= n,
            j <= m,
            forall|k: int| 0 <= k < j ==> s@[i + k] == pat@[k],
        decreases m - j,
    {
        if s[i + j] != pat[j] {
            assert(s@.skip(i as int).take(m as int)[j as int] != pat@[j as int]);
            return false;
        }
        j = j + 1;
    }
    assert(s@.skip(i as int).take(m as int) =~= pat@);
    true
}

/// `s` with every occurrence of `pat`, left to right without overlap, replaced by `rep`.
pub fn replace_chars(s: &Vec<char>, pat: &Vec<char>, rep: &Vec<char>) -> (r: Vec<char>)
    ensures
        r@ == replace_all(s@, pat@, rep@),
{
    let n = s.len();
    let mut out: Vec<char> = Vec::new();
    let mut i: usize = 0;
    assert(s@.skip(0) =~= s@);
    while i < n
        invariant
            n == s@.len(),
            i <= n,
            out@ + replace_all(s@.skip(i as int), pat@, rep@) == replace_all(s@, pat@, rep@),
        decreases n - i,
    {
        let ghost rest = s@.skip(i as int);
        if pat.len() > 0 && prefix_at(s, i, pat) {
            let mut j: usize = 0;
            let ghost before = out@;
            while j < rep.len()
                invariant
                    j <= rep@.len(),
                    out@ == before + rep@.take(j as int),
                decreases rep@.len() - j,
            {
                out.push(rep[j]);
                j = j + 1;
                assert(out@ =~= before + rep@.take(j as int));
            }
            assert(rep@.take(rep@.len() as int) =~= rep@);
            assert(rest.skip(pat@.len() as int) =~= s@.skip(i + pat@.len()));
            assert(before + (rep@ + replace_all(rest.skip(pat@.len() as int), pat@, rep@))
                =~= out@ + replace_all(s@.skip(i + pat@.len()), pat@, rep@));
            i = i + pat.len();
        } else {
            let ghost before = out@;
            out.push(s[i]);
            assert(rest.skip(1) =~= s@.skip(i + 1));
            assert(rest[0] == s@[i as int]);
            assert(before + (seq![rest[0]] + replace_all(rest.skip(1), pat@, rep@)) =~= out@
                + replace_all(s@.skip(i + 1), pat@, rep@));
            i = i + 1;
        }
    }
    assert(s@.skip(n as int) =~= Seq::<char>::empty());
    assert(out@ + Seq::<char>::empty() =~= out@);
    out
}

fn replace_in(s: &Vec<char>, pat: &str, rep: &str) -> (r: Vec<char>)
    ensures
        r@ == replace_all(s@, pat@, rep@),
{
    replace_chars(s, &chars_of(pat), &chars_of(rep))
}

/// Puts a space back where a stored table definition runs a bracketed name
/// into a parenthesis or into one of the column types INTEGER, REAL, TEXT,
/// BLOB and NUMERIC.
pub fn format_sql(sql: &str) -> (r: String)
    ensures
        r@ == tidy_ddl(sql@),
{
    let s = chars_of(sql);
    let s = replace_in(&s, "](", "] (");
    let s = replace_in(&s, ")(", ") (");
    let s = replace_in(&s, "]INTEGER", "] INTEGER");
    let s = replace_in(&s, "]REAL", "] REAL");
    let s = replace_in(&s, "]TEXT", "] TEXT");
    let s = replace_in(&s, "]BLOB", "] BLOB");
    let s = replace_in(&s, "]NUMERIC", "] NUMERIC");
    string_of(&s)
}

} // verus!
