//! Names made from numbers: zero-padded decimal entry names such as
//! `007.avif`, and temporary directory names such as `mkcbz-00c0ffee`.

use vstd::prelude::*;
use crate::bytes::push_bytes;
use vstd::string::StringSliceAdditionalSpecFns;

verus! {

/// The ASCII character of decimal digit `d`.
pub open spec fn decimal_digit(d: nat) -> u8 {
    (48 + d) as u8
}

/// The decimal representation of `n`, most significant digit first, with no
/// leading zeros (`0` is written `0`).
pub open spec fn decimal(n: nat) -> Seq<u8>
    decreases n,
{
    if n < 10 {
        seq![decimal_digit(n)]
    } else {
        decimal(n / 10) + seq![decimal_digit(n % 10)]
    }
}

/// The decimal representation of `n`, with zeros in front to make it at least
/// `width` characters long.
pub open spec fn zero_padded(n: nat, width: nat) -> Seq<u8> {
    let digits = decimal(n);
    if digits.len() < width {
        Seq::new((width - digits.len()) as nat, |_i: int| 0x30u8) + digits
    } else {
        digits
    }
}

/// The extension given to every entry: `.avif`.
pub open spec fn avif_suffix() -> Seq<u8> {
    seq![0x2Eu8, 0x61u8, 0x76u8, 0x69u8, 0x66u8]
}

/// The name of the `index`-th entry: its number padded to `width` digits,
/// then `.avif`.
pub open spec fn entry_file_name(index: nat, width: nat) -> Seq<u8> {
    zero_padded(index, width) + avif_suffix()
}

/// The ASCII character of hexadecimal digit `d`, in lower case.
pub open spec fn hex_digit(d: nat) -> u8 {
    if d < 10 {
        (48 + d) as u8
    } else {
        (87 + d) as u8
    }
}

/// The last `count` hexadecimal digits of `x`, most significant first.
pub open spec fn hex_digits(x: nat, count: nat) -> Seq<u8>
    decreases count,
{
    if count == 0 {
        Seq::empty()
    } else {
        hex_digits(x / 16, (count - 1) as nat) + seq![hex_digit(x % 16)]
    }
}

/// The name of a temporary directory: the prefix, a hyphen and eight
/// hexadecimal digits of `nanos`.
pub open spec fn temp_dir_name(prefix: Seq<u8>, nanos: u32) -> Seq<u8> {
    prefix + seq![0x2Du8] + hex_digits(nanos as nat, 8)
}


/// The number that a string of decimal digits stands for.
pub open spec fn digits_value(s: Seq<u8>) -> nat
    decreases s.len(),
{
    if s.len() == 0 {
        0
    } else {
        digits_value(s.drop_last()) * 10 + (s.last() - 48) as nat
    }
}

/// The last `width` decimal digits of `n`, zeros in front where `n` has fewer.
pub open spec fn fixed_digits(n: nat, width: nat) -> Seq<u8>
    decreases width,
{
    if width == 0 {
        Seq::empty()
    } else {
        fixed_digits(n / 10, (width - 1) as nat) + seq![decimal_digit(n % 10)]
    }
}

/// `a` comes before `b` in byte-wise lexicographic order, at a position where
/// both have a byte.
pub open spec fn lex_before(a: Seq<u8>, b: Seq<u8>) -> bool {
    exists|k: int|
        0 <= k < a.len() && k < b.len() && a.take(k) == b.take(k) && #[trigger] a[k] < b[k]
}

proof fn lemma_div_mod_10(n: nat)
    ensures
        (n / 10) * 10 + n % 10 == n,
        n % 10 < 10,
        n >= 10 ==> n / 10 < n,
{
    assert((n / 10) * 10 + n % 10 == n) by (nonlinear_arith);
    assert(n >= 10 ==> n / 10 < n) by (nonlinear_arith);
}

proof fn lemma_decimal_value(n: nat)
    ensures
        digits_value(decimal(n)) == n,
    decreases n,
{
    lemma_div_mod_10(n);
    let d = decimal(n);
    assert(d.last() == decimal_digit(n % 10));
    assert((decimal_digit(n % 10) - 48) as nat == n % 10);
    if n >= 10 {
        lemma_decimal_value(n / 10);
        assert(d.drop_last() =~= decimal(n / 10));
        assert(digits_value(d) == (n / 10) * 10 + n % 10);
    } else {
        assert(d.drop_last() =~= Seq::<u8>::empty());
        assert(digits_value(Seq::<u8>::empty()) == 0);
    }
}

proof fn lemma_leading_zeros_value(k: nat, s: Seq<u8>)
    ensures
        digits_value(Seq::new(k, |_i: int| 0x30u8) + s) == digits_value(s),
    decreases s.len(), k,
{
    let zeros = Seq::new(k, |_i: int| 0x30u8);
    if s.len() == 0 {
        assert(zeros + s =~= zeros);
        if k > 0 {
            lemma_leading_zeros_value((k - 1) as nat, s);
            assert(zeros.drop_last() =~= Seq::new((k - 1) as nat, |_i: int| 0x30u8));
            assert(Seq::new((k - 1) as nat, |_i: int| 0x30u8) + s =~= Seq::new(
                (k - 1) as nat,
                |_i: int| 0x30u8,
            ));
        }
    } else {
        lemma_leading_zeros_value(k, s.drop_last());
        assert((zeros + s).drop_last() =~= zeros + s.drop_last());
    }
}

proof fn lemma_zero_padded_value(n: nat, width: nat)
    ensures
        digits_value(zero_padded(n, width)) == n,
{
    lemma_decimal_value(n);
    let digits = decimal(n);
    if digits.len() < width {
        lemma_leading_zeros_value((width - digits.len()) as nat, digits);
    }
}

/// Distinct entry numbers give distinct entry names, whatever the padding.
pub proof fn law_entry_names_distinct(i: nat, j: nat, width: nat)
    requires
        i != j,
    ensures
        entry_file_name(i, width) != entry_file_name(j, width),
{
    let a = zero_padded(i, width);
    let b = zero_padded(j, width);
    lemma_zero_padded_value(i, width);
    lemma_zero_padded_value(j, width);
    let ea = entry_file_name(i, width);
    let eb = entry_file_name(j, width);
    assert(ea.len() == a.len() + 5);
    assert(eb.len() == b.len() + 5);
    if ea == eb {
        assert(a.len() == b.len());
        assert(a =~= entry_file_name(i, width).take(a.len() as int));
        assert(b =~= entry_file_name(j, width).take(b.len() as int));
    }
}

proof fn lemma_decimal_len_monotone(a: nat, b: nat)
    requires
        a <= b,
    ensures
        decimal(a).len() <= decimal(b).len(),
    decreases b,
{
    lemma_div_mod_10(a);
    lemma_div_mod_10(b);
    if a >= 10 {
        assert(a / 10 <= b / 10) by (nonlinear_arith)
            requires
                a <= b,
        ;
        lemma_decimal_len_monotone(a / 10, b / 10);
    }
}

proof fn lemma_decimal_len(n: nat)
    ensures
        decimal(n).len() >= 1,
        n >= 10 ==> decimal(n).len() == decimal(n / 10).len() + 1,
{
}

proof fn lemma_fixed_digits_len(n: nat, width: nat)
    ensures
        fixed_digits(n, width).len() == width,
    decreases width,
{
    if width > 0 {
        lemma_fixed_digits_len(n / 10, (width - 1) as nat);
    }
}

proof fn lemma_fixed_digits_of_zero(k: nat)
    ensures
        fixed_digits(0, k) == Seq::new(k, |_i: int| 0x30u8),
    decreases k,
{
    if k > 0 {
        lemma_fixed_digits_of_zero((k - 1) as nat);
        assert(fixed_digits(0, k) =~= Seq::new(k, |_i: int| 0x30u8));
    }
}

proof fn lemma_zero_padded_is_fixed(n: nat, width: nat)
    requires
        decimal(n).len() <= width,
    ensures
        zero_padded(n, width) == fixed_digits(n, width),
    decreases n,
{
    lemma_div_mod_10(n);
    let digits = decimal(n);
    let zeros = Seq::new((width - digits.len()) as nat, |_i: int| 0x30u8);
    assert(zero_padded(n, width) =~= zeros + digits);
    if n < 10 {
        lemma_fixed_digits_of_zero((width - 1) as nat);
        assert(n / 10 == 0 && n % 10 == n);
        assert(zero_padded(n, width) =~= fixed_digits(n, width));
    } else {
        let q = n / 10;
        lemma_zero_padded_is_fixed(q, (width - 1) as nat);
        let qzeros = Seq::new(((width - 1) - decimal(q).len()) as nat, |_i: int| 0x30u8);
        assert(zero_padded(q, (width - 1) as nat) =~= qzeros + decimal(q));
        assert(qzeros =~= zeros);
        assert(zero_padded(n, width) =~= zero_padded(q, (width - 1) as nat) + seq![
            decimal_digit(n % 10),
        ]);
    }
}

proof fn lemma_fixed_digits_order(a: nat, b: nat, width: nat)
    requires
        a < b,
        decimal(b).len() <= width,
    ensures
        exists|k: int|
            0 <= k < width && fixed_digits(a, width).take(k) == fixed_digits(b, width).take(k)
                && #[trigger] fixed_digits(a, width)[k] < fixed_digits(b, width)[k],
    decreases width,
{
    lemma_div_mod_10(a);
    lemma_div_mod_10(b);
    lemma_decimal_len(b);
    assert(width >= 1);
    let w1 = (width - 1) as nat;
    let (qa, qb) = (a / 10, b / 10);
    lemma_fixed_digits_len(qa, w1);
    lemma_fixed_digits_len(qb, w1);
    let fa = fixed_digits(a, width);
    let fb = fixed_digits(b, width);
    assert(qa <= qb) by (nonlinear_arith)
        requires
            a < b,
            qa == a / 10,
            qb == b / 10,
    ;
    assert(fa =~= fixed_digits(qa, w1) + seq![decimal_digit(a % 10)]);
    assert(fb =~= fixed_digits(qb, w1) + seq![decimal_digit(b % 10)]);
    if qa == qb {
        assert(a % 10 < b % 10);
        assert(fa.take(w1 as int) =~= fixed_digits(qa, w1));
        assert(fb.take(w1 as int) =~= fixed_digits(qb, w1));
        assert(fa[w1 as int] < fb[w1 as int]);
    } else {
        assert(b >= 10);
        lemma_fixed_digits_order(qa, qb, w1);
        let k = choose|k: int|
            0 <= k < w1 && fixed_digits(qa, w1).take(k) == fixed_digits(qb, w1).take(k)
                && #[trigger] fixed_digits(qa, w1)[k] < fixed_digits(qb, w1)[k];
        assert(fa.take(k) =~= fixed_digits(qa, w1).take(k));
        assert(fb.take(k) =~= fixed_digits(qb, w1).take(k));
        assert(fa[k] == fixed_digits(qa, w1)[k]);
        assert(fb[k] == fixed_digits(qb, w1)[k]);
    }
}

/// With the padding set to the number of digits of the page count, every page
/// number from 1 to the count gets a name of the same length, and the names
/// sort byte-wise in page order.
pub proof fn law_entry_names_sort_in_order(i: nat, j: nat, count: nat)
    requires
        i < j <= count,
    ensures
        entry_file_name(i, decimal(count).len()).len() == entry_file_name(
            j,
            decimal(count).len(),
        ).len(),
        lex_before(entry_file_name(i, decimal(count).len()), entry_file_name(j, decimal(count).len())),
{
    let w = decimal(count).len();
    lemma_decimal_len_monotone(i, count);
    lemma_decimal_len_monotone(j, count);
    lemma_zero_padded_is_fixed(i, w);
    lemma_zero_padded_is_fixed(j, w);
    lemma_fixed_digits_order(i, j, w);
    let a = entry_file_name(i, w);
    let b = entry_file_name(j, w);
    let fa = fixed_digits(i, w);
    let fb = fixed_digits(j, w);
    let k = choose|k: int|
        0 <= k < w && fa.take(k) == fb.take(k) && #[trigger] fa[k] < fb[k];
    assert(a.take(k) =~= fa.take(k));
    assert(b.take(k) =~= fb.take(k));
    assert(a[k] < b[k]);
}

/// The number of digits in the decimal representation of `n`.
pub fn decimal_width(n: usize) -> (w: usize)
    ensures
        w == decimal(n as nat).len(),
        1 <= w <= n + 1,
    decreases n,
{
    if n < 10 {
        1
    } else {
        1 + decimal_width(n / 10)
    }
}

/// Appends the decimal representation of `n` to `out`.
fn push_decimal(out: &mut Vec<u8>, n: usize)
    ensures
        final(out)@ == old(out)@ + decimal(n as nat),
    decreases n,
{
    if n < 10 {
        out.push((48 + n) as u8);
        assert(out@ =~= old(out)@ + decimal(n as nat));
    } else {
        push_decimal(out, n / 10);
        out.push((48 + n % 10) as u8);
        assert(out@ =~= old(out)@ + decimal(n as nat));
    }
}

/// Appends the last `count` hexadecimal digits of `x` to `out`.
fn push_hex(out: &mut Vec<u8>, x: u32, count: usize)
    ensures
        final(out)@ == old(out)@ + hex_digits(x as nat, count as nat),
    decreases count,
{
    if count > 0 {
        push_hex(out, x / 16, count - 1);
        let d = x % 16;
        if d < 10 {
            out.push((48 + d) as u8);
        } else {
            out.push((87 + d) as u8);
        }
        assert(out@ =~= old(out)@ + hex_digits(x as nat, count as nat));
    } else {
        assert(out@ =~= old(out)@ + hex_digits(x as nat, count as nat));
    }
}

/// The name of the `index`-th entry, its number padded with zeros to `width`
/// digits and followed by `.avif` (what `format!("{:0w$}.avif", index)` gives).
pub fn entry_name(index: usize, width: usize) -> (name: Vec<u8>)
    ensures
        name@ == entry_file_name(index as nat, width as nat),
{
    let mut name: Vec<u8> = Vec::new();
    let digits = decimal_width(index);
    let mut i = digits;
    while i < width
        invariant
            digits == decimal(index as nat).len(),
            digits <= i,
            i <= width || i == digits,
            name@ == Seq::new((i - digits) as nat, |_j: int| 0x30u8),
        decreases width - i,
    {
        name.push(0x30);
        i = i + 1;
        assert(name@ =~= Seq::new((i - digits) as nat, |_j: int| 0x30u8));
    }
    push_decimal(&mut name, index);
    push_bytes(&mut name, &[0x2E, 0x61, 0x76, 0x69, 0x66]);
    assert(name@ =~= entry_file_name(index as nat, width as nat));
    name
}

/// The name of a temporary directory made with `prefix` at a time whose
/// sub-second part is `nanos` (what `format!("{prefix}-{:08x}", nanos)` gives).
pub fn temp_dir_name_for(prefix: &str, nanos: u32) -> (name: Vec<u8>)
    ensures
        name@ == temp_dir_name(prefix.spec_bytes(), nanos),
{
    let mut name: Vec<u8> = Vec::new();
    push_bytes(&mut name, prefix.as_bytes());
    name.push(0x2D);
    push_hex(&mut name, nanos, 8);
    assert(name@ =~= temp_dir_name(prefix.spec_bytes(), nanos));
    name
}

} // verus!
