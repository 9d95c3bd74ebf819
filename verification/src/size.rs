//! Byte sizes: parsing of a size literal with an optional binary unit
//! suffix, and fixed-point rendering of a byte count for display.

use vstd::prelude::*;
use crate::text::{is_digit, digit_val, spec_trim, chars_of, is_digit_char, trim_bounds_in};
use vstd::arithmetic::div_mod::{lemma_div_is_ordered, lemma_div_is_ordered_by_denominator};

verus! {

/// Number of leading ASCII digits of `s`.
pub open spec fn digit_end(s: Seq<char>) -> int
    decreases s.len(),
{
    if s.len() == 0 || !is_digit(s[0]) {
        0
    } else {
        1 + digit_end(s.drop_first())
    }
}

/// The value of a string of decimal digits.
pub open spec fn digits_val(s: Seq<char>) -> int
    decreases s.len(),
{
    if s.len() == 0 {
        0
    } else {
        digits_val(s.drop_last()) * 10 + digit_val(s.last())
    }
}

/// The byte multiplier of a unit suffix, already trimmed: empty or `B`
/// stand for bytes, `K`/`M`/`G`/`T` optionally followed by `B` for the
/// binary multiples, all case-insensitive.
pub open spec fn unit_multiplier(u: Seq<char>) -> Option<u64> {
    if u.len() == 0 {
        Some(1)
    } else if u.len() == 1 {
        letter_multiplier(u[0], true)
    } else if u.len() == 2 && (u[1] == 'B' || u[1] == 'b') {
        letter_multiplier(u[0], false)
    } else {
        None
    }
}

/// The multiplier of a single unit letter; `bare` admits `B` itself.
pub open spec fn letter_multiplier(c: char, bare: bool) -> Option<u64> {
    if bare && (c == 'B' || c == 'b') {
        Some(1)
    } else if c == 'K' || c == 'k' {
        Some(1024)
    } else if c == 'M' || c == 'm' {
        Some(1_048_576)
    } else if c == 'G' || c == 'g' {
        Some(1_073_741_824)
    } else if c == 'T' || c == 't' {
        Some(1_099_511_627_776)
    } else {
        None
    }
}

/// What parsing a size literal returns: the whitespace-trimmed input is a
/// run of digits followed by a unit suffix; an empty input counts as zero
/// bytes.  A malformed or overflowing number, an unknown unit, and a
/// product beyond `u64::MAX` each yield the matching message.
pub open spec fn spec_parse_size(s: Seq<char>) -> Result<u64, Seq<char>> {
    let t = spec_trim(s);
    if t.len() == 0 {
        Ok(0u64)
    } else {
        let k = digit_end(t);
        let num = t.take(k);
        let unit_raw = t.skip(k);
        if k == 0 || digits_val(num) > u64::MAX {
            Err("invalid number: "@ + num)
        } else {
            match unit_multiplier(spec_trim(unit_raw)) {
                Option::None => Err("invalid unit: "@ + unit_raw),
                Option::Some(m) => {
                    if digits_val(num) * m > u64::MAX {
                        Err("size overflow"@)
                    } else {
                        Ok((digits_val(num) * m) as u64)
                    }
                },
            }
        }
    }
}

pub proof fn lemma_digit_end_at(s: Seq<char>, k: int)
    requires
        0 <= k <= s.len(),
        forall|i: int| 0 <= i < k ==> is_digit(#[trigger] s[i]),
        k == s.len() || !is_digit(s[k]),
    ensures
        digit_end(s) == k,
    decreases k,
{
    if k == 0 {
    } else {
        assert(is_digit(s[0]));
        lemma_digit_end_at(s.drop_first(), k - 1);
    }
}

pub proof fn lemma_digits_val_nonneg(s: Seq<char>)
    requires
        forall|i: int| 0 <= i < s.len() ==> is_digit(#[trigger] s[i]),
    ensures
        digits_val(s) >= 0,
    decreases s.len(),
{
    if s.len() > 0 {
        lemma_digits_val_nonneg(s.drop_last());
    }
}

pub proof fn lemma_digits_val_prefix_le(s: Seq<char>, i: int)
    requires
        0 <= i <= s.len(),
        forall|j: int| 0 <= j < s.len() ==> is_digit(#[trigger] s[j]),
    ensures
        digits_val(s.take(i)) <= digits_val(s),
    decreases s.len() - i,
{
    if i == s.len() {
        assert(s.take(i) =~= s);
    } else {
        assert(s.take(i + 1).drop_last() =~= s.take(i));
        assert(forall|j: int| 0 <= j < s.take(i).len() ==> is_digit(#[trigger] s.take(i)[j]));
        lemma_digits_val_nonneg(s.take(i));
        assert(digits_val(s.take(i + 1)) == digits_val(s.take(i)) * 10 + digit_val(s[i]));
        lemma_digits_val_prefix_le(s, i + 1);
    }
}

/// Parses a size literal such as `100`, `10k`, `5M`, `2G` or `1T`:
/// an optionally whitespace-padded run of digits, then a unit suffix among
/// `B`, `K`/`KB`, `M`/`MB`, `G`/`GB`, `T`/`TB` in any letter case, with
/// 1024-based multipliers.  An empty (or all-whitespace) input is zero
/// bytes.  Overflow of the multiplication is reported, never wrapped.
#[verifier::rlimit(60)]
pub fn parse_size(s: &str) -> (r: Result<u64, String>)
    ensures
        r is Ok <==> spec_parse_size(s@) is Ok,
        r is Ok ==> r->Ok_0 == spec_parse_size(s@)->Ok_0,
        r is Err ==> r->Err_0@ == spec_parse_size(s@)->Err_0,
{
    let v = chars_of(s);
    let n = v.len();
    let (lo, hi) = trim_bounds_in(&v, 0, n);
    proof {
        assert(v@.subrange(0, n as int) =~= v@);
    }
    let ghost t = spec_trim(s@);
    if lo == hi {
        return Ok(0);
    }
    // Find where the digits stop.
    let mut dpl: usize = lo;
    while dpl < hi && is_digit_char(v[dpl])
        invariant
            v@ == s@,
            lo <= dpl <= hi <= v@.len(),
            forall|j: int| lo <= j < dpl ==> is_digit(#[trigger] v@[j]),
        decreases hi - dpl,
    {
        dpl = dpl + 1;
    }
    proof {
        assert(t == v@.subrange(lo as int, hi as int));
        assert(forall|i: int| 0 <= i < t.len() ==> t[i] == v@[lo + i]);
        lemma_digit_end_at(t, dpl - lo);
        assert(t.take(dpl - lo) =~= v@.subrange(lo as int, dpl as int));
        assert(t.skip(dpl - lo) =~= v@.subrange(dpl as int, hi as int));
    }
    let ghost num = t.take(dpl - lo);
    if dpl == lo {
        let mut m = String::from_str("invalid number: ");
        m.append(s.substring_char(lo, dpl));
        return Err(m);
    }
    // Accumulate the numeric value, watching for overflow.
    let mut val: u64 = 0;
    let mut i: usize = lo;
    while i < dpl
        invariant
            v@ == s@,
            lo < hi,
            lo <= i <= dpl <= hi <= v@.len(),
            forall|j: int| lo <= j < dpl ==> is_digit(#[trigger] v@[j]),
            t == spec_trim(s@),
            num == t.take(dpl - lo),
            t == v@.subrange(lo as int, hi as int),
            digit_end(t) == dpl - lo,
            num =~= v@.subrange(lo as int, dpl as int),
            val == digits_val(v@.subrange(lo as int, i as int)),
        decreases dpl - i,
    {
        let c = v[i];
        let d = (c as u32 - 48) as u64;
        let wide: u128 = val as u128 * 10 + d as u128;
        proof {
            assert(v@.subrange(lo as int, i + 1).drop_last() =~= v@.subrange(lo as int, i as int));
            assert(digits_val(v@.subrange(lo as int, i + 1)) == val * 10 + digit_val(c));
        }
        if wide > u64::MAX as u128 {
            proof {
                assert(forall|j: int| 0 <= j < num.len() ==> is_digit(#[trigger] num[j]));
                assert(num.take(i + 1 - lo) =~= v@.subrange(lo as int, i + 1));
                lemma_digits_val_prefix_le(num, i + 1 - lo);
            }
            let mut m = String::from_str("invalid number: ");
            m.append(s.substring_char(lo, dpl));
            return Err(m);
        }
        val = wide as u64;
        i = i + 1;
    }
    proof {
        lemma_digits_val_nonneg(num);
    }
    // Trim and decode the unit suffix.
    let (ulo, uhi) = trim_bounds_in(&v, dpl, hi);
    let ghost u = spec_trim(t.skip(dpl - lo));
    proof {
        assert(u == v@.subrange(ulo as int, uhi as int));
    }
    let mult_opt: Option<u64> = if uhi == ulo {
        Some(1)
    } else if uhi - ulo == 1 {
        single_letter_multiplier(v[ulo], true)
    } else if uhi - ulo == 2 && (v[ulo + 1] == 'B' || v[ulo + 1] == 'b') {
        single_letter_multiplier(v[ulo], false)
    } else {
        None
    };
    proof {
        assert(u.len() == uhi - ulo);
        if u.len() >= 1 {
            assert(u[0] == v@[ulo as int]);
        }
        if u.len() >= 2 {
            assert(u[1] == v@[ulo + 1]);
        }
    }
    let mult: u64 = match mult_opt {
        Some(m) => m,
        None => {
            let mut msg = String::from_str("invalid unit: ");
            msg.append(s.substring_char(dpl, hi));
            return Err(msg);
        },
    };
    proof {
        assert(val as int * mult as int <= u64::MAX as int * u64::MAX as int) by (nonlinear_arith)
            requires
                0 <= val <= u64::MAX as int,
                0 <= mult <= u64::MAX as int,
        ;
    }
    let product: u128 = val as u128 * mult as u128;
    if product > u64::MAX as u128 {
        return Err(String::from_str("size overflow"));
    }
    Ok(product as u64)
}

/// The multiplier of one unit letter, mirroring [`letter_multiplier`].
fn single_letter_multiplier(c: char, bare: bool) -> (r: Option<u64>)
    ensures
        r == letter_multiplier(c, bare),
{
    if bare && (c == 'B' || c == 'b') {
        Some(1)
    } else if c == 'K' || c == 'k' {
        Some(1024)
    } else if c == 'M' || c == 'm' {
        Some(1_048_576)
    } else if c == 'G' || c == 'g' {
        Some(1_073_741_824)
    } else if c == 'T' || c == 't' {
        Some(1_099_511_627_776)
    } else {
        None
    }
}

/// The decimal digits of `n`, most significant first.
pub open spec fn spec_dec_digits(n: int) -> Seq<char>
    decreases n,
{
    if n < 10 {
        seq![digit_char(n)]
    } else {
        spec_dec_digits(n / 10).push(digit_char(n % 10))
    }
}

/// The character of one decimal digit.
pub open spec fn digit_char(d: int) -> char {
    if d == 0 {
        '0'
    } else if d == 1 {
        '1'
    } else if d == 2 {
        '2'
    } else if d == 3 {
        '3'
    } else if d == 4 {
        '4'
    } else if d == 5 {
        '5'
    } else if d == 6 {
        '6'
    } else if d == 7 {
        '7'
    } else if d == 8 {
        '8'
    } else {
        '9'
    }
}

/// `size` scaled to hundredths of `unit`, rounded to nearest with ties
/// going to the even hundredth.
pub open spec fn spec_scaled(size: int, unit: int) -> int {
    let q = size * 100 / unit;
    let r = size * 100 % unit;
    if 2 * r > unit || (2 * r == unit && q % 2 == 1) {
        q + 1
    } else {
        q
    }
}

/// `h` hundredths rendered with two decimal places.
pub open spec fn spec_fixed2(h: int) -> Seq<char> {
    spec_dec_digits(h / 100) + seq!['.', digit_char(h % 100 / 10), digit_char(h % 100 % 10)]
}

/// The display form of a byte count: plain bytes below 1024, otherwise
/// two decimal places of the largest unit that keeps the value at or
/// above one, capped at terabytes.
pub open spec fn spec_format_size(size: int) -> Seq<char> {
    if size < 1024 {
        spec_dec_digits(size) + " B"@
    } else if size < 1_048_576 {
        spec_fixed2(spec_scaled(size, 1024)) + " KB"@
    } else if size < 1_073_741_824 {
        spec_fixed2(spec_scaled(size, 1_048_576)) + " MB"@
    } else if size < 1_099_511_627_776 {
        spec_fixed2(spec_scaled(size, 1_073_741_824)) + " GB"@
    } else {
        spec_fixed2(spec_scaled(size, 1_099_511_627_776)) + " TB"@
    }
}

/// The string of one digit.
fn digit_str(d: u64) -> (r: &'static str)
    requires
        d < 10,
    ensures
        r@ == seq![digit_char(d as int)],
{
    let r: &'static str = if d == 0 {
        "0"
    } else if d == 1 {
        "1"
    } else if d == 2 {
        "2"
    } else if d == 3 {
        "3"
    } else if d == 4 {
        "4"
    } else if d == 5 {
        "5"
    } else if d == 6 {
        "6"
    } else if d == 7 {
        "7"
    } else if d == 8 {
        "8"
    } else {
        "9"
    };
    proof {
        reveal_strlit("0");
        reveal_strlit("1");
        reveal_strlit("2");
        reveal_strlit("3");
        reveal_strlit("4");
        reveal_strlit("5");
        reveal_strlit("6");
        reveal_strlit("7");
        reveal_strlit("8");
        reveal_strlit("9");
        assert(r@ =~= seq![digit_char(d as int)]);
    }
    r
}

/// Appends the decimal rendering of `n` to `out`.
fn push_dec_digits(n: u64, out: &mut String)
    ensures
        final(out)@ == old(out)@ + spec_dec_digits(n as int),
    decreases n,
{
    if n >= 10 {
        push_dec_digits(n / 10, out);
    }
    out.append(digit_str(n % 10));
    proof {
        assert(final(out)@ =~= old(out)@ + spec_dec_digits(n as int));
    }
}

/// `size * 100 / unit`, rounded to nearest with ties to even.
fn scaled_hundredths(size: u64, unit: u64) -> (h: u64)
    requires
        1024 <= unit <= 1_099_511_627_776,
    ensures
        h == spec_scaled(size as int, unit as int),
{
    let num: u128 = size as u128 * 100;
    let q: u128 = num / (unit as u128);
    let rem: u128 = num % (unit as u128);
    proof {
        lemma_div_is_ordered_by_denominator(num as int, 1024, unit as int);
        lemma_div_is_ordered(num as int, u64::MAX as int * 100, 1024);
        assert(q <= u64::MAX as int * 100 / 1024);
    }
    if 2 * rem > unit as u128 || (2 * rem == unit as u128 && q % 2 == 1) {
        (q + 1) as u64
    } else {
        q as u64
    }
}

/// Renders a byte count for humans: `0 B`, `1.50 KB`, `512.00 MB`, and so
/// on up to terabytes, with two decimal places whenever a unit is scaled.
pub fn format_size(size: u64) -> (r: String)
    ensures
        r@ == spec_format_size(size as int),
{
    if size < 1024 {
        let mut r = String::new();
        push_dec_digits(size, &mut r);
        r.append(" B");
        proof {
            assert(r@ =~= spec_format_size(size as int));
        }
        r
    } else {
        let (unit, label): (u64, &'static str) = if size < 1_048_576 {
            (1024, " KB")
        } else if size < 1_073_741_824 {
            (1_048_576, " MB")
        } else if size < 1_099_511_627_776 {
            (1_073_741_824, " GB")
        } else {
            (1_099_511_627_776, " TB")
        };
        let h = scaled_hundredths(size, unit);
        let frac = h % 100;
        let mut r = String::new();
        push_dec_digits(h / 100, &mut r);
        r.append(".");
        r.append(digit_str(frac / 10));
        r.append(digit_str(frac % 10));
        r.append(label);
        proof {
            reveal_strlit(".");
            assert(r@ =~= spec_fixed2(h as int) + label@);
            assert(r@ =~= spec_format_size(size as int));
        }
        r
    }
}

} // verus!
