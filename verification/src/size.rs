//! Scaling a raw byte count into a compact human-readable size:
//! the largest unit that keeps the magnitude below 1024, rendered in
//! a bounded-width column (a right-aligned integer for plain bytes,
//! one fractional digit plus a unit letter otherwise).

use vstd::prelude::*;

verus! {

use vstd::string::StringExecFns;
use vstd::string::StrSliceExecFns;
use vstd::arithmetic::div_mod::lemma_fundamental_div_mod;
use vstd::arithmetic::div_mod::lemma_fundamental_div_mod_converse;
use vstd::arithmetic::div_mod::lemma_div_denominator;
use vstd::arithmetic::div_mod::lemma_div_multiples_vanish;
use vstd::arithmetic::div_mod::lemma_multiply_divide_lt;
use vstd::arithmetic::div_mod::lemma_mod_bound;
use vstd::arithmetic::mul::lemma_mul_inequality;
use crate::digits::dec_digits;
use crate::digits::digit_char;
use crate::digits::u64_to_dec;
use crate::digits::digit_str;

#[derive(Clone, Copy, Debug, PartialEq, Eq, Structural)]
pub enum SizeUnit {
    Byte,
    Kilo,
    Mega,
    Giga,
    Tera,
    Peta,
    Exa,
    Zetta,
    Yotta,
}

impl SizeUnit {
    /// How many divisions by 1024 this unit stands for.
    pub open spec fn index(self) -> nat {
        match self {
            SizeUnit::Byte => 0,
            SizeUnit::Kilo => 1,
            SizeUnit::Mega => 2,
            SizeUnit::Giga => 3,
            SizeUnit::Tera => 4,
            SizeUnit::Peta => 5,
            SizeUnit::Exa => 6,
            SizeUnit::Zetta => 7,
            SizeUnit::Yotta => 8,
        }
    }
}

/// The unit that stands for `n` divisions by 1024 (Yotta is the top).
pub open spec fn unit_of_index(n: nat) -> SizeUnit {
    if n == 0 {
        SizeUnit::Byte
    } else if n == 1 {
        SizeUnit::Kilo
    } else if n == 2 {
        SizeUnit::Mega
    } else if n == 3 {
        SizeUnit::Giga
    } else if n == 4 {
        SizeUnit::Tera
    } else if n == 5 {
        SizeUnit::Peta
    } else if n == 6 {
        SizeUnit::Exa
    } else if n == 7 {
        SizeUnit::Zetta
    } else {
        SizeUnit::Yotta
    }
}

/// The unit one step above `u`; scaling past Yotta is unsupported.
fn next_unit(u: SizeUnit) -> (r: SizeUnit)
    requires
        u != SizeUnit::Yotta,
    ensures
        r.index() == u.index() + 1,
        r == unit_of_index(u.index() + 1),
{
    match u {
        SizeUnit::Byte => SizeUnit::Kilo,
        SizeUnit::Kilo => SizeUnit::Mega,
        SizeUnit::Mega => SizeUnit::Giga,
        SizeUnit::Giga => SizeUnit::Tera,
        SizeUnit::Tera => SizeUnit::Peta,
        SizeUnit::Peta => SizeUnit::Exa,
        SizeUnit::Exa => SizeUnit::Zetta,
        SizeUnit::Zetta => SizeUnit::Yotta,
        SizeUnit::Yotta => SizeUnit::Yotta,
    }
}

/// 1024 raised to `n`.
pub open spec fn pow1024(n: nat) -> nat
    decreases n,
{
    if n == 0 {
        1
    } else {
        1024 * pow1024((n - 1) as nat)
    }
}

/// How many times a byte count must be divided by 1024 before the
/// magnitude falls below 1024.
pub open spec fn unit_index_spec(bytes: nat) -> nat
    decreases bytes,
{
    if bytes < 1024 {
        0
    } else {
        1 + unit_index_spec(bytes / 1024)
    }
}

/// The scaled magnitude in tenths: ten times the byte count divided by
/// the unit's weight, rounded to the nearest whole tenth (ties up).
pub open spec fn scaled_tenths_spec(bytes: nat) -> nat {
    let d = pow1024(unit_index_spec(bytes));
    (10 * bytes + d / 2) / d
}

/// A byte count expressed as a magnitude in tenths and a unit; the
/// magnitude stays below 1024 (up to rounding) by choice of unit.
pub struct ScaledSize {
    pub unit: SizeUnit,
    pub tenths: u64,
}

proof fn lemma_pow1024_values()
    ensures
        pow1024(0) == 1,
        pow1024(1) == 0x400,
        pow1024(2) == 0x100000,
        pow1024(3) == 0x40000000,
        pow1024(4) == 0x10000000000,
        pow1024(5) == 0x4000000000000,
        pow1024(6) == 0x1000000000000000,
        pow1024(7) == 0x400000000000000000,
{
    reveal_with_fuel(pow1024, 9);
}

proof fn lemma_pow1024_lower(n: nat)
    ensures
        pow1024(n) >= 1,
        n >= 1 ==> pow1024(n) >= 1024,
        n >= 2 ==> pow1024(n) >= 0x100000,
    decreases n,
{
    if n >= 1 {
        lemma_pow1024_lower((n - 1) as nat);
        lemma_mul_inequality(1, pow1024((n - 1) as nat) as int, 1024);
        if n >= 2 {
            lemma_mul_inequality(1024, pow1024((n - 1) as nat) as int, 1024);
        }
    }
}

/// Finds the largest unit that keeps the magnitude below 1024 and the
/// byte count's magnitude in tenths at that unit.
pub fn scale_size(bytes: u64) -> (r: ScaledSize)
    ensures
        r.unit == unit_of_index(unit_index_spec(bytes as nat)),
        r.unit.index() == unit_index_spec(bytes as nat),
        r.tenths == scaled_tenths_spec(bytes as nat),
{
    let mut d: u64 = 1;
    let mut unit = SizeUnit::Byte;
    while bytes / d >= 1024
        invariant
            1 <= d,
            d == pow1024(unit.index()),
            unit == unit_of_index(unit.index()),
            unit.index() + unit_index_spec((bytes / d) as nat) == unit_index_spec(bytes as nat),
        decreases bytes as int / d as int,
    {
        proof {
            lemma_fundamental_div_mod(bytes as int, d as int);
            lemma_mod_bound(bytes as int, d as int);
            lemma_mul_inequality(1024, bytes as int / d as int, d as int);
            assert(1024 * (d as int) <= (bytes as int / d as int) * (d as int));
            assert(d as int * 1024 <= bytes as int);
            lemma_pow1024_values();
            if unit.index() >= 6 {
                lemma_pow1024_lower(unit.index());
                lemma_mul_inequality(pow1024(6) as int, d as int, 1024);
                assert(false);
            }
            assert(unit_index_spec((bytes / d) as nat) == 1 + unit_index_spec(
                ((bytes / d) / 1024) as nat,
            ));
            lemma_div_denominator(bytes as int, d as int, 1024);
        }
        d = d * 1024;
        unit = next_unit(unit);
        proof {
            lemma_div_denominator(bytes as int, (d / 1024) as int, 1024);
        }
    }
    proof {
        assert(unit_index_spec((bytes / d) as nat) == 0);
        assert(unit.index() == unit_index_spec(bytes as nat));
    }
    let num: u128 = (bytes as u128) * 10 + (d as u128) / 2;
    let t: u128 = num / (d as u128);
    proof {
        lemma_fundamental_div_mod(bytes as int, d as int);
        lemma_mod_bound(bytes as int, d as int);
        lemma_mul_inequality(bytes as int / d as int, 1023, d as int);
        assert(bytes as int <= 1024 * (d as int) - 1);
        assert((num as int) < 10241 * (d as int));
        lemma_multiply_divide_lt(num as int, d as int, 10241);
        assert(t as int == scaled_tenths_spec(bytes as nat));
    }
    let tenths: u64 = t as u64;
    ScaledSize { unit, tenths }
}

/// A sequence of `n` blanks.
pub open spec fn spaces(n: nat) -> Seq<char>
    decreases n,
{
    if n == 0 {
        Seq::<char>::empty()
    } else {
        seq![' '] + spaces((n - 1) as nat)
    }
}

/// `s`, right-aligned in a field of width `w` (unchanged when longer).
pub open spec fn pad_left(s: Seq<char>, w: nat) -> Seq<char> {
    if s.len() >= w {
        s
    } else {
        spaces((w - s.len()) as nat) + s
    }
}

/// The single-letter suffix of each scaled unit; bytes carry none.
pub open spec fn unit_label(u: SizeUnit) -> Seq<char> {
    match u {
        SizeUnit::Byte => Seq::<char>::empty(),
        SizeUnit::Kilo => seq!['K'],
        SizeUnit::Mega => seq!['M'],
        SizeUnit::Giga => seq!['G'],
        SizeUnit::Tera => seq!['T'],
        SizeUnit::Peta => seq!['P'],
        SizeUnit::Exa => seq!['E'],
        SizeUnit::Zetta => seq!['Z'],
        SizeUnit::Yotta => seq!['Y'],
    }
}

/// The rendered text of a scaled size: at the byte unit the integer
/// magnitude right-aligned to four characters; at any other unit the
/// magnitude with exactly one fractional digit and the unit letter.
pub open spec fn scaled_text(unit: SizeUnit, tenths: nat) -> Seq<char> {
    if unit == SizeUnit::Byte {
        pad_left(dec_digits(tenths / 10), 4)
    } else {
        dec_digits(tenths / 10) + seq!['.'] + seq![digit_char(tenths % 10)] + unit_label(unit)
    }
}

/// What the whole pipeline prints for a raw byte count.
pub open spec fn size_display_spec(bytes: nat) -> Seq<char> {
    scaled_text(unit_of_index(unit_index_spec(bytes)), scaled_tenths_spec(bytes))
}

fn unit_label_str(u: SizeUnit) -> (r: &'static str)
    ensures
        r@ == unit_label(u),
{
    proof {
        reveal_strlit("");
        reveal_strlit("K");
        reveal_strlit("M");
        reveal_strlit("G");
        reveal_strlit("T");
        reveal_strlit("P");
        reveal_strlit("E");
        reveal_strlit("Z");
        reveal_strlit("Y");
    }
    match u {
        SizeUnit::Byte => "",
        SizeUnit::Kilo => "K",
        SizeUnit::Mega => "M",
        SizeUnit::Giga => "G",
        SizeUnit::Tera => "T",
        SizeUnit::Peta => "P",
        SizeUnit::Exa => "E",
        SizeUnit::Zetta => "Z",
        SizeUnit::Yotta => "Y",
    }
}

/// Renders a scaled size in its bounded-width column form.
pub fn format_scaled(sc: &ScaledSize) -> (r: String)
    ensures
        r@ == scaled_text(sc.unit, sc.tenths as nat),
{
    let whole = u64_to_dec(sc.tenths / 10);
    if matches!(sc.unit, SizeUnit::Byte) {
        proof {
            reveal_strlit(" ");
        }
        let mut out = whole;
        let mut n: usize = out.unicode_len();
        proof {
            assert(out@ =~= spaces(0) + dec_digits((sc.tenths / 10) as nat));
        }
        while n < 4
            invariant
                n == out@.len(),
                out@.len() >= dec_digits((sc.tenths / 10) as nat).len(),
                out@.len() <= 4 || out@.len() == dec_digits((sc.tenths / 10) as nat).len(),
                out@ == spaces((out@.len() - dec_digits((sc.tenths / 10) as nat).len()) as nat)
                    + dec_digits((sc.tenths / 10) as nat),
            decreases 4 - n,
        {
            let ghost old_view = out@;
            let ghost ds = dec_digits((sc.tenths / 10) as nat);
            out = String::from_str(" ").concat(out.as_str());
            n = n + 1;
            proof {
                reveal_strlit(" ");
                assert(spaces(((old_view.len() + 1) - ds.len()) as nat) == seq![' '] + spaces(
                    (old_view.len() - ds.len()) as nat,
                ));
                assert(out@ =~= spaces(((old_view.len() + 1) - ds.len()) as nat) + ds);
            }
        }
        proof {
            assert(out@ =~= pad_left(dec_digits((sc.tenths / 10) as nat), 4));
        }
        out
    } else {
        proof {
            reveal_strlit(".");
        }
        let frac = digit_str(sc.tenths % 10);
        let label = unit_label_str(sc.unit);
        let r = whole.concat(".").concat(frac).concat(label);
        proof {
            assert(r@ =~= scaled_text(sc.unit, sc.tenths as nat));
        }
        r
    }
}

/// A raw byte count, as handed over by the directory enumerator.
pub struct Size {
    pub value: u64,
}

impl Size {
    pub fn from_bytes(size: u64) -> (s: Size)
        ensures
            s.value == size,
    {
        Size { value: size }
    }

    /// Scales the byte count and renders it for the size column.
    pub fn to_display_string(&self) -> (r: String)
        ensures
            r@ == size_display_spec(self.value as nat),
    {
        let sc = scale_size(self.value);
        format_scaled(&sc)
    }
}

proof fn lemma_spaces_len(n: nat)
    ensures
        spaces(n).len() == n,
    decreases n,
{
    if n > 0 {
        lemma_spaces_len((n - 1) as nat);
    }
}

/// Bounded-width law: any count below 1024 stays at the byte unit and
/// renders as exactly four characters, so the size column stays
/// aligned across a listing.
pub proof fn lemma_byte_display_width(bytes: nat)
    requires
        bytes < 1024,
    ensures
        unit_index_spec(bytes) == 0,
        size_display_spec(bytes).len() == 4,
{
    lemma_pow1024_values();
    lemma_div_multiples_vanish(10 * bytes as int, 1);
    assert(scaled_tenths_spec(bytes) == 10 * bytes);
    lemma_div_multiples_vanish(bytes as int, 10);
    assert((10 * bytes) / 10 == bytes);
    crate::digits::lemma_dec_digits_len_at_most_4(bytes);
    lemma_spaces_len((4 - dec_digits(bytes).len()) as nat);
}

proof fn lemma_bytes_below_next_weight(bytes: nat)
    ensures
        bytes < 1024 * pow1024(unit_index_spec(bytes)),
    decreases bytes,
{
    if bytes < 1024 {
        lemma_pow1024_lower(unit_index_spec(bytes));
    } else {
        let q = bytes / 1024;
        lemma_bytes_below_next_weight(q);
        lemma_fundamental_div_mod(bytes as int, 1024);
        lemma_mod_bound(bytes as int, 1024);
        let w = pow1024(unit_index_spec(q));
        lemma_mul_inequality(q as int, 1024 * w - 1, 1024);
        assert(1024 * (q as int) <= 1024 * (1024 * (w as int) - 1));
        assert(pow1024(unit_index_spec(bytes)) == 1024 * w);
    }
}

proof fn lemma_bytes_at_least_weight(bytes: nat)
    requires
        unit_index_spec(bytes) >= 1,
    ensures
        bytes >= pow1024(unit_index_spec(bytes)),
    decreases bytes,
{
    let q = bytes / 1024;
    lemma_fundamental_div_mod(bytes as int, 1024);
    lemma_mod_bound(bytes as int, 1024);
    if unit_index_spec(q) == 0 {
        assert(pow1024(unit_index_spec(bytes)) == 1024 * pow1024(0));
    } else {
        lemma_bytes_at_least_weight(q);
        let w = pow1024(unit_index_spec(q));
        lemma_mul_inequality(w as int, q as int, 1024);
        assert((w as int) * 1024 <= (q as int) * 1024);
        assert(pow1024(unit_index_spec(bytes)) == 1024 * w);
    }
}

/// Magnitude-range law: the chosen unit keeps the scaled magnitude
/// below 1024 (1024.0 itself can appear through rounding alone), and
/// at every scaled unit the magnitude is at least 1.0.
pub proof fn lemma_scaled_magnitude_range(bytes: nat)
    ensures
        scaled_tenths_spec(bytes) <= 10240,
        unit_index_spec(bytes) == 0 ==> scaled_tenths_spec(bytes) == 10 * bytes,
        unit_index_spec(bytes) >= 1 ==> scaled_tenths_spec(bytes) >= 10,
{
    let n = unit_index_spec(bytes);
    let d = pow1024(n);
    lemma_pow1024_lower(n);
    lemma_bytes_below_next_weight(bytes);
    assert(((10 * bytes + d / 2) as int) < 10241 * (d as int));
    lemma_multiply_divide_lt((10 * bytes + d / 2) as int, d as int, 10241);
    if n == 0 {
        lemma_pow1024_values();
        lemma_div_multiples_vanish(10 * bytes as int, 1);
    } else {
        lemma_bytes_at_least_weight(bytes);
        lemma_mul_inequality(d as int, bytes as int, 10);
        lemma_div_multiples_vanish(10, d as int);
        assert((10 * (d as int)) / (d as int) == 10);
        vstd::arithmetic::div_mod::lemma_div_is_ordered(
            10 * (d as int),
            (10 * bytes + d / 2) as int,
            d as int,
        );
    }
}

/// Round-trip boundary law: one byte under the next unit's weight
/// still scales to the lower unit, and the weight itself advances,
/// for every step of the unit ladder.
pub proof fn lemma_scale_boundary(n: nat)
    requires
        1 <= n,
    ensures
        unit_index_spec((pow1024(n) - 1) as nat) == (n - 1) as nat,
        unit_index_spec(pow1024(n)) == n,
    decreases n,
{
    lemma_pow1024_lower(n);
    let p = pow1024((n - 1) as nat);
    lemma_pow1024_lower((n - 1) as nat);
    assert(pow1024(n) == 1024 * p);
    lemma_div_multiples_vanish(p as int, 1024);
    assert((pow1024(n) / 1024) as nat == p);
    if n == 1 {
        assert(unit_index_spec(1024) == 1 + unit_index_spec(1));
        assert(unit_index_spec(1023) == 0);
    } else {
        lemma_scale_boundary((n - 1) as nat);
        assert(unit_index_spec(pow1024(n)) == 1 + unit_index_spec(pow1024((n - 1) as nat)));
        lemma_fundamental_div_mod_converse(1024 * p - 1, 1024, p as int - 1, 1023);
        assert(((pow1024(n) - 1) as int / 1024) as nat == (p - 1) as nat);
        assert(pow1024(n) - 1 >= 1024);
        assert(unit_index_spec((pow1024(n) - 1) as nat) == 1 + unit_index_spec((p - 1) as nat));
    }
}

} // verus!
