//! Decimal rendering of unsigned integers, shared by the size scaler,
//! the identity resolver's numeric fallback and the link-count field.

use vstd::prelude::*;

verus! {

use vstd::string::StringExecFns;

/// The character for a single decimal digit.
pub open spec fn digit_char(d: nat) -> char {
    if d == 0 {
        '0'
    } else if d == 1 {
        '1'
    } else if d == 2 {
        '2'
    } else if d == 3 {
        '3'
    } else if d == 4 {
        '4'
    } else if d == 5 {
        '5'
    } else if d == 6 {
        '6'
    } else if d == 7 {
        '7'
    } else if d == 8 {
        '8'
    } else {
        '9'
    }
}

/// The usual decimal notation of `n`, most significant digit first,
/// with no leading zeros (a single `'0'` for zero itself).
pub open spec fn dec_digits(n: nat) -> Seq<char>
    decreases n,
{
    if n < 10 {
        seq![digit_char(n)]
    } else {
        dec_digits(n / 10) + seq![digit_char(n % 10)]
    }
}

/// The digit characters of the collected remainders, least significant
/// remainder last (the remainders arrive least significant first).
spec fn rev_digit_chars(ds: Seq<u64>) -> Seq<char> {
    Seq::new(ds.len(), |i: int| digit_char(ds[ds.len() - 1 - i] as nat))
}

/// A one-character string for a single decimal digit.
pub(crate) fn digit_str(d: u64) -> (r: &'static str)
    requires
        d < 10,
    ensures
        r@ == seq![digit_char(d as nat)],
{
    proof {
        reveal_strlit("0");
        reveal_strlit("1");
        reveal_strlit("2");
        reveal_strlit("3");
        reveal_strlit("4");
        reveal_strlit("5");
        reveal_strlit("6");
        reveal_strlit("7");
        reveal_strlit("8");
        reveal_strlit("9");
    }
    if d == 0 {
        "0"
    } else if d == 1 {
        "1"
    } else if d == 2 {
        "2"
    } else if d == 3 {
        "3"
    } else if d == 4 {
        "4"
    } else if d == 5 {
        "5"
    } else if d == 6 {
        "6"
    } else if d == 7 {
        "7"
    } else if d == 8 {
        "8"
    } else {
        "9"
    }
}

/// Renders `n` in decimal.
pub fn u64_to_dec(n: u64) -> (r: String)
    ensures
        r@ == dec_digits(n as nat),
{
    let mut rest: u64 = n;
    let mut ds: Vec<u64> = Vec::new();
    if n == 0 {
        proof {
            reveal_strlit("0");
        }
        return String::from_str("0");
    }
    while rest > 0
        invariant
            n > 0,
            forall|j: int| 0 <= j < ds.len() ==> ds[j] < 10,
            rest > 0 ==> dec_digits(n as nat) == dec_digits(rest as nat) + rev_digit_chars(ds@),
            rest == 0 ==> dec_digits(n as nat) == rev_digit_chars(ds@),
        decreases rest,
    {
        let ghost old_rest = rest;
        let ghost old_ds = ds@;
        let d = rest % 10;
        ds.push(d);
        rest = rest / 10;
        proof {
            assert(rev_digit_chars(old_ds.push(d)) =~= seq![digit_char(d as nat)]
                + rev_digit_chars(old_ds));
            if old_rest < 10 {
                assert(dec_digits(old_rest as nat) == seq![digit_char(old_rest as nat)]);
                assert(d == old_rest);
                assert(dec_digits(n as nat) =~= rev_digit_chars(ds@));
            } else {
                assert(dec_digits(old_rest as nat) == dec_digits((old_rest / 10) as nat)
                    + seq![digit_char((old_rest % 10) as nat)]);
                assert(dec_digits(n as nat) =~= dec_digits(rest as nat) + rev_digit_chars(ds@));
            }
        }
    }
    let mut out = String::new();
    let mut i: usize = ds.len();
    while i > 0
        invariant
            i <= ds.len(),
            forall|j: int| 0 <= j < ds.len() ==> ds[j] < 10,
            out@ == rev_digit_chars(ds@).subrange(0, ds.len() - i),
        decreases i,
    {
        let ghost old_out = out@;
        i = i - 1;
        out.append(digit_str(ds[i]));
        proof {
            assert(rev_digit_chars(ds@)[ds@.len() - 1 - i] == digit_char(ds@[i as int] as nat));
            assert(out@ =~= rev_digit_chars(ds@).subrange(0, ds.len() - i));
        }
    }
    proof {
        assert(out@ =~= rev_digit_chars(ds@));
    }
    out
}

/// Numbers below `10^k` take at most `k` digits; stated here for the
/// four-character size column, whose raw byte case never exceeds 1023.
pub proof fn lemma_dec_digits_len_at_most_4(n: nat)
    ensures
        n < 10 ==> dec_digits(n).len() == 1,
        n < 100 ==> dec_digits(n).len() <= 2,
        n < 1000 ==> dec_digits(n).len() <= 3,
        n < 10000 ==> dec_digits(n).len() <= 4,
    decreases n,
{
    if n >= 10 {
        lemma_dec_digits_len_at_most_4(n / 10);
    }
}

} // verus!
