//! Sizes in bytes as people read them: `"512 B"`, `"12.34 MB"`.
//!
//! A size is first taken to 53 significant binary digits, then divided by
//! the largest power of 1024 that it reaches, and the quotient is shown with
//! two decimals. Sizes under 1024 are shown whole, and sizes beyond the
//! largest unit as a plain number of bytes.

use vstd::prelude::*;
use vstd::string::StringExecFns;
use crate::decimal::append_decimal;
use crate::decimal::append_padded_decimal;
use crate::decimal::decimal_text;
use crate::decimal::digit_char;
use crate::decimal::padded_decimal_text;

verus! {

/// The largest size that is shown scaled: 1024 to the sixth power.
pub const LARGEST_SCALED: u128 = 1152921504606846976;

/// `num / den` rounded to the nearest whole number, a tie going to the even
/// neighbour.
pub open spec fn round_half_even(num: nat, den: nat) -> nat {
    let q = num / den;
    let r = num % den;
    if 2 * r > den || (2 * r == den && q % 2 == 1) {
        q + 1
    } else {
        q
    }
}

/// The spacing of the values that 53 significant binary digits can hold
/// around `size`, for sizes up to the largest scaled one.
pub open spec fn granularity(size: nat) -> nat {
    if size < 9007199254740992 {
        1
    } else if size < 18014398509481984 {
        2
    } else if size < 36028797018963968 {
        4
    } else if size < 72057594037927936 {
        8
    } else if size < 144115188075855872 {
        16
    } else if size < 288230376151711744 {
        32
    } else if size < 576460752303423488 {
        64
    } else if size < 1152921504606846976 {
        128
    } else {
        256
    }
}

/// The value nearest to `size` that 53 significant binary digits can hold.
pub open spec fn to_precision(size: nat) -> nat {
    round_half_even(size, granularity(size)) * granularity(size)
}

/// The index of the unit in which a size is shown: the number of times it
/// can be divided by 1024 before it falls under 1024.
pub open spec fn unit_of(size: nat) -> nat {
    if size < 1024 {
        0
    } else if size < 1048576 {
        1
    } else if size < 1073741824 {
        2
    } else if size < 1099511627776 {
        3
    } else if size < 1125899906842624 {
        4
    } else if size < 1152921504606846976 {
        5
    } else {
        6
    }
}

/// The number of bytes in one unit: 1024 to the power of the unit's index.
pub open spec fn unit_scale(unit: nat) -> nat {
    if unit == 0 {
        1
    } else if unit == 1 {
        1024
    } else if unit == 2 {
        1048576
    } else if unit == 3 {
        1073741824
    } else if unit == 4 {
        1099511627776
    } else if unit == 5 {
        1125899906842624
    } else {
        1152921504606846976
    }
}

/// The name of a unit.
pub open spec fn unit_name(unit: nat) -> Seq<char> {
    if unit == 0 {
        seq!['B']
    } else if unit == 1 {
        seq!['K', 'B']
    } else if unit == 2 {
        seq!['M', 'B']
    } else if unit == 3 {
        seq!['G', 'B']
    } else if unit == 4 {
        seq!['T', 'B']
    } else if unit == 5 {
        seq!['P', 'B']
    } else {
        seq!['E', 'B']
    }
}

/// A size in hundredths of its unit, rounded to the nearest.
pub open spec fn hundredths(size: nat) -> nat {
    round_half_even(to_precision(size) * 100, unit_scale(unit_of(to_precision(size))))
}

/// A size as it is shown.
pub open spec fn readable_text(size: nat) -> Seq<char> {
    if size > LARGEST_SCALED || unit_of(to_precision(size)) == 0 {
        decimal_text(size) + seq![' ', 'B']
    } else {
        decimal_text(hundredths(size) / 100) + seq!['.'] + padded_decimal_text(
            hundredths(size) % 100,
            2,
        ) + seq![' '] + unit_name(unit_of(to_precision(size)))
    }
}

/// A size under 2 to the 53rd power is kept as it is.
pub proof fn lemma_small_sizes_are_precise(size: nat)
    requires
        size < 9007199254740992,
    ensures
        to_precision(size) == size,
{
}

/// A size under 1024 is shown whole, as a plain number of bytes.
pub proof fn lemma_sizes_under_1024_are_whole(size: nat)
    requires
        size < 1024,
    ensures
        readable_text(size) == decimal_text(size) + seq![' ', 'B'],
{
    lemma_small_sizes_are_precise(size);
}

/// A size from 1024 up to the largest scaled one is shown with two decimals
/// and the name of the unit that it reaches.
pub proof fn lemma_scaled_sizes_have_two_decimals(size: nat)
    requires
        1024 <= size <= LARGEST_SCALED,
    ensures
        1 <= unit_of(to_precision(size)) <= 6,
        readable_text(size) == decimal_text(hundredths(size) / 100) + seq!['.'] + seq![
            digit_char(hundredths(size) % 100 / 10),
            digit_char(hundredths(size) % 10),
        ] + seq![' '] + unit_name(unit_of(to_precision(size))),
{
    let g = granularity(size);
    assert(to_precision(size) >= 1024) by {
        assert(size / g * g >= 1024) by (nonlinear_arith)
            requires
                1 <= g <= 256,
                size >= 1024 * g,
        ;
        assert(round_half_even(size, g) >= size / g);
        assert(round_half_even(size, g) * g >= size / g * g) by (nonlinear_arith)
            requires
                round_half_even(size, g) >= size / g,
                g >= 1,
        ;
    }
    let h = hundredths(size);
    reveal_with_fuel(padded_decimal_text, 3);
    assert(h % 100 / 10 == h / 10 % 10);
    assert(padded_decimal_text(h % 100, 2) =~= seq![
        digit_char(h % 100 / 10),
        digit_char(h % 10),
    ]);
}

fn rounded_quotient(num: u128, den: u128) -> (q: u128)
    requires
        0 < den <= 0x1_0000_0000_0000_0000,
        num <= 0x1_0000_0000_0000_0000_0000,
    ensures
        q == round_half_even(num as nat, den as nat),
        q <= num + 1,
{
    let q: u128 = num / den;
    let r: u128 = num % den;
    if 2 * r > den || (2 * r == den && q % 2 == 1) {
        q + 1
    } else {
        q
    }
}

fn spacing(size: u128) -> (g: u128)
    ensures
        g == granularity(size as nat),
        1 <= g <= 256,
{
    if size < 9007199254740992 {
        1
    } else if size < 18014398509481984 {
        2
    } else if size < 36028797018963968 {
        4
    } else if size < 72057594037927936 {
        8
    } else if size < 144115188075855872 {
        16
    } else if size < 288230376151711744 {
        32
    } else if size < 576460752303423488 {
        64
    } else if size < 1152921504606846976 {
        128
    } else {
        256
    }
}

fn unit_index(size: u128) -> (unit: u8)
    ensures
        unit == unit_of(size as nat),
        unit <= 6,
{
    if size < 1024 {
        0
    } else if size < 1048576 {
        1
    } else if size < 1073741824 {
        2
    } else if size < 1099511627776 {
        3
    } else if size < 1125899906842624 {
        4
    } else if size < 1152921504606846976 {
        5
    } else {
        6
    }
}

fn bytes_per_unit(unit: u8) -> (scale: u128)
    ensures
        scale == unit_scale(unit as nat),
        1 <= scale <= 1152921504606846976,
{
    if unit == 0 {
        1
    } else if unit == 1 {
        1024
    } else if unit == 2 {
        1048576
    } else if unit == 3 {
        1073741824
    } else if unit == 4 {
        1099511627776
    } else if unit == 5 {
        1125899906842624
    } else {
        1152921504606846976
    }
}

fn unit_label(unit: u8) -> (name: &'static str)
    ensures
        name@ == unit_name(unit as nat),
{
    proof {
        reveal_strlit("B");
        reveal_strlit("KB");
        reveal_strlit("MB");
        reveal_strlit("GB");
        reveal_strlit("TB");
        reveal_strlit("PB");
        reveal_strlit("EB");
    }
    let name = if unit == 0 {
        "B"
    } else if unit == 1 {
        "KB"
    } else if unit == 2 {
        "MB"
    } else if unit == 3 {
        "GB"
    } else if unit == 4 {
        "TB"
    } else if unit == 5 {
        "PB"
    } else {
        "EB"
    };
    assert(name@ =~= unit_name(unit as nat));
    name
}

/// Appends a size, as it is shown, to `out`.
pub fn append_readable_size(out: &mut String, size: u128)
    ensures
        final(out)@ == old(out)@ + readable_text(size as nat),
{
    proof {
        reveal_strlit(" B");
        reveal_strlit(".");
        reveal_strlit(" ");
    }
    if size > LARGEST_SCALED {
        append_decimal(out, size);
        out.append(" B");
        assert(final(out)@ =~= old(out)@ + readable_text(size as nat));
        return ;
    }
    let g = spacing(size);
    let kept = rounded_quotient(size, g);
    assert(kept * g <= 1152921504606846977 * 256) by (nonlinear_arith)
        requires
            kept <= 1152921504606846977,
            g <= 256,
    ;
    let precise: u128 = kept * g;
    let unit = unit_index(precise);
    if unit == 0 {
        append_decimal(out, size);
        out.append(" B");
        assert(final(out)@ =~= old(out)@ + readable_text(size as nat));
    } else {
        let h = rounded_quotient(precise * 100, bytes_per_unit(unit));
        append_decimal(out, h / 100);
        out.append(".");
        append_padded_decimal(out, h % 100, 2);
        out.append(" ");
        out.append(unit_label(unit));
        assert(final(out)@ =~= old(out)@ + readable_text(size as nat));
    }
}

/// A size as it is shown: scaled to the largest unit that it reaches, with
/// two decimals; whole under 1024; a plain number of bytes beyond the largest
/// unit.
pub fn human_readable_size(size: usize) -> (text: String)
    ensures
        text@ == readable_text(size as nat),
{
    let mut text = String::from_str("");
    proof {
        reveal_strlit("");
    }
    append_readable_size(&mut text, size as u128);
    assert(text@ =~= readable_text(size as nat));
    text
}

} // verus!
