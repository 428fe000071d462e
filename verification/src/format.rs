//! Human-readable rendering of byte counts and elapsed times.

use vstd::prelude::*;
use vstd::arithmetic::div_mod::{
    lemma_div_by_multiple, lemma_div_is_ordered_by_denominator, lemma_div_multiples_vanish_fancy,
    lemma_fundamental_div_mod, lemma_fundamental_div_mod_converse, lemma_mod_multiples_vanish,
    lemma_multiply_divide_lt,
};
use crate::text::{dec_digits, u64_to_string};

verus! {

pub const KIB: u64 = 1024;

pub const MIB: u64 = 1024 * 1024;

pub const GIB: u64 = 1024 * 1024 * 1024;

pub const TIB: u64 = 1024 * 1024 * 1024 * 1024;

pub const PIB: u64 = 1024 * 1024 * 1024 * 1024 * 1024;

/// Which power of 1024 names the unit a byte count is shown in: the largest
/// that does not exceed it, capped at petabytes.
pub open spec fn size_unit_index(bytes: nat) -> nat {
    if bytes < KIB {
        0
    } else if bytes < MIB {
        1
    } else if bytes < GIB {
        2
    } else if bytes < TIB {
        3
    } else if bytes < PIB {
        4
    } else {
        5
    }
}

/// The divisor belonging to a unit index: the matching power of 1024.
pub open spec fn unit_divisor(i: nat) -> nat {
    if i == 0 {
        1
    } else if i == 1 {
        KIB as nat
    } else if i == 2 {
        MIB as nat
    } else if i == 3 {
        GIB as nat
    } else if i == 4 {
        TIB as nat
    } else {
        PIB as nat
    }
}

/// The unit label belonging to a unit index, with its leading space.
pub open spec fn unit_suffix(i: nat) -> Seq<char> {
    if i == 0 {
        " B"@
    } else if i == 1 {
        " KB"@
    } else if i == 2 {
        " MB"@
    } else if i == 3 {
        " GB"@
    } else if i == 4 {
        " TB"@
    } else {
        " PB"@
    }
}

/// The count of tenths shown for `bytes` in the unit with divisor `div`: the
/// quotient `10 * bytes / div`, rounded to the nearest integer with ties to
/// the even one — the rounding of IEEE binary formatting, which holds these
/// power-of-two quotients exactly for counts below 2^53 bytes.
pub open spec fn rounded_tenths(bytes: nat, div: nat) -> nat {
    let q = 10 * bytes;
    if 2 * (q % div) > div {
        q / div + 1
    } else if 2 * (q % div) == div {
        q / div + (q / div) % 2
    } else {
        q / div
    }
}

/// The rendering of a byte count: zero is `0 B`; otherwise the count divided
/// by its unit's power of 1024, rounded to tenths with ties to even, printed
/// with one decimal digit and the unit label.
pub open spec fn spec_format_size(bytes: nat) -> Seq<char> {
    if bytes == 0 {
        "0 B"@
    } else {
        let i = size_unit_index(bytes);
        let t = rounded_tenths(bytes, unit_divisor(i));
        dec_digits(t / 10) + "."@ + dec_digits(t % 10) + unit_suffix(i)
    }
}

/// Formats a byte count as a short human-readable string such as `1.5 KB`.
pub fn format_size(bytes: u64) -> (r: String)
    ensures
        r@ == spec_format_size(bytes as nat),
{
    if bytes == 0 {
        return "0 B".to_owned();
    }
    let (div, suffix): (u64, &'static str) = if bytes < KIB {
        (1, " B")
    } else if bytes < MIB {
        (KIB, " KB")
    } else if bytes < GIB {
        (MIB, " MB")
    } else if bytes < TIB {
        (GIB, " GB")
    } else if bytes < PIB {
        (TIB, " TB")
    } else {
        (PIB, " PB")
    };
    let whole = bytes / div;
    let rem = bytes % div;
    let rem10 = rem * 10;
    let frac = rem10 / div;
    let rbar = rem10 % div;
    proof {
        lemma_fundamental_div_mod(bytes as int, div as int);
        lemma_fundamental_div_mod(rem10 as int, div as int);
        lemma_multiply_divide_lt(rem10 as int, div as int, 10);
        assert(frac <= 9);
    }
    let tenths: u64 = if 2 * rbar > div {
        frac + 1
    } else if 2 * rbar == div {
        frac + frac % 2
    } else {
        frac
    };
    let ghost t = rounded_tenths(bytes as nat, div as nat) as int;
    proof {
        let q = 10 * (bytes as int);
        assert(q == (10 * (whole as int) + frac) * (div as int) + rbar) by (nonlinear_arith)
            requires
                q == 10 * (bytes as int),
                bytes == div * whole + rem,
                rem10 == rem * 10,
                rem10 == div * frac + rbar,
        ;
        lemma_fundamental_div_mod_converse(
            q,
            div as int,
            10 * (whole as int) + frac,
            rbar as int,
        );
        lemma_mod_multiples_vanish(5 * (whole as int), frac as int, 2);
        assert(2 * (5 * (whole as int)) + frac == 10 * (whole as int) + frac) by (nonlinear_arith);
        assert((q / (div as int)) % 2 == frac % 2);
        assert(t == 10 * (whole as int) + tenths);
        assert(tenths <= 10);
    }
    let (whole2, tenth): (u64, u64) = if tenths == 10 {
        proof {
            assert(div > 1);
            lemma_div_is_ordered_by_denominator(bytes as int, 2, div as int);
            assert(whole <= bytes as int / 2);
            assert(whole < u64::MAX);
        }
        (whole + 1, 0)
    } else {
        (whole, tenths)
    };
    proof {
        if tenths == 10 {
            lemma_div_by_multiple(whole2 as int, 10);
            assert(t == (whole2 as int) * 10);
            assert(t / 10 == whole2);
        } else {
            lemma_div_multiples_vanish_fancy(whole as int, tenths as int, 10);
            assert(t / 10 == whole2);
        }
        lemma_fundamental_div_mod(t as int, 10);
        assert(t % 10 == tenth);
    }
    let mut s = u64_to_string(whole2);
    s.append(".");
    let tenth_str = u64_to_string(tenth);
    s.append(tenth_str.as_str());
    s.append(suffix);
    proof {
        assert(s@ =~= spec_format_size(bytes as nat));
    }
    s
}

pub const MINUTE: u64 = 60;

pub const HOUR: u64 = 60 * 60;

pub const DAY: u64 = 60 * 60 * 24;

pub const WEEK: u64 = 60 * 60 * 24 * 7;

pub const MONTH: u64 = 60 * 60 * 24 * 30;

pub const YEAR: u64 = 60 * 60 * 24 * 365;

/// The number shown for an elapsed time: the count of the largest calendar
/// unit that fits it (seconds below a minute, then minutes, hours, days,
/// weeks, 30-day months, 365-day years).
pub open spec fn elapsed_value(seconds: nat) -> nat {
    if seconds < MINUTE {
        seconds
    } else if seconds < HOUR {
        seconds / (MINUTE as nat)
    } else if seconds < DAY {
        seconds / (HOUR as nat)
    } else if seconds < WEEK {
        seconds / (DAY as nat)
    } else if seconds < MONTH {
        seconds / (WEEK as nat)
    } else if seconds < YEAR {
        seconds / (MONTH as nat)
    } else {
        seconds / (YEAR as nat)
    }
}

/// The unit word shown for an elapsed time, in the singular.
pub open spec fn elapsed_unit(seconds: nat) -> Seq<char> {
    if seconds < MINUTE {
        "second"@
    } else if seconds < HOUR {
        "minute"@
    } else if seconds < DAY {
        "hour"@
    } else if seconds < WEEK {
        "day"@
    } else if seconds < MONTH {
        "week"@
    } else if seconds < YEAR {
        "month"@
    } else {
        "year"@
    }
}

/// The rendering of an elapsed time: the value, the unit word with an `s`
/// unless the value is exactly one, and `ago`.
pub open spec fn spec_format_elapsed_time(seconds: nat) -> Seq<char> {
    dec_digits(elapsed_value(seconds)) + " "@ + elapsed_unit(seconds) + (if elapsed_value(seconds)
        == 1 {
        Seq::<char>::empty()
    } else {
        "s"@
    }) + " ago"@
}

/// Formats an elapsed time in seconds as a phrase such as `2 days ago`.
pub fn format_elapsed_time(seconds: u64) -> (r: String)
    ensures
        r@ == spec_format_elapsed_time(seconds as nat),
{
    let (value, unit): (u64, &'static str) = if seconds < MINUTE {
        (seconds, "second")
    } else if seconds < HOUR {
        (seconds / MINUTE, "minute")
    } else if seconds < DAY {
        (seconds / HOUR, "hour")
    } else if seconds < WEEK {
        (seconds / DAY, "day")
    } else if seconds < MONTH {
        (seconds / WEEK, "week")
    } else if seconds < YEAR {
        (seconds / MONTH, "month")
    } else {
        (seconds / YEAR, "year")
    };
    let mut s = u64_to_string(value);
    s.append(" ");
    s.append(unit);
    if value != 1 {
        s.append("s");
    }
    s.append(" ago");
    proof {
        assert(s@ =~= spec_format_elapsed_time(seconds as nat));
    }
    s
}

} // verus!
