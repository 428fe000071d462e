//! Configuration for a scan of a directory tree: the walk options, the
//! decisions a scan takes while walking, and the parser for the age filter
//! given on the command line.

use vstd::prelude::*;
use vstd::arithmetic::div_mod::lemma_fundamental_div_mod;
use crate::format::{DAY, HOUR, MINUTE, MONTH, WEEK, YEAR};

verus! {

/// Options that govern how a directory tree is walked and which projects a
/// scan reports.
#[derive(Debug, Clone)]
pub struct ScanOptions {
    /// Whether symbolic links are followed during the walk.
    pub follow_symlinks: bool,
    /// Whether the walk stays on the filesystem of the starting point.
    pub same_filesystem: bool,
    /// Only projects whose last modification lies at least this many seconds
    /// in the past are reported; `0` disables the filter.
    pub min_age_seconds: u64,
}

impl Default for ScanOptions {
    /// The default scan: do not follow symlinks, stay on one filesystem,
    /// apply no age filter.
    fn default() -> (r: Self)
        ensures
            !r.follow_symlinks,
            r.same_filesystem,
            r.min_age_seconds == 0,
    {
        ScanOptions { follow_symlinks: false, same_filesystem: true, min_age_seconds: 0 }
    }
}

impl ScanOptions {
    /// Whether the age filter rejects a project whose last modification lies
    /// `elapsed_seconds` in the past (`None` when that time is unknown): only
    /// a known, too-recent modification is rejected, and only when a minimum
    /// age is set at all.
    pub fn too_recent(&self, elapsed_seconds: Option<u64>) -> (r: bool)
        ensures
            r == (self.min_age_seconds > 0 && (elapsed_seconds matches Some(e) && e
                < self.min_age_seconds)),
    {
        match elapsed_seconds {
            Option::Some(e) => self.min_age_seconds > 0 && e < self.min_age_seconds,
            Option::None => false,
        }
    }
}

/// Whether a directory name is hidden: it starts with a dot. A scan does not
/// look for projects inside hidden directories.
pub fn is_hidden_name(name: &str) -> (r: bool)
    ensures
        r == (name@.len() > 0 && name@[0] == '.'),
{
    if name.unicode_len() == 0 {
        false
    } else {
        name.get_char(0) == '.'
    }
}

/// Whether `c` is a decimal digit.
pub open spec fn is_ascii_digit(c: char) -> bool {
    ('0' as u32) <= (c as u32) && (c as u32) <= ('9' as u32)
}

/// The value of a decimal digit; zero for any other character.
pub open spec fn digit_val(c: char) -> nat {
    if is_ascii_digit(c) {
        ((c as u32) - ('0' as u32)) as nat
    } else {
        0
    }
}

/// Whether every character of `s` is a decimal digit.
pub open spec fn all_ascii_digits(s: Seq<char>) -> bool {
    forall|k: int| 0 <= k < s.len() ==> is_ascii_digit(s[k])
}

/// The number written in decimal by `s` (reading non-digits as zero).
pub open spec fn dec_value(s: Seq<char>) -> nat
    decreases s.len(),
{
    if s.len() == 0 {
        0
    } else {
        dec_value(s.drop_last()) * 10 + digit_val(s.last())
    }
}

/// The seconds named by an age-filter unit letter, if it is one.
pub open spec fn unit_seconds(c: char) -> Option<u64> {
    if c == 'm' {
        Some(MINUTE)
    } else if c == 'h' {
        Some(HOUR)
    } else if c == 'd' {
        Some(DAY)
    } else if c == 'w' {
        Some(WEEK)
    } else if c == 'M' {
        Some(MONTH)
    } else if c == 'y' {
        Some(YEAR)
    } else {
        None
    }
}

proof fn lemma_dec_value_prefix(s: Seq<char>, i: int)
    requires
        0 <= i <= s.len(),
    ensures
        dec_value(s.subrange(0, i)) <= dec_value(s),
    decreases s.len(),
{
    if i == s.len() {
        assert(s.subrange(0, i) =~= s);
    } else {
        lemma_dec_value_prefix(s.drop_last(), i);
        assert(s.drop_last().subrange(0, i) =~= s.subrange(0, i));
    }
}

/// Parses an age filter such as `30d` or `2w`: a decimal count followed by a
/// one-letter unit (`m`, `h`, `d`, `w`, `M`, `y`), giving the age in seconds,
/// saturated at the largest representable value. An empty filter, a count
/// that is missing, has a non-digit or does not fit, and an unknown unit are
/// each rejected with their own message.
pub fn parse_age_filter(input: &str) -> (r: Result<u64, String>)
    ensures
        ({
            let s = input@;
            if s.len() == 0 {
                r matches Err(m) && m@ == "Age filter cannot be empty"@
            } else {
                let num = s.drop_last();
                if num.len() == 0 || !all_ascii_digits(num) || dec_value(num) > u64::MAX {
                    r matches Err(m) && m@ == "Invalid number: "@ + num
                } else {
                    match unit_seconds(s.last()) {
                        Option::Some(mult) => {
                            let p = dec_value(num) * mult;
                            r matches Ok(v) && v == if p > u64::MAX as int {
                                u64::MAX as int
                            } else {
                                p
                            }
                        },
                        Option::None => r matches Err(m) && m@ == "Invalid unit: "@ + seq![
                            s.last(),
                        ] + ". Use m, h, d, w, M, or y"@,
                    }
                }
            }
        }),
{
    let n = input.unicode_len();
    if n == 0 {
        return Err("Age filter cannot be empty".to_owned());
    }
    let num_len = n - 1;
    let ghost num = input@.drop_last();
    proof {
        assert(num =~= input@.subrange(0, num_len as int));
    }
    let mut failed: bool = num_len == 0;
    let mut value: u64 = 0;
    let mut i: usize = 0;
    while i < num_len && !failed
        invariant
            n == input@.len(),
            n >= 1,
            num_len == n - 1,
            num == input@.subrange(0, num_len as int),
            i <= num_len,
            !failed ==> num_len > 0,
            !failed ==> (forall|k: int| 0 <= k < i ==> is_ascii_digit(input@[k])),
            !failed ==> value == dec_value(input@.subrange(0, i as int)),
            failed ==> (num.len() == 0 || !all_ascii_digits(num) || dec_value(num)
                > u64::MAX),
        decreases num_len - i,
    {
        let c = input.get_char(i);
        let cu = c as u32;
        proof {
            assert(input@.subrange(0, i + 1).drop_last() =~= input@.subrange(0, i as int));
            assert(input@.subrange(0, i + 1).last() == input@[i as int]);
        }
        if cu < 48 || cu > 57 {
            proof {
                assert(!is_ascii_digit(num[i as int]));
            }
            failed = true;
        } else {
            let d = (cu - 48) as u64;
            proof {
                assert(d == digit_val(input@[i as int]));
            }
            if value > (u64::MAX - d) / 10 {
                proof {
                    lemma_fundamental_div_mod((u64::MAX - d) as int, 10);
                    assert(10 * value + d > u64::MAX);
                    assert(num.subrange(0, i + 1) =~= input@.subrange(0, i + 1));
                    assert(dec_value(input@.subrange(0, i + 1)) == dec_value(
                        input@.subrange(0, i as int),
                    ) * 10 + digit_val(input@[i as int]));
                    lemma_dec_value_prefix(num, i + 1);
                    assert(dec_value(num) > u64::MAX);
                }
                failed = true;
            } else {
                proof {
                    lemma_fundamental_div_mod((u64::MAX - d) as int, 10);
                    assert(10 * value + d <= u64::MAX);
                }
                value = value * 10 + d;
            }
        }
        i += 1;
    }
    if failed {
        let num_str = input.substring_char(0, num_len);
        let mut m = "Invalid number: ".to_owned();
        m.append(num_str);
        proof {
            assert(m@ == "Invalid number: "@ + num);
        }
        return Err(m);
    }
    proof {
        assert(input@.subrange(0, num_len as int) =~= num);
        assert(all_ascii_digits(num));
        assert(value == dec_value(num));
    }
    let u = input.get_char(n - 1);
    proof {
        assert(input@[n - 1] == input@.last());
    }
    let mult: u64 = if u == 'm' {
        MINUTE
    } else if u == 'h' {
        HOUR
    } else if u == 'd' {
        DAY
    } else if u == 'w' {
        WEEK
    } else if u == 'M' {
        MONTH
    } else if u == 'y' {
        YEAR
    } else {
        let unit_str = input.substring_char(n - 1, n);
        proof {
            assert(unit_str@ =~= seq![input@.last()]);
        }
        let mut m = "Invalid unit: ".to_owned();
        m.append(unit_str);
        m.append(". Use m, h, d, w, M, or y");
        return Err(m);
    };
    match value.checked_mul(mult) {
        Option::Some(p) => Ok(p),
        Option::None => Ok(u64::MAX),
    }
}

} // verus!
