//! Interpretation of the answer a user types at the per-project cleaning
//! prompt.

use vstd::prelude::*;

verus! {

/// What an answer at the cleaning prompt asks for.
#[derive(Debug, Clone, Copy, PartialEq, Eq, Structural)]
pub enum PromptAnswer {
    /// Clean this project.
    Yes,
    /// Leave this project alone.
    No,
    /// Clean this project and all that follow.
    All,
    /// Stop asking and exit.
    Quit,
    /// None of the known answers; the project is skipped.
    Invalid,
}

/// Whether `c` is an ASCII whitespace character of the kind a typed answer
/// may carry around it.
pub open spec fn is_ascii_space(c: char) -> bool {
    c == ' ' || c == '\t' || c == '\n' || c == '\r'
}

/// `s` without its leading whitespace.
pub open spec fn trim_front(s: Seq<char>) -> Seq<char>
    decreases s.len(),
{
    if s.len() > 0 && is_ascii_space(s[0]) {
        trim_front(s.drop_first())
    } else {
        s
    }
}

/// `s` without its trailing whitespace.
pub open spec fn trim_back(s: Seq<char>) -> Seq<char>
    decreases s.len(),
{
    if s.len() > 0 && is_ascii_space(s[s.len() - 1]) {
        trim_back(s.drop_last())
    } else {
        s
    }
}

/// Case-insensitive equality of a typed character with a lowercase ASCII
/// pattern character.
pub open spec fn char_eq_ci(a: char, b: char) -> bool {
    a == b || (('A' as u32) <= (a as u32) && (a as u32) <= ('Z' as u32) && (a as u32) + 32 == (
    b as u32))
}

/// Case-insensitive equality of a typed word with a lowercase ASCII pattern
/// word.
pub open spec fn seq_eq_ci(s: Seq<char>, w: Seq<char>) -> bool {
    s.len() == w.len() && (forall|k: int| 0 <= k < s.len() ==> char_eq_ci(s[k], w[k]))
}

/// What a typed answer asks for: whitespace around it is ignored, letter
/// case is ignored, `y`/`yes` cleans, `n`/`no` and an empty answer skip,
/// `a`/`all` cleans everything, `q`/`quit` exits, and anything else counts
/// as invalid.
pub open spec fn spec_prompt_answer(input: Seq<char>) -> PromptAnswer {
    let t = trim_back(trim_front(input));
    if seq_eq_ci(t, "y"@) || seq_eq_ci(t, "yes"@) {
        PromptAnswer::Yes
    } else if t.len() == 0 || seq_eq_ci(t, "n"@) || seq_eq_ci(t, "no"@) {
        PromptAnswer::No
    } else if seq_eq_ci(t, "a"@) || seq_eq_ci(t, "all"@) {
        PromptAnswer::All
    } else if seq_eq_ci(t, "q"@) || seq_eq_ci(t, "quit"@) {
        PromptAnswer::Quit
    } else {
        PromptAnswer::Invalid
    }
}

proof fn lemma_trim_front(s: Seq<char>, b: int)
    requires
        0 <= b <= s.len(),
        forall|k: int| 0 <= k < b ==> is_ascii_space(s[k]),
        b == s.len() || !is_ascii_space(s[b]),
    ensures
        trim_front(s) == s.subrange(b, s.len() as int),
    decreases s.len(),
{
    if b == 0 {
        assert(s.subrange(0, s.len() as int) =~= s);
    } else {
        assert(is_ascii_space(s[0]));
        lemma_trim_front(s.drop_first(), b - 1);
        assert(s.drop_first().subrange(b - 1, s.len() - 1) =~= s.subrange(b, s.len() as int));
    }
}

proof fn lemma_trim_back(s: Seq<char>, e: int)
    requires
        0 <= e <= s.len(),
        forall|k: int| e <= k < s.len() ==> is_ascii_space(s[k]),
        e == 0 || !is_ascii_space(s[e - 1]),
    ensures
        trim_back(s) == s.subrange(0, e),
    decreases s.len(),
{
    if e < s.len() {
        assert(is_ascii_space(s[s.len() - 1]));
        lemma_trim_back(s.drop_last(), e);
        assert(s.drop_last().subrange(0, e) =~= s.subrange(0, e));
    } else {
        assert(s.subrange(0, e) =~= s);
    }
}

/// Checks a single character for ASCII whitespace.
fn is_space_char(c: char) -> (r: bool)
    ensures
        r == is_ascii_space(c),
{
    c == ' ' || c == '\t' || c == '\n' || c == '\r'
}

/// Compares the characters of `s` between `b` and `e` with a lowercase
/// pattern word, ignoring ASCII letter case.
fn range_eq_ci(s: &str, b: usize, e: usize, w: &str) -> (r: bool)
    requires
        b <= e <= s@.len(),
    ensures
        r == seq_eq_ci(s@.subrange(b as int, e as int), w@),
{
    let ghost t = s@.subrange(b as int, e as int);
    let wn = w.unicode_len();
    if e - b != wn {
        return false;
    }
    let mut k: usize = 0;
    while k < wn
        invariant
            b <= e <= s@.len(),
            wn == w@.len(),
            e - b == wn,
            k <= wn,
            t == s@.subrange(b as int, e as int),
            forall|j: int| 0 <= j < k ==> char_eq_ci(t[j], w@[j]),
        decreases wn - k,
    {
        let a = s.get_char(b + k);
        let c = w.get_char(k);
        proof {
            assert(t[k as int] == s@[b + k]);
        }
        let au = a as u32;
        let cu = c as u32;
        if !(a == c || (au >= 65 && au <= 90 && au + 32 == cu)) {
            proof {
                assert(!char_eq_ci(t[k as int], w@[k as int]));
            }
            return false;
        }
        k += 1;
    }
    true
}

/// Interprets the answer typed at the cleaning prompt.
pub fn interpret_prompt_answer(input: &str) -> (r: PromptAnswer)
    ensures
        r == spec_prompt_answer(input@),
{
    let n = input.unicode_len();
    let mut b: usize = 0;
    while b < n && is_space_char(input.get_char(b))
        invariant
            n == input@.len(),
            b <= n,
            forall|k: int| 0 <= k < b ==> is_ascii_space(input@[k]),
        decreases n - b,
    {
        b += 1;
    }
    let mut e: usize = n;
    while e > b && is_space_char(input.get_char(e - 1))
        invariant
            n == input@.len(),
            b <= e <= n,
            forall|k: int| e <= k < n ==> is_ascii_space(input@[k]),
        decreases e,
    {
        e -= 1;
    }
    proof {
        lemma_trim_front(input@, b as int);
        let fronted = trim_front(input@);
        if e == b {
            lemma_trim_back(fronted, 0);
        } else {
            lemma_trim_back(fronted, e - b);
        }
        assert(fronted.subrange(0, e - b) =~= input@.subrange(b as int, e as int));
        assert(trim_back(trim_front(input@)) == input@.subrange(b as int, e as int));
    }
    if range_eq_ci(input, b, e, "y") || range_eq_ci(input, b, e, "yes") {
        PromptAnswer::Yes
    } else if e == b || range_eq_ci(input, b, e, "n") || range_eq_ci(input, b, e, "no") {
        PromptAnswer::No
    } else if range_eq_ci(input, b, e, "a") || range_eq_ci(input, b, e, "all") {
        PromptAnswer::All
    } else if range_eq_ci(input, b, e, "q") || range_eq_ci(input, b, e, "quit") {
        PromptAnswer::Quit
    } else {
        PromptAnswer::Invalid
    }
}

} // verus!
