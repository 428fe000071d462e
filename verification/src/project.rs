//! A detected project, the size of its build artifacts, and the summary of a
//! best-effort deletion pass over them.

use vstd::prelude::*;
use vstd::multiset::Multiset;
use crate::project_type::ProjectType;
use crate::text::{dec_digits, str_eq, u64_to_string};

verus! {

/// A development project found during a scan.
#[derive(Debug, Clone)]
pub struct Project {
    /// The type of project detected.
    pub project_type: ProjectType,
    /// The root path of the project.
    pub path: String,
}

/// Whether the last character of `s` only ends a path, never a file name: a
/// `/`, or a `.` that is a whole path component.
pub open spec fn tail_is_ignored(s: Seq<char>) -> bool {
    s.len() > 0 && (s[s.len() - 1] == '/' || (s[s.len() - 1] == '.' && (s.len() == 1 || s[s.len()
        - 2] == '/')))
}

/// `s` with every trailing `/` and every trailing `.` path component
/// removed, as path resolution ignores both at the end of a path.
pub open spec fn strip_ignored_tail(s: Seq<char>) -> Seq<char>
    decreases s.len(),
{
    if tail_is_ignored(s) {
        strip_ignored_tail(s.drop_last())
    } else {
        s
    }
}

/// The characters of `s` after its last `/` (all of `s` when it has none).
pub open spec fn after_last_slash(s: Seq<char>) -> Seq<char>
    decreases s.len(),
{
    if s.len() == 0 {
        s
    } else if s[s.len() - 1] == '/' {
        Seq::empty()
    } else {
        after_last_slash(s.drop_last()).push(s[s.len() - 1])
    }
}

/// The name a project is shown under: the last `/`-separated component of its
/// path, ignoring trailing slashes and trailing `.` components; `Unknown`
/// when that leaves nothing or a `..` component.
pub open spec fn spec_display_name(path: Seq<char>) -> Seq<char> {
    let name = after_last_slash(strip_ignored_tail(path));
    if name.len() == 0 || name == ".."@ {
        "Unknown"@
    } else {
        name
    }
}

proof fn lemma_after_last_slash(s: Seq<char>, b: int)
    requires
        0 <= b <= s.len(),
        forall|k: int| b <= k < s.len() ==> s[k] != '/',
        b == 0 || s[b - 1] == '/',
    ensures
        after_last_slash(s) == s.subrange(b, s.len() as int),
    decreases s.len(),
{
    if s.len() == 0 {
        assert(s.subrange(b, s.len() as int) =~= s);
    } else if s[s.len() - 1] == '/' {
        assert(b == s.len());
        assert(s.subrange(b, s.len() as int) =~= Seq::<char>::empty());
    } else {
        assert(b < s.len());
        lemma_after_last_slash(s.drop_last(), b);
        assert(s.drop_last().subrange(b, s.len() - 1) =~= s.subrange(b, s.len() - 1));
        assert(s.subrange(b, s.len() - 1).push(s[s.len() - 1]) =~= s.subrange(b, s.len() as int));
    }
}

/// The sum of a sequence of sizes, as an unbounded integer.
pub open spec fn sum_of(sizes: Seq<u64>) -> int
    decreases sizes.len(),
{
    if sizes.len() == 0 {
        0
    } else {
        sum_of(sizes.drop_last()) + sizes.last()
    }
}

/// Sums a list of byte counts, saturating at the largest representable
/// total.
pub fn sum_sizes(sizes: &Vec<u64>) -> (r: u64)
    ensures
        ({
            let s = sum_of(sizes@);
            if s <= u64::MAX as int {
                r == s
            } else {
                r == u64::MAX
            }
        }),
{
    let n = sizes.len();
    let mut total: u64 = 0;
    let mut i: usize = 0;
    while i < n
        invariant
            n == sizes@.len(),
            i <= n,
            ({
                let ps = sum_of(sizes@.subrange(0, i as int));
                if ps <= u64::MAX as int {
                    total == ps
                } else {
                    total == u64::MAX
                }
            }),
        decreases n - i,
    {
        proof {
            assert(sizes@.subrange(0, i + 1).drop_last() =~= sizes@.subrange(0, i as int));
        }
        total = total.saturating_add(sizes[i]);
        i += 1;
    }
    proof {
        assert(sizes@.subrange(0, n as int) =~= sizes@);
    }
    total
}

/// Checks whether the first `e` characters of `p` end in a character that
/// path resolution ignores.
fn ignored_tail_at(p: &str, e: usize) -> (r: bool)
    requires
        e <= p@.len(),
    ensures
        r == tail_is_ignored(p@.subrange(0, e as int)),
{
    if e == 0 {
        return false;
    }
    let c = p.get_char(e - 1);
    if c == '/' {
        return true;
    }
    if c != '.' {
        return false;
    }
    e == 1 || p.get_char(e - 2) == '/'
}

impl Project {
    /// Creates a new Project instance.
    pub fn new(project_type: ProjectType, path: String) -> (r: Self)
        ensures
            r.project_type == project_type,
            r.path == path,
    {
        Project { project_type, path }
    }

    /// Returns the display name of the project (usually the directory name).
    pub fn display_name(&self) -> (r: String)
        ensures
            r@ == spec_display_name(self.path@),
    {
        let p = self.path.as_str();
        let n = p.unicode_len();
        proof {
            assert(p@.subrange(0, n as int) =~= p@);
        }
        let mut e: usize = n;
        while ignored_tail_at(p, e)
            invariant
                n == p@.len(),
                e <= n,
                strip_ignored_tail(p@) == strip_ignored_tail(p@.subrange(0, e as int)),
            decreases e,
        {
            proof {
                assert(p@.subrange(0, e as int).drop_last() =~= p@.subrange(0, e - 1));
            }
            e -= 1;
        }
        let ghost t = p@.subrange(0, e as int);
        proof {
            assert(strip_ignored_tail(t) == t);
            assert(strip_ignored_tail(p@) == t);
        }
        let mut b: usize = e;
        while b > 0 && p.get_char(b - 1) != '/'
            invariant
                n == p@.len(),
                b <= e <= n,
                forall|k: int| b <= k < e ==> p@[k] != '/',
            decreases b,
        {
            b -= 1;
        }
        proof {
            lemma_after_last_slash(t, b as int);
            assert(t.subrange(b as int, t.len() as int) =~= p@.subrange(b as int, e as int));
        }
        let name = p.substring_char(b, e);
        if name.unicode_len() == 0 || str_eq(name, "..") {
            "Unknown".to_owned()
        } else {
            name.to_owned()
        }
    }

    /// Sums the sizes of this project's artifact directories, one size per
    /// entry of [`ProjectType::artifact_directories`] (zero for a directory
    /// that does not exist), saturating at the largest representable total.
    pub fn calculate_artifact_size(&self, artifact_sizes: &Vec<u64>) -> (r: u64)
        requires
            artifact_sizes@.len() == self.project_type.spec_artifact_dirs().len(),
        ensures
            ({
                let s = sum_of(artifact_sizes@);
                if s <= u64::MAX as int {
                    r == s
                } else {
                    r == u64::MAX
                }
            }),
    {
        sum_sizes(artifact_sizes)
    }
}

/// The latest of a base instant and a list of instants, each given as
/// nanoseconds since an epoch.
pub open spec fn latest_of(base: u128, times: Seq<u128>) -> u128
    decreases times.len(),
{
    if times.len() == 0 {
        base
    } else {
        let rest = latest_of(base, times.drop_last());
        if times.last() > rest {
            times.last()
        } else {
            rest
        }
    }
}

/// Picks the latest of a base instant and a list of instants: the time a
/// project was last modified is the latest modification time seen anywhere
/// under its root.
pub fn latest_time(base: u128, times: &Vec<u128>) -> (r: u128)
    ensures
        r == latest_of(base, times@),
{
    let n = times.len();
    let mut latest = base;
    let mut i: usize = 0;
    while i < n
        invariant
            n == times@.len(),
            i <= n,
            latest == latest_of(base, times@.subrange(0, i as int)),
        decreases n - i,
    {
        proof {
            assert(times@.subrange(0, i + 1).drop_last() =~= times@.subrange(0, i as int));
        }
        if times[i] > latest {
            latest = times[i];
        }
        i += 1;
    }
    proof {
        assert(times@.subrange(0, n as int) =~= times@);
    }
    latest
}

/// One recorded attempt to remove an artifact directory: its path, the bytes
/// it held when the attempt was made, and the error message if removal
/// failed.
#[derive(Debug, Clone)]
pub struct DeleteAttempt {
    /// The path of the artifact directory.
    pub path: String,
    /// The directory's size in bytes, measured before the attempt.
    pub size: u64,
    /// `None` when the directory was removed; otherwise the error message.
    pub error: Option<String>,
}

/// Errors that can occur while cleaning a project's artifacts.
#[derive(Debug)]
pub enum CleanError {
    /// Complete failure to clean.
    IoError(String),
    /// Some directories were cleaned, but others failed.
    PartialFailure {
        /// Bytes freed by the attempts that succeeded.
        deleted: u64,
        /// The path and error message of each attempt that failed.
        errors: Vec<(String, String)>,
    },
}

impl CleanError {
    /// The message shown for this error.
    pub open spec fn spec_describe(&self) -> Seq<char> {
        match self {
            CleanError::IoError(m) => "Clean error: "@ + m@,
            CleanError::PartialFailure { deleted, errors } => "Partially cleaned ("@ + dec_digits(
                *deleted as nat,
            ) + " bytes), "@ + dec_digits(errors@.len()) + " errors occurred"@,
        }
    }

    /// Renders the error as one line of text.
    pub fn describe(&self) -> (r: String)
        ensures
            r@ == self.spec_describe(),
    {
        match self {
            CleanError::IoError(m) => {
                let mut s = "Clean error: ".to_owned();
                s.append(m.as_str());
                s
            },
            CleanError::PartialFailure { deleted, errors } => {
                let mut s = "Partially cleaned (".to_owned();
                let d = u64_to_string(*deleted);
                s.append(d.as_str());
                s.append(" bytes), ");
                let n = u64_to_string(errors.len() as u64);
                s.append(n.as_str());
                s.append(" errors occurred");
                proof {
                    assert(s@ =~= self.spec_describe());
                }
                s
            },
        }
    }
}

/// The bytes freed by the successful attempts of a deletion pass.
pub open spec fn freed_sum(attempts: Seq<DeleteAttempt>) -> int
    decreases attempts.len(),
{
    if attempts.len() == 0 {
        0
    } else {
        freed_sum(attempts.drop_last()) + if attempts.last().error is None {
            attempts.last().size as int
        } else {
            0
        }
    }
}

/// The path and message of each failed attempt of a deletion pass, in order.
pub open spec fn failures_of(attempts: Seq<DeleteAttempt>) -> Seq<(Seq<char>, Seq<char>)>
    decreases attempts.len(),
{
    if attempts.len() == 0 {
        Seq::empty()
    } else {
        failures_of(attempts.drop_last()) + match attempts.last().error {
            Some(m) => seq![(attempts.last().path@, m@)],
            None => Seq::empty(),
        }
    }
}

/// Summarises a deletion pass over a project's artifact directories: the
/// bytes freed (saturating) when every attempt succeeded, and otherwise a
/// partial-failure error carrying the freed bytes and every failure.
pub fn clean_outcome(attempts: &Vec<DeleteAttempt>) -> (r: Result<u64, CleanError>)
    ensures
        ({
            let fails = failures_of(attempts@);
            let s = freed_sum(attempts@);
            let freed: int = if s <= u64::MAX as int {
                s
            } else {
                u64::MAX as int
            };
            if fails.len() == 0 {
                r matches Ok(d) && d == freed
            } else {
                r matches Err(CleanError::PartialFailure { deleted, errors }) && deleted == freed
                    && errors.deep_view() == fails
            }
        }),
{
    let n = attempts.len();
    let mut freed: u64 = 0;
    let mut errors: Vec<(String, String)> = Vec::new();
    let mut i: usize = 0;
    while i < n
        invariant
            n == attempts@.len(),
            i <= n,
            ({
                let ps = freed_sum(attempts@.subrange(0, i as int));
                if ps <= u64::MAX as int {
                    freed == ps
                } else {
                    freed == u64::MAX
                }
            }),
            errors.deep_view() == failures_of(attempts@.subrange(0, i as int)),
        decreases n - i,
    {
        proof {
            assert(attempts@.subrange(0, i + 1).drop_last() =~= attempts@.subrange(0, i as int));
            assert(attempts@.subrange(0, i + 1).last() == attempts@[i as int]);
        }
        let a = &attempts[i];
        match &a.error {
            Option::None => {
                freed = freed.saturating_add(a.size);
            },
            Option::Some(m) => {
                let ghost old_errors = errors.deep_view();
                errors.push((a.path.clone(), m.clone()));
                proof {
                    assert(errors.deep_view() =~= old_errors.push((a.path@, m@)));
                    assert(errors.deep_view() =~= failures_of(attempts@.subrange(0, i + 1)));
                }
            },
        }
        i += 1;
    }
    proof {
        assert(attempts@.subrange(0, n as int) =~= attempts@);
    }
    if errors.len() == 0 {
        proof {
            assert(errors.deep_view() =~= Seq::<(Seq<char>, Seq<char>)>::empty());
        }
        Ok(freed)
    } else {
        Err(CleanError::PartialFailure { deleted: freed, errors })
    }
}

/// Whether a listing of projects with their artifact sizes is ordered
/// largest first.
pub open spec fn sorted_by_size_desc(s: Seq<(Project, u64)>) -> bool {
    forall|i: int, j: int| 0 <= i < j < s.len() ==> s[i].1 >= s[j].1
}

/// The index of the first entry with the largest artifact size.
pub open spec fn first_max_index(s: Seq<(Project, u64)>) -> int
    decreases s.len(),
{
    if s.len() <= 1 {
        0
    } else {
        let j = first_max_index(s.drop_last());
        if s[s.len() - 1].1 > s[j].1 {
            s.len() - 1
        } else {
            j
        }
    }
}

proof fn lemma_first_max_index(s: Seq<(Project, u64)>)
    requires
        s.len() > 0,
    ensures
        0 <= first_max_index(s) < s.len(),
        forall|k: int| 0 <= k < s.len() ==> s[first_max_index(s)].1 >= #[trigger] s[k].1,
        forall|k: int| 0 <= k < first_max_index(s) ==> s[first_max_index(s)].1 > #[trigger] s[k].1,
    decreases s.len(),
{
    if s.len() > 1 {
        let d = s.drop_last();
        lemma_first_max_index(d);
        let j = first_max_index(d);
        let i = first_max_index(s);
        assert forall|k: int| 0 <= k < s.len() implies s[i].1 >= #[trigger] s[k].1 by {
            if k < s.len() - 1 {
                assert(d[k] == s[k]);
                assert(d[j].1 >= d[k].1);
            }
        }
        assert forall|k: int| 0 <= k < i implies s[i].1 > #[trigger] s[k].1 by {
            assert(d[k] == s[k]);
            if i == s.len() - 1 {
                assert(d[j].1 >= d[k].1);
            } else {
                assert(d[j].1 > d[k].1);
            }
        }
    }
}

/// The stable descending order of a listing: the first entry of largest
/// size, then the rest in the same order.
pub open spec fn spec_sort_by_size(s: Seq<(Project, u64)>) -> Seq<(Project, u64)>
    decreases s.len(),
    via spec_sort_by_size_decreases
{
    if s.len() == 0 {
        Seq::empty()
    } else {
        seq![s[first_max_index(s)]] + spec_sort_by_size(s.remove(first_max_index(s)))
    }
}

#[via_fn]
proof fn spec_sort_by_size_decreases(s: Seq<(Project, u64)>) {
    if s.len() > 0 {
        lemma_first_max_index(s);
    }
}

/// Orders projects by artifact size, largest first; the result holds exactly
/// the given projects, and projects of equal size keep their scan order.
pub fn sort_projects_by_size(projects: Vec<(Project, u64)>) -> (r: Vec<(Project, u64)>)
    ensures
        r@ == spec_sort_by_size(projects@),
        r@.to_multiset() == projects@.to_multiset(),
        r@.len() == projects@.len(),
        sorted_by_size_desc(r@),
{
    broadcast use vstd::seq_lib::group_to_multiset_ensures;

    let ghost orig = projects@;
    let mut v = projects;
    let mut out: Vec<(Project, u64)> = Vec::new();
    proof {
        assert(out@.to_multiset().add(v@.to_multiset()) =~= orig.to_multiset());
        assert(out@ + spec_sort_by_size(v@) =~= spec_sort_by_size(orig));
    }
    while v.len() > 0
        invariant
            out@.to_multiset().add(v@.to_multiset()) == orig.to_multiset(),
            out@ + spec_sort_by_size(v@) == spec_sort_by_size(orig),
            out@.len() + v@.len() == orig.len(),
            sorted_by_size_desc(out@),
            forall|i: int, j: int|
                0 <= i < out@.len() && 0 <= j < v@.len() ==> out@[i].1 >= v@[j].1,
        decreases v.len(),
    {
        let mut best: usize = 0;
        let mut k: usize = 1;
        while k < v.len()
            invariant
                v@.len() > 0,
                best < k <= v@.len(),
                forall|j: int| 0 <= j < k ==> v@[best as int].1 >= v@[j].1,
                forall|j: int| 0 <= j < best ==> v@[best as int].1 > v@[j].1,
            decreases v@.len() - k,
        {
            if v[k].1 > v[best].1 {
                best = k;
            }
            k += 1;
        }
        let ghost pre_v = v@;
        let ghost pre_out = out@;
        proof {
            lemma_first_max_index(pre_v);
            let fmi = first_max_index(pre_v);
            if fmi < best {
                assert(pre_v[best as int].1 > pre_v[fmi].1);
                assert(pre_v[fmi].1 >= pre_v[best as int].1);
            }
            if best < fmi {
                assert(pre_v[fmi].1 > pre_v[best as int].1);
                assert(pre_v[best as int].1 >= pre_v[fmi].1);
            }
            assert(fmi == best as int);
        }
        let item = v.remove(best);
        out.push(item);
        proof {
            pre_v.to_multiset_ensures();
            pre_out.to_multiset_ensures();
            assert(pre_v[best as int] == item);
            assert(spec_sort_by_size(pre_v) == seq![item] + spec_sort_by_size(
                pre_v.remove(best as int),
            ));
            assert(v@ == pre_v.remove(best as int));
            assert(pre_out + spec_sort_by_size(pre_v) =~= out@ + spec_sort_by_size(v@));
            assert(pre_v.contains(item));
            assert(pre_v.to_multiset().count(item) > 0);
            assert(v@.to_multiset() =~= pre_v.to_multiset().remove(item));
            assert(out@.to_multiset() =~= pre_out.to_multiset().insert(item));
            assert(out@.to_multiset().add(v@.to_multiset()) =~= orig.to_multiset());
            assert forall|j: int| 0 <= j < v@.len() implies item.1 >= v@[j].1 by {
                if j < best {
                    assert(v@[j] == pre_v[j]);
                } else {
                    assert(v@[j] == pre_v[j + 1]);
                }
            }
            assert forall|i: int, j: int|
                0 <= i < out@.len() && 0 <= j < v@.len() implies out@[i].1 >= v@[j].1 by {
                if i < pre_out.len() {
                    assert(out@[i] == pre_out[i]);
                } else {
                    assert(out@[i] == item);
                }
            }
        }
    }
    proof {
        v@.to_multiset_ensures();
        assert(v@.to_multiset() =~= Multiset::<(Project, u64)>::empty());
        assert(out@.to_multiset() =~= orig.to_multiset());
        assert(out@ + spec_sort_by_size(v@) =~= out@);
        assert(out@ =~= spec_sort_by_size(orig));
    }
    out
}

} // verus!
