//! Filtering files by property tests, as the companion filter tool does.
//!
//! The file system itself stays outside: the caller probes each file and
//! hands the plain answers in.  What lives here is everything that can be
//! decided from the path text and the probed values: which paths count as
//! hidden, what the displayed file name is, which permission bits grant
//! access, and how the configured tests combine into one verdict.

use vstd::prelude::*;

verus! {

/// A path, as the text it was given as.  Segments are the slash-separated
/// runs of the text; trailing slashes are ignored.
#[derive(Debug, Clone)]
pub struct File {
    path: String,
}

/// The path with its trailing slashes removed.
pub open spec fn trim_trailing_slashes(s: Seq<char>) -> Seq<char>
    decreases s.len(),
{
    if s.len() > 0 && s.last() == '/' {
        trim_trailing_slashes(s.drop_last())
    } else {
        s
    }
}

/// The text after the last slash.
pub open spec fn last_segment(s: Seq<char>) -> Seq<char>
    decreases s.len(),
{
    if s.len() == 0 {
        s
    } else if s.last() == '/' {
        Seq::empty()
    } else {
        last_segment(s.drop_last()).push(s.last())
    }
}

/// The file name a path displays as: its last segment, unless that names
/// the current or the parent directory or there is none.
pub open spec fn file_name_of(s: Seq<char>) -> Option<Seq<char>> {
    let seg = last_segment(trim_trailing_slashes(s));
    if seg.len() > 0 && seg != seq!['.'] && seg != seq!['.', '.'] {
        Some(seg)
    } else {
        Option::None
    }
}

/// A path is hidden when its last segment starts with a dot and is neither
/// the current nor the parent directory.
pub open spec fn hidden_path(s: Seq<char>) -> bool {
    let seg = last_segment(trim_trailing_slashes(s));
    seg.len() > 0 && seg[0] == '.' && seg != seq!['.'] && seg != seq!['.', '.']
}

impl File {
    pub fn new(path: String) -> (r: File)
        ensures
            r.path_view() == path@,
    {
        File { path }
    }

    pub fn from(string: String) -> (r: File)
        ensures
            r.path_view() == string@,
    {
        File { path: string }
    }

    /// The path text.
    pub closed spec fn path_view(&self) -> Seq<char> {
        self.path@
    }

    /// The path, for the caller to probe or print.
    pub fn path_string(&self) -> (r: &String)
        ensures
            r@ == self.path_view(),
    {
        &self.path
    }

    /// Whether the file's own name starts with a dot.
    pub fn is_hidden(&self) -> (r: bool)
        ensures
            r == hidden_path(self.path_view()),
    {
        let seg = self.last_segment_exec();
        let n = seg.as_str().unicode_len();
        if n == 0 {
            return false;
        }
        if seg.as_str().get_char(0) != '.' {
            return false;
        }
        if n == 1 {
            proof {
                assert(seg@ =~= seq!['.']);
            }
            return false;
        }
        if n == 2 && seg.as_str().get_char(1) == '.' {
            proof {
                assert(seg@ =~= seq!['.', '.']);
            }
            return false;
        }
        proof {
            assert(seg@ != seq!['.'] && seg@ != seq!['.', '.']);
        }
        true
    }

    /// The file trimmed down to its displayed name, when it has one.
    pub fn clone_with_path_as_file_name(&self) -> (r: Option<File>)
        ensures
            r matches Some(f) ==> file_name_of(self.path_view()) == Some(f.path_view()),
            r is None <==> file_name_of(self.path_view()) is None,
    {
        let seg = self.last_segment_exec();
        let n = seg.as_str().unicode_len();
        if n == 0 {
            return Option::None;
        }
        if n == 1 && seg.as_str().get_char(0) == '.' {
            proof {
                assert(seg@ =~= seq!['.']);
            }
            return Option::None;
        }
        if n == 2 && seg.as_str().get_char(0) == '.' && seg.as_str().get_char(1) == '.' {
            proof {
                assert(seg@ =~= seq!['.', '.']);
            }
            return Option::None;
        }
        proof {
            assert(seg@ != seq!['.'] && seg@ != seq!['.', '.']);
        }
        Some(File { path: seg })
    }

    /// The last slash-separated segment, with trailing slashes ignored.
    fn last_segment_exec(&self) -> (r: String)
        ensures
            r@ == last_segment(trim_trailing_slashes(self.path_view())),
    {
        let s = self.path.as_str();
        let n = s.unicode_len();
        let mut e: usize = n;
        proof {
            assert(s@.take(n as int) =~= s@);
        }
        while e > 0 && s.get_char(e - 1) == '/'
            invariant
                e <= n,
                n == s@.len(),
                trim_trailing_slashes(s@) == trim_trailing_slashes(s@.take(e as int)),
            decreases e,
        {
            proof {
                assert(s@.take(e as int).drop_last() =~= s@.take(e as int - 1));
            }
            e = e - 1;
        }
        proof {
            if e > 0 {
                assert(trim_trailing_slashes(s@.take(e as int)) == s@.take(e as int));
            } else {
                assert(s@.take(0) =~= Seq::<char>::empty());
            }
        }
        let mut b: usize = e;
        while b > 0 && s.get_char(b - 1) != '/'
            invariant
                b <= e <= n,
                n == s@.len(),
                last_segment(s@.take(e as int)) =~= last_segment(s@.take(b as int)) + s@.subrange(
                    b as int,
                    e as int,
                ),
            decreases b,
        {
            proof {
                assert(s@.take(b as int).drop_last() =~= s@.take(b as int - 1));
                assert(last_segment(s@.take(b as int)) == last_segment(s@.take(b as int - 1)).push(
                    s@[b as int - 1],
                ));
                assert(last_segment(s@.take(b as int - 1)) + s@.subrange(b as int - 1, e as int)
                    =~= last_segment(s@.take(b as int)) + s@.subrange(b as int, e as int));
            }
            b = b - 1;
        }
        proof {
            if b > 0 {
                assert(last_segment(s@.take(b as int)) == Seq::<char>::empty()) by {
                    assert(s@.take(b as int).last() == '/');
                }
            } else {
                assert(s@.take(0) =~= Seq::<char>::empty());
            }
            assert(last_segment(s@.take(e as int)) =~= s@.subrange(b as int, e as int));
            assert(trim_trailing_slashes(s@) == s@.take(e as int));
        }
        s.substring_char(b, e).to_owned()
    }

    /// Whether the set-group-ID bit is on in a permission mode.
    pub fn has_set_group_id(mode: u32) -> (r: bool)
        ensures
            r == (mode & 0o2000 != 0),
    {
        mode & 0o2000 != 0
    }

    /// Whether the set-user-ID bit is on in a permission mode.
    pub fn has_set_user_id(mode: u32) -> (r: bool)
        ensures
            r == (mode & 0o4000 != 0),
    {
        mode & 0o4000 != 0
    }

    /// Whether any read bit (user, group or other) is on.
    pub fn is_readable(mode: u32) -> (r: bool)
        ensures
            r == (mode & 0o444 != 0),
    {
        mode & 0o444 != 0
    }

    /// Whether any write bit is on.
    pub fn is_writable(mode: u32) -> (r: bool)
        ensures
            r == (mode & 0o222 != 0),
    {
        mode & 0o222 != 0
    }

    /// Whether any execute bit is on.
    pub fn is_executable(mode: u32) -> (r: bool)
        ensures
            r == (mode & 0o111 != 0),
    {
        mode & 0o111 != 0
    }

    /// Whether one modification time lies strictly after another, with
    /// times given as whole seconds and subsecond nanoseconds.
    pub fn is_newer_than(secs: u64, nanos: u32, other_secs: u64, other_nanos: u32) -> (r: bool)
        ensures
            r == (secs > other_secs || (secs == other_secs && nanos > other_nanos)),
    {
        secs > other_secs || (secs == other_secs && nanos > other_nanos)
    }

    /// Whether one modification time lies strictly before another.
    pub fn is_older_than(secs: u64, nanos: u32, other_secs: u64, other_nanos: u32) -> (r: bool)
        ensures
            r == (secs < other_secs || (secs == other_secs && nanos < other_nanos)),
    {
        secs < other_secs || (secs == other_secs && nanos < other_nanos)
    }
}

/// A combinable value: the one law is that combining is closed over the
/// type.  Lists combine by appending.
pub trait Semigroup {
    fn combine(self, other: Self) -> Self;
}

impl<A> Semigroup for Vec<A> {
    /// Lists combine by appending the second onto the first.
    fn combine(self, other: Self) -> (r: Self)
        ensures
            r@ == self@ + other@,
    {
        let mut s = self;
        let mut o = other;
        s.append(&mut o);
        s
    }
}

/// Which tests are enabled, and whether the verdict is inverted.
#[derive(Debug, Clone, Copy)]
pub struct TestPlan {
    pub requires_each_file_is_hidden: bool,
    pub requires_each_file_is_block_special: bool,
    pub requires_each_file_is_character_special: bool,
    pub requires_each_file_is_directory: bool,
    pub requires_each_file_exists: bool,
    pub requires_each_file_is_file: bool,
    pub requires_each_file_has_set_group_id: bool,
    pub requires_each_file_is_symbolic_link: bool,
    pub requires_each_file_is_newer_than_oldest: bool,
    pub requires_each_file_is_older_than_newest: bool,
    pub requires_each_file_is_pipe: bool,
    pub requires_each_file_is_readable: bool,
    pub requires_each_file_has_size_greater_than_zero: bool,
    pub requires_each_file_has_set_user_id: bool,
    pub requires_each_file_is_writable: bool,
    pub requires_each_file_is_executable: bool,
    pub has_inverted_tests: bool,
}

/// What the probes reported for one file.
#[derive(Debug, Clone, Copy)]
pub struct Probes {
    pub is_hidden: bool,
    pub is_block_special: bool,
    pub is_character_special: bool,
    pub is_directory: bool,
    pub exists: bool,
    pub is_file: bool,
    pub has_set_group_id: bool,
    pub is_symbolic_link: bool,
    pub is_newer_than_oldest: bool,
    pub is_older_than_newest: bool,
    pub is_pipe: bool,
    pub is_readable: bool,
    pub has_size_greater_than_zero: bool,
    pub has_set_user_id: bool,
    pub is_writable: bool,
    pub is_executable: bool,
}

/// A file passes when every enabled test holds of it.
pub open spec fn passes_all(plan: TestPlan, p: Probes) -> bool {
    &&& (plan.requires_each_file_is_hidden ==> p.is_hidden)
    &&& (plan.requires_each_file_is_block_special ==> p.is_block_special)
    &&& (plan.requires_each_file_is_character_special ==> p.is_character_special)
    &&& (plan.requires_each_file_is_directory ==> p.is_directory)
    &&& (plan.requires_each_file_exists ==> p.exists)
    &&& (plan.requires_each_file_is_file ==> p.is_file)
    &&& (plan.requires_each_file_has_set_group_id ==> p.has_set_group_id)
    &&& (plan.requires_each_file_is_symbolic_link ==> p.is_symbolic_link)
    &&& (plan.requires_each_file_is_newer_than_oldest ==> p.is_newer_than_oldest)
    &&& (plan.requires_each_file_is_older_than_newest ==> p.is_older_than_newest)
    &&& (plan.requires_each_file_is_pipe ==> p.is_pipe)
    &&& (plan.requires_each_file_is_readable ==> p.is_readable)
    &&& (plan.requires_each_file_has_size_greater_than_zero ==> p.has_size_greater_than_zero)
    &&& (plan.requires_each_file_has_set_user_id ==> p.has_set_user_id)
    &&& (plan.requires_each_file_is_writable ==> p.is_writable)
    &&& (plan.requires_each_file_is_executable ==> p.is_executable)
}

/// The verdict for one file: every enabled test holds, inverted when the
/// plan says so.
pub fn test_verdict(plan: &TestPlan, p: &Probes) -> (r: bool)
    ensures
        r == (passes_all(*plan, *p) != plan.has_inverted_tests),
{
    let passes_all_tests = (!plan.requires_each_file_is_hidden || p.is_hidden)
        && (!plan.requires_each_file_is_block_special || p.is_block_special)
        && (!plan.requires_each_file_is_character_special || p.is_character_special)
        && (!plan.requires_each_file_is_directory || p.is_directory)
        && (!plan.requires_each_file_exists || p.exists)
        && (!plan.requires_each_file_is_file || p.is_file)
        && (!plan.requires_each_file_has_set_group_id || p.has_set_group_id)
        && (!plan.requires_each_file_is_symbolic_link || p.is_symbolic_link)
        && (!plan.requires_each_file_is_newer_than_oldest || p.is_newer_than_oldest)
        && (!plan.requires_each_file_is_older_than_newest || p.is_older_than_newest)
        && (!plan.requires_each_file_is_pipe || p.is_pipe)
        && (!plan.requires_each_file_is_readable || p.is_readable)
        && (!plan.requires_each_file_has_size_greater_than_zero || p.has_size_greater_than_zero)
        && (!plan.requires_each_file_has_set_user_id || p.has_set_user_id)
        && (!plan.requires_each_file_is_writable || p.is_writable)
        && (!plan.requires_each_file_is_executable || p.is_executable);
    if plan.has_inverted_tests {
        !passes_all_tests
    } else {
        passes_all_tests
    }
}

} // verus!
