use vstd::prelude::*;
use vstd::string::StringExecFns;

verus! {

/// `pre` is a prefix of `s`.
pub open spec fn starts_with(s: Seq<char>, pre: Seq<char>) -> bool {
    pre.len() <= s.len() && s.subrange(0, pre.len() as int) == pre
}

/// `suf` is a suffix of `s`.
pub open spec fn ends_with(s: Seq<char>, suf: Seq<char>) -> bool {
    suf.len() <= s.len() && s.subrange(s.len() - suf.len(), s.len() as int) == suf
}

/// `i` is the last position of `c` in `s`.
pub open spec fn is_last(s: Seq<char>, c: char, i: int) -> bool {
    &&& 0 <= i < s.len()
    &&& s[i] == c
    &&& forall|k: int| i < k < s.len() ==> s[k] != c
}

/// The last position of `c` in `s`, or -1.
pub open spec fn last_pos(s: Seq<char>, c: char) -> int {
    if exists|i: int| is_last(s, c, i) {
        choose|i: int| is_last(s, c, i)
    } else {
        -1
    }
}

/// Where `s` ends, looking at its first `e` characters, once trailing `/` and
/// trailing `/.` components are dropped (a lone `/` stays).
pub open spec fn cut_end(s: Seq<char>, e: nat) -> nat
    decreases e,
{
    if e > 1 && e <= s.len() && s[e - 1] == '/' {
        cut_end(s, (e - 1) as nat)
    } else if e >= 2 && e <= s.len() && s[e - 1] == '.' && s[e - 2] == '/' {
        cut_end(s, (e - 2) as nat)
    } else {
        e
    }
}

/// The last component of a path; empty for `/`, `.` and `..`.
pub open spec fn file_name(s: Seq<char>) -> Seq<char> {
    let t = s.subrange(0, cut_end(s, s.len()) as int);
    let name = t.subrange(last_pos(t, '/') + 1, t.len() as int);
    if name == ".."@ || name == "."@ {
        Seq::empty()
    } else {
        name
    }
}

/// A file name without its extension (a leading dot starts no extension).
pub open spec fn stem_of(name: Seq<char>) -> Seq<char> {
    let d = last_pos(name, '.');
    if d > 0 {
        name.subrange(0, d)
    } else {
        name
    }
}

/// The extension of a file name, empty where it has none.
pub open spec fn ext_of(name: Seq<char>) -> Seq<char> {
    let d = last_pos(name, '.');
    if d > 0 {
        name.subrange(d + 1, name.len() as int)
    } else {
        Seq::empty()
    }
}

/// Whether `s` starts with `pre`.
pub fn has_prefix(s: &str, pre: &str) -> (r: bool)
    ensures
        r == starts_with(s@, pre@),
{
    let n = s.unicode_len();
    let m = pre.unicode_len();
    if m > n {
        return false;
    }
    let mut i: usize = 0;
    while i < m
        invariant
            m <= n,
            n == s@.len(),
            m == pre@.len(),
            i <= m,
            forall|k: int| 0 <= k < i ==> s@[k] == pre@[k],
        decreases m - i,
    {
        if s.get_char(i) != pre.get_char(i) {
            proof {
                assert(s@.subrange(0, m as int)[i as int] != pre@[i as int]);
            }
            return false;
        }
        i = i + 1;
    }
    proof {
        assert(s@.subrange(0, m as int) =~= pre@);
    }
    true
}

/// Whether `s` ends with `suf`.
pub fn has_suffix(s: &str, suf: &str) -> (r: bool)
    ensures
        r == ends_with(s@, suf@),
{
    let n = s.unicode_len();
    let m = suf.unicode_len();
    if m > n {
        return false;
    }
    let off = n - m;
    let mut i: usize = 0;
    while i < m
        invariant
            m <= n,
            off == n - m,
            n == s@.len(),
            m == suf@.len(),
            i <= m,
            forall|k: int| 0 <= k < i ==> s@[off + k] == suf@[k],
        decreases m - i,
    {
        if s.get_char(off + i) != suf.get_char(i) {
            proof {
                assert(s@.subrange(off as int, n as int)[i as int] != suf@[i as int]);
            }
            return false;
        }
        i = i + 1;
    }
    proof {
        assert(s@.subrange(off as int, n as int) =~= suf@);
    }
    true
}

/// The last position of `c` among the first `end` characters of `s`.
fn last_index(s: &str, c: char, end: usize) -> (r: Option<usize>)
    requires
        end <= s@.len(),
    ensures
        r matches Some(i) ==> i < end && is_last(s@.subrange(0, end as int), c, i as int),
        r is None ==> forall|k: int| 0 <= k < end ==> s@[k] != c,
{
    let mut j: usize = end;
    while j > 0
        invariant
            j <= end <= s@.len(),
            forall|k: int| j <= k < end ==> s@[k] != c,
        decreases j,
    {
        if s.get_char(j - 1) == c {
            return Some(j - 1);
        }
        j = j - 1;
    }
    None
}

proof fn lemma_last_pos(s: Seq<char>, c: char, i: int)
    requires
        i == -1 ==> forall|k: int| 0 <= k < s.len() ==> s[k] != c,
        i != -1 ==> is_last(s, c, i),
    ensures
        last_pos(s, c) == i,
{
    if i != -1 {
        let j = choose|j: int| is_last(s, c, j);
        assert(j == i) by {
            if j < i {
                assert(s[i] == c);
            } else if j > i {
                assert(s[j] == c);
            }
        }
    } else {
        assert(!exists|j: int| is_last(s, c, j)) by {
            if exists|j: int| is_last(s, c, j) {
                let j = choose|j: int| is_last(s, c, j);
                assert(s[j] == c);
            }
        }
    }
}

/// The last component of `path`, as [`file_name`] says.
pub fn file_name_of(path: &str) -> (r: String)
    ensures
        r@ == file_name(path@),
{
    let n = path.unicode_len();
    let mut e: usize = n;
    loop
        invariant
            e <= n == path@.len(),
            cut_end(path@, e as nat) == cut_end(path@, n as nat),
        ensures
            e <= n == path@.len(),
            cut_end(path@, n as nat) == e as nat,
        decreases e,
    {
        if e > 1 && path.get_char(e - 1) == '/' {
            e = e - 1;
        } else if e >= 2 && path.get_char(e - 1) == '.' && path.get_char(e - 2) == '/' {
            e = e - 2;
        } else {
            proof {
                assert(cut_end(path@, e as nat) == e as nat);
            }
            break;
        }
    }
    let ghost t = path@.subrange(0, e as int);
    assert(t == path@.subrange(0, cut_end(path@, path@.len()) as int));
    let start = match last_index(path, '/', e) {
        Some(i) => {
            proof {
                lemma_last_pos(t, '/', i as int);
            }
            i + 1
        },
        None => {
            proof {
                lemma_last_pos(t, '/', -1);
            }
            0
        },
    };
    let name = path.substring_char(start, e);
    proof {
        assert(name@ =~= t.subrange(last_pos(t, '/') + 1, t.len() as int));
        reveal_strlit("..");
        reveal_strlit(".");
    }
    if str_is_dotdot(name) || str_is_dot(name) {
        String::new()
    } else {
        String::from_str(name)
    }
}

fn str_is_dot(s: &str) -> (r: bool)
    ensures
        r == (s@ == "."@),
{
    proof {
        reveal_strlit(".");
    }
    let n = s.unicode_len();
    if n != 1 {
        return false;
    }
    let r = s.get_char(0) == '.';
    proof {
        if r {
            assert(s@ =~= "."@);
        }
    }
    r
}

fn str_is_dotdot(s: &str) -> (r: bool)
    ensures
        r == (s@ == ".."@),
{
    proof {
        reveal_strlit("..");
    }
    let n = s.unicode_len();
    if n != 2 {
        return false;
    }
    let r = s.get_char(0) == '.' && s.get_char(1) == '.';
    proof {
        if r {
            assert(s@ =~= ".."@);
        }
    }
    r
}

/// Where a name's extension starts: the position of its last dot, when after
/// the first character.
fn ext_dot(name: &str) -> (r: Option<usize>)
    ensures
        r matches Some(d) ==> d > 0 && d < name@.len() && d == last_pos(name@, '.'),
        r is None ==> last_pos(name@, '.') <= 0,
{
    let n = name.unicode_len();
    match last_index(name, '.', n) {
        Some(i) => {
            proof {
                assert(name@.subrange(0, n as int) =~= name@);
                lemma_last_pos(name@, '.', i as int);
            }
            if i > 0 {
                Some(i)
            } else {
                None
            }
        },
        None => {
            proof {
                lemma_last_pos(name@, '.', -1);
            }
            None
        },
    }
}

/// The stem of a file name.
pub fn stem(name: &str) -> (r: String)
    ensures
        r@ == stem_of(name@),
{
    match ext_dot(name) {
        Some(d) => String::from_str(name.substring_char(0, d)),
        None => String::from_str(name),
    }
}

/// The extension of a file name.
pub fn extension(name: &str) -> (r: String)
    ensures
        r@ == ext_of(name@),
{
    let n = name.unicode_len();
    match ext_dot(name) {
        Some(d) => String::from_str(name.substring_char(d + 1, n)),
        None => String::new(),
    }
}

} // verus!
