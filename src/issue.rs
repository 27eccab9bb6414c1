use vstd::prelude::*;
use vstd::string::StringExecFns;

verus! {

/// One recorded violation: where it is, what kind it is, and a readable detail.
#[derive(Debug, Clone)]
pub struct Issue {
    pub path: String,
    pub code: String,
    pub message: String,
}

/// The mathematical content of an [`Issue`].
pub ghost struct IssueView {
    pub path: Seq<char>,
    pub code: Seq<char>,
    pub message: Seq<char>,
}

impl View for Issue {
    type V = IssueView;

    open spec fn view(&self) -> IssueView {
        IssueView { path: self.path@, code: self.code@, message: self.message@ }
    }
}

/// The ordered list of issues that every check appends to.
pub type Issues = Vec<Issue>;

/// The outcome of a top-level run: `ok` holds exactly when no issue was found.
#[derive(Debug)]
pub struct ValidationResult {
    pub ok: bool,
    pub issues: Issues,
}

/// The issues of a list, as values.
pub open spec fn issues_view(issues: Seq<Issue>) -> Seq<IssueView> {
    issues.map_values(|i: Issue| i@)
}

/// The breadcrumb segments of a path, as character sequences.
pub open spec fn segs(path: Seq<String>) -> Seq<Seq<char>> {
    path.map_values(|s: String| s@)
}

/// Segments joined by `.`.
pub open spec fn join_dotted(segs: Seq<Seq<char>>) -> Seq<char>
    decreases segs.len(),
{
    if segs.len() == 0 {
        Seq::empty()
    } else if segs.len() == 1 {
        segs[0]
    } else {
        join_dotted(segs.drop_last()) + "."@ + segs.last()
    }
}

/// How a breadcrumb is shown: `(root)` when empty, else its segments joined by `.`.
pub open spec fn render_path(segs: Seq<Seq<char>>) -> Seq<char> {
    if segs.len() == 0 {
        "(root)"@
    } else {
        join_dotted(segs)
    }
}

/// The issue recorded at breadcrumb `p` with the given code and message.
pub open spec fn issue_at(p: Seq<Seq<char>>, code: Seq<char>, message: Seq<char>) -> IssueView {
    IssueView { path: render_path(p), code, message }
}

/// Renders a breadcrumb.
pub fn render(path: &[String]) -> (r: String)
    ensures
        r@ == render_path(segs(path@)),
{
    if path.len() == 0 {
        return String::from_str("(root)");
    }
    let mut out = path[0].clone();
    let mut i: usize = 1;
    while i < path.len()
        invariant
            1 <= i <= path@.len(),
            out@ == join_dotted(segs(path@.subrange(0, i as int))),
        decreases path@.len() - i,
    {
        proof {
            let s = segs(path@.subrange(0, i as int + 1));
            assert(s.drop_last() =~= segs(path@.subrange(0, i as int)));
        }
        out.append(".");
        out.append(path[i].as_str());
        i = i + 1;
    }
    proof {
        assert(path@.subrange(0, path@.len() as int) =~= path@);
    }
    out
}

/// Appends one issue at `path`; the only way issues are made.
pub fn add_issue(issues: &mut Issues, path: &[String], code: &str, message: &str)
    ensures
        issues_view(final(issues)@) == issues_view(old(issues)@).push(
            issue_at(segs(path@), code@, message@),
        ),
{
    let issue = Issue {
        path: render(path),
        code: String::from_str(code),
        message: String::from_str(message),
    };
    issues.push(issue);
    proof {
        assert(issues_view(issues@) =~= issues_view(old(issues)@).push(
            issue_at(segs(path@), code@, message@),
        ));
    }
}

/// Wraps a finished issue list.
pub fn finish(issues: Issues) -> (r: ValidationResult)
    ensures
        r.issues@ == issues@,
        r.ok == (issues@.len() == 0),
{
    let ok = issues.len() == 0;
    ValidationResult { ok, issues }
}

/// A copy of `path` with one more segment at its end.
pub fn extend_path(path: &[String], seg: String) -> (r: Vec<String>)
    ensures
        segs(r@) == segs(path@).push(seg@),
{
    let mut out: Vec<String> = Vec::new();
    let mut i: usize = 0;
    while i < path.len()
        invariant
            i <= path@.len(),
            out@.len() == i,
            forall|k: int| 0 <= k < i ==> #[trigger] out@[k]@ == path@[k]@,
        decreases path@.len() - i,
    {
        let s = path[i].clone();
        out.push(s);
        i = i + 1;
    }
    out.push(seg);
    proof {
        assert(segs(out@) =~= segs(path@).push(seg@));
    }
    out
}

/// The decimal digit for `d < 10`.
pub open spec fn digit_char(d: nat) -> char {
    if d == 0 { '0' } else if d == 1 { '1' } else if d == 2 { '2' } else if d == 3 { '3' }
    else if d == 4 { '4' } else if d == 5 { '5' } else if d == 6 { '6' } else if d == 7 { '7' }
    else if d == 8 { '8' } else { '9' }
}

/// The decimal writing of `n`, without leading zeros.
pub open spec fn decimal_of(n: nat) -> Seq<char>
    decreases n,
{
    if n < 10 {
        seq![digit_char(n)]
    } else {
        decimal_of(n / 10) + seq![digit_char(n % 10)]
    }
}

/// The breadcrumb segment of list index `i`: `[i]`.
pub open spec fn index_seg(i: nat) -> Seq<char> {
    "["@ + decimal_of(i) + "]"@
}

fn digit_str(d: usize) -> (r: &'static str)
    requires
        d < 10,
    ensures
        r@ == seq![digit_char(d as nat)],
{
    proof {
        reveal_strlit("0");
        reveal_strlit("1");
        reveal_strlit("2");
        reveal_strlit("3");
        reveal_strlit("4");
        reveal_strlit("5");
        reveal_strlit("6");
        reveal_strlit("7");
        reveal_strlit("8");
        reveal_strlit("9");
    }
    if d == 0 { "0" } else if d == 1 { "1" } else if d == 2 { "2" } else if d == 3 { "3" }
    else if d == 4 { "4" } else if d == 5 { "5" } else if d == 6 { "6" } else if d == 7 { "7" }
    else if d == 8 { "8" } else { "9" }
}

/// Writes `n` in decimal.
pub fn decimal(n: u64) -> (r: String)
    ensures
        r@ == decimal_of(n as nat),
    decreases n,
{
    if n < 10 {
        String::from_str(digit_str(n as usize))
    } else {
        let mut s = decimal(n / 10);
        s.append(digit_str((n % 10) as usize));
        s
    }
}

/// The breadcrumb segment for list index `i`.
pub fn index_segment(i: usize) -> (r: String)
    ensures
        r@ == index_seg(i as nat),
{
    let mut s = String::from_str("[");
    let d = decimal(i as u64);
    s.append(d.as_str());
    s.append("]");
    s
}

} // verus!
