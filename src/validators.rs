use vstd::prelude::*;
use vstd::string::StringExecFns;
use crate::issue::{
    IssueView, Issues, ValidationResult, add_issue, decimal, extend_path, finish,
    index_seg, index_segment, issue_at, issues_view, segs, decimal_of,
};
use crate::value::{
    JsonValue, Number, find_key, find_member, number_text, same_value, str_eq, values_equal,
};
pub use crate::value::{value_ok, value_wf};

verus! {

broadcast use vstd::std_specs::vec::group_vec_axioms;

/// A check on one value, held as data so that checks compose into trees.
#[derive(Debug)]
pub enum Validator {
    /// A string with optional byte-length bounds and an optional pattern.
    Str { min_length: Option<usize>, max_length: Option<usize>, pattern: Option<String> },
    /// A number with optional bounds, and whether it must be whole.
    Num { min: Option<Number>, max: Option<Number>, integer: bool },
    /// A boolean.
    Bool,
    /// A value equal to the one given.
    Literal(JsonValue),
    /// The string given.
    LiteralStr(String),
    /// The integer given.
    LiteralI64(i64),
    /// A string that matches the pattern given.
    Pattern(String),
    /// An object whose fields are then checked in order.
    Object(Vec<Field>),
    /// An array with optional length bounds, each item checked by `item`.
    List { item: Option<Box<Validator>>, min_items: Option<usize>, max_items: Option<usize> },
    /// The first alternative that finds nothing wins.
    OneOf(Vec<Validator>),
}

/// One field of an object check.
#[derive(Debug)]
pub struct Field {
    pub key: String,
    pub validator: Option<Validator>,
    pub optional: bool,
}

// ---------------------------------------------------------------------------
// Regular expressions

/// Whether `pattern` is a regular expression that compiles.
pub uninterp spec fn pattern_compiles(pattern: Seq<char>) -> bool;

/// Whether the compiled `pattern` matches somewhere in `text`.
pub uninterp spec fn pattern_matches(pattern: Seq<char>, text: Seq<char>) -> bool;

/// What a pattern says of a text: `None` when it does not compile.
pub open spec fn pattern_outcome(pattern: Seq<char>, text: Seq<char>) -> Option<bool> {
    if pattern_compiles(pattern) {
        Some(pattern_matches(pattern, text))
    } else {
        None
    }
}

/// Relies on `regex::Regex::new` to compile the pattern (`None` when it is
/// refused) and on `Regex::is_match` to search the text for a match.
#[verifier::external_body]
pub(crate) fn regex_search(pattern: &str, text: &str) -> (r: Option<bool>)
    ensures
        r == (if pattern_compiles(pattern@) {
            Some(pattern_matches(pattern@, text@))
        } else {
            None
        }),
{
    regex::Regex::new(pattern).ok().map(|re| re.is_match(text))
}

// ---------------------------------------------------------------------------
// The model

pub open spec fn opt_view(o: Option<&str>) -> Option<Seq<char>> {
    match o {
        Some(s) => Some(s@),
        None => None,
    }
}

/// Length in bytes of the UTF-8 encoding.
pub open spec fn byte_len(t: Seq<char>) -> nat {
    vstd::utf8::encode_utf8(t).len()
}

/// The name of a value's kind, as messages show it.
pub open spec fn kind_name(v: JsonValue) -> Seq<char> {
    match v {
        JsonValue::Null => "null"@,
        JsonValue::Bool(_) => "boolean"@,
        JsonValue::Number(_) => "number"@,
        JsonValue::Str(_) => "string"@,
        JsonValue::Array(_) => "array"@,
        JsonValue::Object(_) => "object"@,
    }
}

/// The `type.mismatch` issue for a value that is not of the `expected` kind.
pub open spec fn mismatch(p: Seq<Seq<char>>, expected: Seq<char>, v: JsonValue) -> IssueView {
    issue_at(p, "type.mismatch"@, "Expected "@ + expected + ", got "@ + kind_name(v))
}

pub open spec fn below_msg(what: Seq<char>, len: nat, min: nat) -> Seq<char> {
    what + " length "@ + decimal_of(len) + " is less than minimum "@ + decimal_of(min)
}

pub open spec fn above_msg(what: Seq<char>, len: nat, max: nat) -> Seq<char> {
    what + " length "@ + decimal_of(len) + " exceeds maximum "@ + decimal_of(max)
}

/// Length bound issues: `too_short` then `too_long`.
pub open spec fn bound_issues(
    p: Seq<Seq<char>>,
    what: Seq<char>,
    short: Seq<char>,
    long: Seq<char>,
    len: nat,
    min: Option<usize>,
    max: Option<usize>,
) -> Seq<IssueView> {
    (match min {
        Some(m) if len < m => seq![issue_at(p, short, below_msg(what, len, m as nat))],
        _ => seq![],
    }) + (match max {
        Some(m) if len > m => seq![issue_at(p, long, above_msg(what, len, m as nat))],
        _ => seq![],
    })
}

/// The issues of a string text, given what its pattern (if any) said of it.
pub open spec fn text_issues(
    t: Seq<char>,
    p: Seq<Seq<char>>,
    min: Option<usize>,
    max: Option<usize>,
    pattern: Option<Seq<char>>,
    outcome: Option<bool>,
) -> Seq<IssueView> {
    bound_issues(p, "String"@, "str.too_short"@, "str.too_long"@, byte_len(t), min, max) + (
    match pattern {
        Some(q) if outcome == Some(false) => seq![
            issue_at(p, "str.pattern_mismatch"@, "String does not match pattern "@ + q),
        ],
        _ => seq![],
    })
}

pub open spec fn str_issues(
    v: JsonValue,
    p: Seq<Seq<char>>,
    min: Option<usize>,
    max: Option<usize>,
    pattern: Option<Seq<char>>,
) -> Seq<IssueView> {
    match v {
        JsonValue::Str(t) => text_issues(
            t@,
            p,
            min,
            max,
            pattern,
            match pattern {
                Some(q) => pattern_outcome(q, t@),
                None => None,
            },
        ),
        _ => seq![mismatch(p, "string"@, v)],
    }
}

pub open spec fn num_issues(
    v: JsonValue,
    p: Seq<Seq<char>>,
    min: Option<Number>,
    max: Option<Number>,
    integer: bool,
) -> Seq<IssueView> {
    match v {
        JsonValue::Number(n) => (if integer && !n.is_whole() {
            seq![issue_at(p, "num.not_integer"@, "Expected integer, got "@ + number_text(n))]
        } else {
            seq![]
        }) + (match min {
            Some(m) if n.lt(m) => seq![
                issue_at(p, "num.too_small"@, "Number "@ + number_text(n) + " is less than minimum "@ + number_text(m)),
            ],
            _ => seq![],
        }) + (match max {
            Some(m) if m.lt(n) => seq![
                issue_at(p, "num.too_large"@, "Number "@ + number_text(n) + " exceeds maximum "@ + number_text(m)),
            ],
            _ => seq![],
        }),
        _ => seq![mismatch(p, "number"@, v)],
    }
}

pub open spec fn bool_issues(v: JsonValue, p: Seq<Seq<char>>) -> Seq<IssueView> {
    match v {
        JsonValue::Bool(_) => seq![],
        _ => seq![mismatch(p, "boolean"@, v)],
    }
}

pub open spec fn literal_issue(p: Seq<Seq<char>>) -> IssueView {
    issue_at(p, "literal.mismatch"@, "Value differs from the expected literal"@)
}

pub open spec fn literal_issues(v: JsonValue, p: Seq<Seq<char>>, e: JsonValue) -> Seq<IssueView> {
    if same_value(v, e) {
        seq![]
    } else {
        seq![literal_issue(p)]
    }
}

pub open spec fn literal_str_issues(v: JsonValue, p: Seq<Seq<char>>, e: Seq<char>) -> Seq<IssueView> {
    match v {
        JsonValue::Str(s) if s@ == e => seq![],
        _ => seq![literal_issue(p)],
    }
}

/// An integer written with scale zero, as a `i64`.
pub open spec fn as_i64(v: JsonValue) -> Option<i64> {
    match v {
        JsonValue::Number(n) if n.scale == 0 => Some(n.mantissa),
        _ => None,
    }
}

pub open spec fn literal_i64_issues(v: JsonValue, p: Seq<Seq<char>>, e: i64) -> Seq<IssueView> {
    if as_i64(v) == Some(e) {
        seq![]
    } else {
        seq![literal_issue(p)]
    }
}

/// The issues of a pattern check on a string text, given what the pattern said.
pub open spec fn pattern_text_issues(p: Seq<Seq<char>>, q: Seq<char>, outcome: Option<bool>) -> Seq<IssueView> {
    if outcome == Some(false) {
        seq![issue_at(p, "pattern.mismatch"@, "Value does not match pattern "@ + q)]
    } else {
        seq![]
    }
}

pub open spec fn pattern_issues(v: JsonValue, p: Seq<Seq<char>>, q: Seq<char>) -> Seq<IssueView> {
    match v {
        JsonValue::Str(t) => pattern_text_issues(p, q, pattern_outcome(q, t@)),
        _ => seq![mismatch(p, "string for pattern match"@, v)],
    }
}

pub open spec fn object_issues(v: JsonValue, p: Seq<Seq<char>>) -> Seq<IssueView> {
    match v {
        JsonValue::Object(_) => seq![],
        _ => seq![mismatch(p, "object"@, v)],
    }
}

pub open spec fn missing_issue(p: Seq<Seq<char>>, key: Seq<char>) -> IssueView {
    issue_at(p, "field.missing"@, "Missing required field: "@ + key)
}

pub open spec fn no_match_issue(p: Seq<Seq<char>>) -> IssueView {
    issue_at(p, "oneof.no_match"@, "Value does not match any of the options"@)
}

/// What every check finds: the issues of `v` against `s` at breadcrumb `p`.
pub open spec fn issues_of(v: JsonValue, s: Validator, p: Seq<Seq<char>>) -> Seq<IssueView>
    decreases s, 0nat, 0nat,
{
    match s {
        Validator::Str { min_length, max_length, pattern } => str_issues(
            v,
            p,
            min_length,
            max_length,
            match pattern {
                Some(q) => Some(q@),
                None => None,
            },
        ),
        Validator::Num { min, max, integer } => num_issues(v, p, min, max, integer),
        Validator::Bool => bool_issues(v, p),
        Validator::Literal(e) => literal_issues(v, p, e),
        Validator::LiteralStr(e) => literal_str_issues(v, p, e@),
        Validator::LiteralI64(e) => literal_i64_issues(v, p, e),
        Validator::Pattern(q) => pattern_issues(v, p, q@),
        Validator::Object(fields) => match v {
            JsonValue::Object(_) => fields_issues(v, p, fields@, fields@.len()),
            _ => seq![mismatch(p, "object"@, v)],
        },
        Validator::List { item, min_items, max_items } => list_issues(
            v,
            p,
            match item {
                Some(b) => Some(*b),
                None => None,
            },
            min_items,
            max_items,
        ),
        Validator::OneOf(alts) => oneof_issues(v, p, alts@),
    }
}

/// The issues of the first `n` field checks on an object.
pub open spec fn fields_issues(v: JsonValue, p: Seq<Seq<char>>, fields: Seq<Field>, n: nat) -> Seq<IssueView>
    decreases fields, 1nat, n,
{
    if n == 0 || n > fields.len() {
        seq![]
    } else {
        fields_issues(v, p, fields, (n - 1) as nat) + field_issues(
            v,
            p,
            fields[n - 1].key@,
            fields[n - 1].validator,
            fields[n - 1].optional,
        )
    }
}

/// The issues of one field check on `obj`.
pub open spec fn field_issues(
    obj: JsonValue,
    p: Seq<Seq<char>>,
    key: Seq<char>,
    validator: Option<Validator>,
    optional: bool,
) -> Seq<IssueView>
    decreases validator, 1nat, 0nat,
{
    match obj {
        JsonValue::Object(ms) => match find_key(ms@, key) {
            Some(i) => match validator {
                Some(s) => if 0 <= i < ms@.len() {
                    issues_of(ms@[i].1, s, p.push(key))
                } else {
                    seq![]
                },
                None => seq![],
            },
            None => if optional {
                seq![]
            } else {
                seq![missing_issue(p, key)]
            },
        },
        _ => seq![],
    }
}

/// The issues of a list check.
pub open spec fn list_issues(
    v: JsonValue,
    p: Seq<Seq<char>>,
    item: Option<Validator>,
    min: Option<usize>,
    max: Option<usize>,
) -> Seq<IssueView>
    decreases item, 1nat, 0nat,
{
    match v {
        JsonValue::Array(xs) => bound_issues(
            p,
            "Array"@,
            "list.too_short"@,
            "list.too_long"@,
            xs@.len(),
            min,
            max,
        ) + match item {
            Some(s) => items_issues(xs@, p, s, xs@.len()),
            None => seq![],
        },
        _ => seq![mismatch(p, "array"@, v)],
    }
}

/// The issues of the first `n` items, each at its `[i]` breadcrumb.
pub open spec fn items_issues(xs: Seq<JsonValue>, p: Seq<Seq<char>>, s: Validator, n: nat) -> Seq<IssueView>
    decreases s, 1nat, n,
{
    if n == 0 || n > xs.len() {
        seq![]
    } else {
        items_issues(xs, p, s, (n - 1) as nat) + issues_of(
            xs[n - 1],
            s,
            p.push(index_seg((n - 1) as nat)),
        )
    }
}

/// Whether one of the first `n` alternatives finds nothing in `v`.
pub open spec fn any_accepts(v: JsonValue, p: Seq<Seq<char>>, alts: Seq<Validator>, n: nat) -> bool
    decreases alts, 1nat, n,
{
    if n == 0 || n > alts.len() {
        false
    } else {
        any_accepts(v, p, alts, (n - 1) as nat) || issues_of(v, alts[n - 1], p).len() == 0
    }
}

pub open spec fn oneof_issues(v: JsonValue, p: Seq<Seq<char>>, alts: Seq<Validator>) -> Seq<IssueView>
    decreases alts, 2nat, 0nat,
{
    if any_accepts(v, p, alts, alts.len()) {
        seq![]
    } else {
        seq![no_match_issue(p)]
    }
}

/// Every bound in `s` is a well-formed number.
pub open spec fn validator_wf(s: Validator) -> bool
    decreases s,
{
    match s {
        Validator::Num { min, max, integer } => (min matches Some(m) ==> m.wf()) && (max matches Some(
            m,
        ) ==> m.wf()),
        Validator::Object(fields) => forall|i: int|
            0 <= i < fields@.len() ==> match (#[trigger] fields@[i]).validator {
                Some(x) => validator_wf(x),
                None => true,
            },
        Validator::List { item, min_items, max_items } => match item {
            Some(b) => validator_wf(*b),
            None => true,
        },
        Validator::OneOf(alts) => forall|i: int| 0 <= i < alts@.len() ==> validator_wf(#[trigger] alts@[i]),
        Validator::Literal(e) => value_wf(e),
        _ => true,
    }
}

pub open spec fn deref_opt(o: Option<&Validator>) -> Option<Validator> {
    match o {
        Some(v) => Some(*v),
        None => None,
    }
}

pub proof fn lemma_any_accepts_grows(v: JsonValue, p: Seq<Seq<char>>, alts: Seq<Validator>, n: nat, m: nat)
    requires
        n <= m <= alts.len(),
        any_accepts(v, p, alts, n),
    ensures
        any_accepts(v, p, alts, m),
    decreases m - n,
{
    if n < m {
        lemma_any_accepts_grows(v, p, alts, n, (m - 1) as nat);
    }
}

/// Decides [`validator_wf`].
pub fn validator_ok(s: &Validator) -> (r: bool)
    ensures
        r == validator_wf(*s),
    decreases *s,
{
    match s {
        Validator::Num { min, max, integer: _ } => {
            let a = match min {
                Some(m) => m.scale <= 18,
                None => true,
            };
            let b = match max {
                Some(m) => m.scale <= 18,
                None => true,
            };
            a && b
        },
        Validator::Object(fields) => {
            let mut i: usize = 0;
            while i < fields.len()
                invariant
                    *s == Validator::Object(*fields),
                    i <= fields@.len(),
                    forall|k: int|
                        0 <= k < i ==> match (#[trigger] fields@[k]).validator {
                            Some(x) => validator_wf(x),
                            None => true,
                        },
                decreases fields@.len() - i,
            {
                proof {
                    assert(decreases_to!(*s => (*s)->Object_0));
                    assert(decreases_to!(*fields => fields[i as int]));
                    assert(decreases_to!(fields[i as int] => fields[i as int].validator));
                }
                if let Some(x) = &fields[i].validator {
                    proof {
                        assert(decreases_to!(fields[i as int].validator => fields[i as int].validator->Some_0));
                    }
                    if !validator_ok(x) {
                        return false;
                    }
                }
                i = i + 1;
            }
            true
        },
        Validator::List { item, min_items: _, max_items: _ } => match item {
            Some(b) => {
                proof {
                    assert(decreases_to!(*s => (*s)->item));
                }
                validator_ok(b)
            },
            None => true,
        },
        Validator::OneOf(alts) => {
            let mut i: usize = 0;
            while i < alts.len()
                invariant
                    *s == Validator::OneOf(*alts),
                    i <= alts@.len(),
                    forall|k: int| 0 <= k < i ==> validator_wf(#[trigger] alts@[k]),
                decreases alts@.len() - i,
            {
                proof {
                    assert(decreases_to!(*s => (*s)->OneOf_0));
                    assert(decreases_to!(*alts => alts[i as int]));
                }
                if !validator_ok(&alts[i]) {
                    return false;
                }
                i = i + 1;
            }
            true
        },
        Validator::Literal(e) => value_ok(e),
        _ => true,
    }
}

// ---------------------------------------------------------------------------
// Primitive checks

fn kind_str(v: &JsonValue) -> (r: &'static str)
    ensures
        r@ == kind_name(*v),
{
    match v {
        JsonValue::Null => "null",
        JsonValue::Bool(_) => "boolean",
        JsonValue::Number(_) => "number",
        JsonValue::Str(_) => "string",
        JsonValue::Array(_) => "array",
        JsonValue::Object(_) => "object",
    }
}

fn add_mismatch(value: &JsonValue, path: &[String], issues: &mut Issues, expected: &str)
    ensures
        issues_view(final(issues)@) == issues_view(old(issues)@).push(
            mismatch(segs(path@), expected@, *value),
        ),
{
    let msg = String::from_str("Expected ").concat(expected).concat(", got ").concat(
        kind_str(value),
    );
    add_issue(issues, path, "type.mismatch", msg.as_str());
}

fn length_message(what: &str, len: usize, bound: usize, below: bool) -> (r: String)
    ensures
        below ==> r@ == below_msg(what@, len as nat, bound as nat),
        !below ==> r@ == above_msg(what@, len as nat, bound as nat),
{
    let l = decimal(len as u64);
    let b = decimal(bound as u64);
    let mid = if below { " is less than minimum " } else { " exceeds maximum " };
    String::from_str(what).concat(" length ").concat(l.as_str()).concat(mid).concat(b.as_str())
}

fn check_bounds(
    path: &[String],
    issues: &mut Issues,
    what: &str,
    short: &str,
    long: &str,
    len: usize,
    min: Option<usize>,
    max: Option<usize>,
)
    ensures
        issues_view(final(issues)@) == issues_view(old(issues)@) + bound_issues(
            segs(path@),
            what@,
            short@,
            long@,
            len as nat,
            min,
            max,
        ),
{
    let ghost start = issues_view(issues@);
    if let Some(m) = min {
        if len < m {
            let msg = length_message(what, len, m, true);
            add_issue(issues, path, short, msg.as_str());
        }
    }
    let ghost mid = issues_view(issues@);
    if let Some(m) = max {
        if len > m {
            let msg = length_message(what, len, m, false);
            add_issue(issues, path, long, msg.as_str());
        }
    }
    proof {
        let p = segs(path@);
        let a = match min {
            Some(m) if len < m => seq![issue_at(p, short@, below_msg(what@, len as nat, m as nat))],
            _ => Seq::<IssueView>::empty(),
        };
        assert(mid =~= start + a);
        assert(issues_view(issues@) =~= start + bound_issues(p, what@, short@, long@, len as nat, min, max));
    }
}

/// The checks of a string text, given what its pattern said of it
/// (`None`: no pattern, or one that does not compile).
pub fn check_text(
    text: &str,
    path: &[String],
    issues: &mut Issues,
    min_length: Option<usize>,
    max_length: Option<usize>,
    pattern: Option<&str>,
    outcome: Option<bool>,
)
    ensures
        issues_view(final(issues)@) == issues_view(old(issues)@) + text_issues(
            text@,
            segs(path@),
            min_length,
            max_length,
            opt_view(pattern),
            outcome,
        ),
{
    let ghost start = issues_view(issues@);
    let n = text.as_bytes().len();
    check_bounds(path, issues, "String", "str.too_short", "str.too_long", n, min_length, max_length);
    let ghost mid = issues_view(issues@);
    if let Some(q) = pattern {
        if let Some(false) = outcome {
            let msg = String::from_str("String does not match pattern ").concat(q);
            add_issue(issues, path, "str.pattern_mismatch", msg.as_str());
        }
    }
    proof {
        assert(issues_view(issues@) =~= start + text_issues(
            text@,
            segs(path@),
            min_length,
            max_length,
            opt_view(pattern),
            outcome,
        ));
    }
}

/// A string, within the byte-length bounds given, matching `pattern` where
/// it compiles.
pub fn validate_str(
    value: &JsonValue,
    path: &[String],
    issues: &mut Issues,
    min_length: Option<usize>,
    max_length: Option<usize>,
    pattern: Option<&str>,
)
    ensures
        issues_view(final(issues)@) == issues_view(old(issues)@) + str_issues(
            *value,
            segs(path@),
            min_length,
            max_length,
            opt_view(pattern),
        ),
{
    match value {
        JsonValue::Str(s) => {
            let outcome = match pattern {
                Some(q) => regex_search(q, s.as_str()),
                None => None,
            };
            check_text(s.as_str(), path, issues, min_length, max_length, pattern, outcome);
        },
        _ => {
            add_mismatch(value, path, issues, "string");
            proof {
                assert(issues_view(issues@) =~= issues_view(old(issues)@) + str_issues(
                    *value,
                    segs(path@),
                    min_length,
                    max_length,
                    opt_view(pattern),
                ));
            }
        },
    }
}

/// A number within the bounds given, whole if `integer`; every check runs.
pub fn validate_num(
    value: &JsonValue,
    path: &[String],
    issues: &mut Issues,
    min: Option<Number>,
    max: Option<Number>,
    integer: bool,
)
    requires
        value matches JsonValue::Number(n) ==> n.wf(),
        min matches Some(m) ==> m.wf(),
        max matches Some(m) ==> m.wf(),
    ensures
        issues_view(final(issues)@) == issues_view(old(issues)@) + num_issues(
            *value,
            segs(path@),
            min,
            max,
            integer,
        ),
{
    let ghost start = issues_view(issues@);
    match value {
        JsonValue::Number(n) => {
            if integer && !n.whole() {
                let msg = String::from_str("Expected integer, got ").concat(n.text().as_str());
                add_issue(issues, path, "num.not_integer", msg.as_str());
            }
            let ghost a = issues_view(issues@);
            if let Some(m) = min {
                if n.less_than(&m) {
                    let msg = String::from_str("Number ").concat(n.text().as_str()).concat(
                        " is less than minimum ",
                    ).concat(m.text().as_str());
                    add_issue(issues, path, "num.too_small", msg.as_str());
                }
            }
            let ghost b = issues_view(issues@);
            if let Some(m) = max {
                if m.less_than(n) {
                    let msg = String::from_str("Number ").concat(n.text().as_str()).concat(
                        " exceeds maximum ",
                    ).concat(m.text().as_str());
                    add_issue(issues, path, "num.too_large", msg.as_str());
                }
            }
            proof {
                assert(issues_view(issues@) =~= start + num_issues(*value, segs(path@), min, max, integer));
            }
        },
        _ => {
            add_mismatch(value, path, issues, "number");
            proof {
                assert(issues_view(issues@) =~= start + num_issues(*value, segs(path@), min, max, integer));
            }
        },
    }
}

/// A boolean.
pub fn validate_bool(value: &JsonValue, path: &[String], issues: &mut Issues)
    ensures
        issues_view(final(issues)@) == issues_view(old(issues)@) + bool_issues(*value, segs(path@)),
{
    if !matches!(value, JsonValue::Bool(_)) {
        add_mismatch(value, path, issues, "boolean");
    }
    proof {
        assert(issues_view(issues@) =~= issues_view(old(issues)@) + bool_issues(*value, segs(path@)));
    }
}

/// A value equal, member for member, to `expected`.
pub fn validate_literal(value: &JsonValue, path: &[String], issues: &mut Issues, expected: &JsonValue)
    requires
        value_wf(*value),
        value_wf(*expected),
    ensures
        issues_view(final(issues)@) == issues_view(old(issues)@) + literal_issues(
            *value,
            segs(path@),
            *expected,
        ),
{
    if !values_equal(value, expected) {
        add_issue(issues, path, "literal.mismatch", "Value differs from the expected literal");
    }
    proof {
        assert(issues_view(issues@) =~= issues_view(old(issues)@) + literal_issues(
            *value,
            segs(path@),
            *expected,
        ));
    }
}

/// The string `expected`.
pub fn validate_literal_str(value: &JsonValue, path: &[String], issues: &mut Issues, expected: &str)
    ensures
        issues_view(final(issues)@) == issues_view(old(issues)@) + literal_str_issues(
            *value,
            segs(path@),
            expected@,
        ),
{
    let same = match value {
        JsonValue::Str(s) => str_eq(s.as_str(), expected),
        _ => false,
    };
    if !same {
        add_issue(issues, path, "literal.mismatch", "Value differs from the expected literal");
    }
    proof {
        assert(issues_view(issues@) =~= issues_view(old(issues)@) + literal_str_issues(
            *value,
            segs(path@),
            expected@,
        ));
    }
}

/// The integer `expected`, written without a fraction.
pub fn validate_literal_i64(value: &JsonValue, path: &[String], issues: &mut Issues, expected: i64)
    ensures
        issues_view(final(issues)@) == issues_view(old(issues)@) + literal_i64_issues(
            *value,
            segs(path@),
            expected,
        ),
{
    let same = match value {
        JsonValue::Number(n) => n.scale == 0 && n.mantissa == expected,
        _ => false,
    };
    if !same {
        add_issue(issues, path, "literal.mismatch", "Value differs from the expected literal");
    }
    proof {
        assert(issues_view(issues@) =~= issues_view(old(issues)@) + literal_i64_issues(
            *value,
            segs(path@),
            expected,
        ));
    }
}

/// The check of a string against `pattern`, given what the pattern said of it
/// (`None`: the pattern does not compile).
pub fn check_pattern_outcome(path: &[String], issues: &mut Issues, pattern: &str, outcome: Option<bool>)
    ensures
        issues_view(final(issues)@) == issues_view(old(issues)@) + pattern_text_issues(
            segs(path@),
            pattern@,
            outcome,
        ),
{
    if let Some(false) = outcome {
        let msg = String::from_str("Value does not match pattern ").concat(pattern);
        add_issue(issues, path, "pattern.mismatch", msg.as_str());
    }
    proof {
        assert(issues_view(issues@) =~= issues_view(old(issues)@) + pattern_text_issues(
            segs(path@),
            pattern@,
            outcome,
        ));
    }
}

/// A string that `pattern` matches; a pattern that does not compile checks nothing.
pub fn validate_pattern(value: &JsonValue, path: &[String], issues: &mut Issues, pattern: &str)
    ensures
        issues_view(final(issues)@) == issues_view(old(issues)@) + pattern_issues(
            *value,
            segs(path@),
            pattern@,
        ),
{
    match value {
        JsonValue::Str(s) => {
            let outcome = regex_search(pattern, s.as_str());
            check_pattern_outcome(path, issues, pattern, outcome);
        },
        _ => {
            add_mismatch(value, path, issues, "string for pattern match");
            proof {
                assert(issues_view(issues@) =~= issues_view(old(issues)@) + pattern_issues(
                    *value,
                    segs(path@),
                    pattern@,
                ));
            }
        },
    }
}

// ---------------------------------------------------------------------------
// Structural checks

/// Whether `value` is an object; records `type.mismatch` when it is not.
pub fn validate_object(value: &JsonValue, path: &[String], issues: &mut Issues) -> (r: bool)
    ensures
        r == (value matches JsonValue::Object(_)),
        issues_view(final(issues)@) == issues_view(old(issues)@) + object_issues(*value, segs(path@)),
{
    if matches!(value, JsonValue::Object(_)) {
        proof {
            assert(issues_view(issues@) =~= issues_view(old(issues)@) + object_issues(*value, segs(path@)));
        }
        true
    } else {
        add_mismatch(value, path, issues, "object");
        proof {
            assert(issues_view(issues@) =~= issues_view(old(issues)@) + object_issues(*value, segs(path@)));
        }
        false
    }
}


/// Runs the check `validator` on `value` at breadcrumb `path`.
pub fn check_value(value: &JsonValue, path: &[String], issues: &mut Issues, validator: &Validator)
    requires
        value_wf(*value),
        validator_wf(*validator),
    ensures
        issues_view(final(issues)@) == issues_view(old(issues)@) + issues_of(
            *value,
            *validator,
            segs(path@),
        ),
    decreases *validator, 0nat, 0nat,
{
    match validator {
        Validator::Str { min_length, max_length, pattern } => {
            let q = match pattern {
                Some(q) => Some(q.as_str()),
                None => None,
            };
            validate_str(value, path, issues, *min_length, *max_length, q);
        },
        Validator::Num { min, max, integer } => {
            validate_num(value, path, issues, *min, *max, *integer);
        },
        Validator::Bool => validate_bool(value, path, issues),
        Validator::Literal(e) => validate_literal(value, path, issues, e),
        Validator::LiteralStr(e) => validate_literal_str(value, path, issues, e.as_str()),
        Validator::LiteralI64(e) => validate_literal_i64(value, path, issues, *e),
        Validator::Pattern(q) => validate_pattern(value, path, issues, q.as_str()),
        Validator::Object(fields) => {
            let ghost start = issues_view(issues@);
            let ghost p = segs(path@);
            if validate_object(value, path, issues) {
                let mut i: usize = 0;
                while i < fields.len()
                    invariant
                        *validator == Validator::Object(*fields),
                        validator_wf(*validator),
                        value_wf(*value),
                        value matches JsonValue::Object(_),
                        p == segs(path@),
                        i <= fields@.len(),
                        issues_view(issues@) == start + fields_issues(*value, p, fields@, i as nat),
                    decreases fields@.len() - i,
                {
                    let f = &fields[i];
                    let fv = match &f.validator {
                        Some(x) => Some(x),
                        None => None,
                    };
                    proof {
                        assert(decreases_to!(*validator => (*validator)->Object_0));
                        assert(decreases_to!(*fields => fields[i as int]));
                        assert(decreases_to!(fields[i as int] => fields[i as int].validator));
                        assert(deref_opt(fv) == fields@[i as int].validator);
                        let _ = fields@[i as int];
                    }
                    let ghost before = issues_view(issues@);
                    validate_field(value, path, issues, f.key.as_str(), fv, f.optional);
                    proof {
                        assert(issues_view(issues@) =~= start + fields_issues(*value, p, fields@, i as nat + 1));
                    }
                    i = i + 1;
                }
            } else {
                proof {
                    assert(issues_view(issues@) =~= start + issues_of(*value, *validator, p));
                }
            }
        },
        Validator::List { item, min_items, max_items } => {
            let iv = match item {
                Some(b) => Some(&**b),
                None => None,
            };
            proof {
                assert(decreases_to!(*validator => (*validator)->item));
            }
            validate_list(value, path, issues, iv, *min_items, *max_items);
        },
        Validator::OneOf(alts) => {
            proof {
                assert(decreases_to!(*validator => (*validator)->OneOf_0));
                assert(decreases_to!(*alts => alts@));
            }
            validate_oneof(value, path, issues, alts.as_slice());
        },
    }
}

/// Checks the member `key` of `obj` with `validator`, at the breadcrumb
/// extended by `key`; a missing member is an issue unless `optional`. A value
/// that is not an object is left alone.
pub fn validate_field(
    obj: &JsonValue,
    path: &[String],
    issues: &mut Issues,
    key: &str,
    validator: Option<&Validator>,
    optional: bool,
)
    requires
        value_wf(*obj),
        validator matches Some(s) ==> validator_wf(*s),
    ensures
        issues_view(final(issues)@) == issues_view(old(issues)@) + field_issues(
            *obj,
            segs(path@),
            key@,
            deref_opt(validator),
            optional,
        ),
    decreases validator, 1nat, 0nat,
{
    if let JsonValue::Object(members) = obj {
        match find_member(members, key) {
            Some(v) => {
                if let Some(f) = validator {
                    let new_path = extend_path(path, String::from_str(key));
                    proof {
                        let i = find_key(members@, key@)->Some_0;
                        assert(value_wf(members@[i].1));
                    }
                    check_value(v, new_path.as_slice(), issues, f);
                } else {
                    proof {
                        assert(issues_view(issues@) =~= issues_view(old(issues)@) + field_issues(
                            *obj, segs(path@), key@, deref_opt(validator), optional));
                    }
                }
            },
            None => {
                if !optional {
                    let msg = String::from_str("Missing required field: ").concat(key);
                    add_issue(issues, path, "field.missing", msg.as_str());
                } else {
                    proof {
                        assert(issues_view(issues@) =~= issues_view(old(issues)@) + field_issues(
                            *obj, segs(path@), key@, deref_opt(validator), optional));
                    }
                }
            },
        }
    } else {
        proof {
            assert(issues_view(issues@) =~= issues_view(old(issues)@) + field_issues(
                *obj, segs(path@), key@, deref_opt(validator), optional));
        }
    }
}

/// An array within the length bounds given; every item is checked by
/// `item_validator` at breadcrumb `[i]`, whatever the bounds found.
pub fn validate_list(
    value: &JsonValue,
    path: &[String],
    issues: &mut Issues,
    item_validator: Option<&Validator>,
    min_items: Option<usize>,
    max_items: Option<usize>,
)
    requires
        value_wf(*value),
        item_validator matches Some(s) ==> validator_wf(*s),
    ensures
        issues_view(final(issues)@) == issues_view(old(issues)@) + list_issues(
            *value,
            segs(path@),
            deref_opt(item_validator),
            min_items,
            max_items,
        ),
    decreases item_validator, 1nat, 0nat,
{
    let ghost start = issues_view(issues@);
    let ghost p = segs(path@);
    match value {
        JsonValue::Array(xs) => {
            proof {
                assert(forall|k: int| 0 <= k < xs@.len() ==> value_wf(#[trigger] xs@[k]));
            }
            check_bounds(path, issues, "Array", "list.too_short", "list.too_long", xs.len(), min_items, max_items);
            let ghost mid = issues_view(issues@);
            if let Some(iv) = item_validator {
                let mut i: usize = 0;
                while i < xs.len()
                    invariant
                        *value == JsonValue::Array(*xs),
                        forall|k: int| 0 <= k < xs@.len() ==> value_wf(#[trigger] xs@[k]),
                        validator_wf(*iv),
                        item_validator == Some(iv),
                        p == segs(path@),
                        i <= xs@.len(),
                        issues_view(issues@) == mid + items_issues(xs@, p, *iv, i as nat),
                    decreases xs@.len() - i,
                {
                    let seg = index_segment(i);
                    let new_path = extend_path(path, seg);
                    proof {
                        assert(value_wf(xs@[i as int]));
                        assert(decreases_to!(item_validator => item_validator->Some_0));
                    }
                    check_value(&xs[i], new_path.as_slice(), issues, iv);
                    proof {
                        assert(issues_view(issues@) =~= mid + items_issues(xs@, p, *iv, i as nat + 1));
                    }
                    i = i + 1;
                }
                proof {
                    assert(issues_view(issues@) =~= start + list_issues(*value, p, deref_opt(item_validator), min_items, max_items));
                }
            } else {
                proof {
                    assert(issues_view(issues@) =~= start + list_issues(*value, p, deref_opt(item_validator), min_items, max_items));
                }
            }
        },
        _ => {
            add_mismatch(value, path, issues, "array");
            proof {
                assert(issues_view(issues@) =~= start + list_issues(*value, p, deref_opt(item_validator), min_items, max_items));
            }
        },
    }
}

/// Tries each alternative in order on a fresh issue list; the first that finds
/// nothing is accepted. When none does, records one `oneof.no_match`.
pub fn validate_oneof(value: &JsonValue, path: &[String], issues: &mut Issues, validators: &[Validator])
    requires
        value_wf(*value),
        forall|i: int| 0 <= i < validators@.len() ==> validator_wf(#[trigger] validators@[i]),
    ensures
        issues_view(final(issues)@) == issues_view(old(issues)@) + oneof_issues(
            *value,
            segs(path@),
            validators@,
        ),
    decreases validators@, 1nat, 0nat,
{
    let ghost p = segs(path@);
    let mut i: usize = 0;
    while i < validators.len()
        invariant
            i <= validators@.len(),
            value_wf(*value),
            forall|k: int| 0 <= k < validators@.len() ==> validator_wf(#[trigger] validators@[k]),
            !any_accepts(*value, p, validators@, i as nat),
            p == segs(path@),
            issues@ == old(issues)@,
        decreases validators@.len() - i,
    {
        let mut trial: Issues = Vec::new();
        proof {
            assert(decreases_to!(validators@ => validators@[i as int]));
        }
        check_value(value, path, &mut trial, &validators[i]);
        if trial.len() == 0 {
            proof {
                assert(issues_view(trial@).len() == 0);
                assert(any_accepts(*value, p, validators@, i as nat + 1));
                lemma_any_accepts_grows(*value, p, validators@, i as nat + 1, validators@.len());
                assert(issues_view(issues@) =~= issues_view(old(issues)@) + oneof_issues(*value, p, validators@));
            }
            return;
        }
        i = i + 1;
    }
    add_issue(issues, path, "oneof.no_match", "Value does not match any of the options");
}

/// Runs `validator` on `value` from the root breadcrumb and packages the outcome.
pub fn validate(value: &JsonValue, validator: &Validator) -> (r: ValidationResult)
    requires
        value_wf(*value),
        validator_wf(*validator),
    ensures
        issues_view(r.issues@) == issues_of(*value, *validator, seq![]),
        r.ok == (issues_of(*value, *validator, seq![]).len() == 0),
{
    let mut issues: Issues = Vec::new();
    let root: Vec<String> = Vec::new();
    proof {
        assert(segs(root@) =~= seq![]);
        assert(issues_view(issues@) =~= seq![]);
    }
    check_value(value, root.as_slice(), &mut issues, validator);
    proof {
        assert(issues_view(issues@) =~= issues_of(*value, *validator, seq![]));
    }
    finish(issues)
}

} // verus!
