use vstd::prelude::*;
use crate::issue::{IssueView, issue_at};
use crate::value::{JsonValue, Number, find_key};
use crate::paths::starts_with;
use crate::bundle::{FSContext, has_entry, has_under};
use crate::bundle_checks::{LoadError, json_file_check};
use crate::validators::{
    Validator, any_accepts, below_msg, byte_len, field_issues, issues_of, items_issues,
    lemma_any_accepts_grows, list_issues, missing_issue, num_issues, oneof_issues, str_issues,
};

verus! {

/// A string shorter than the minimum length, checked with no other
/// constraint, yields exactly one issue, coded `str.too_short`.
pub proof fn law_short_string(s: String, min: usize, p: Seq<Seq<char>>)
    requires
        byte_len(s@) < min,
    ensures
        str_issues(JsonValue::Str(s), p, Some(min), None, None).len() == 1,
        str_issues(JsonValue::Str(s), p, Some(min), None, None)[0].code == "str.too_short"@,
{
}

/// A number between its bounds, with no integer constraint, yields no issue.
pub proof fn law_number_in_range(n: Number, min: Number, max: Number, p: Seq<Seq<char>>)
    requires
        !n.lt(min),
        !max.lt(n),
    ensures
        num_issues(JsonValue::Number(n), p, Some(min), Some(max), false) == Seq::<IssueView>::empty(),
{
    assert(num_issues(JsonValue::Number(n), p, Some(min), Some(max), false) =~= Seq::<IssueView>::empty());
}

/// A key that an object lacks: a required field yields exactly one
/// `field.missing` issue, an optional one yields none.
pub proof fn law_missing_field(
    members: Vec<(String, JsonValue)>,
    key: Seq<char>,
    validator: Option<Validator>,
    p: Seq<Seq<char>>,
)
    requires
        find_key(members@, key) is None,
    ensures
        field_issues(JsonValue::Object(members), p, key, validator, false) == seq![missing_issue(p, key)],
        field_issues(JsonValue::Object(members), p, key, validator, true) == Seq::<IssueView>::empty(),
{
}

/// A list shorter than its minimum yields `list.too_short`, and every item is
/// still checked, each at its own `[i]` breadcrumb.
pub proof fn law_short_list_checks_items(
    items: Vec<JsonValue>,
    item: Validator,
    min: usize,
    p: Seq<Seq<char>>,
)
    requires
        items@.len() < min,
    ensures
        list_issues(JsonValue::Array(items), p, Some(item), Some(min), None) == seq![
            issue_at(p, "list.too_short"@, below_msg("Array"@, items@.len(), min as nat)),
        ] + items_issues(items@, p, item, items@.len()),
{
    let v = JsonValue::Array(items);
    assert(list_issues(v, p, Some(item), Some(min), None) =~= seq![
        issue_at(p, "list.too_short"@, below_msg("Array"@, items@.len(), min as nat)),
    ] + items_issues(items@, p, item, items@.len()));
}

/// When some alternative finds nothing in a value, a one-of check records
/// nothing, whatever the other alternatives find.
pub proof fn law_oneof_accepts_any_match(v: JsonValue, alts: Seq<Validator>, k: int, p: Seq<Seq<char>>)
    requires
        0 <= k < alts.len(),
        issues_of(v, alts[k], p).len() == 0,
    ensures
        oneof_issues(v, p, alts) == Seq::<IssueView>::empty(),
{
    assert(any_accepts(v, p, alts, (k + 1) as nat));
    lemma_any_accepts_grows(v, p, alts, (k + 1) as nat, alts.len());
}

/// A file that is there but does not parse yields exactly one
/// `json.parse_error` issue, at the file's breadcrumb, whose message is
/// `Invalid JSON: ` and the parser's words; no content check runs.
pub proof fn law_unparsable_json_file(
    p: Seq<Seq<char>>,
    rel: Seq<char>,
    message: String,
    content: Option<Validator>,
)
    ensures
        json_file_check(p, rel, true, true, Err(LoadError::Syntax(message)), content) == seq![
            issue_at(p.push(rel), "json.parse_error"@, "Invalid JSON: "@ + message@),
        ],
{
}

/// In an archive, a path is a directory as soon as some entry lies under it,
/// though no entry bears its own name.
pub proof fn law_archive_synthetic_directory(ctx: FSContext, dir: Seq<char>, i: int)
    requires
        0 <= i < ctx.names().len(),
        starts_with(ctx.names()[i], dir + "/"@),
    ensures
        has_under(ctx.names(), dir),
        has_entry(ctx.names(), dir) || has_under(ctx.names(), dir),
{
}

} // verus!
