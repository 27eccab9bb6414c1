use vstd::prelude::*;
use vstd::string::StringExecFns;
use crate::issue::{
    Issues, IssueView, ValidationResult, add_issue, extend_path, finish, issue_at, issues_view, segs,
};
use crate::paths::{ends_with, ext_of, file_name, file_name_of, extension, has_suffix, stem_of};
use crate::bundle::{FSContext, disk_exists, disk_is_dir, has_entry, has_under};
use crate::value::JsonValue;
use crate::validators::{
    Validator, check_value, deref_opt, issues_of, pattern_compiles, pattern_matches, regex_search,
    validator_wf, value_wf,
};

verus! {

// ---------------------------------------------------------------------------
// Files and directories inside a bundle

/// The issues of a plain-file check at `p`, given whether `rel` exists and is
/// a file, and whether the check passed.
pub open spec fn file_check(
    p: Seq<Seq<char>>,
    rel: Seq<char>,
    present: bool,
    is_file: bool,
    ext: Option<Seq<char>>,
) -> (Seq<IssueView>, bool) {
    let fp = p.push(rel);
    if !present {
        (seq![issue_at(fp, "file.not_found"@, "File not found: "@ + rel)], false)
    } else if !is_file {
        (seq![issue_at(fp, "file.not_file"@, "Not a file: "@ + rel)], false)
    } else {
        match ext {
            Some(x) if ext_of(file_name(rel)) != x => (
                seq![
                    issue_at(
                        fp,
                        "file.wrong_ext"@,
                        "Expected ."@ + x + ", got ."@ + ext_of(file_name(rel)),
                    ),
                ],
                false,
            ),
            _ => (seq![], true),
        }
    }
}

/// The issues of a directory check at `p`, given whether `rel` exists and is a
/// directory, and whether the check passed.
pub open spec fn dir_check(p: Seq<Seq<char>>, rel: Seq<char>, present: bool, is_dir: bool) -> (
    Seq<IssueView>,
    bool,
) {
    let dp = p.push(rel);
    if !present {
        (seq![issue_at(dp, "dir.not_found"@, "Directory not found: "@ + rel)], false)
    } else if !is_dir {
        (seq![issue_at(dp, "dir.not_dir"@, "Not a directory: "@ + rel)], false)
    } else {
        (seq![], true)
    }
}

/// Why a JSON file could not be loaded.
#[derive(Debug)]
pub enum LoadError {
    /// Reading the file failed; the message says why.
    Read(String),
    /// The text is not JSON; the message is the parser's.
    Syntax(String),
}

/// The message recorded for a load failure.
pub open spec fn load_message(e: LoadError) -> Seq<char> {
    match e {
        LoadError::Read(m) => m@,
        LoadError::Syntax(m) => "Invalid JSON: "@ + m@,
    }
}

/// Writes the message of a load failure.
pub fn load_error_message(e: &LoadError) -> (r: String)
    ensures
        r@ == load_message(*e),
{
    match e {
        LoadError::Read(m) => m.clone(),
        LoadError::Syntax(m) => String::from_str("Invalid JSON: ").concat(m.as_str()),
    }
}

/// The issues of a JSON-file check at `p`, given the probes of `rel` and what
/// reading and parsing it gave.
pub open spec fn json_file_check(
    p: Seq<Seq<char>>,
    rel: Seq<char>,
    present: bool,
    is_file: bool,
    parsed: Result<JsonValue, LoadError>,
    content: Option<Validator>,
) -> Seq<IssueView> {
    let fp = p.push(rel);
    if !present {
        seq![issue_at(fp, "file.not_found"@, "File not found: "@ + rel)]
    } else if !is_file {
        seq![issue_at(fp, "file.not_file"@, "Not a file: "@ + rel)]
    } else {
        match parsed {
            Err(e) => seq![issue_at(fp, "json.parse_error"@, load_message(e))],
            Ok(v) => match content {
                Some(s) => issues_of(v, s, fp),
                None => seq![],
            },
        }
    }
}

/// Records what a plain-file check finds, given the probes of `rel_path`.
pub fn check_file_probes(
    rel_path: &str,
    path: &[String],
    issues: &mut Issues,
    present: bool,
    is_file: bool,
    ext: Option<&str>,
) -> (r: bool)
    ensures
        issues_view(final(issues)@) == issues_view(old(issues)@) + file_check(
            segs(path@),
            rel_path@,
            present,
            is_file,
            crate::validators::opt_view(ext),
        ).0,
        r == file_check(segs(path@), rel_path@, present, is_file, crate::validators::opt_view(ext)).1,
{
    let file_path = extend_path(path, String::from_str(rel_path));
    if !present {
        let msg = String::from_str("File not found: ").concat(rel_path);
        add_issue(issues, file_path.as_slice(), "file.not_found", msg.as_str());
        return false;
    }
    if !is_file {
        let msg = String::from_str("Not a file: ").concat(rel_path);
        add_issue(issues, file_path.as_slice(), "file.not_file", msg.as_str());
        return false;
    }
    if let Some(e) = ext {
        let name = file_name_of(rel_path);
        let actual = extension(name.as_str());
        if String::from_str(e) != actual {
            let msg = String::from_str("Expected .").concat(e).concat(", got .").concat(
                actual.as_str(),
            );
            add_issue(issues, file_path.as_slice(), "file.wrong_ext", msg.as_str());
            return false;
        }
    }
    proof {
        assert(issues_view(issues@) =~= issues_view(old(issues)@) + file_check(
            segs(path@),
            rel_path@,
            present,
            is_file,
            crate::validators::opt_view(ext),
        ).0);
    }
    true
}

/// A plain file at `rel_path`, with extension `ext` when one is given
/// (compared exactly). For an archive the probes are its entries; for a
/// directory they are whatever the file system answered.
pub fn validate_fs_file(
    ctx: &FSContext,
    rel_path: &str,
    path: &[String],
    issues: &mut Issues,
    ext: Option<&str>,
) -> (r: bool)
    ensures
        exists|present: bool, is_file: bool|
            {
                &&& ctx.is_zip ==> present == (has_entry(ctx.names(), rel_path@) || has_under(
                    ctx.names(),
                    rel_path@,
                ))
                &&& (ctx.is_zip && present) ==> is_file == has_entry(ctx.names(), rel_path@)
                &&& issues_view(final(issues)@) == issues_view(old(issues)@) + file_check(
                    segs(path@),
                    rel_path@,
                    present,
                    is_file,
                    crate::validators::opt_view(ext),
                ).0
                &&& r == file_check(
                    segs(path@),
                    rel_path@,
                    present,
                    is_file,
                    crate::validators::opt_view(ext),
                ).1
            },
{
    let present = ctx.path_exists(rel_path);
    let is_file = if present {
        ctx.is_file(rel_path)
    } else {
        false
    };
    check_file_probes(rel_path, path, issues, present, is_file, ext)
}

/// Records what a directory check finds, given the probes of `rel_path`.
pub fn check_dir_probes(rel_path: &str, path: &[String], issues: &mut Issues, present: bool, is_dir: bool) -> (r: bool)
    ensures
        issues_view(final(issues)@) == issues_view(old(issues)@) + dir_check(
            segs(path@),
            rel_path@,
            present,
            is_dir,
        ).0,
        r == dir_check(segs(path@), rel_path@, present, is_dir).1,
{
    let dir_path = extend_path(path, String::from_str(rel_path));
    if !present {
        let msg = String::from_str("Directory not found: ").concat(rel_path);
        add_issue(issues, dir_path.as_slice(), "dir.not_found", msg.as_str());
        return false;
    }
    if !is_dir {
        let msg = String::from_str("Not a directory: ").concat(rel_path);
        add_issue(issues, dir_path.as_slice(), "dir.not_dir", msg.as_str());
        return false;
    }
    proof {
        assert(issues_view(issues@) =~= issues_view(old(issues)@));
    }
    true
}

/// A directory at `rel_path`.
pub fn validate_fs_directory(ctx: &FSContext, rel_path: &str, path: &[String], issues: &mut Issues) -> (r: bool)
    ensures
        exists|present: bool, is_dir: bool|
            {
                &&& ctx.is_zip ==> present == (has_entry(ctx.names(), rel_path@) || has_under(
                    ctx.names(),
                    rel_path@,
                ))
                &&& (ctx.is_zip && present) ==> is_dir == has_under(ctx.names(), rel_path@)
                &&& issues_view(final(issues)@) == issues_view(old(issues)@) + dir_check(
                    segs(path@),
                    rel_path@,
                    present,
                    is_dir,
                ).0
                &&& r == dir_check(segs(path@), rel_path@, present, is_dir).1
            },
{
    let present = ctx.path_exists(rel_path);
    let is_dir = if present {
        ctx.is_dir(rel_path)
    } else {
        false
    };
    check_dir_probes(rel_path, path, issues, present, is_dir)
}

/// Records what a JSON-file check finds, given the probes of `rel_path` and
/// what reading and parsing it gave; returns the parsed value when the file
/// was there and parsed.
pub fn check_json_file(
    rel_path: &str,
    path: &[String],
    issues: &mut Issues,
    present: bool,
    is_file: bool,
    parsed: Result<JsonValue, LoadError>,
    content_validator: Option<&Validator>,
) -> (r: Option<JsonValue>)
    requires
        parsed matches Ok(v) ==> value_wf(v),
        content_validator matches Some(s) ==> validator_wf(*s),
    ensures
        issues_view(final(issues)@) == issues_view(old(issues)@) + json_file_check(
            segs(path@),
            rel_path@,
            present,
            is_file,
            parsed,
            deref_opt(content_validator),
        ),
        r is Some <==> (present && is_file && parsed is Ok),
        r matches Some(v) ==> parsed == Ok::<JsonValue, LoadError>(v),
{
    let file_path = extend_path(path, String::from_str(rel_path));
    if !present {
        let msg = String::from_str("File not found: ").concat(rel_path);
        add_issue(issues, file_path.as_slice(), "file.not_found", msg.as_str());
        return None;
    }
    if !is_file {
        let msg = String::from_str("Not a file: ").concat(rel_path);
        add_issue(issues, file_path.as_slice(), "file.not_file", msg.as_str());
        return None;
    }
    match parsed {
        Ok(content) => {
            if let Some(cv) = content_validator {
                check_value(&content, file_path.as_slice(), issues, cv);
            } else {
                proof {
                    assert(issues_view(issues@) =~= issues_view(old(issues)@));
                }
            }
            Some(content)
        },
        Err(e) => {
            let msg = load_error_message(&e);
            add_issue(issues, file_path.as_slice(), "json.parse_error", msg.as_str());
            None
        },
    }
}

/// A JSON file at `rel_path`: `parsed` is what reading and parsing it gave.
/// The parsed value, checked by `content_validator` at the breadcrumb extended
/// by `rel_path`, is returned when the file is there and parsed.
pub fn validate_json_file(
    ctx: &FSContext,
    rel_path: &str,
    path: &[String],
    issues: &mut Issues,
    parsed: Result<JsonValue, LoadError>,
    content_validator: Option<&Validator>,
) -> (r: Option<JsonValue>)
    requires
        parsed matches Ok(v) ==> value_wf(v),
        content_validator matches Some(s) ==> validator_wf(*s),
    ensures
        exists|present: bool, is_file: bool|
            {
                &&& ctx.is_zip ==> present == (has_entry(ctx.names(), rel_path@) || has_under(
                    ctx.names(),
                    rel_path@,
                ))
                &&& (ctx.is_zip && present) ==> is_file == has_entry(ctx.names(), rel_path@)
                &&& issues_view(final(issues)@) == issues_view(old(issues)@) + json_file_check(
                    segs(path@),
                    rel_path@,
                    present,
                    is_file,
                    parsed,
                    deref_opt(content_validator),
                )
                &&& (r is Some <==> (present && is_file && parsed is Ok))
            },
        r matches Some(v) ==> parsed == Ok::<JsonValue, LoadError>(v),
{
    let present = ctx.path_exists(rel_path);
    let is_file = if present {
        ctx.is_file(rel_path)
    } else {
        false
    };
    check_json_file(rel_path, path, issues, present, is_file, parsed, content_validator)
}

// ---------------------------------------------------------------------------
// Whole bundles

/// What a bundle path names.
#[derive(Debug, Clone, Copy, PartialEq, Eq, Structural)]
pub enum BundleKind {
    /// Nothing is there.
    Missing,
    /// A directory.
    Directory,
    /// A file named like an archive.
    Archive,
    /// Anything else.
    Other,
}

/// `path` ends in `.zip`, or in `.` and the alternate archive extension.
pub open spec fn archive_named(path: Seq<char>, zip_ext: Option<Seq<char>>) -> bool {
    ends_with(path, ".zip"@) || match zip_ext {
        Some(e) => ends_with(path, "."@ + e),
        None => false,
    }
}

pub open spec fn kind_of(path: Seq<char>, present: bool, is_dir: bool, zip_ext: Option<Seq<char>>) -> BundleKind {
    if !present {
        BundleKind::Missing
    } else if is_dir {
        BundleKind::Directory
    } else if archive_named(path, zip_ext) {
        BundleKind::Archive
    } else {
        BundleKind::Other
    }
}

/// The issues of a bundle's kind against what is accepted, and whether the
/// bundle may be opened.
pub open spec fn kind_check(
    p: Seq<Seq<char>>,
    path: Seq<char>,
    kind: BundleKind,
    accept_dir: bool,
    accept_zip: bool,
) -> (Seq<IssueView>, bool) {
    match kind {
        BundleKind::Missing => (seq![issue_at(p, "bundle.not_found"@, "Path not found: "@ + path)], false),
        BundleKind::Directory => if accept_dir {
            (seq![], true)
        } else {
            (seq![issue_at(p, "bundle.type_mismatch"@, "Directory not accepted"@)], false)
        },
        BundleKind::Archive => if accept_zip {
            (seq![], true)
        } else {
            (seq![issue_at(p, "bundle.type_mismatch"@, "Zip file not accepted"@)], false)
        },
        BundleKind::Other => (seq![issue_at(p, "bundle.invalid"@, "Not a valid bundle: "@ + path)], false),
    }
}

/// Whether `path` is named like an archive.
pub fn is_archive_name(path: &str, zip_ext: Option<&str>) -> (r: bool)
    ensures
        r == archive_named(path@, crate::validators::opt_view(zip_ext)),
{
    if has_suffix(path, ".zip") {
        return true;
    }
    match zip_ext {
        Some(e) => {
            let dotted = String::from_str(".").concat(e);
            has_suffix(path, dotted.as_str())
        },
        None => false,
    }
}

/// What `bundle_path` names, given whether something is there and whether it
/// is a directory.
pub fn classify_bundle(bundle_path: &str, present: bool, is_dir: bool, zip_ext: Option<&str>) -> (r: BundleKind)
    ensures
        r == kind_of(bundle_path@, present, is_dir, crate::validators::opt_view(zip_ext)),
{
    if !present {
        BundleKind::Missing
    } else if is_dir {
        BundleKind::Directory
    } else if is_archive_name(bundle_path, zip_ext) {
        BundleKind::Archive
    } else {
        BundleKind::Other
    }
}

/// What `bundle_path` names, as the file system answered.
pub fn bundle_kind(bundle_path: &str, zip_ext: Option<&str>) -> (r: BundleKind)
    ensures
        exists|present: bool, is_dir: bool|
            r == kind_of(bundle_path@, present, is_dir, crate::validators::opt_view(zip_ext)),
{
    let present = disk_exists(bundle_path);
    let is_dir = if present {
        disk_is_dir(bundle_path)
    } else {
        false
    };
    classify_bundle(bundle_path, present, is_dir, zip_ext)
}

/// Records what the kind of a bundle says against what is accepted; returns
/// whether the bundle may be opened.
pub fn check_bundle_kind(
    bundle_path: &str,
    path_list: &[String],
    issues: &mut Issues,
    kind: BundleKind,
    accept_dir: bool,
    accept_zip: bool,
) -> (r: bool)
    ensures
        issues_view(final(issues)@) == issues_view(old(issues)@) + kind_check(
            segs(path_list@),
            bundle_path@,
            kind,
            accept_dir,
            accept_zip,
        ).0,
        r == kind_check(segs(path_list@), bundle_path@, kind, accept_dir, accept_zip).1,
{
    match kind {
        BundleKind::Missing => {
            let msg = String::from_str("Path not found: ").concat(bundle_path);
            add_issue(issues, path_list, "bundle.not_found", msg.as_str());
            false
        },
        BundleKind::Directory => {
            if accept_dir {
                proof {
                    assert(issues_view(issues@) =~= issues_view(old(issues)@));
                }
                true
            } else {
                add_issue(issues, path_list, "bundle.type_mismatch", "Directory not accepted");
                false
            }
        },
        BundleKind::Archive => {
            if accept_zip {
                proof {
                    assert(issues_view(issues@) =~= issues_view(old(issues)@));
                }
                true
            } else {
                add_issue(issues, path_list, "bundle.type_mismatch", "Zip file not accepted");
                false
            }
        },
        BundleKind::Other => {
            let msg = String::from_str("Not a valid bundle: ").concat(bundle_path);
            add_issue(issues, path_list, "bundle.invalid", msg.as_str());
            false
        },
    }
}

/// The issue of a bundle name that its pattern refused.
pub open spec fn name_check(p: Seq<Seq<char>>, name: Seq<char>, outcome: Option<bool>) -> Seq<IssueView> {
    if outcome == Some(false) {
        seq![issue_at(p, "bundle.name_mismatch"@, "Name '"@ + name + "' does not match pattern"@)]
    } else {
        seq![]
    }
}

/// Records what a name pattern said of a bundle's name (`None`: the pattern
/// does not compile, which checks nothing).
pub fn check_bundle_name(name: &str, path_list: &[String], issues: &mut Issues, outcome: Option<bool>)
    ensures
        issues_view(final(issues)@) == issues_view(old(issues)@) + name_check(
            segs(path_list@),
            name@,
            outcome,
        ),
{
    if let Some(false) = outcome {
        let msg = String::from_str("Name '").concat(name).concat("' does not match pattern");
        add_issue(issues, path_list, "bundle.name_mismatch", msg.as_str());
    } else {
        proof {
            assert(issues_view(issues@) =~= issues_view(old(issues)@));
        }
    }
}

/// The issues that opening a bundle leaves: its open error, or what its name
/// pattern said of its name.
pub open spec fn opened_check(
    p: Seq<Seq<char>>,
    opened: Result<FSContext, String>,
    name_pattern: Option<Seq<char>>,
) -> Seq<IssueView> {
    match opened {
        Err(m) => seq![issue_at(p, "bundle.open_error"@, m@)],
        Ok(ctx) => match name_pattern {
            Some(q) => {
                let name = stem_of(file_name(ctx.base_path@));
                name_check(
                    p,
                    name,
                    if pattern_compiles(q) {
                        Some(pattern_matches(q, name))
                    } else {
                        None
                    },
                )
            },
            None => seq![],
        },
    }
}

/// Takes the outcome of opening a bundle: records the open error, or checks
/// the bundle's name against `name_pattern`; hands the opened bundle back.
pub fn check_opened_bundle(
    opened: Result<FSContext, String>,
    path_list: &[String],
    issues: &mut Issues,
    name_pattern: Option<&str>,
) -> (r: Option<FSContext>)
    ensures
        issues_view(final(issues)@) == issues_view(old(issues)@) + opened_check(
            segs(path_list@),
            opened,
            crate::validators::opt_view(name_pattern),
        ),
        r is Some <==> opened is Ok,
        r matches Some(c) ==> opened == Ok::<FSContext, String>(c),
{
    match opened {
        Ok(ctx) => {
            if let Some(pattern) = name_pattern {
                let name = ctx.basename();
                let outcome = regex_search(pattern, name.as_str());
                check_bundle_name(name.as_str(), path_list, issues, outcome);
            } else {
                proof {
                    assert(issues_view(issues@) =~= issues_view(old(issues)@));
                }
            }
            Some(ctx)
        },
        Err(e) => {
            add_issue(issues, path_list, "bundle.open_error", e.as_str());
            None
        },
    }
}

/// Runs a bundle validator on `bundle_path` from the root breadcrumb and
/// packages the issues it recorded; the bundle it hands back is dropped.
pub fn validate_path<F: Fn(&str, &[String], &mut Issues) -> Option<FSContext>>(
    bundle_path: &str,
    validator: F,
) -> (r: ValidationResult)
    requires
        forall|p: &[String], i: &mut Issues| validator.requires((bundle_path, p, i)),
    ensures
        exists|p: &[String], i: &mut Issues, o: Option<FSContext>|
            {
                &&& p@.len() == 0
                &&& mut_ref_current(i)@.len() == 0
                &&& validator.ensures((bundle_path, p, i), o)
                &&& r.issues@ == mut_ref_future(i)@
            },
        r.ok == (r.issues@.len() == 0),
{
    let mut issues: Issues = Vec::new();
    let root: Vec<String> = Vec::new();
    let _ = validator(bundle_path, root.as_slice(), &mut issues);
    finish(issues)
}

} // verus!
