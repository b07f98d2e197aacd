//! The records an agent run appends to a plan's `plan-result.md`.
use vstd::prelude::*;
use crate::json_args::{
    FieldView, field_text, field_view, fields_view, json_fields, keys_view, next_field, read_fields, take_text,
};
use crate::plan_package::string_views;
use crate::text::{append_chars, append_lit, chars_of, contains, contains_lit, eq_lit, split, split_exec, string_of, views};

verus! {

/// Items as an indented Markdown list, or `  - none`.
pub open spec fn indented_list(items: Seq<Seq<char>>) -> Seq<char>
    decreases items.len(),
{
    if items.len() == 0 {
        "  - none"@
    } else if items.len() == 1 {
        "  - "@ + items[0]
    } else {
        indented_list(items.drop_last()) + "\n  - "@ + items.last()
    }
}

pub fn indented_list_exec(items: &Vec<String>) -> (r: Vec<char>)
    ensures
        r@ == indented_list(string_views(items@)),
{
    if items.len() == 0 {
        return chars_of("  - none");
    }
    let mut out = chars_of("  - ");
    append_chars(&mut out, &chars_of(items[0].as_str()));
    let mut i: usize = 1;
    proof {
        assert(string_views(items@).take(1) =~= seq![items@[0]@]);
    }
    while i < items.len()
        invariant
            1 <= i <= items.len(),
            out@ == indented_list(string_views(items@).take(i as int)),
        decreases items.len() - i,
    {
        append_lit(&mut out, "\n  - ");
        append_chars(&mut out, &chars_of(items[i].as_str()));
        proof {
            let t = string_views(items@).take(i + 1);
            assert(t.drop_last() =~= string_views(items@).take(i as int));
            assert(t.last() == items@[i as int]@);
        }
        i = i + 1;
    }
    proof {
        assert(string_views(items@).take(items@.len() as int) =~= string_views(items@));
    }
    out
}

pub open spec fn has_parent_piece(parts: Seq<Seq<char>>) -> bool {
    exists|k: int| 0 <= k < parts.len() && #[trigger] parts[k] == ".."@
}

/// A plan result path is `plans/<id>/plan-result.md`, relative and without
/// `..`.
pub open spec fn plan_result_path_check(path: Seq<char>) -> Result<(), Seq<char>> {
    let parts = split(path, '/');
    if (path.len() > 0 && path[0] == '/') || contains(path, ":"@) || has_parent_piece(parts) {
        Err("plan-result path must be workspace-relative"@)
    } else if parts.len() == 3 && parts[0] == "plans"@ && parts[2] == "plan-result.md"@ {
        Ok(())
    } else {
        Err("plan-result path must be plans/<id>/plan-result.md"@)
    }
}

pub open spec fn text_unit_result(r: Result<(), String>) -> Result<(), Seq<char>> {
    match r {
        Ok(_) => Ok(()),
        Err(e) => Err(e@),
    }
}

/// Checks that a path names a plan's `plan-result.md`.
pub fn validate_plan_result_path(path: &str) -> (r: Result<(), String>)
    ensures
        text_unit_result(r) == plan_result_path_check(path@),
{
    let p = chars_of(path);
    let parts = split_exec(&p, '/');
    let mut parent = false;
    let mut k: usize = 0;
    while k < parts.len()
        invariant
            k <= parts.len(),
            parent == exists|j: int| 0 <= j < k && #[trigger] views(parts@)[j] == ".."@,
        decreases parts.len() - k,
    {
        if eq_lit(&parts[k], "..") {
            parent = true;
        }
        proof {
            assert(views(parts@)[k as int] == parts@[k as int]@);
        }
        k = k + 1;
    }
    if (p.len() > 0 && p[0] == '/') || contains_lit(&p, ":") || parent {
        return Err("plan-result path must be workspace-relative".to_owned());
    }
    if parts.len() == 3 && eq_lit(&parts[0], "plans") && eq_lit(&parts[2], "plan-result.md") {
        proof {
            assert(views(parts@)[0] == parts@[0]@);
            assert(views(parts@)[2] == parts@[2]@);
        }
        Ok(())
    } else {
        proof {
            if parts@.len() == 3 {
                assert(views(parts@)[0] == parts@[0]@);
                assert(views(parts@)[2] == parts@[2]@);
            }
        }
        Err("plan-result path must be plans/<id>/plan-result.md".to_owned())
    }
}

pub open spec fn run_label(run_id: Option<Seq<char>>) -> Seq<char> {
    match run_id {
        Some(r) => r,
        None => "unknown"@,
    }
}

/// The record of a run that committed its result.
pub open spec fn success_record(
    run_id: Option<Seq<char>>,
    result_id: Seq<char>,
    build_id: Seq<char>,
    committed_files: Seq<Seq<char>>,
    exports: Seq<Seq<char>>,
) -> Seq<char> {
    "\n## Agent Run "@ + run_label(run_id) + "\n\n- status: succeeded\n- run_id: `"@ + run_label(run_id)
        + "`\n- result_id: `"@ + result_id + "`\n- build_id: `"@ + build_id + "`\n- committed_files:\n"@
        + indented_list(committed_files) + "\n- outputs:\n"@ + indented_list(exports) + "\n"@
}

/// The record of a run that failed.
pub open spec fn failure_record(run_id: Option<Seq<char>>, error_type: Seq<char>, message: Seq<char>) -> Seq<char> {
    "\n## Agent Run "@ + run_label(run_id) + "\n\n- status: failed\n- run_id: `"@ + run_label(run_id)
        + "`\n- error_type: `"@ + error_type + "`\n- message: "@ + message + "\n"@
}

pub open spec fn opt_str(o: Option<&str>) -> Option<Seq<char>> {
    match o {
        Some(s) => Some(s@),
        None => None,
    }
}

fn run_label_exec(run_id: Option<&str>) -> (r: Vec<char>)
    ensures
        r@ == run_label(opt_str(run_id)),
{
    match run_id {
        Some(r) => chars_of(r),
        None => chars_of("unknown"),
    }
}

/// The record appended to `plan-result.md` when a run commits.
pub fn plan_result_success_record(
    run_id: Option<&str>,
    result_id: &str,
    build_id: &str,
    committed_files: &Vec<String>,
    exports: &Vec<String>,
) -> (r: String)
    ensures
        r@ == success_record(
            opt_str(run_id),
            result_id@,
            build_id@,
            string_views(committed_files@),
            string_views(exports@),
        ),
{
    let run = run_label_exec(run_id);
    let mut m = chars_of("\n## Agent Run ");
    append_chars(&mut m, &run);
    append_lit(&mut m, "\n\n- status: succeeded\n- run_id: `");
    append_chars(&mut m, &run);
    append_lit(&mut m, "`\n- result_id: `");
    append_lit(&mut m, result_id);
    append_lit(&mut m, "`\n- build_id: `");
    append_lit(&mut m, build_id);
    append_lit(&mut m, "`\n- committed_files:\n");
    append_chars(&mut m, &indented_list_exec(committed_files));
    append_lit(&mut m, "\n- outputs:\n");
    append_chars(&mut m, &indented_list_exec(exports));
    append_lit(&mut m, "\n");
    string_of(&m)
}

/// The record appended to `plan-result.md` when a run fails.
pub fn plan_result_failure_record(run_id: Option<&str>, error_type: &str, message: &str) -> (r: String)
    ensures
        r@ == failure_record(opt_str(run_id), error_type@, message@),
{
    let run = run_label_exec(run_id);
    let mut m = chars_of("\n## Agent Run ");
    append_chars(&mut m, &run);
    append_lit(&mut m, "\n\n- status: failed\n- run_id: `");
    append_chars(&mut m, &run);
    append_lit(&mut m, "`\n- error_type: `");
    append_lit(&mut m, error_type);
    append_lit(&mut m, "`\n- message: ");
    append_lit(&mut m, message);
    append_lit(&mut m, "\n");
    string_of(&m)
}

/// The keys of a tool's error reply that a plan failure records.
pub open spec fn error_reply_keys() -> Seq<Seq<char>> {
    seq!["error_type"@, "message"@]
}

/// The error type and message that a plan result records of a tool's error
/// reply: the string fields, with defaults where they are missing; none
/// where the reply is no JSON.
pub open spec fn reply_error_fields(r: Result<Seq<FieldView>, Seq<char>>) -> Option<(Seq<char>, Seq<char>)> {
    match r {
        Err(_) => None,
        Ok(f) => Some(
            (
                match field_text(f[0]) {
                    Some(t) => t,
                    None => "unknown_error"@,
                },
                match field_text(f[1]) {
                    Some(t) => t,
                    None => "Agent tool failed"@,
                },
            ),
        ),
    }
}

/// The error type and message of a tool's error reply.
pub fn error_fields(result_json: &str) -> (r: Option<(String, String)>)
    ensures
        match r {
            Some((t, m)) => reply_error_fields(json_fields(result_json@, error_reply_keys())) == Some((t@, m@)),
            None => reply_error_fields(json_fields(result_json@, error_reply_keys())) is None,
        },
{
    let mut keys: Vec<&str> = Vec::new();
    keys.push("error_type");
    keys.push("message");
    proof {
        assert(keys_view(keys@) =~= error_reply_keys());
    }
    let mut fields = match read_fields(result_json, &keys) {
        Err(_) => return None,
        Ok(v) => v,
    };
    let ghost f = fields_view(fields@);
    let ghost all = fields@;
    let error_type = match take_text(next_field(&mut fields)) {
        Some(t) => t,
        None => "unknown_error".to_owned(),
    };
    let message = match take_text(next_field(&mut fields)) {
        Some(t) => t,
        None => "Agent tool failed".to_owned(),
    };
    proof {
        assert(f[0] == field_view(all[0]));
        assert(f[1] == field_view(all[1]));
    }
    Some((error_type, message))
}

} // verus!
