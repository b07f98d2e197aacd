//! What reading a workspace file for a client answers: whether the client
//! may read its type, the media type it is sent as, and whether it goes as
//! text.
use vstd::prelude::*;
use crate::plan_package::string_views;
use crate::text::{chars_of, eq_lit, lower_exec, lower_seq, seq_eq, slice_vec, split_exec, string_of, views};
use crate::workspace_path::{dot_dot, file_name, kept_exec, last_index_of_char, last_index_of_char_exec};

verus! {

/// The extension of a file name, as `Path::extension` gives it: the text
/// after its last dot, unless that dot leads the name.
pub open spec fn name_extension(name: Seq<char>) -> Option<Seq<char>> {
    match last_index_of_char(name, '.') {
        Some(i) => if i == 0 {
            None
        } else {
            Some(name.subrange(i + 1, name.len() as int))
        },
        None => None,
    }
}

/// The extension of a path's file name.
pub open spec fn path_extension(path: Seq<char>) -> Option<Seq<char>> {
    match file_name(path) {
        Some(n) => name_extension(n),
        None => None,
    }
}

pub fn path_extension_exec(path: &str) -> (r: Option<Vec<char>>)
    ensures
        match r {
            Some(v) => path_extension(path@) == Some(v@),
            None => path_extension(path@) is None,
        },
{
    let segs = split_exec(&chars_of(path), '/');
    let k = kept_exec(&segs);
    if k.len() == 0 {
        return None;
    }
    let last = &k[k.len() - 1];
    proof {
        assert(views(k@).last() == last@);
        reveal_strlit("..");
        assert(".."@ =~= dot_dot());
    }
    if eq_lit(last.as_slice(), "..") {
        return None;
    }
    match last_index_of_char_exec(last.as_slice(), '.') {
        Some(i) => if i == 0 {
            None
        } else {
            Some(slice_vec(last.as_slice(), i + 1, last.len()))
        },
        None => None,
    }
}

/// The extension by which a client's refusal list is checked: a dot and the
/// extension in ASCII small letters.
pub open spec fn dotted_extension(path: Seq<char>) -> Option<Seq<char>> {
    match path_extension(path) {
        Some(e) => Some("."@ + lower_seq(e)),
        None => None,
    }
}

/// A file may be read unless its dotted extension is one the client
/// refuses; the refusal names it.
pub open spec fn client_type_check(path: Seq<char>, denied: Seq<Seq<char>>) -> Result<(), Seq<char>> {
    match dotted_extension(path) {
        Some(ext) => if denied.contains(ext) {
            Err("当前 client 不允许读取 "@ + ext + " 文件"@)
        } else {
            Ok(())
        },
        None => Ok(()),
    }
}

pub fn validate_client_file_type(path: &str, denied_extensions: &Vec<String>) -> (r: Result<(), String>)
    ensures
        match (r, client_type_check(path@, string_views(denied_extensions@))) {
            (Ok(_), Ok(_)) => true,
            (Err(e), Err(m)) => e@ == m,
            _ => false,
        },
{
    let ext = match path_extension_exec(path) {
        Some(e) => e,
        None => return Ok(()),
    };
    let mut dotted = chars_of(".");
    crate::text::append_chars(&mut dotted, &lower_exec(&ext));
    let ghost all = string_views(denied_extensions@);
    let mut i: usize = 0;
    while i < denied_extensions.len()
        invariant
            i <= denied_extensions.len(),
            all == string_views(denied_extensions@),
            dotted_extension(path@) == Some(dotted@),
            forall|j: int| 0 <= j < i ==> all[j] != dotted@,
        decreases denied_extensions.len() - i,
    {
        if seq_eq(&chars_of(denied_extensions[i].as_str()), &dotted) {
            proof {
                assert(all[i as int] == dotted@);
            }
            return Err(string_of(&crate::text::surround("当前 client 不允许读取 ", &dotted, " 文件")));
        }
        i = i + 1;
    }
    proof {
        if all.contains(dotted@) {
            let k = choose|k: int| 0 <= k < all.len() && all[k] == dotted@;
            assert(all[k] != dotted@);
        }
    }
    Ok(())
}

/// The media type a file is sent as, by its extension in any ASCII case.
pub open spec fn media_type_of(path: Seq<char>) -> Seq<char> {
    match path_extension(path) {
        Some(e) => {
            let l = lower_seq(e);
            if l == "md"@ {
                "text/markdown"@
            } else if l == "txt"@ || l == "scad"@ {
                "text/plain"@
            } else if l == "png"@ {
                "image/png"@
            } else if l == "jpg"@ || l == "jpeg"@ {
                "image/jpeg"@
            } else {
                "application/octet-stream"@
            }
        },
        None => "application/octet-stream"@,
    }
}

pub fn media_type_for_path(path: &str) -> (r: &'static str)
    ensures
        r@ == media_type_of(path@),
{
    let ext = match path_extension_exec(path) {
        Some(e) => e,
        None => return "application/octet-stream",
    };
    let l = lower_exec(&ext);
    if eq_lit(&l, "md") {
        "text/markdown"
    } else if eq_lit(&l, "txt") || eq_lit(&l, "scad") {
        "text/plain"
    } else if eq_lit(&l, "png") {
        "image/png"
    } else if eq_lit(&l, "jpg") || eq_lit(&l, "jpeg") {
        "image/jpeg"
    } else {
        "application/octet-stream"
    }
}

} // verus!
