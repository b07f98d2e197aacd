//! Small pieces of the application's settings: configuration and preset
//! errors, installed slicers, where a model's presets are kept, and the
//! default way to stop a child process.
use vstd::prelude::*;
use crate::text::{append_lit, chars_of, split, split_exec, string_of, slice_vec, views};
use crate::workspace_path::{name_stem, last_index_of_char_exec};

verus! {

/// A configuration that could not be read or written.
#[derive(Debug, Clone, PartialEq, Eq)]
pub struct ConfigError(pub String);

/// A preset file that could not be read or written.
#[derive(Debug, Clone, PartialEq, Eq)]
pub struct PresetError(pub String);

/// A slicer application: its name and where it is installed.
#[derive(Debug, Clone, PartialEq, Eq)]
pub struct SlicerInstall {
    pub name: String,
    pub path: String,
}

/// Stops child processes by killing them.
#[derive(Debug, Default, Clone, Copy)]
pub struct DefaultChildTerminator;

/// A path without the trailing separators and `.` components that
/// `Path::file_name` looks past.
pub open spec fn trim_tail(p: Seq<char>) -> Seq<char>
    decreases p.len(),
{
    if p.len() > 0 && p.last() == '/' {
        trim_tail(p.drop_last())
    } else if p.len() >= 2 && p.last() == '.' && p[p.len() - 2] == '/' {
        trim_tail(p.drop_last())
    } else {
        p
    }
}

/// `Path::with_extension`: the file name's extension replaced with `ext`,
/// or the path unchanged when it has no file name.
pub open spec fn with_extension(p: Seq<char>, ext: Seq<char>) -> Seq<char> {
    let t = trim_tail(p);
    let name = split(t, '/').last();
    if name.len() == 0 || name == "."@ || name == ".."@ {
        p
    } else {
        t.take(t.len() - name.len() + name_stem(name).len()) + "."@ + ext
    }
}

fn trim_tail_exec(p: &[char]) -> (r: usize)
    ensures
        r <= p.len(),
        trim_tail(p@) == p@.take(r as int),
{
    let mut k: usize = p.len();
    proof {
        assert(p@.take(k as int) =~= p@);
    }
    while k > 0 && (p[k - 1] == '/' || (k >= 2 && p[k - 1] == '.' && p[k - 2] == '/'))
        invariant
            k <= p.len(),
            trim_tail(p@) == trim_tail(p@.take(k as int)),
        decreases k,
    {
        proof {
            assert(p@.take(k as int).drop_last() =~= p@.take(k - 1));
        }
        k = k - 1;
    }
    k
}

/// Where a model's parameter presets are kept: the source with the
/// extension `scad.json`.
pub fn preset_path_for_source(source_path: &str) -> (r: String)
    ensures
        r@ == with_extension(source_path@, "scad.json"@),
{
    let p = chars_of(source_path);
    let k = trim_tail_exec(&p);
    let t = slice_vec(&p, 0, k);
    proof {
        assert(t@ =~= p@.take(k as int));
    }
    let segs = split_exec(&t, '/');
    proof {
        crate::text::lemma_split_nonempty(t@, '/');
        assert(views(segs@).last() == segs@[segs@.len() - 1]@);
    }
    let name = &segs[segs.len() - 1];
    if name.len() == 0 || crate::text::eq_lit(name, ".") || crate::text::eq_lit(name, "..") {
        return source_path.to_owned();
    }
    let stem_len = match last_index_of_char_exec(name, '.') {
        Some(i) => if i == 0 {
            name.len()
        } else {
            i
        },
        None => name.len(),
    };
    proof {
        assert(name_stem(name@).len() == stem_len);
        lemma_last_piece_len(t@, '/');
    }
    let mut out = slice_vec(&t, 0, t.len() - name.len() + stem_len);
    append_lit(&mut out, ".scad.json");
    proof {
        reveal_strlit("scad.json");
        reveal_strlit(".scad.json");
        reveal_strlit(".");
        assert(".scad.json"@ =~= "."@ + "scad.json"@);
    }
    string_of(&out)
}

/// The last piece of a split is no longer than the text.
proof fn lemma_last_piece_len(s: Seq<char>, d: char)
    ensures
        split(s, d).len() > 0,
        split(s, d).last().len() <= s.len(),
    decreases s.len(),
{
    crate::text::lemma_split_nonempty(s, d);
    if s.len() > 0 {
        lemma_last_piece_len(s.drop_last(), d);
    }
}

} // verus!
