//! OpenSCAD previews: the command line of a render, the preview file it
//! writes, the log lines of a run, and how a configured OpenSCAD path is
//! expanded into candidates.
use vstd::prelude::*;
use vstd::utf8::{decode_utf8, valid_utf8};
use crate::plan_package::string_views;
use crate::text::{
    append_chars, append_lit, chars_of, eq_lit, lines, lines_exec, lower_exec, lower_seq, split, split_exec,
    string_of, trim, trim_exec, views,
};
use crate::watch::{path_components, path_components_exec};
use crate::workspace_path::{
    file_name, file_stem, file_stem_exec, kept, kept_exec, last_index_of_char, last_index_of_char_exec,
};

verus! {

#[derive(Debug, Clone, Copy, PartialEq, Eq, Structural)]
pub enum LogLevel {
    Info,
    Warning,
    Error,
}

/// One line of a process's output, with its level.
#[derive(Debug, Clone, PartialEq, Eq)]
pub struct LogEntry {
    pub level: LogLevel,
    pub message: String,
}

/// A rendered preview: the source it came from and its bytes.
#[derive(Debug, Clone, PartialEq, Eq)]
pub struct RenderedArtifact {
    pub source_path: String,
    pub bytes: Vec<u8>,
}

/// What a preview job reports.
#[derive(Debug, PartialEq, Eq)]
pub enum OpenScadMessage {
    Started(String),
    Log(LogEntry),
    Finished(Result<RenderedArtifact, OpenScadError>),
}

/// A failed preview, with its message.
#[derive(Debug, Clone, PartialEq, Eq)]
pub struct OpenScadError(pub String);

impl OpenScadError {
    pub fn new(message: String) -> (r: Self)
        ensures
            r.0@ == message@,
    {
        OpenScadError(message)
    }

    /// The message, as `Display` shows it.
    pub fn message(&self) -> (r: String)
        ensures
            r@ == self.0@,
    {
        self.0.as_str().to_owned()
    }
}

#[derive(Debug, Clone, Copy, PartialEq, Eq, Structural)]
pub enum CliOutputFormat {
    BinaryStl,
    ThreeMf,
}

pub open spec fn format_arg(format: CliOutputFormat) -> Seq<char> {
    match format {
        CliOutputFormat::BinaryStl => "binstl"@,
        CliOutputFormat::ThreeMf => "3mf"@,
    }
}

impl CliOutputFormat {
    /// The value of OpenSCAD's `--export-format`.
    pub fn as_arg(self) -> (r: &'static str)
        ensures
            r@ == format_arg(self),
    {
        match self {
            CliOutputFormat::BinaryStl => "binstl",
            CliOutputFormat::ThreeMf => "3mf",
        }
    }
}

// ---------------------------------------------------------------------------
// Logs

/// What `String::from_utf8_lossy` makes of bytes.
pub uninterp spec fn utf8_lossy(bytes: Seq<u8>) -> Seq<char>;

/// `String::from_utf8_lossy`: valid UTF-8 is decoded as it is; what it
/// makes of invalid sequences (replacement characters) is named, not
/// stated.
#[verifier::external_body]
pub(crate) fn from_utf8_lossy(bytes: &[u8]) -> (r: String)
    ensures
        r@ == utf8_lossy(bytes@),
        valid_utf8(bytes@) ==> r@ == decode_utf8(bytes@),
{
    String::from_utf8_lossy(bytes).into_owned()
}

/// The non-blank lines of a text, trimmed, at a level.
pub open spec fn log_lines(ls: Seq<Seq<char>>, level: LogLevel) -> Seq<(LogLevel, Seq<char>)>
    decreases ls.len(),
{
    if ls.len() == 0 {
        Seq::empty()
    } else {
        let prev = log_lines(ls.drop_last(), level);
        let m = trim(ls.last());
        if m.len() == 0 {
            prev
        } else {
            prev.push((level, m))
        }
    }
}

pub open spec fn entries_view(v: Seq<LogEntry>) -> Seq<(LogLevel, Seq<char>)> {
    v.map_values(|e: LogEntry| (e.level, e.message@))
}

/// The logs of a process: standard output as information, standard error
/// as warnings when it succeeded and errors when it failed.
pub open spec fn process_logs(stdout: Seq<u8>, stderr: Seq<u8>, success: bool) -> Seq<(LogLevel, Seq<char>)> {
    log_lines(lines(utf8_lossy(stdout)), LogLevel::Info) + log_lines(
        lines(utf8_lossy(stderr)),
        if success {
            LogLevel::Warning
        } else {
            LogLevel::Error
        },
    )
}

fn extend_logs(entries: &mut Vec<LogEntry>, bytes: &[u8], level: LogLevel)
    ensures
        entries_view(final(entries)@) == entries_view(old(entries)@) + log_lines(lines(utf8_lossy(bytes@)), level),
{
    let text = from_utf8_lossy(bytes);
    let ls = lines_exec(&chars_of(text.as_str()));
    let ghost start = entries_view(entries@);
    let mut i: usize = 0;
    proof {
        assert(views(ls@).take(0) =~= Seq::<Seq<char>>::empty());
        assert(start + log_lines(Seq::<Seq<char>>::empty(), level) =~= start);
    }
    while i < ls.len()
        invariant
            i <= ls.len(),
            views(ls@) == lines(utf8_lossy(bytes@)),
            entries_view(entries@) == start + log_lines(views(ls@).take(i as int), level),
        decreases ls.len() - i,
    {
        proof {
            assert(views(ls@).take(i + 1).drop_last() =~= views(ls@).take(i as int));
            assert(views(ls@).take(i + 1).last() == ls@[i as int]@);
        }
        let m = trim_exec(&ls[i]);
        if m.len() > 0 {
            let ghost before = entries_view(entries@);
            entries.push(LogEntry { level, message: string_of(&m) });
            proof {
                assert(entries_view(entries@) =~= before.push((level, m@)));
            }
        }
        i = i + 1;
    }
    proof {
        assert(views(ls@).take(ls@.len() as int) =~= views(ls@));
    }
}

/// The non-blank, trimmed lines of a process's output as log entries.
pub fn collect_process_logs(stdout: &[u8], stderr: &[u8], success: bool) -> (r: Vec<LogEntry>)
    ensures
        entries_view(r@) == process_logs(stdout@, stderr@, success),
{
    let mut logs: Vec<LogEntry> = Vec::new();
    proof {
        assert(entries_view(logs@) =~= Seq::<(LogLevel, Seq<char>)>::empty());
    }
    extend_logs(&mut logs, stdout, LogLevel::Info);
    proof {
        assert(entries_view(logs@) =~= log_lines(lines(utf8_lossy(stdout@)), LogLevel::Info));
    }
    extend_logs(&mut logs, stderr, if success { LogLevel::Warning } else { LogLevel::Error });
    logs
}

/// The message of a failed render, from its standard error.
pub open spec fn render_failure_message(stderr: Seq<u8>) -> Seq<char> {
    let t = trim(utf8_lossy(stderr));
    if t.len() == 0 {
        "OpenSCAD 3MF 预览失败：CLI 返回非零状态，当前环境可能不支持 3MF 导出"@
    } else {
        "OpenSCAD 3MF 预览失败: "@ + t
    }
}

pub fn render_failure_error(stderr: &[u8]) -> (r: OpenScadError)
    ensures
        r.0@ == render_failure_message(stderr@),
{
    let t = trim_exec(&chars_of(from_utf8_lossy(stderr).as_str()));
    if t.len() == 0 {
        OpenScadError("OpenSCAD 3MF 预览失败：CLI 返回非零状态，当前环境可能不支持 3MF 导出".to_owned())
    } else {
        let mut m = chars_of("OpenSCAD 3MF 预览失败: ");
        append_chars(&mut m, &t);
        OpenScadError(string_of(&m))
    }
}

// ---------------------------------------------------------------------------
// Command lines

/// `-D` before each define.
pub open spec fn define_args(defines: Seq<Seq<char>>) -> Seq<Seq<char>>
    decreases defines.len(),
{
    if defines.len() == 0 {
        Seq::empty()
    } else {
        define_args(defines.drop_last()) + seq!["-D"@, defines.last()]
    }
}

/// OpenSCAD's arguments: the export format and output file, the defines,
/// then the source.
pub open spec fn cli_args(format: CliOutputFormat, output: Seq<char>, defines: Seq<Seq<char>>, source: Seq<char>) -> Seq<
    Seq<char>,
> {
    seq!["--export-format"@, format_arg(format), "-o"@, output] + define_args(defines) + seq![source]
}

pub fn build_cli_args(format: CliOutputFormat, output_path: &str, defines: &[String], source_path: &str) -> (r: Vec<
    String,
>)
    ensures
        string_views(r@) == cli_args(format, output_path@, string_views(defines@), source_path@),
{
    let mut args: Vec<String> = Vec::new();
    args.push("--export-format".to_owned());
    args.push(format.as_arg().to_owned());
    args.push("-o".to_owned());
    args.push(output_path.to_owned());
    let ghost head = string_views(args@);
    proof {
        assert(head =~= seq!["--export-format"@, format_arg(format), "-o"@, output_path@]);
        assert(string_views(defines@).take(0) =~= Seq::<Seq<char>>::empty());
        assert(head + define_args(Seq::<Seq<char>>::empty()) =~= head);
    }
    let mut i: usize = 0;
    while i < defines.len()
        invariant
            i <= defines.len(),
            string_views(args@) == head + define_args(string_views(defines@).take(i as int)),
        decreases defines.len() - i,
    {
        let ghost before = string_views(args@);
        args.push("-D".to_owned());
        args.push(defines[i].as_str().to_owned());
        proof {
            let t = string_views(defines@).take(i + 1);
            assert(t.drop_last() =~= string_views(defines@).take(i as int));
            assert(t.last() == defines@[i as int]@);
            assert(string_views(args@) =~= before + seq!["-D"@, defines@[i as int]@]);
        }
        i = i + 1;
    }
    let ghost before = string_views(args@);
    args.push(source_path.to_owned());
    proof {
        assert(string_views(defines@).take(defines@.len() as int) =~= string_views(defines@));
        assert(string_views(args@) =~= before.push(source_path@));
    }
    args
}

/// The decimal digits of a number.
pub open spec fn decimal(n: nat) -> Seq<char>
    decreases n,
{
    if n < 10 {
        seq![digit_char(n)]
    } else {
        decimal(n / 10) + seq![digit_char(n % 10)]
    }
}

pub open spec fn digit_char(d: nat) -> char {
    seq!['0', '1', '2', '3', '4', '5', '6', '7', '8', '9'][d as int]
}

/// A number in decimal.
pub fn decimal_exec(n: u32) -> (r: Vec<char>)
    ensures
        r@ == decimal(n as nat),
    decreases n,
{
    let digits = vec!['0', '1', '2', '3', '4', '5', '6', '7', '8', '9'];
    proof {
        assert(digits@ =~= seq!['0', '1', '2', '3', '4', '5', '6', '7', '8', '9']);
    }
    if n < 10 {
        vec![digits[n as usize]]
    } else {
        let mut r = decimal_exec(n / 10);
        r.push(digits[(n % 10) as usize]);
        r
    }
}

/// A position or count in decimal.
pub fn decimal_usize(n: usize) -> (r: Vec<char>)
    ensures
        r@ == decimal(n as nat),
    decreases n,
{
    let digits = vec!['0', '1', '2', '3', '4', '5', '6', '7', '8', '9'];
    proof {
        assert(digits@ =~= seq!['0', '1', '2', '3', '4', '5', '6', '7', '8', '9']);
    }
    if n < 10 {
        vec![digits[n]]
    } else {
        let mut r = decimal_usize(n / 10);
        r.push(digits[n % 10]);
        r
    }
}

/// `dir` joined with a relative `name`, as `PathBuf::push` does on Unix.
pub open spec fn join_path(dir: Seq<char>, name: Seq<char>) -> Seq<char> {
    if dir.len() > 0 && dir.last() != '/' {
        dir + "/"@ + name
    } else {
        dir + name
    }
}

pub fn join_path_exec(dir: &str, name: &[char]) -> (r: String)
    ensures
        r@ == join_path(dir@, name@),
{
    let mut p = chars_of(dir);
    if p.len() > 0 && p[p.len() - 1] != '/' {
        append_lit(&mut p, "/");
    }
    append_chars(&mut p, name);
    string_of(&p)
}

/// The name of a preview file: the source's stem and the process id.
pub open spec fn preview_file_name(source_path: Seq<char>, pid: u32) -> Seq<char> {
    let stem = match file_stem(source_path) {
        Some(s) => s,
        None => "preview"@,
    };
    "scad-studio-"@ + stem + "-"@ + decimal(pid as nat) + ".3mf"@
}

/// The preview file a render writes, in `temp_dir`, and OpenSCAD's
/// arguments for the render.
pub fn build_preview_job_args(source_path: &str, defines: &[String], temp_dir: &str, pid: u32) -> (r: (
    String,
    Vec<String>,
))
    ensures
        r.0@ == join_path(temp_dir@, preview_file_name(source_path@, pid)),
        string_views(r.1@) == cli_args(CliOutputFormat::ThreeMf, r.0@, string_views(defines@), source_path@),
{
    let stem = match file_stem_exec(&chars_of(source_path)) {
        Some(s) => s,
        None => chars_of("preview"),
    };
    let mut name = chars_of("scad-studio-");
    append_chars(&mut name, &stem);
    append_lit(&mut name, "-");
    append_chars(&mut name, &decimal_exec(pid));
    append_lit(&mut name, ".3mf");
    let output = join_path_exec(temp_dir, &name);
    let args = build_cli_args(CliOutputFormat::ThreeMf, output.as_str(), defines, source_path);
    (output, args)
}

// ---------------------------------------------------------------------------
// Sources and executables

/// The extension of a file name: after its last dot, unless that dot leads.
pub open spec fn name_extension(name: Seq<char>) -> Option<Seq<char>> {
    match last_index_of_char(name, '.') {
        Some(i) => if i > 0 {
            Some(name.subrange(i + 1, name.len() as int))
        } else {
            None
        },
        None => None,
    }
}

/// `Path::extension`.
pub open spec fn path_extension(path: Seq<char>) -> Option<Seq<char>> {
    match file_name(path) {
        Some(n) => name_extension(n),
        None => None,
    }
}

fn file_name_exec(path: &[char]) -> (r: Option<Vec<char>>)
    ensures
        match r {
            Some(n) => file_name(path@) == Some(n@),
            None => file_name(path@) is None,
        },
{
    let segs = split_exec(path, '/');
    let k = kept_exec(&segs);
    if k.len() == 0 {
        return None;
    }
    let last = &k[k.len() - 1];
    proof {
        assert(views(k@).last() == last@);
        reveal_strlit("..");
        assert(".."@ =~= crate::workspace_path::dot_dot());
    }
    if eq_lit(last, "..") {
        return None;
    }
    Some(crate::text::slice_vec(last, 0, last.len()))
}

fn path_extension_exec(path: &[char]) -> (r: Option<Vec<char>>)
    ensures
        match r {
            Some(e) => path_extension(path@) == Some(e@),
            None => path_extension(path@) is None,
        },
{
    let name = match file_name_exec(path) {
        None => return None,
        Some(n) => n,
    };
    proof {
        assert(name@.subrange(0, name@.len() as int) =~= name@);
    }
    match last_index_of_char_exec(&name, '.') {
        Some(i) => if i > 0 {
            assert(i < name.len());
            Some(crate::text::slice_vec(&name, i + 1, name.len()))
        } else {
            None
        },
        None => None,
    }
}

/// What a preview source is, by its extension (ignoring ASCII case).
#[derive(Debug, Clone, Copy, PartialEq, Eq, Structural)]
pub enum PreviewSourceKind {
    Stl,
    ThreeMf,
    Scad,
    Unsupported,
}

pub open spec fn preview_source_kind_of(path: Seq<char>) -> PreviewSourceKind {
    let ext = match path_extension(path) {
        Some(e) => lower_seq(e),
        None => Seq::empty(),
    };
    if ext == "stl"@ {
        PreviewSourceKind::Stl
    } else if ext == "3mf"@ {
        PreviewSourceKind::ThreeMf
    } else if ext == "scad"@ {
        PreviewSourceKind::Scad
    } else {
        PreviewSourceKind::Unsupported
    }
}

pub fn preview_source_kind(source_path: &str) -> (r: PreviewSourceKind)
    ensures
        r == preview_source_kind_of(source_path@),
{
    let ext = match path_extension_exec(&chars_of(source_path)) {
        Some(e) => lower_exec(&e),
        None => {
            let v: Vec<char> = Vec::new();
            proof {
                assert(v@ =~= Seq::<char>::empty());
            }
            v
        },
    };
    if eq_lit(&ext, "stl") {
        PreviewSourceKind::Stl
    } else if eq_lit(&ext, "3mf") {
        PreviewSourceKind::ThreeMf
    } else if eq_lit(&ext, "scad") {
        PreviewSourceKind::Scad
    } else {
        PreviewSourceKind::Unsupported
    }
}

/// A path of one normal component: a command to look up on `PATH`.
pub open spec fn is_bare_command(path: Seq<char>) -> bool {
    let c = path_components(path);
    c.len() == 1 && c[0] != "/"@ && c[0] != "."@ && c[0] != ".."@
}

pub fn is_bare_command_name(path: &str) -> (r: bool)
    ensures
        r == is_bare_command(path@),
{
    let c = path_components_exec(&chars_of(path));
    proof {
        if c@.len() == 1 {
            assert(views(c@)[0] == c@[0]@);
        }
    }
    c.len() == 1 && !eq_lit(&c[0], "/") && !eq_lit(&c[0], ".") && !eq_lit(&c[0], "..")
}

/// A macOS application bundle: extension `app`, ignoring ASCII case.
pub open spec fn is_app_bundle(path: Seq<char>) -> bool {
    match path_extension(path) {
        Some(e) => lower_seq(e) == "app"@,
        None => false,
    }
}

pub fn is_macos_app_bundle_path(path: &str) -> (r: bool)
    ensures
        r == is_app_bundle(path@),
{
    match path_extension_exec(&chars_of(path)) {
        Some(e) => eq_lit(&lower_exec(&e), "app"),
        None => false,
    }
}

/// The names OpenSCAD has on `PATH`.
pub open spec fn default_command_names(windows: bool) -> Seq<Seq<char>> {
    if windows {
        seq!["openscad.exe"@, "openscad"@]
    } else {
        seq!["openscad"@]
    }
}

pub open spec fn str_list(v: Seq<&'static str>) -> Seq<Seq<char>> {
    v.map_values(|s: &'static str| s@)
}

pub fn default_openscad_command_names(windows: bool) -> (r: Vec<&'static str>)
    ensures
        str_list(r@) == default_command_names(windows),
{
    let r = if windows {
        vec!["openscad.exe", "openscad"]
    } else {
        vec!["openscad"]
    };
    proof {
        assert(str_list(r@) =~= default_command_names(windows));
    }
    r
}

/// The names to look up for a configured bare command.
pub open spec fn configured_command_names(path: Seq<char>, windows: bool) -> Seq<Seq<char>> {
    let name = match file_name(path) {
        Some(n) => lower_seq(n),
        None => Seq::empty(),
    };
    if name == "openscad.exe"@ {
        seq!["openscad.exe"@]
    } else if name == "openscad"@ {
        default_command_names(windows)
    } else {
        Seq::empty()
    }
}

pub fn command_names_for_configured_path(path: &str, windows: bool) -> (r: Vec<&'static str>)
    ensures
        str_list(r@) == configured_command_names(path@, windows),
{
    let name = match file_name_exec(&chars_of(path)) {
        Some(n) => lower_exec(&n),
        None => {
            let v: Vec<char> = Vec::new();
            proof {
                assert(v@ =~= Seq::<char>::empty());
            }
            v
        },
    };
    if eq_lit(&name, "openscad.exe") {
        let r = vec!["openscad.exe"];
        proof {
            assert(str_list(r@) =~= seq!["openscad.exe"@]);
        }
        r
    } else if eq_lit(&name, "openscad") {
        default_openscad_command_names(windows)
    } else {
        let r: Vec<&'static str> = Vec::new();
        proof {
            assert(str_list(r@) =~= Seq::<Seq<char>>::empty());
        }
        r
    }
}

/// The candidates a configured OpenSCAD path expands to: the path itself
/// unless it is a bare command, the executable inside an app bundle, and
/// for a bare command what `PATH` gave.
pub open spec fn configured_candidates(path: Seq<char>, found_in_path: Option<Seq<char>>) -> Seq<Seq<char>> {
    let own = if is_bare_command(path) {
        Seq::<Seq<char>>::empty()
    } else {
        seq![path]
    };
    let bundle = if is_app_bundle(path) {
        seq![join_path(path, "Contents/MacOS/OpenSCAD"@)]
    } else {
        Seq::<Seq<char>>::empty()
    };
    let looked_up = if is_bare_command(path) {
        match found_in_path {
            Some(p) => seq![p],
            None => Seq::<Seq<char>>::empty(),
        }
    } else {
        Seq::<Seq<char>>::empty()
    };
    own + bundle + looked_up
}

pub fn expand_configured_openscad_candidate(path: &str, found_in_path: Option<String>) -> (r: Vec<String>)
    ensures
        string_views(r@) == configured_candidates(path@, crate::scope::opt_string(found_in_path)),
{
    let ghost f = crate::scope::opt_string(found_in_path);
    let bare = is_bare_command_name(path);
    let mut c: Vec<String> = Vec::new();
    if !bare {
        c.push(path.to_owned());
    }
    if is_macos_app_bundle_path(path) {
        let inner = chars_of("Contents/MacOS/OpenSCAD");
        c.push(join_path_exec(path, &inner));
    }
    if bare {
        match found_in_path {
            Some(p) => c.push(p),
            None => {},
        }
    }
    proof {
        assert(string_views(c@) =~= configured_candidates(path@, f));
    }
    c
}

/// The message when no OpenSCAD is found.
pub fn openscad_not_found_message() -> (r: &'static str)
    ensures
        r@ == "未找到 OpenSCAD CLI，可设置环境变量 OPENSCAD_PATH 或在 Settings 中配置 OpenSCAD 路径"@,
{
    "未找到 OpenSCAD CLI，可设置环境变量 OPENSCAD_PATH 或在 Settings 中配置 OpenSCAD 路径"
}

} // verus!
