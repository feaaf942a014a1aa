use vstd::prelude::*;

use crate::strmap::StrMap;
use crate::text::{chars_of, range_is, trim, trimmed};
use std::path::PathBuf;

verus! {

#[verifier::external_type_specification]
#[verifier::external_body]
pub struct ExPathBuf(PathBuf);

// =============================================================================
// Process Options
// =============================================================================

/// Options for spawning a subprocess.
#[derive(Debug, Clone)]
pub struct ProcessOptions {
    /// Working directory for the subprocess (None = inherit from parent).
    pub working_directory: Option<PathBuf>,
    /// Environment variables to set.
    pub environment: StrMap<String>,
    /// Whether to inherit the parent's environment variables.
    pub inherit_environment: bool,
    /// Whether to redirect stdin (pipe to subprocess).
    pub redirect_stdin: bool,
    /// Whether to redirect stdout (pipe from subprocess).
    pub redirect_stdout: bool,
    /// Whether to redirect stderr (pipe from subprocess).
    pub redirect_stderr: bool,
}

impl ProcessOptions {
    /// The options that `new` and `default` give.
    pub open spec fn is_default(&self) -> bool {
        &&& self.working_directory is None
        &&& self.environment@ == Map::<Seq<char>, String>::empty()
        &&& self.inherit_environment
        &&& self.redirect_stdin
        &&& self.redirect_stdout
        &&& !self.redirect_stderr
    }

    /// Create new process options with default values.
    pub fn new() -> (o: Self)
        ensures
            o.is_default(),
    {
        ProcessOptions {
            working_directory: None,
            environment: StrMap::new(),
            inherit_environment: true,
            redirect_stdin: true,
            redirect_stdout: true,
            redirect_stderr: false,
        }
    }

    /// Set working directory.
    pub fn working_dir(self, dir: PathBuf) -> (o: Self)
        ensures
            o.working_directory == Some(dir),
            o.environment == self.environment,
            o.inherit_environment == self.inherit_environment,
            o.redirect_stdin == self.redirect_stdin,
            o.redirect_stdout == self.redirect_stdout,
            o.redirect_stderr == self.redirect_stderr,
    {
        ProcessOptions { working_directory: Some(dir), ..self }
    }

    /// Add environment variable.
    pub fn env(self, key: &str, value: &str) -> (o: Self)
        ensures
            o.environment@.dom() == self.environment@.dom().insert(key@),
            o.environment@[key@]@ == value@,
            forall|k: Seq<char>| k != key@ && #[trigger] self.environment@.contains_key(k)
                ==> o.environment@[k] == self.environment@[k],
            o.working_directory == self.working_directory,
            o.inherit_environment == self.inherit_environment,
            o.redirect_stdin == self.redirect_stdin,
            o.redirect_stdout == self.redirect_stdout,
            o.redirect_stderr == self.redirect_stderr,
    {
        let mut o = self;
        o.environment.insert(key.to_owned(), value.to_owned());
        o
    }

    /// Set whether to inherit parent environment.
    pub fn inherit_env(self, inherit: bool) -> (o: Self)
        ensures
            o == (ProcessOptions { inherit_environment: inherit, ..self }),
    {
        ProcessOptions { inherit_environment: inherit, ..self }
    }

    /// Set stdin redirection.
    pub fn stdin(self, redirect: bool) -> (o: Self)
        ensures
            o == (ProcessOptions { redirect_stdin: redirect, ..self }),
    {
        ProcessOptions { redirect_stdin: redirect, ..self }
    }

    /// Set stdout redirection.
    pub fn stdout(self, redirect: bool) -> (o: Self)
        ensures
            o == (ProcessOptions { redirect_stdout: redirect, ..self }),
    {
        ProcessOptions { redirect_stdout: redirect, ..self }
    }

    /// Set stderr redirection.
    pub fn stderr(self, redirect: bool) -> (o: Self)
        ensures
            o == (ProcessOptions { redirect_stderr: redirect, ..self }),
    {
        ProcessOptions { redirect_stderr: redirect, ..self }
    }
}

impl Default for ProcessOptions {
    fn default() -> (o: Self)
        ensures
            o.is_default(),
    {
        Self::new()
    }
}

// =============================================================================
// Spawning
// =============================================================================

/// How a subprocess's standard streams are set up, and which of them the
/// process handle keeps.
#[derive(Debug, Clone, Copy, PartialEq, Eq)]
pub struct StdioPlan {
    /// Pipe stdin (otherwise it reads nothing).
    pub pipe_stdin: bool,
    /// Pipe stdout (otherwise it is discarded).
    pub pipe_stdout: bool,
    /// Pipe stderr (otherwise it is discarded).
    pub pipe_stderr: bool,
    /// Stdin and stdout together become the JSON-RPC transport.
    pub make_transport: bool,
    /// Stdout is kept on its own, as it is piped but not a transport.
    pub keep_stdout: bool,
    /// Stderr is kept.
    pub keep_stderr: bool,
}

/// How `options` set up a subprocess's standard streams: each piped stream
/// is piped; stdin and stdout make a transport when both are piped; a piped
/// stdout outside a transport is kept on its own, and a piped stderr is kept.
pub fn stdio_plan(options: &ProcessOptions) -> (p: StdioPlan)
    ensures
        p.pipe_stdin == options.redirect_stdin,
        p.pipe_stdout == options.redirect_stdout,
        p.pipe_stderr == options.redirect_stderr,
        p.make_transport == (options.redirect_stdin && options.redirect_stdout),
        p.keep_stdout == (!p.make_transport && options.redirect_stdout),
        p.keep_stderr == options.redirect_stderr,
{
    let make_transport = options.redirect_stdin && options.redirect_stdout;
    StdioPlan {
        pipe_stdin: options.redirect_stdin,
        pipe_stdout: options.redirect_stdout,
        pipe_stderr: options.redirect_stderr,
        make_transport,
        keep_stdout: !make_transport && options.redirect_stdout,
        keep_stderr: options.redirect_stderr,
    }
}

/// The options with which the CLI is spawned in stdio mode.
pub fn stdio_options() -> (o: ProcessOptions)
    ensures
        o.working_directory is None,
        o.environment@ == Map::<Seq<char>, String>::empty(),
        o.inherit_environment,
        o.redirect_stdin,
        o.redirect_stdout,
        !o.redirect_stderr,
{
    ProcessOptions::new().stdin(true).stdout(true).stderr(false)
}

/// The exit code reported for a process that exited with `code`; a process
/// ended by a signal has no code, and is reported as -1.
pub fn exit_code(code: Option<i32>) -> (c: i32)
    ensures
        c == match code {
            Some(c) => c,
            None => -1i32,
        },
{
    match code {
        Some(c) => c,
        None => -1,
    }
}

// =============================================================================
// Utility Functions
// =============================================================================

/// Find an executable in the system PATH.
///
/// Calls `which::which`, which searches the directories of the `PATH`
/// variable for an executable file of that name. Nothing is stated of the
/// result: it depends on the environment and the file system.
#[verifier::external_body]
pub fn find_executable(name: &str) -> (r: Option<PathBuf>) {
    which::which(name).ok()
}

/// The name under which Node.js is looked for: `node`.
pub fn node_program() -> (s: &'static str)
    ensures
        s@ == seq!['n', 'o', 'd', 'e'],
{
    proof {
        reveal_strlit("node");
    }
    "node"
}

/// The name under which the Copilot CLI is looked for: `copilot`.
pub fn copilot_program() -> (s: &'static str)
    ensures
        s@ == seq!['c', 'o', 'p', 'i', 'l', 'o', 't'],
{
    proof {
        reveal_strlit("copilot");
    }
    "copilot"
}

/// Get the system's Node.js executable path: `node_program()` looked up on
/// the system PATH.
pub fn find_node() -> Option<PathBuf> {
    find_executable(node_program())
}

/// The Copilot CLI as found on the system PATH: `copilot_program()` looked up
/// there.
pub fn find_copilot() -> Option<PathBuf> {
    find_executable(copilot_program())
}

/// The CLI to run, given the path that the override variable names when that
/// file exists (`None` otherwise) and the CLI as found on the system PATH:
/// the override wins; else the one found on the PATH.
pub fn choose_cli(existing_override: Option<PathBuf>, on_path: Option<PathBuf>) -> (r: Option<PathBuf>)
    ensures
        r == if existing_override is Some { existing_override } else { on_path },
{
    match existing_override {
        Some(p) => Some(p),
        None => on_path,
    }
}

/// Whether a process counts as running after a query of its status, given
/// whether the query found that it exited (`None` when the query failed):
/// it does unless the query found it exited.
pub fn still_running(exited: Option<bool>) -> (b: bool)
    ensures
        b == (exited != Some(true)),
{
    match exited {
        Some(true) => false,
        _ => true,
    }
}

/// The path given by the CLI path override variable, when it holds one: its
/// value with surrounding white space taken off, unless that leaves nothing.
pub fn cli_path_override(value: Option<&str>) -> (r: Option<String>)
    ensures
        match value {
            Some(v) => if trimmed(v@).len() > 0 {
                r matches Some(p) && p@ == trimmed(v@)
            } else {
                r is None
            },
            None => r is None,
        },
{
    match value {
        Some(v) => {
            let p = trim(v);
            if p.as_str().unicode_len() > 0 {
                Some(p)
            } else {
                None
            }
        },
        None => None,
    }
}

// =============================================================================
// Path names
// =============================================================================

/// The index of the last `c` in `s`, or -1 when `s` holds none.
pub open spec fn last_index_of(s: Seq<char>, c: char) -> int
    decreases s.len(),
{
    if s.len() == 0 {
        -1
    } else if s.last() == c {
        s.len() - 1
    } else {
        last_index_of(s.drop_last(), c)
    }
}

/// `p` is a bare file name: not empty, neither `.` nor `..`, and holding no
/// `/`, `\` or `:`. Such a path has no separator and no prefix on any
/// platform, so it is a single component, its own file name.
pub open spec fn is_bare_name(p: Seq<char>) -> bool {
    &&& p.len() > 0
    &&& p != seq!['.']
    &&& p != seq!['.', '.']
    &&& !p.contains('/')
    &&& !p.contains('\\')
    &&& !p.contains(':')
}

/// The last component of the path `p` as `/` separates them: what follows
/// its last `/`, or all of `p` when it holds none.
pub open spec fn final_name(p: Seq<char>) -> Seq<char> {
    p.subrange(last_index_of(p, '/') + 1, p.len() as int)
}

/// `p` starts with two `/`.
pub open spec fn starts_with_double_slash(p: Seq<char>) -> bool {
    p.len() >= 2 && p[0] == '/' && p[1] == '/'
}

/// `p` is a plain path: it holds no `\` and no `:`, does not start with two
/// `/`, and its last component is a bare file name. By the path rules that
/// std documents, Unix's and Windows', such a path has no prefix and only `/`
/// separates its components (a Windows prefix is a drive, which needs a `:`,
/// or starts with two separators), so its file name is its last component,
/// whatever the directories before it hold.
pub open spec fn is_plain_path(p: Seq<char>) -> bool {
    &&& !p.contains('\\')
    &&& !p.contains(':')
    &&& !starts_with_double_slash(p)
    &&& is_bare_name(final_name(p))
}

/// Where the last occurrence of a character can be.
proof fn lemma_last_index(s: Seq<char>, c: char)
    ensures
        -1 <= last_index_of(s, c) < s.len(),
        last_index_of(s, c) >= 0 ==> s[last_index_of(s, c)] == c,
        forall|j: int| last_index_of(s, c) < j < s.len() ==> s[j] != c,
    decreases s.len(),
{
    if s.len() > 0 && s.last() != c {
        lemma_last_index(s.drop_last(), c);
        assert forall|j: int| last_index_of(s, c) < j < s.len() implies s[j] != c by {
            if j < s.len() - 1 {
                assert(s[j] == s.drop_last()[j]);
            }
        }
    }
}

/// Appending characters other than `c` leaves the last `c` where it was.
proof fn lemma_last_index_append(a: Seq<char>, b: Seq<char>, c: char)
    requires
        !b.contains(c),
    ensures
        last_index_of(a + b, c) == last_index_of(a, c),
    decreases b.len(),
{
    if b.len() == 0 {
        assert(a + b =~= a);
    } else {
        assert((a + b).last() == b.last());
        assert(b.last() != c) by {
            if b.last() == c {
                assert(b[b.len() - 1] == c);
            }
        }
        assert((a + b).drop_last() =~= a + b.drop_last());
        assert(!b.drop_last().contains(c)) by {
            if b.drop_last().contains(c) {
                let i = choose|i: int| 0 <= i < b.drop_last().len() && b.drop_last()[i] == c;
                assert(b[i] == c);
            }
        }
        lemma_last_index_append(a, b.drop_last(), c);
    }
}

/// The extension of the file name `f`: the text after its last `.`; there is
/// none when `f` holds no `.`, or when its only `.` is its first character.
pub open spec fn name_extension(f: Seq<char>) -> Option<Seq<char>> {
    let d = last_index_of(f, '.');
    if d <= 0 {
        None
    } else {
        Some(f.subrange(d + 1, f.len() as int))
    }
}

/// Whether a path is a Node.js script depends only on its file name: a path
/// made of any directories (holding no `\` or `:`, and not starting with two
/// `/`), a `/`, and a bare file name is a plain path whose last component is
/// that file name.
pub proof fn law_file_name_of_path(dirs: Seq<char>, name: Seq<char>)
    requires
        is_bare_name(name),
        !dirs.contains('\\'),
        !dirs.contains(':'),
        !starts_with_double_slash(dirs + seq!['/'] + name),
    ensures
        is_plain_path(dirs + seq!['/'] + name),
        final_name(dirs + seq!['/'] + name) == name,
{
    let head = dirs + seq!['/'];
    let p = head + name;
    assert(dirs + seq!['/'] + name == p);
    lemma_last_index_append(head, name, '/');
    assert(head.drop_last() =~= dirs);
    assert(last_index_of(head, '/') == dirs.len());
    assert(p.subrange(dirs.len() + 1int, p.len() as int) =~= name);
    assert forall|c: char| (c == '\\' || c == ':') implies !p.contains(c) by {
        if p.contains(c) {
            let i = choose|i: int| 0 <= i < p.len() && p[i] == c;
            if i < dirs.len() {
                assert(dirs[i] == c);
            } else if i > dirs.len() {
                assert(name[i - dirs.len() - 1] == c);
            }
        }
    }
}

/// The extension of a file name is what follows its last `.`: a name made of
/// a non-empty stem, a `.` and `js` (or `mjs`) has the extension `js` (or
/// `mjs`), whatever the stem holds; and any extension a name has is the text
/// after a `.` that is not the name's first character, holding no `.`.
pub proof fn law_name_extension(stem: Seq<char>, f: Seq<char>)
    ensures
        stem.len() > 0 ==> name_extension(stem + seq!['.', 'j', 's']) == Some(seq!['j', 's']),
        stem.len() > 0 ==> name_extension(stem + seq!['.', 'm', 'j', 's']) == Some(seq!['m', 'j', 's']),
        name_extension(f) matches Some(e) ==> {
            &&& e.len() + 1 < f.len()
            &&& f[f.len() - e.len() - 1] == '.'
            &&& e == f.subrange(f.len() - e.len(), f.len() as int)
            &&& !e.contains('.')
        },
{
    if stem.len() > 0 {
        let a = stem + seq!['.', 'j', 's'];
        reveal_with_fuel(last_index_of, 3);
        assert(a.drop_last().drop_last() =~= stem + seq!['.']);
        assert(a.drop_last().last() == 'j');
        assert(last_index_of(a, '.') == stem.len());
        assert(a.subrange(stem.len() + 1int, a.len() as int) =~= seq!['j', 's']);
        let b = stem + seq!['.', 'm', 'j', 's'];
        reveal_with_fuel(last_index_of, 4);
        assert(b.drop_last().drop_last().drop_last() =~= stem + seq!['.']);
        assert(last_index_of(b, '.') == stem.len());
        assert(b.subrange(stem.len() + 1int, b.len() as int) =~= seq!['m', 'j', 's']);
    }
    lemma_last_index(f, '.');
    if name_extension(f) is Some {
        let d = last_index_of(f, '.');
        let e = f.subrange(d + 1, f.len() as int);
        assert(!e.contains('.')) by {
            if e.contains('.') {
                let i = choose|i: int| 0 <= i < e.len() && e[i] == '.';
                assert(f[d + 1 + i] == '.');
            }
        }
    }
}

/// The extension of the path `path`, as `std::path::Path::extension` gives
/// it, by the path rules of the platform the program runs on.
///
/// What a component of a path is differs between platforms (on Windows `\`
/// separates components too, and paths may start with a drive or a server
/// prefix), so the result is not named. Stated is what std's documentation
/// promises on every platform: the extension is what follows the last `.` of
/// the file name, none when the name holds no `.` or only one at its start;
/// so it holds no `.`, and a path that holds no `.` has no extension. A bare
/// file name is, on every platform, its own file name.
#[verifier::external_body]
fn path_extension(path: &str) -> (r: Option<String>)
    ensures
        r matches Some(e) ==> !e@.contains('.'),
        !path@.contains('.') ==> r is None,
        is_bare_name(path@) ==> match name_extension(path@) {
            Some(e) => r matches Some(x) && x@ == e,
            None => r is None,
        },
        is_plain_path(path@) ==> match name_extension(final_name(path@)) {
            Some(e) => r matches Some(x) && x@ == e,
            None => r is None,
        },
{
    std::path::Path::new(path).extension().map(|e| e.to_string_lossy().into_owned())
}

/// Whether a path with the extension `ext` is a Node.js script: its extension
/// is exactly `js` or `mjs`.
pub fn is_node_extension(ext: Option<&str>) -> (b: bool)
    ensures
        b == (ext matches Some(e) && (e@ == seq!['j', 's'] || e@ == seq!['m', 'j', 's'])),
{
    match ext {
        Some(e) => {
            let cs = chars_of(e);
            let js = chars_of("js");
            let mjs = chars_of("mjs");
            proof {
                reveal_strlit("js");
                reveal_strlit("mjs");
                assert(js@ =~= seq!['j', 's']);
                assert(mjs@ =~= seq!['m', 'j', 's']);
                assert(cs@.subrange(0, cs@.len() as int) =~= cs@);
            }
            range_is(&cs, 0, cs.len(), &js) || range_is(&cs, 0, cs.len(), &mjs)
        },
        None => false,
    }
}

/// Check if a path looks like a Node.js script: its extension, by the path
/// rules of the platform, is `js` or `mjs` (`is_node_extension`). Whatever
/// the platform, a path without a `.` is none, and a bare file name is one
/// when the text after its last `.` (not its first character) is `js` or `mjs`.
pub fn is_node_script(path: &str) -> (b: bool)
    ensures
        !path@.contains('.') ==> !b,
        is_bare_name(path@) ==> b == (name_extension(path@) == Some(seq!['j', 's'])
            || name_extension(path@) == Some(seq!['m', 'j', 's'])),
        is_plain_path(path@) ==> b == (name_extension(final_name(path@)) == Some(seq!['j', 's'])
            || name_extension(final_name(path@)) == Some(seq!['m', 'j', 's'])),
{
    match path_extension(path) {
        Some(e) => is_node_extension(Some(e.as_str())),
        None => false,
    }
}

} // verus!
