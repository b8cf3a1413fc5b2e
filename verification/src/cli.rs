//! The command-line surface: flag combinations, the help text, version metadata, the
//! default recipe location and the starter recipe.

use crate::file_path::{spec_parent, FilePath};
use crate::selectors::split_on;
use crate::text::{chars_of, join2, join3, str_equals, string_from_chars, trim, trim_chars, trim_end_len};
use vstd::prelude::*;
use vstd::string::*;

verus! {

/// The parsed command-line flags.
#[derive(Debug)]
pub struct Nao {
    /// Create a starter recipe.
    pub init: bool,
    /// List task names.
    pub list: bool,
    /// Open the terminal UI.
    pub tui: bool,
    /// Run with CI-friendly logging.
    pub ci: bool,
    /// Print version metadata.
    pub version: bool,
    /// Touch the restart marker.
    pub restart: bool,
    /// A recipe file other than the default.
    pub config: Option<String>,
    /// Task names or wildcard selectors.
    pub task_name: Vec<String>,
}

/// Whether no action was requested, so the default one (the TUI, or the task list
/// outside a terminal) applies.
pub open spec fn default_action(flags: Nao) -> bool {
    !flags.version && !flags.init && !flags.list && !flags.restart && flags.task_name@.len() == 0
        && !flags.ci
}

/// Whether the request asks for nothing but the default action.
pub fn is_default_action_request(flags: &Nao) -> (b: bool)
    ensures
        b == default_action(*flags),
{
    !flags.version && !flags.init && !flags.list && !flags.restart && flags.task_name.len() == 0
        && !flags.ci
}

/// Whether the terminal UI opens: when asked for, or by default in an interactive
/// terminal, never in CI mode.
pub fn should_run_tui(flags: &Nao, interactive_terminal: bool) -> (b: bool)
    ensures
        b == ((flags.tui || (interactive_terminal && default_action(*flags))) && !flags.ci),
{
    (flags.tui || (interactive_terminal && is_default_action_request(flags))) && !flags.ci
}

/// View of a unit-or-message result.
pub open spec fn check_result(r: Result<(), String>) -> Result<(), Seq<char>> {
    match r {
        Ok(_) => Ok(()),
        Err(e) => Err(e@),
    }
}

/// The first flag that `--tui` cannot be combined with.
pub open spec fn tui_conflict(flags: Nao) -> Result<(), Seq<char>> {
    if flags.list {
        Err("--tui cannot be combined with --list"@)
    } else if flags.task_name@.len() > 0 {
        Err("--tui cannot be combined with task names"@)
    } else {
        Ok(())
    }
}

/// Rejects `--tui` together with `--list` or task names.
pub fn validate_tui_request(flags: &Nao) -> (r: Result<(), String>)
    ensures
        check_result(r) == tui_conflict(*flags),
{
    if flags.list {
        return Err(String::from_str("--tui cannot be combined with --list"));
    }
    if flags.task_name.len() > 0 {
        return Err(String::from_str("--tui cannot be combined with task names"));
    }
    Ok(())
}

/// Rejects `--ci` together with `--tui`.
pub fn validate_ci_request(flags: &Nao) -> (r: Result<(), String>)
    ensures
        check_result(r) == (if flags.ci && flags.tui {
            Err("--ci cannot be combined with --tui"@)
        } else {
            Ok(())
        }),
{
    if flags.ci && flags.tui {
        return Err(String::from_str("--ci cannot be combined with --tui"));
    }
    Ok(())
}

/// The first flag that `--restart` cannot be combined with.
pub open spec fn restart_conflict(flags: Nao) -> Result<(), Seq<char>> {
    if flags.init {
        Err("--restart cannot be combined with --init"@)
    } else if flags.list {
        Err("--restart cannot be combined with --list"@)
    } else if flags.tui {
        Err("--restart cannot be combined with --tui"@)
    } else if flags.ci {
        Err("--restart cannot be combined with --ci"@)
    } else if flags.version {
        Err("--restart cannot be combined with --version"@)
    } else if flags.config is Some {
        Err("--restart cannot be combined with --config"@)
    } else if flags.task_name@.len() > 0 {
        Err("--restart cannot be combined with task names"@)
    } else {
        Ok(())
    }
}

/// Rejects `--restart` together with any other flag or task names.
pub fn validate_restart_request(flags: &Nao) -> (r: Result<(), String>)
    ensures
        check_result(r) == restart_conflict(*flags),
{
    if flags.init {
        return Err(String::from_str("--restart cannot be combined with --init"));
    }
    if flags.list {
        return Err(String::from_str("--restart cannot be combined with --list"));
    }
    if flags.tui {
        return Err(String::from_str("--restart cannot be combined with --tui"));
    }
    if flags.ci {
        return Err(String::from_str("--restart cannot be combined with --ci"));
    }
    if flags.version {
        return Err(String::from_str("--restart cannot be combined with --version"));
    }
    if flags.config.is_some() {
        return Err(String::from_str("--restart cannot be combined with --config"));
    }
    if flags.task_name.len() > 0 {
        return Err(String::from_str("--restart cannot be combined with task names"));
    }
    Ok(())
}

/// The first flag that `--version` cannot be combined with.
pub open spec fn version_conflict(flags: Nao) -> Result<(), Seq<char>> {
    if flags.init {
        Err("--version cannot be combined with --init"@)
    } else if flags.restart {
        Err("--version cannot be combined with --restart"@)
    } else if flags.list {
        Err("--version cannot be combined with --list"@)
    } else if flags.tui {
        Err("--version cannot be combined with --tui"@)
    } else if flags.ci {
        Err("--version cannot be combined with --ci"@)
    } else if flags.config is Some {
        Err("--version cannot be combined with --config"@)
    } else if flags.task_name@.len() > 0 {
        Err("--version cannot be combined with task names"@)
    } else {
        Ok(())
    }
}

/// Rejects `--version` together with any other flag or task names.
pub fn validate_version_request(flags: &Nao) -> (r: Result<(), String>)
    ensures
        check_result(r) == version_conflict(*flags),
{
    if flags.init {
        return Err(String::from_str("--version cannot be combined with --init"));
    }
    if flags.restart {
        return Err(String::from_str("--version cannot be combined with --restart"));
    }
    if flags.list {
        return Err(String::from_str("--version cannot be combined with --list"));
    }
    if flags.tui {
        return Err(String::from_str("--version cannot be combined with --tui"));
    }
    if flags.ci {
        return Err(String::from_str("--version cannot be combined with --ci"));
    }
    if flags.config.is_some() {
        return Err(String::from_str("--version cannot be combined with --config"));
    }
    if flags.task_name.len() > 0 {
        return Err(String::from_str("--version cannot be combined with task names"));
    }
    Ok(())
}

/// The first flag that `--init` cannot be combined with.
pub open spec fn init_conflict(flags: Nao) -> Result<(), Seq<char>> {
    if flags.restart {
        Err("--init cannot be combined with --restart"@)
    } else if flags.list {
        Err("--init cannot be combined with --list"@)
    } else if flags.tui {
        Err("--init cannot be combined with --tui"@)
    } else if flags.ci {
        Err("--init cannot be combined with --ci"@)
    } else if flags.config is Some {
        Err("--init cannot be combined with --config"@)
    } else if flags.task_name@.len() > 0 {
        Err("--init cannot be combined with task names"@)
    } else {
        Ok(())
    }
}

/// Rejects `--init` together with any other flag or task names.
pub fn validate_init_request(flags: &Nao) -> (r: Result<(), String>)
    ensures
        check_result(r) == init_conflict(*flags),
{
    if flags.restart {
        return Err(String::from_str("--init cannot be combined with --restart"));
    }
    if flags.list {
        return Err(String::from_str("--init cannot be combined with --list"));
    }
    if flags.tui {
        return Err(String::from_str("--init cannot be combined with --tui"));
    }
    if flags.ci {
        return Err(String::from_str("--init cannot be combined with --ci"));
    }
    if flags.config.is_some() {
        return Err(String::from_str("--init cannot be combined with --config"));
    }
    if flags.task_name.len() > 0 {
        return Err(String::from_str("--init cannot be combined with task names"));
    }
    Ok(())
}

/// Build metadata shown by `--version`.
#[derive(Debug)]
pub struct VersionMetadata {
    /// Calendar date of the last commit.
    pub last_commit_date: String,
    /// Short id of the last commit.
    pub short_commit_id: String,
    /// Whether the work tree had uncommitted changes.
    pub has_uncommitted_changes: bool,
}

/// `<package>-<date>-<commit>`, with `-dev` for a dirty work tree.
pub open spec fn version_text(package: Seq<char>, date: Seq<char>, commit: Seq<char>, dirty: bool) -> Seq<
    char,
> {
    package + "-"@ + date + "-"@ + commit + if dirty {
        "-dev"@
    } else {
        ""@
    }
}

/// Renders the version string for a package version and build metadata.
pub fn render_version_for_package(package_version: &str, metadata: &VersionMetadata) -> (s: String)
    ensures
        s@ == version_text(
            package_version@,
            metadata.last_commit_date@,
            metadata.short_commit_id@,
            metadata.has_uncommitted_changes,
        ),
{
    let mut s = join3(package_version, "-", metadata.last_commit_date.as_str());
    s.append("-");
    s.append(metadata.short_commit_id.as_str());
    if metadata.has_uncommitted_changes {
        s.append("-dev");
    } else {
        proof {
            reveal_strlit("");
        }
        assert(s@ =~= s@ + ""@);
    }
    s
}

/// Renders the version string of this package.
pub fn render_version(metadata: &VersionMetadata) -> (s: String)
    ensures
        s@ == version_text(
            "0.1.0"@,
            metadata.last_commit_date@,
            metadata.short_commit_id@,
            metadata.has_uncommitted_changes,
        ),
{
    render_version_for_package("0.1.0", metadata)
}

/// The characters that lie in the first `bytes` bytes of `s`.
pub open spec fn byte_prefix(s: Seq<char>, bytes: int) -> Seq<char> {
    s.take(crate::source_location::char_index(s, bytes) as int)
}

/// The calendar date of a commit time: its first ten bytes, `unknown` when empty.
pub open spec fn normalized_commit_date(value: Seq<char>) -> Seq<char> {
    let t = trim(value);
    if crate::rendering::byte_len(t) >= 10 {
        byte_prefix(t, 10)
    } else if t.len() == 0 {
        "unknown"@
    } else {
        t
    }
}

/// Whether a string's first ten bytes end at a character boundary (or it is shorter).
pub open spec fn date_cut_fits(value: Seq<char>) -> bool {
    let t = trim(value);
    crate::rendering::byte_len(t) >= 10 ==> crate::rendering::byte_len(byte_prefix(t, 10)) == 10
}

/// Normalizes a commit time to its calendar date, or `unknown` when it is missing.
pub fn normalize_commit_date(value: &str) -> (s: String)
    requires
        date_cut_fits(value@),
    ensures
        s@ == normalized_commit_date(value@),
{
    let chars = chars_of(value);
    let trimmed = trim_chars(&chars);
    let text = string_from_chars(&trimmed);
    let bytes = crate::rendering::byte_len_exec(text.as_str());
    if bytes >= 10 {
        let cut = crate::source_location::char_index_exec(&trimmed, 10);
        let prefix = crate::source_location::source_slice(&trimmed, 0, cut);
        assert(prefix@ =~= byte_prefix(trim(value@), 10));
        string_from_chars(&prefix)
    } else if trimmed.len() == 0 {
        String::from_str("unknown")
    } else {
        text
    }
}

/// The short commit id, or `unknown` when it is missing.
pub fn normalize_short_commit(value: &str) -> (s: String)
    ensures
        s@ == (if trim(value@).len() == 0 {
            "unknown"@
        } else {
            trim(value@)
        }),
{
    let chars = chars_of(value);
    let trimmed = trim_chars(&chars);
    if trimmed.len() == 0 {
        String::from_str("unknown")
    } else {
        string_from_chars(&trimmed)
    }
}

/// The lines of `s` as `str::lines` yields them: split at line feeds, a carriage return
/// before a line feed dropped, no empty last line after a final line feed.
pub open spec fn text_lines(s: Seq<char>) -> Seq<Seq<char>> {
    let pieces = split_on(s, '\n');
    let terminated = pieces.drop_last().map_values(|p: Seq<char>| strip_trailing_cr(p));
    if pieces.last().len() == 0 {
        terminated
    } else {
        terminated.push(pieces.last())
    }
}

/// A line without one trailing carriage return.
pub open spec fn strip_trailing_cr(p: Seq<char>) -> Seq<char> {
    if p.len() > 0 && p.last() == '\r' {
        p.drop_last()
    } else {
        p
    }
}

/// Each line prefixed with `prefix`, joined with line feeds.
pub open spec fn indented(lines: Seq<Seq<char>>, prefix: Seq<char>) -> Seq<char>
    decreases lines.len(),
{
    if lines.len() == 0 {
        Seq::empty()
    } else if lines.len() == 1 {
        prefix + lines[0]
    } else {
        indented(lines.drop_last(), prefix) + "\n"@ + prefix + lines.last()
    }
}

/// The lines of `value` as `str::lines` yields them.
pub fn split_lines(value: &str) -> (lines: Vec<Vec<char>>)
    ensures
        lines@.map_values(|p: Vec<char>| p@) == text_lines(value@),
{
    let chars = chars_of(value);
    let pieces = crate::selectors::split_chars(&chars, '\n');
    let ghost pv = pieces@.map_values(|p: Vec<char>| p@);
    let mut lines: Vec<Vec<char>> = Vec::new();
    let mut i: usize = 0;
    let n = pieces.len();
    assert(pv.len() > 0);
    while i + 1 < n
        invariant
            n == pieces@.len(),
            i < n,
            pv == pieces@.map_values(|p: Vec<char>| p@),
            pv == split_on(value@, '\n'),
            lines@.map_values(|p: Vec<char>| p@) == pv.take(i as int).map_values(|p: Seq<char>| strip_trailing_cr(p)),
        decreases pieces@.len() - i,
    {
        let mut line = crate::source_location::source_slice(&pieces[i], 0, pieces[i].len());
        if line.len() > 0 && line[line.len() - 1] == '\r' {
            line.pop();
        }
        let ghost prev = lines@.map_values(|p: Vec<char>| p@);
        assert(line@ == strip_trailing_cr(pv[i as int]));
        let ghost lv = line@;
        lines.push(line);
        assert(lines@.map_values(|p: Vec<char>| p@) =~= prev.push(lv));
        assert(pv.take(i + 1).map_values(|p: Seq<char>| strip_trailing_cr(p)) =~= pv.take(i as int).map_values(
            |p: Seq<char>| strip_trailing_cr(p),
        ).push(strip_trailing_cr(pv[i as int])));
        i = i + 1;
    }
    assert(pv.len() > 0);
    assert(pv.take(i as int) =~= pv.drop_last());
    let last = &pieces[n - 1];
    assert(last@ == pv.last());
    if last.len() > 0 {
        let copy = crate::source_location::source_slice(last, 0, last.len());
        assert(copy@ =~= pv.last());
        let ghost prev = lines@.map_values(|p: Vec<char>| p@);
        lines.push(copy);
        assert(lines@.map_values(|p: Vec<char>| p@) =~= prev.push(pv.last()));
    }
    assert(lines@.map_values(|p: Vec<char>| p@) =~= text_lines(value@));
    lines
}

/// Indents every line of `value` by `spaces` spaces.
pub fn indent_block(value: &str, spaces: usize) -> (s: String)
    ensures
        s@ == indented(text_lines(value@), crate::rendering::spaces(spaces as nat)),
{
    let lines = split_lines(value);
    let ghost lv = lines@.map_values(|p: Vec<char>| p@);
    assert(lv == text_lines(value@));
    let mut prefix: Vec<char> = Vec::new();
    crate::text::push_repeated(&mut prefix, ' ', spaces);
    assert(prefix@ =~= crate::rendering::spaces(spaces as nat));
    let mut out: Vec<char> = Vec::new();
    let mut k: usize = 0;
    assert(out@ =~= indented(lv.take(0), prefix@));
    while k < lines.len()
        invariant
            k <= lines@.len(),
            lv == lines@.map_values(|p: Vec<char>| p@),
            out@ == indented(lv.take(k as int), prefix@),
        decreases lines@.len() - k,
    {
        assert(lv.take(k + 1).drop_last() =~= lv.take(k as int));
        if k > 0 {
            out.push('\n');
        }
        crate::text::extend_chars(&mut out, &prefix);
        crate::text::extend_chars(&mut out, &lines[k]);
        proof {
            if k == 0 {
                assert(lv.take(1) =~= seq![lv[0]]);
                assert(out@ =~= prefix@ + lv[0]);
            } else {
                assert(out@ =~= indented(lv.take(k as int), prefix@) + "\n"@ + prefix@ + lv[k as int]) by {
                    reveal_strlit("\n");
                }
            }
        }
        k = k + 1;
    }
    assert(lv.take(lines@.len() as int) =~= lv);
    string_from_chars(&out)
}

/// The recipe that `--init` writes.
pub open spec fn starter_recipe_text() -> Seq<char> {
    "recipe \"default\" {\n  task \"build\" description=\"Sample build task using direct outcome output\" {\n    run shell=\"\"\"\n      printf 'Building the project...\\n'\n      printf 'Task outcome: build artifacts are ready\\n'\n    \"\"\"\n  }\n\n  task \"test\" description=\"Sample test task with an explicit outcome line\" {\n    depends-on \"build\"\n    run shell=\"\"\"\n      printf 'Running sample tests...\\n'\n      printf 'Task outcome: 3 sample tests passed\\n'\n    \"\"\"\n  }\n}\n"@
}

/// The recipe that `--init` writes.
pub fn starter_recipe() -> (s: &'static str)
    ensures
        s@ == starter_recipe_text(),
{
    "recipe \"default\" {\n  task \"build\" description=\"Sample build task using direct outcome output\" {\n    run shell=\"\"\"\n      printf 'Building the project...\\n'\n      printf 'Task outcome: build artifacts are ready\\n'\n    \"\"\"\n  }\n\n  task \"test\" description=\"Sample test task with an explicit outcome line\" {\n    depends-on \"build\"\n    run shell=\"\"\"\n      printf 'Running sample tests...\\n'\n      printf 'Task outcome: 3 sample tests passed\\n'\n    \"\"\"\n  }\n}\n"
}

/// The help text: version, argument help, then the description of the command line and
/// of the recipe format with the starter recipe as an example.
pub open spec fn help_text(argument_help: Seq<char>, version: Seq<char>) -> Seq<char> {
    "nao "@ + version + "\n\n"@ + argument_help.take(trim_end_len(argument_help)) + "\n\nDefault behavior\n  Running `nao` with no task names opens the TUI using `nao.kdl` in the current directory.\n  Running `nao build test` executes the requested goal tasks and any dependencies they need.\n  Running `nao --list` prints the task names defined in the selected recipe file.\n  Running `nao --ci build test` disables interactive progress, prints task lifecycle updates,\n  then emits executed task logs and a final run summary.\n\nTask selection\n  Task names are passed as positional arguments:\n    nao build\n    nao build test\n\n  Dependencies run automatically before the requested tasks.\n\n  Task names must not contain `_`.\n  `nao` reserves `_` for wildcard selectors, so `test_` matches tasks whose names start with `test`.\n\nRecipe file overview\n  `nao` reads a KDL file, usually `nao.kdl`, with one top-level `recipe` node.\n  A recipe contains:\n    - an optional `config` node\n    - one or more `task` nodes\n\nMinimal example\n"@ + indented(
        text_lines(starter_recipe_text()),
        crate::rendering::spaces(2),
    ) + "\n\nRecipe structure\n  recipe \"default\" {\n    config live-display=\"line-per-task\" max-parallel-tasks=4\n\n    task \"build\" description=\"Compile the project\" {\n      run shell=\"cargo build --workspace\"\n      artifact \"workspace-target\" path=\"target\"\n    }\n\n    task \"test\" description=\"Run tests\" {\n      depends-on \"build\"\n      run shell=\"cargo test --workspace\"\n      env RUST_LOG=\"warn\"\n    }\n  }\n\nTask nodes\n  task \"<name>\" [description=\"<text>\"] {\n    depends-on \"<task-name>\"\n    run ...\n    env NAME=\"value\"\n    artifact \"<artifact-name>\" path=\"<path>\"\n  }\n\nTask properties\n  description=\"<text>\"\n    Optional human-readable description shown in UI surfaces.\n\nTask child nodes\n  depends-on \"<task-name>\"\n    Declare a task dependency. A task may have multiple `depends-on` nodes.\n\n  run shell=\"<command>\"\n    Run a shell command.\n\n  run script=\"<path>\"\n    Run a script file.\n\n  run container=\"<image>\" {\n    args \"--flag\" \"value\"\n  }\n    Run a container command.\n\n  env NAME=\"value\"\n    Define an environment variable for the task.\n\n  artifact \"<name>\" path=\"<path>\"\n    Declare a produced file or directory as an artifact.\n\nRecipe config\n  config live-display=\"single-line\"\n  config live-display=\"line-per-task\"\n  config max-parallel-tasks=4\n\n  Supported config properties:\n    live-display\n      Choose how interactive progress is rendered.\n      Valid values: `single-line`, `line-per-task`\n\n    max-parallel-tasks\n      Limit how many task processes may run at once.\n      If omitted, `nao` uses the platform default parallelism.\n\nTask outcomes\n  Tasks may report a short human-readable outcome summary by printing a line\n  beginning with `Task outcome: `\n  Example:\n    printf 'Task outcome: 30 tests passed\\n'\n\n  Only lines that begin exactly with `Task outcome: ` are captured.\n  If multiple outcome lines are produced, the last one wins.\n  The outcome line remains in logs and is also persisted for the CLI and TUI.\n\nAuthoring rules\n  Use exactly one top-level `recipe` node.\n  Put tasks inside the recipe node.\n  A task must have child nodes and normally includes exactly one `run` node.\n  Use `-` instead of `_` in literal task names.\n  Keep task names short and easy to type.\n\nWorkflow examples\n  Initialize a starter file:\n    nao --init\n\n  List tasks:\n    nao --list\n\n  Run one task:\n    nao build\n\n  Run multiple tasks:\n    nao fmt clippy test\n\n  Open the TUI with a custom recipe:\n    nao --tui --config configs/ci.kdl\n\n"@
}

/// Renders the help text for a version string.
pub fn render_help_for_version(argument_help: &str, version: &str) -> (s: String)
    ensures
        s@ == help_text(argument_help@, version@),
{
    let chars = chars_of(argument_help);
    let end = crate::text::trim_end_index(&chars);
    let trimmed = crate::source_location::source_slice(&chars, 0, end);
    let mut s = join3("nao ", version, "\n\n");
    s.append(string_from_chars(&trimmed).as_str());
    s.append("\n\nDefault behavior\n  Running `nao` with no task names opens the TUI using `nao.kdl` in the current directory.\n  Running `nao build test` executes the requested goal tasks and any dependencies they need.\n  Running `nao --list` prints the task names defined in the selected recipe file.\n  Running `nao --ci build test` disables interactive progress, prints task lifecycle updates,\n  then emits executed task logs and a final run summary.\n\nTask selection\n  Task names are passed as positional arguments:\n    nao build\n    nao build test\n\n  Dependencies run automatically before the requested tasks.\n\n  Task names must not contain `_`.\n  `nao` reserves `_` for wildcard selectors, so `test_` matches tasks whose names start with `test`.\n\nRecipe file overview\n  `nao` reads a KDL file, usually `nao.kdl`, with one top-level `recipe` node.\n  A recipe contains:\n    - an optional `config` node\n    - one or more `task` nodes\n\nMinimal example\n");
    s.append(indent_block("recipe \"default\" {\n  task \"build\" description=\"Sample build task using direct outcome output\" {\n    run shell=\"\"\"\n      printf 'Building the project...\\n'\n      printf 'Task outcome: build artifacts are ready\\n'\n    \"\"\"\n  }\n\n  task \"test\" description=\"Sample test task with an explicit outcome line\" {\n    depends-on \"build\"\n    run shell=\"\"\"\n      printf 'Running sample tests...\\n'\n      printf 'Task outcome: 3 sample tests passed\\n'\n    \"\"\"\n  }\n}\n", 2).as_str());
    s.append("\n\nRecipe structure\n  recipe \"default\" {\n    config live-display=\"line-per-task\" max-parallel-tasks=4\n\n    task \"build\" description=\"Compile the project\" {\n      run shell=\"cargo build --workspace\"\n      artifact \"workspace-target\" path=\"target\"\n    }\n\n    task \"test\" description=\"Run tests\" {\n      depends-on \"build\"\n      run shell=\"cargo test --workspace\"\n      env RUST_LOG=\"warn\"\n    }\n  }\n\nTask nodes\n  task \"<name>\" [description=\"<text>\"] {\n    depends-on \"<task-name>\"\n    run ...\n    env NAME=\"value\"\n    artifact \"<artifact-name>\" path=\"<path>\"\n  }\n\nTask properties\n  description=\"<text>\"\n    Optional human-readable description shown in UI surfaces.\n\nTask child nodes\n  depends-on \"<task-name>\"\n    Declare a task dependency. A task may have multiple `depends-on` nodes.\n\n  run shell=\"<command>\"\n    Run a shell command.\n\n  run script=\"<path>\"\n    Run a script file.\n\n  run container=\"<image>\" {\n    args \"--flag\" \"value\"\n  }\n    Run a container command.\n\n  env NAME=\"value\"\n    Define an environment variable for the task.\n\n  artifact \"<name>\" path=\"<path>\"\n    Declare a produced file or directory as an artifact.\n\nRecipe config\n  config live-display=\"single-line\"\n  config live-display=\"line-per-task\"\n  config max-parallel-tasks=4\n\n  Supported config properties:\n    live-display\n      Choose how interactive progress is rendered.\n      Valid values: `single-line`, `line-per-task`\n\n    max-parallel-tasks\n      Limit how many task processes may run at once.\n      If omitted, `nao` uses the platform default parallelism.\n\nTask outcomes\n  Tasks may report a short human-readable outcome summary by printing a line\n  beginning with `Task outcome: `\n  Example:\n    printf 'Task outcome: 30 tests passed\\n'\n\n  Only lines that begin exactly with `Task outcome: ` are captured.\n  If multiple outcome lines are produced, the last one wins.\n  The outcome line remains in logs and is also persisted for the CLI and TUI.\n\nAuthoring rules\n  Use exactly one top-level `recipe` node.\n  Put tasks inside the recipe node.\n  A task must have child nodes and normally includes exactly one `run` node.\n  Use `-` instead of `_` in literal task names.\n  Keep task names short and easy to type.\n\nWorkflow examples\n  Initialize a starter file:\n    nao --init\n\n  List tasks:\n    nao --list\n\n  Run one task:\n    nao build\n\n  Run multiple tasks:\n    nao fmt clippy test\n\n  Open the TUI with a custom recipe:\n    nao --tui --config configs/ci.kdl\n\n");
    s
}

/// Renders the help text; the version shows this package's version with unknown commit
/// metadata.
pub fn render_help(argument_help: &str) -> (s: String)
    ensures
        s@ == help_text(argument_help@, version_text("0.1.0"@, "unknown"@, "unknown"@, false)),
{
    let metadata = VersionMetadata {
        last_commit_date: String::from_str("unknown"),
        short_commit_id: String::from_str("unknown"),
        has_uncommitted_changes: false,
    };
    let version = render_version(&metadata);
    render_help_for_version(argument_help, version.as_str())
}

} // verus!

verus! {

/// Where recipes live by default.
pub open spec fn primary_recipe_path_text() -> Seq<char> {
    ".nao/nao.kdl"@
}

/// The recipe location used before `.nao/`.
pub open spec fn legacy_recipe_path_text() -> Seq<char> {
    "nao.kdl"@
}

/// The default recipe path.
pub fn primary_recipe_path() -> (p: FilePath)
    ensures
        p@ == primary_recipe_path_text(),
{
    FilePath::from_str(".nao/nao.kdl")
}

/// The legacy recipe path.
pub fn legacy_recipe_path() -> (p: FilePath)
    ensures
        p@ == legacy_recipe_path_text(),
{
    FilePath::from_str("nao.kdl")
}

/// The path of the `.gitignore` written next to the default recipe.
pub fn primary_recipe_gitignore_path() -> (p: FilePath)
    ensures
        p@ == ".nao/.gitignore"@,
{
    FilePath::from_str(".nao/.gitignore")
}

/// The content of that `.gitignore`: ignore everything but itself and the recipe.
pub fn primary_recipe_gitignore_content() -> (s: &'static str)
    ensures
        s@ == "*\n!.gitignore\n!nao.kdl\n"@,
{
    "*\n!.gitignore\n!nao.kdl\n"
}

/// The recipe to load when none is given: the default one if it exists, else the
/// legacy one if that exists, else the default one.
pub fn resolve_default_recipe_path(primary_exists: bool, legacy_exists: bool) -> (p: FilePath)
    ensures
        p@ == (if !primary_exists && legacy_exists {
            legacy_recipe_path_text()
        } else {
            primary_recipe_path_text()
        }),
{
    if primary_exists {
        return primary_recipe_path();
    }
    if legacy_exists {
        return legacy_recipe_path();
    }
    primary_recipe_path()
}

/// Why `--init` refuses to write `path`, if it does: the recipe exists, or a legacy
/// recipe exists elsewhere.
pub fn init_refusal(path: &FilePath, path_exists: bool, legacy_exists: bool) -> (m: Option<String>)
    ensures
        crate::recipe::opt_view(m) == (if path_exists {
            Some(path@ + " already exists"@)
        } else if path@ != legacy_recipe_path_text() && legacy_exists {
            Some(legacy_recipe_path_text() + " already exists"@)
        } else {
            None
        }),
{
    if path_exists {
        return Some(join2(path.as_str(), " already exists"));
    }
    if !str_equals(path.as_str(), "nao.kdl") && legacy_exists {
        return Some(join2("nao.kdl", " already exists"));
    }
    None
}

/// The directory a new recipe at `path` goes in.
pub open spec fn recipe_directory(path: Seq<char>) -> Seq<char> {
    match spec_parent(path) {
        Some(d) => d,
        None => "."@,
    }
}

/// Returns the directory a new recipe at `path` goes in.
pub fn recipe_directory_of(path: &FilePath) -> (d: FilePath)
    ensures
        d@ == recipe_directory(path@),
{
    match path.parent() {
        Some(d) => d,
        None => FilePath::from_str("."),
    }
}

/// Whether `--init` also writes the `.gitignore`: when the recipe goes in `.nao` and the
/// file is not there yet.
pub fn gitignore_needed(path: &FilePath, gitignore_exists: bool) -> (b: bool)
    ensures
        b == (spec_parent(".nao/.gitignore"@) == Some(recipe_directory(path@)) && !gitignore_exists),
{
    let directory = recipe_directory_of(path);
    let gitignore = primary_recipe_gitignore_path();
    let same = match gitignore.parent() {
        Some(p) => str_equals(p.as_str(), directory.as_str()),
        None => false,
    };
    same && !gitignore_exists
}

/// The directory that holds the restart marker.
pub fn restart_marker_directory() -> (p: FilePath)
    ensures
        p@ == ".nao/internal"@,
{
    FilePath::from_str(".nao/internal")
}

/// The restart marker file, whose modification tells a running TUI to restart.
pub fn restart_marker_path() -> (p: FilePath)
    ensures
        p@ == ".nao/internal/restart"@,
{
    FilePath::from_str(".nao/internal/restart")
}

/// What a command line asks `nao` to do.
#[derive(Debug, Clone, Copy, PartialEq, Eq, Structural)]
pub enum CliCommand {
    /// Print version metadata.
    ShowVersion,
    /// Write the starter recipe.
    InitRecipe,
    /// Touch the restart marker.
    TouchRestartMarker,
    /// Print help: no action was given and output is not a terminal.
    DefaultHelp,
    /// Open the terminal UI.
    OpenTui,
    /// List the tasks, or run the requested ones.
    Execute,
}

/// What a command line asks for, in order of precedence: version, init, restart (each
/// alone), then the CI checks, help when nothing was asked of a non-terminal, the
/// terminal UI, and otherwise listing or running tasks.
pub open spec fn cli_command_spec(flags: Nao, interactive_terminal: bool) -> Result<CliCommand, Seq<char>> {
    if flags.version {
        match version_conflict(flags) {
            Err(e) => Err(e),
            Ok(_) => Ok(CliCommand::ShowVersion),
        }
    } else if flags.init {
        match init_conflict(flags) {
            Err(e) => Err(e),
            Ok(_) => Ok(CliCommand::InitRecipe),
        }
    } else if flags.restart {
        match restart_conflict(flags) {
            Err(e) => Err(e),
            Ok(_) => Ok(CliCommand::TouchRestartMarker),
        }
    } else if flags.ci && flags.tui {
        Err("--ci cannot be combined with --tui"@)
    } else if default_action(flags) && !interactive_terminal {
        Ok(CliCommand::DefaultHelp)
    } else if (flags.tui || (interactive_terminal && default_action(flags))) && !flags.ci {
        match tui_conflict(flags) {
            Err(e) => Err(e),
            Ok(_) => Ok(CliCommand::OpenTui),
        }
    } else {
        Ok(CliCommand::Execute)
    }
}

/// Decides what a command line asks for, or why it is refused.
pub fn cli_command(flags: &Nao, interactive_terminal: bool) -> (r: Result<CliCommand, String>)
    ensures
        match r {
            Ok(c) => cli_command_spec(*flags, interactive_terminal) == Ok::<CliCommand, Seq<char>>(c),
            Err(e) => cli_command_spec(*flags, interactive_terminal) == Err::<CliCommand, Seq<char>>(e@),
        },
{
    if flags.version {
        return match validate_version_request(flags) {
            Err(e) => Err(e),
            Ok(_) => Ok(CliCommand::ShowVersion),
        };
    }
    if flags.init {
        return match validate_init_request(flags) {
            Err(e) => Err(e),
            Ok(_) => Ok(CliCommand::InitRecipe),
        };
    }
    if flags.restart {
        return match validate_restart_request(flags) {
            Err(e) => Err(e),
            Ok(_) => Ok(CliCommand::TouchRestartMarker),
        };
    }
    match validate_ci_request(flags) {
        Err(e) => {
            return Err(e);
        },
        Ok(_) => {},
    }
    if is_default_action_request(flags) && !interactive_terminal {
        return Ok(CliCommand::DefaultHelp);
    }
    if should_run_tui(flags, interactive_terminal) {
        return match validate_tui_request(flags) {
            Err(e) => Err(e),
            Ok(_) => Ok(CliCommand::OpenTui),
        };
    }
    Ok(CliCommand::Execute)
}

} // verus!
