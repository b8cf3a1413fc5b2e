//! The process command that runs a task: a strict bash invocation for shell tasks, the
//! script itself for script tasks, `docker run` for container tasks.

use crate::file_path::{spec_file_name, spec_parent, FilePath};
use crate::recipe::{clone_strings, ContainerRunSpec, EnvironmentSpec, RunSpec, Task};
use crate::recipe::strings_view;
use crate::text::{join2, join3, str_equals};
use vstd::prelude::*;
use vstd::string::*;

verus! {

/// One environment variable handed to a process.
#[derive(Debug)]
pub struct ProcessEnvironmentVariable {
    /// Variable name.
    pub name: String,
    /// Variable value.
    pub value: String,
}

/// A process to launch: executable, arguments, working directory and environment.
#[derive(Debug)]
pub struct ProcessCommand {
    /// The program to run.
    pub executable: String,
    /// Its arguments.
    pub arguments: Vec<String>,
    /// The directory to run it in, when one is set.
    pub working_directory: Option<FilePath>,
    /// Extra environment variables.
    pub environment: Vec<ProcessEnvironmentVariable>,
}

/// A directory, or `.` when there is none or it is empty.
pub open spec fn directory_or_current(p: Option<Seq<char>>) -> Seq<char> {
    match p {
        Some(d) => if d.len() > 0 {
            d
        } else {
            "."@
        },
        None => "."@,
    }
}

/// The directory tasks run in: the recipe's directory, or the directory above it when
/// the recipe is `.nao/nao.kdl`.
pub open spec fn workspace_directory(recipe_path: Seq<char>) -> Seq<char> {
    let dir = directory_or_current(spec_parent(recipe_path));
    if spec_file_name(recipe_path) == Some("nao.kdl"@) && spec_file_name(dir) == Some(".nao"@) {
        directory_or_current(spec_parent(dir))
    } else {
        dir
    }
}

fn directory_or_current_exec(p: Option<FilePath>) -> (d: FilePath)
    ensures
        d@ == directory_or_current(match p {
            Some(q) => Some(q@),
            None => None,
        }),
{
    proof {
        reveal_strlit(".");
    }
    match p {
        Some(path) => {
            if crate::text::chars_of(path.as_str()).len() > 0 {
                path
            } else {
                FilePath::from_str(".")
            }
        },
        None => FilePath::from_str("."),
    }
}

fn file_name_is(p: &FilePath, name: &str) -> (b: bool)
    ensures
        b == (spec_file_name(p@) == Some(name@)),
{
    match p.file_name() {
        Some(n) => str_equals(n.as_str(), name),
        None => false,
    }
}

proof fn lemma_last_index_of_concat(a: Seq<char>, b: Seq<char>, c: char)
    ensures
        crate::file_path::last_index_of(a + b, c) == if crate::file_path::last_index_of(b, c) >= 0 {
            a.len() + crate::file_path::last_index_of(b, c)
        } else {
            crate::file_path::last_index_of(a, c)
        },
    decreases b.len(),
{
    if b.len() == 0 {
        assert(a + b =~= a);
    } else {
        assert((a + b).drop_last() =~= a + b.drop_last());
        lemma_last_index_of_concat(a, b.drop_last(), c);
    }
}

proof fn lemma_last_index_of_absent(s: Seq<char>, c: char)
    requires
        forall|i: int| 0 <= i < s.len() ==> s[i] != c,
    ensures
        crate::file_path::last_index_of(s, c) == -1,
    decreases s.len(),
{
    if s.len() > 0 {
        lemma_last_index_of_absent(s.drop_last(), c);
    }
}

/// Working directory law: tasks of a recipe `D/.nao/nao.kdl` run in `D`, the directory
/// that holds `.nao`; tasks of any other recipe file `D/f` run in `D`, the directory
/// that holds the recipe; for every non-empty directory `D`.
pub proof fn lemma_tasks_run_beside_the_nao_directory(d: Seq<char>, f: Seq<char>)
    requires
        d.len() > 0,
        f.len() > 0,
        forall|i: int| 0 <= i < f.len() ==> f[i] != '/',
    ensures
        workspace_directory(d + "/.nao/nao.kdl"@) == d,
        f != "nao.kdl"@ ==> workspace_directory(d + "/"@ + f) == d,
{
    reveal_strlit("/.nao/nao.kdl");
    reveal_strlit("/");
    reveal_strlit("nao.kdl");
    reveal_strlit(".nao");
    reveal_strlit(".");
    let p = d + "/.nao/nao.kdl"@;
    let dir = d + "/.nao"@;
    reveal_strlit("/.nao");
    reveal_strlit("/nao.kdl");
    // The recipe file and its directory.
    lemma_last_index_of_absent("nao.kdl"@, '/');
    lemma_last_index_of_absent(".nao"@, '/');
    assert(p =~= dir + "/nao.kdl"@);
    lemma_last_index_of_concat(dir, "/nao.kdl"@, '/');
    assert("/nao.kdl"@ =~= seq!['/'] + "nao.kdl"@);
    lemma_last_index_of_concat(seq!['/'], "nao.kdl"@, '/');
    assert(crate::file_path::last_index_of(seq!['/'], '/') == 0);
    assert(crate::file_path::last_index_of(p, '/') == dir.len());
    assert(spec_parent(p) == Some(p.subrange(0, dir.len() as int)));
    assert(p.subrange(0, dir.len() as int) =~= dir);
    assert(p.subrange(dir.len() as int + 1, p.len() as int) =~= "nao.kdl"@);
    assert(spec_file_name(p) == Some("nao.kdl"@));
    assert(directory_or_current(spec_parent(p)) == dir);
    // The `.nao` directory and the directory above it.
    assert("/.nao"@ =~= seq!['/'] + ".nao"@);
    lemma_last_index_of_concat(d, "/.nao"@, '/');
    lemma_last_index_of_concat(seq!['/'], ".nao"@, '/');
    assert(crate::file_path::last_index_of(dir, '/') == d.len());
    assert(dir.subrange(d.len() as int + 1, dir.len() as int) =~= ".nao"@);
    assert(".nao"@ != seq!['.']);
    assert(".nao"@ != seq!['.', '.']);
    assert(spec_file_name(dir) == Some(".nao"@));
    assert(dir.subrange(0, d.len() as int) =~= d);
    assert(dir != seq!['/']);
    assert(spec_parent(dir) == Some(d));
    // Any other recipe file.
    if f != "nao.kdl"@ {
        let q = d + "/"@ + f;
        lemma_last_index_of_absent(f, '/');
        assert("/"@ =~= seq!['/']);
        lemma_last_index_of_concat(d + "/"@, f, '/');
        lemma_last_index_of_concat(d, "/"@, '/');
        assert(crate::file_path::last_index_of(q, '/') == d.len());
        assert(q.subrange(0, d.len() as int) =~= d);
        assert(q.subrange(d.len() as int + 1, q.len() as int) =~= f);
        assert(q != seq!['/']);
        assert(spec_parent(q) == Some(d));
        if f == seq!['.'] || f == seq!['.', '.'] {
            assert(spec_file_name(q) is None);
        } else {
            assert(spec_file_name(q) == Some(f));
        }
    }
}

/// Returns the directory that tasks of the recipe at `recipe_path` run in.
pub fn recipe_workspace_directory(recipe_path: &FilePath) -> (d: FilePath)
    ensures
        d@ == workspace_directory(recipe_path@),
{
    let recipe_directory = directory_or_current_exec(recipe_path.parent());
    if file_name_is(recipe_path, "nao.kdl") && file_name_is(&recipe_directory, ".nao") {
        return directory_or_current_exec(recipe_directory.parent());
    }
    recipe_directory
}

/// The trap line that makes bash report the failing command before exiting.
pub open spec fn err_trap() -> Seq<char> {
    "trap 'rc=$?; printf \"nao: command failed (exit %d) at line %d: %s\\n\" \"$rc\" \"$LINENO\" \"$BASH_COMMAND\" >&2; exit \"$rc\"' ERR\n"@
}

/// Wraps a shell command so that a failing line is reported with its exit code, line
/// number and text.
pub fn build_bash_shell_script(command: &str) -> (script: String)
    ensures
        script@ == err_trap() + command@,
{
    join2(
        "trap 'rc=$?; printf \"nao: command failed (exit %d) at line %d: %s\\n\" \"$rc\" \"$LINENO\" \"$BASH_COMMAND\" >&2; exit \"$rc\"' ERR\n",
        command,
    )
}

/// The arguments of the bash invocation for a shell command.
pub open spec fn bash_arguments(command: Seq<char>) -> Seq<Seq<char>> {
    seq![
        "-o"@,
        "errexit"@,
        "-o"@,
        "nounset"@,
        "-o"@,
        "errtrace"@,
        "-o"@,
        "pipefail"@,
        "-c"@,
        err_trap() + command,
    ]
}

/// The `docker run` arguments for a container task.
pub open spec fn docker_arguments(
    image: Seq<char>,
    args: Seq<Seq<char>>,
    environment: Seq<(Seq<char>, Seq<char>)>,
) -> Seq<Seq<char>> {
    seq!["run"@, "--rm"@, "--volume"@, ".:/workspace"@, "--workdir"@, "/workspace"@] + env_flags(
        environment,
    ) + seq![image] + args
}

/// `--env NAME=VALUE` for each variable.
pub open spec fn env_flags(environment: Seq<(Seq<char>, Seq<char>)>) -> Seq<Seq<char>>
    decreases environment.len(),
{
    if environment.len() == 0 {
        Seq::empty()
    } else {
        env_flags(environment.drop_last()) + seq![
            "--env"@,
            environment.last().0 + "="@ + environment.last().1,
        ]
    }
}

/// View of a process environment.
pub open spec fn environment_view(v: Seq<ProcessEnvironmentVariable>) -> Seq<(Seq<char>, Seq<char>)> {
    v.map_values(|e: ProcessEnvironmentVariable| (e.name@, e.value@))
}

/// Builds the `docker run` arguments for a container task.
pub fn build_docker_run_arguments(
    container: &ContainerRunSpec,
    environment: &Vec<ProcessEnvironmentVariable>,
) -> (arguments: Vec<String>)
    ensures
        strings_view(arguments@) == docker_arguments(
            container.image@,
            strings_view(container.args@),
            environment_view(environment@),
        ),
{
    let mut arguments: Vec<String> = Vec::new();
    arguments.push(String::from_str("run"));
    arguments.push(String::from_str("--rm"));
    arguments.push(String::from_str("--volume"));
    arguments.push(String::from_str(".:/workspace"));
    arguments.push(String::from_str("--workdir"));
    arguments.push(String::from_str("/workspace"));
    let ghost head = strings_view(arguments@);
    assert(head =~= seq!["run"@, "--rm"@, "--volume"@, ".:/workspace"@, "--workdir"@, "/workspace"@]);
    let ghost ev = environment_view(environment@);
    let mut i: usize = 0;
    assert(ev.take(0) =~= Seq::<(Seq<char>, Seq<char>)>::empty());
    assert(head + env_flags(ev.take(0)) =~= head);
    while i < environment.len()
        invariant
            i <= environment@.len(),
            ev == environment_view(environment@),
            strings_view(arguments@) == head + env_flags(ev.take(i as int)),
        decreases environment@.len() - i,
    {
        assert(ev.take(i + 1).drop_last() =~= ev.take(i as int));
        assert(ev.take(i + 1).last() == (environment@[i as int].name@, environment@[i as int].value@));
        let ghost prev = strings_view(arguments@);
        let flag = join3(environment[i].name.as_str(), "=", environment[i].value.as_str());
        arguments.push(String::from_str("--env"));
        arguments.push(flag);
        assert(strings_view(arguments@) =~= prev + seq!["--env"@, flag@]);
        assert(head + env_flags(ev.take(i + 1)) =~= head + env_flags(ev.take(i as int)) + seq![
            "--env"@,
            flag@,
        ]);
        i = i + 1;
    }
    assert(ev.take(environment@.len() as int) =~= ev);
    let ghost before_image = strings_view(arguments@);
    arguments.push(container.image.clone());
    assert(strings_view(arguments@) =~= before_image.push(container.image@));
    let mut j: usize = 0;
    let ghost with_image = strings_view(arguments@);
    while j < container.args.len()
        invariant
            j <= container.args@.len(),
            strings_view(arguments@) == with_image + strings_view(container.args@).take(j as int),
        decreases container.args@.len() - j,
    {
        let ghost prev = strings_view(arguments@);
        let arg = container.args[j].clone();
        assert(arg@ == strings_view(container.args@)[j as int]);
        arguments.push(arg);
        assert(strings_view(arguments@) =~= prev.push(arg@));
        assert(strings_view(container.args@).take(j + 1) =~= strings_view(container.args@).take(
            j as int,
        ).push(arg@));
        assert(strings_view(arguments@) =~= with_image + strings_view(container.args@).take(j + 1));
        j = j + 1;
    }
    assert(strings_view(container.args@).take(container.args@.len() as int) =~= strings_view(
        container.args@,
    ));
    assert(with_image =~= head + env_flags(ev) + seq![container.image@]);
    arguments
}

/// The `docker compose run` arguments for a compose task.
pub open spec fn compose_arguments(
    directory: Seq<char>,
    service: Seq<char>,
    args: Seq<Seq<char>>,
    environment: Seq<(Seq<char>, Seq<char>)>,
) -> Seq<Seq<char>> {
    seq![
        "compose"@,
        "-f"@,
        crate::file_path::spec_join(directory, "docker-compose.yaml"@),
        "run"@,
        "--rm"@,
    ] + env_flags(environment) + seq![service] + args
}

/// Builds the `docker compose run` arguments for a compose task.
pub fn build_docker_compose_arguments(
    compose: &crate::recipe::ComposeRunSpec,
    environment: &Vec<ProcessEnvironmentVariable>,
) -> (arguments: Vec<String>)
    ensures
        strings_view(arguments@) == compose_arguments(
            compose.directory@,
            compose.service@,
            strings_view(compose.args@),
            environment_view(environment@),
        ),
{
    let mut arguments: Vec<String> = Vec::new();
    arguments.push(String::from_str("compose"));
    arguments.push(String::from_str("-f"));
    arguments.push(compose.directory.join("docker-compose.yaml").0);
    arguments.push(String::from_str("run"));
    arguments.push(String::from_str("--rm"));
    let ghost head = strings_view(arguments@);
    assert(head =~= seq![
        "compose"@,
        "-f"@,
        crate::file_path::spec_join(compose.directory@, "docker-compose.yaml"@),
        "run"@,
        "--rm"@,
    ]);
    let ghost ev = environment_view(environment@);
    let mut i: usize = 0;
    assert(ev.take(0) =~= Seq::<(Seq<char>, Seq<char>)>::empty());
    assert(head + env_flags(ev.take(0)) =~= head);
    while i < environment.len()
        invariant
            i <= environment@.len(),
            ev == environment_view(environment@),
            strings_view(arguments@) == head + env_flags(ev.take(i as int)),
        decreases environment@.len() - i,
    {
        assert(ev.take(i + 1).drop_last() =~= ev.take(i as int));
        assert(ev.take(i + 1).last() == (environment@[i as int].name@, environment@[i as int].value@));
        let ghost prev = strings_view(arguments@);
        let flag = join3(environment[i].name.as_str(), "=", environment[i].value.as_str());
        arguments.push(String::from_str("--env"));
        arguments.push(flag);
        assert(strings_view(arguments@) =~= prev + seq!["--env"@, flag@]);
        assert(head + env_flags(ev.take(i + 1)) =~= head + env_flags(ev.take(i as int)) + seq![
            "--env"@,
            flag@,
        ]);
        i = i + 1;
    }
    assert(ev.take(environment@.len() as int) =~= ev);
    let ghost before_service = strings_view(arguments@);
    arguments.push(compose.service.clone());
    assert(strings_view(arguments@) =~= before_service.push(compose.service@));
    let mut j: usize = 0;
    let ghost with_service = strings_view(arguments@);
    while j < compose.args.len()
        invariant
            j <= compose.args@.len(),
            strings_view(arguments@) == with_service + strings_view(compose.args@).take(j as int),
        decreases compose.args@.len() - j,
    {
        let ghost prev = strings_view(arguments@);
        let arg = compose.args[j].clone();
        assert(arg@ == strings_view(compose.args@)[j as int]);
        arguments.push(arg);
        assert(strings_view(arguments@) =~= prev.push(arg@));
        assert(strings_view(compose.args@).take(j + 1) =~= strings_view(compose.args@).take(
            j as int,
        ).push(arg@));
        j = j + 1;
    }
    assert(strings_view(compose.args@).take(compose.args@.len() as int) =~= strings_view(compose.args@));
    assert(with_service =~= head + env_flags(ev) + seq![compose.service@]);
    arguments
}

/// The command for a task: what runs, with which arguments and environment.
pub open spec fn task_command(
    recipe_path: Seq<char>,
    run: crate::recipe::RunView,
    environment: Seq<(Seq<char>, Seq<char>)>,
) -> (Seq<char>, Seq<Seq<char>>, Seq<(Seq<char>, Seq<char>)>) {
    match run {
        crate::recipe::RunView::Shell(command) => ("bash"@, bash_arguments(command), environment),
        crate::recipe::RunView::Script(path) => (path, Seq::empty(), environment),
        crate::recipe::RunView::Container(c) => (
            "docker"@,
            docker_arguments(c.image, c.args, environment),
            Seq::empty(),
        ),
        crate::recipe::RunView::Compose(c) => (
            "docker"@,
            compose_arguments(c.directory, c.service, c.args, environment),
            Seq::empty(),
        ),
    }
}

/// Builds the process command that runs `task`, in the workspace directory of the recipe.
pub fn build_process_command(recipe_path: &FilePath, task: &Task) -> (command: ProcessCommand)
    ensures
        command.working_directory matches Some(d) && d@ == workspace_directory(recipe_path@),
        (command.executable@, strings_view(command.arguments@), environment_view(command.environment@))
            == task_command(recipe_path@, task.run@, task@.environment),
{
    let workspace_directory = recipe_workspace_directory(recipe_path);
    let mut environment: Vec<ProcessEnvironmentVariable> = Vec::new();
    let mut i: usize = 0;
    while i < task.environment.len()
        invariant
            i <= task.environment@.len(),
            environment_view(environment@) == task@.environment.take(i as int),
        decreases task.environment@.len() - i,
    {
        let variable = &task.environment[i];
        let ghost prev = environment_view(environment@);
        let copy = ProcessEnvironmentVariable { name: variable.name.clone(), value: variable.value.clone() };
        assert((copy.name@, copy.value@) == task@.environment[i as int]);
        environment.push(copy);
        assert(environment_view(environment@) =~= prev.push((copy.name@, copy.value@)));
        assert(task@.environment.take(i + 1) =~= task@.environment.take(i as int).push(
            task@.environment[i as int],
        ));
        i = i + 1;
    }
    assert(task@.environment.take(task.environment@.len() as int) =~= task@.environment);
    match &task.run {
        RunSpec::Shell(command) => {
            let mut arguments: Vec<String> = Vec::new();
            arguments.push(String::from_str("-o"));
            arguments.push(String::from_str("errexit"));
            arguments.push(String::from_str("-o"));
            arguments.push(String::from_str("nounset"));
            arguments.push(String::from_str("-o"));
            arguments.push(String::from_str("errtrace"));
            arguments.push(String::from_str("-o"));
            arguments.push(String::from_str("pipefail"));
            arguments.push(String::from_str("-c"));
            arguments.push(build_bash_shell_script(command.as_str()));
            assert(strings_view(arguments@) =~= bash_arguments(command@));
            ProcessCommand {
                executable: String::from_str("bash"),
                arguments,
                working_directory: Some(workspace_directory),
                environment,
            }
        },
        RunSpec::Script(script) => {
            let arguments: Vec<String> = Vec::new();
            assert(strings_view(arguments@) =~= Seq::<Seq<char>>::empty());
            ProcessCommand {
                executable: script.0.clone(),
                arguments,
                working_directory: Some(workspace_directory),
                environment,
            }
        },
        RunSpec::Container(container) => {
            let arguments = build_docker_run_arguments(container, &environment);
            let empty: Vec<ProcessEnvironmentVariable> = Vec::new();
            assert(environment_view(empty@) =~= Seq::<(Seq<char>, Seq<char>)>::empty());
            ProcessCommand {
                executable: String::from_str("docker"),
                arguments,
                working_directory: Some(workspace_directory),
                environment: empty,
            }
        },
        RunSpec::Compose(compose) => {
            let arguments = build_docker_compose_arguments(compose, &environment);
            let empty: Vec<ProcessEnvironmentVariable> = Vec::new();
            assert(environment_view(empty@) =~= Seq::<(Seq<char>, Seq<char>)>::empty());
            ProcessCommand {
                executable: String::from_str("docker"),
                arguments,
                working_directory: Some(workspace_directory),
                environment: empty,
            }
        },
    }
}

} // verus!
