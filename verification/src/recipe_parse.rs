//! Recipe parsing: from a KDL document to a validated `Recipe`, with errors that point
//! at the offending source location.

use crate::file_path::FilePath;
use crate::kdl_model::{
    entries_view, nodes_view, DocumentData, DocumentView, EntryData, EntryView, NodeData, NodeView,
    Scalar, ScalarView,
};
use crate::recipe::{
    ArtifactSpec, ContainerRunSpec, ContainerView, DependencyName, EnvironmentSpec, FailureMode,
    LiveDisplay, Recipe, RecipeConfig, RecipeError, RecipeView, RunSpec, RunView, Task, TaskName,
    TaskView,
};
use crate::source_location::{render_location, render_source_span};
use crate::text::{chars_of, decimal, join2, join3, join5, str_equals, string_from_chars, u128_to_string};
use vstd::prelude::*;
use vstd::string::*;

verus! {

/// A parse error as plain values: the message and the rendered source location.
pub type ErrView = (Seq<char>, Option<Seq<char>>);

/// The error for `msg` at the byte span `offset .. offset + len`.
pub open spec fn error_at(s: Seq<char>, offset: nat, len: nat, msg: Seq<char>) -> ErrView {
    (msg, Some(render_location(s, offset, len)))
}

/// The error for `msg` at node `n`.
pub open spec fn node_err(s: Seq<char>, n: NodeView, msg: Seq<char>) -> ErrView {
    error_at(s, n.offset, n.len, msg)
}

/// The error for `msg` at entry `e`.
pub open spec fn entry_err(s: Seq<char>, e: EntryView, msg: Seq<char>) -> ErrView {
    error_at(s, e.offset, e.len, msg)
}

/// Whether an entry's name is `name`.
pub open spec fn name_is(name: Option<Seq<char>>) -> spec_fn(EntryView) -> bool {
    |e: EntryView| e.name == name
}

/// The entries of `es` whose name is `name` (`None` selects positional arguments).
pub open spec fn matching(es: Seq<EntryView>, name: Option<Seq<char>>) -> Seq<EntryView> {
    es.filter(name_is(name))
}

/// The string held by entry `e`.
pub open spec fn string_value(s: Seq<char>, e: EntryView, desc: Seq<char>) -> Result<
    Seq<char>,
    ErrView,
> {
    match e.value {
        ScalarView::Str(v) => Ok(v),
        _ => {
            let msg = desc + " must be a string value"@;
            if s.len() == 0 {
                Err((msg, None))
            } else {
                Err(entry_err(s, e, msg))
            }
        },
    }
}

/// The single positional string argument of node `n`.
pub open spec fn required_string_argument(s: Seq<char>, n: NodeView, desc: Seq<char>) -> Result<
    Seq<char>,
    ErrView,
> {
    let p = matching(n.entries, None);
    if p.len() == 0 {
        Err(node_err(s, n, "missing "@ + desc))
    } else if p.len() > 1 {
        Err(node_err(s, n, desc + " must be a single string argument"@))
    } else {
        string_value(s, p[0], desc)
    }
}

/// The string property `prop` of node `n`, when present.
pub open spec fn optional_string_property(s: Seq<char>, n: NodeView, prop: Seq<char>) -> Result<
    Option<Seq<char>>,
    ErrView,
> {
    let m = matching(n.entries, Some(prop));
    if m.len() == 0 {
        Ok(None)
    } else if m.len() > 1 {
        Err(entry_err(s, m[0], "property `"@ + prop + "` must not be repeated"@))
    } else {
        match string_value(s, m[0], prop) {
            Ok(v) => Ok(Some(v)),
            Err(e) => Err(e),
        }
    }
}

/// The non-negative integer property `prop` of node `n`, when present.
pub open spec fn optional_usize_property(s: Seq<char>, n: NodeView, prop: Seq<char>) -> Result<
    Option<usize>,
    ErrView,
> {
    let m = matching(n.entries, Some(prop));
    let bad = entry_err(s, m[0], "property `"@ + prop + "` must be a non-negative integer value"@);
    if m.len() == 0 {
        Ok(None)
    } else if m.len() > 1 {
        Err(entry_err(s, m[0], "property `"@ + prop + "` must not be repeated"@))
    } else {
        match m[0].value {
            ScalarView::Int(i) => if 0 <= i <= usize::MAX {
                Ok(Some(i as usize))
            } else {
                Err(bad)
            },
            _ => Err(bad),
        }
    }
}

/// Checks that every entry of a config node, from the `i`-th on, is a supported property.
pub open spec fn config_entries_ok(s: Seq<char>, n: NodeView, i: int) -> Result<(), ErrView>
    decreases n.entries.len() - i,
{
    if i < 0 || i >= n.entries.len() {
        Ok(())
    } else {
        let e = n.entries[i];
        match e.name {
            None => Err(node_err(s, n, "config nodes must use named properties"@)),
            Some(name) => if name != "live-display"@ && name != "max-parallel-tasks"@ && name
                != "failure-mode"@ {
                Err(entry_err(s, e, "config property `"@ + name + "` is not supported"@))
            } else {
                config_entries_ok(s, n, i + 1)
            },
        }
    }
}

/// The live display mode named by a config value.
pub open spec fn live_display_config(s: Seq<char>, n: NodeView, value: Option<Seq<char>>) -> Result<
    LiveDisplay,
    ErrView,
> {
    match value {
        None => Ok(LiveDisplay::LinePerTask),
        Some(v) => if v == "single-line"@ {
            Ok(LiveDisplay::SingleLine)
        } else if v == "line-per-task"@ {
            Ok(LiveDisplay::LinePerTask)
        } else {
            Err(
                node_err(
                    s,
                    n,
                    "config live-display must be one of `single-line` or `line-per-task`, found `"@
                        + v + "`"@,
                ),
            )
        },
    }
}

/// The failure mode named by a config value.
pub open spec fn failure_mode_config(s: Seq<char>, n: NodeView, value: Option<Seq<char>>) -> Result<
    FailureMode,
    ErrView,
> {
    match value {
        None => Ok(FailureMode::FailEarly),
        Some(v) => if v == "fail-early"@ {
            Ok(FailureMode::FailEarly)
        } else if v == "fail-late"@ {
            Ok(FailureMode::FailLate)
        } else {
            Err(
                node_err(
                    s,
                    n,
                    "config failure-mode must be one of `fail-early` or `fail-late`, found `"@ + v
                        + "`"@,
                ),
            )
        },
    }
}

/// The configuration given by a `config` node.
pub open spec fn recipe_config(s: Seq<char>, n: NodeView) -> Result<RecipeConfig, ErrView> {
    if n.children is Some {
        Err(node_err(s, n, "config node does not support child nodes"@))
    } else {
        match config_entries_ok(s, n, 0) {
            Err(e) => Err(e),
            Ok(_) => match optional_string_property(s, n, "live-display"@) {
                Err(e) => Err(e),
                Ok(live) => match live_display_config(s, n, live) {
                    Err(e) => Err(e),
                    Ok(live_display) => match optional_string_property(s, n, "failure-mode"@) {
                        Err(e) => Err(e),
                        Ok(mode) => match failure_mode_config(s, n, mode) {
                            Err(e) => Err(e),
                            Ok(failure_mode) => match optional_usize_property(
                                s,
                                n,
                                "max-parallel-tasks"@,
                            ) {
                                Err(e) => Err(e),
                                Ok(None) => Ok(
                                    RecipeConfig { live_display, failure_mode, max_parallel_tasks: None },
                                ),
                                Ok(Some(k)) => if k == 0 {
                                    Err(node_err(s, n, "config max-parallel-tasks must be at least 1"@))
                                } else {
                                    Ok(RecipeConfig { live_display, failure_mode, max_parallel_tasks: Some(k) })
                                },
                            },
                        },
                    },
                },
            },
        }
    }
}

/// Rejects a child block on a shell or script run node.
pub open spec fn no_children(s: Seq<char>, n: NodeView, tn: Seq<char>, kind: Seq<char>) -> Result<
    (),
    ErrView,
> {
    if n.children is Some {
        Err(node_err(s, n, "task `"@ + tn + "` "@ + kind + " run does not support child nodes"@))
    } else {
        Ok(())
    }
}

/// Collects the positional string values of `args` entries, from the `j`-th on.
pub open spec fn args_entries(
    s: Seq<char>,
    es: Seq<EntryView>,
    tn: Seq<char>,
    j: int,
    acc: Seq<Seq<char>>,
) -> Result<Seq<Seq<char>>, ErrView>
    decreases es.len() - j,
{
    if j < 0 || j >= es.len() {
        Ok(acc)
    } else {
        let e = es[j];
        if e.name is Some {
            Err(entry_err(s, e, "task `"@ + tn + "` container args must use positional string values"@))
        } else {
            match string_value(s, e, "container argument"@) {
                Err(x) => Err(x),
                Ok(v) => args_entries(s, es, tn, j + 1, acc.push(v)),
            }
        }
    }
}

/// Collects the container arguments of the `args` children, from the `i`-th on.
pub open spec fn args_children(
    s: Seq<char>,
    ch: Seq<NodeView>,
    tn: Seq<char>,
    i: int,
    acc: Seq<Seq<char>>,
) -> Result<Seq<Seq<char>>, ErrView>
    decreases ch.len() - i,
{
    if i < 0 || i >= ch.len() {
        Ok(acc)
    } else {
        let c = ch[i];
        if c.name != "args"@ {
            Err(node_err(s, c, "task `"@ + tn + "` container run only supports `args` child nodes"@))
        } else {
            match args_entries(s, c.entries, tn, 0, acc) {
                Err(x) => Err(x),
                Ok(next) => args_children(s, ch, tn, i + 1, next),
            }
        }
    }
}

/// The container arguments of a container run node.
pub open spec fn container_args(s: Seq<char>, n: NodeView, tn: Seq<char>) -> Result<
    Seq<Seq<char>>,
    ErrView,
> {
    match n.children {
        None => Ok(Seq::empty()),
        Some(ch) => args_children(s, ch, tn, 0, Seq::empty()),
    }
}

/// Number of `Some` among three options.
pub open spec fn defined_count(a: bool, b: bool, c: bool) -> nat {
    (if a { 1nat } else { 0nat }) + (if b { 1nat } else { 0nat }) + (if c { 1nat } else { 0nat })
}

/// The run specification given by a `run` node.
pub open spec fn run_spec(s: Seq<char>, n: NodeView, tn: Seq<char>) -> Result<RunView, ErrView> {
    match optional_string_property(s, n, "shell"@) {
        Err(e) => Err(e),
        Ok(shell) => match optional_string_property(s, n, "script"@) {
            Err(e) => Err(e),
            Ok(script) => match optional_string_property(s, n, "container"@) {
                Err(e) => Err(e),
                Ok(container) => if defined_count(shell is Some, script is Some, container is Some)
                    != 1 {
                    Err(
                        node_err(
                            s,
                            n,
                            "task `"@ + tn
                                + "` run node must define exactly one of `shell`, `script`, or `container`"@,
                        ),
                    )
                } else if shell is Some {
                    match no_children(s, n, tn, "shell"@) {
                        Err(e) => Err(e),
                        Ok(_) => Ok(RunView::Shell(shell->Some_0)),
                    }
                } else if script is Some {
                    match no_children(s, n, tn, "script"@) {
                        Err(e) => Err(e),
                        Ok(_) => Ok(RunView::Script(script->Some_0)),
                    }
                } else {
                    match container_args(s, n, tn) {
                        Err(e) => Err(e),
                        Ok(args) => Ok(
                            RunView::Container(ContainerView { image: container->Some_0, args }),
                        ),
                    }
                },
            },
        },
    }
}

/// The variable defined by an `env` node.
pub open spec fn environment_spec(s: Seq<char>, n: NodeView, tn: Seq<char>) -> Result<
    (Seq<char>, Seq<char>),
    ErrView,
> {
    if exists|k: int| 0 <= k < n.entries.len() && (#[trigger] n.entries[k]).name is None {
        Err(
            node_err(
                s,
                n,
                "task `"@ + tn + "` env nodes must use named properties like `env KEY=\"value\"`"@,
            ),
        )
    } else if n.entries.len() != 1 {
        Err(node_err(s, n, "task `"@ + tn + "` env nodes must define exactly one variable"@))
    } else {
        match string_value(s, n.entries[0], "environment value"@) {
            Err(e) => Err(e),
            Ok(v) => Ok((n.entries[0].name->Some_0, v)),
        }
    }
}

/// The artifact declared by an `artifact` node.
pub open spec fn artifact_spec(s: Seq<char>, n: NodeView, tn: Seq<char>) -> Result<
    (Seq<char>, Seq<char>),
    ErrView,
> {
    match required_string_argument(s, n, "artifact name"@) {
        Err(e) => Err(e),
        Ok(name) => match optional_string_property(s, n, "path"@) {
            Err(e) => Err(e),
            Ok(None) => Err(
                node_err(
                    s,
                    n,
                    "task `"@ + tn + "` artifact `"@ + name + "` is missing a `path` property"@,
                ),
            ),
            Ok(Some(path)) => Ok((name, path)),
        },
    }
}

/// What the children of a task node contribute.
#[verifier::ext_equal]
pub struct TaskParts {
    pub dependencies: Seq<Seq<char>>,
    pub run: Option<RunView>,
    pub environment: Seq<(Seq<char>, Seq<char>)>,
    pub artifacts: Seq<(Seq<char>, Seq<char>)>,
}

/// Reads the children of task `tn` from the `i`-th on.
pub open spec fn task_children(
    s: Seq<char>,
    tn: Seq<char>,
    ch: Seq<NodeView>,
    i: int,
    acc: TaskParts,
) -> Result<TaskParts, ErrView>
    decreases ch.len() - i,
{
    if i < 0 || i >= ch.len() {
        Ok(acc)
    } else {
        let c = ch[i];
        if c.name == "depends-on"@ {
            match required_string_argument(s, c, "dependency name"@) {
                Err(e) => Err(e),
                Ok(d) => task_children(
                    s,
                    tn,
                    ch,
                    i + 1,
                    TaskParts { dependencies: acc.dependencies.push(d), ..acc },
                ),
            }
        } else if c.name == "run"@ {
            if acc.run is Some {
                Err(node_err(s, c, "task `"@ + tn + "` cannot define multiple run nodes"@))
            } else {
                match run_spec(s, c, tn) {
                    Err(e) => Err(e),
                    Ok(r) => task_children(s, tn, ch, i + 1, TaskParts { run: Some(r), ..acc }),
                }
            }
        } else if c.name == "env"@ {
            match environment_spec(s, c, tn) {
                Err(e) => Err(e),
                Ok(v) => task_children(
                    s,
                    tn,
                    ch,
                    i + 1,
                    TaskParts { environment: acc.environment.push(v), ..acc },
                ),
            }
        } else if c.name == "artifact"@ {
            match artifact_spec(s, c, tn) {
                Err(e) => Err(e),
                Ok(a) => task_children(
                    s,
                    tn,
                    ch,
                    i + 1,
                    TaskParts { artifacts: acc.artifacts.push(a), ..acc },
                ),
            }
        } else {
            Err(node_err(s, c, "task `"@ + tn + "` contains unsupported node `"@ + c.name + "`"@))
        }
    }
}

/// The task given by a `task` node.
pub open spec fn task_spec(s: Seq<char>, n: NodeView) -> Result<TaskView, ErrView> {
    match required_string_argument(s, n, "task name"@) {
        Err(e) => Err(e),
        Ok(name) => match optional_string_property(s, n, "description"@) {
            Err(e) => Err(e),
            Ok(description) => match n.children {
                None => Err(node_err(s, n, "task `"@ + name + "` must have child nodes"@)),
                Some(ch) => match task_children(
                    s,
                    name,
                    ch,
                    0,
                    TaskParts {
                        dependencies: Seq::empty(),
                        run: None,
                        environment: Seq::empty(),
                        artifacts: Seq::empty(),
                    },
                ) {
                    Err(e) => Err(e),
                    Ok(parts) => match parts.run {
                        None => Err(node_err(s, n, "task `"@ + name + "` is missing a run node"@)),
                        Some(run) => Ok(
                            TaskView {
                                name,
                                description,
                                dependencies: parts.dependencies,
                                run,
                                environment: parts.environment,
                                artifacts: parts.artifacts,
                            },
                        ),
                    },
                },
            },
        },
    }
}

/// What the children of the recipe node contribute.
#[verifier::ext_equal]
pub struct RecipeParts {
    pub config: RecipeConfig,
    pub config_seen: bool,
    pub tasks: Seq<TaskView>,
}

/// Reads the children of the recipe node from the `i`-th on.
pub open spec fn recipe_children(s: Seq<char>, ch: Seq<NodeView>, i: int, acc: RecipeParts) -> Result<
    RecipeParts,
    ErrView,
>
    decreases ch.len() - i,
{
    if i < 0 || i >= ch.len() {
        Ok(acc)
    } else {
        let c = ch[i];
        if c.name == "config"@ {
            if acc.config_seen {
                Err(node_err(s, c, "recipe cannot define multiple config nodes"@))
            } else {
                match recipe_config(s, c) {
                    Err(e) => Err(e),
                    Ok(config) => recipe_children(
                        s,
                        ch,
                        i + 1,
                        RecipeParts { config, config_seen: true, ..acc },
                    ),
                }
            }
        } else if c.name == "task"@ {
            match task_spec(s, c) {
                Err(e) => Err(e),
                Ok(t) => recipe_children(s, ch, i + 1, RecipeParts { tasks: acc.tasks.push(t), ..acc }),
            }
        } else {
            Err(node_err(s, c, "recipe contains unsupported node `"@ + c.name + "`"@))
        }
    }
}

/// Whether `name` holds an underscore.
pub open spec fn has_underscore(name: Seq<char>) -> bool {
    exists|k: int| 0 <= k < name.len() && name[k] == '_'
}

/// Number of (task, task node) pairs that validation walks.
pub open spec fn pair_count(tasks: Seq<TaskView>, nodes: Seq<NodeView>) -> int {
    if tasks.len() < nodes.len() {
        tasks.len() as int
    } else {
        nodes.len() as int
    }
}

/// Whether one of the first `count` tasks is named `name`.
pub open spec fn names_contain(tasks: Seq<TaskView>, count: int, name: Seq<char>) -> bool {
    exists|k: int| 0 <= k < count && (#[trigger] tasks[k]).name == name
}

/// Checks the names of the tasks from the `i`-th on: no underscore, no duplicate.
pub open spec fn validate_names(s: Seq<char>, tasks: Seq<TaskView>, nodes: Seq<NodeView>, i: int) -> Result<
    (),
    ErrView,
>
    decreases pair_count(tasks, nodes) - i,
{
    if i < 0 || i >= pair_count(tasks, nodes) {
        Ok(())
    } else {
        let name = tasks[i].name;
        if has_underscore(name) {
            Err(
                node_err(
                    s,
                    nodes[i],
                    "task name `"@ + name
                        + "` cannot contain `_` because `_` is reserved for wildcard task selectors"@,
                ),
            )
        } else if names_contain(tasks, i, name) {
            Err(node_err(s, nodes[i], "duplicate task name `"@ + name + "`"@))
        } else {
            validate_names(s, tasks, nodes, i + 1)
        }
    }
}

/// Checks that the dependencies of one task, from the `j`-th on, name known tasks.
pub open spec fn validate_dependencies_of(
    s: Seq<char>,
    tasks: Seq<TaskView>,
    count: int,
    node: NodeView,
    t: TaskView,
    j: int,
) -> Result<(), ErrView>
    decreases t.dependencies.len() - j,
{
    if j < 0 || j >= t.dependencies.len() {
        Ok(())
    } else if !names_contain(tasks, count, t.dependencies[j]) {
        Err(
            node_err(
                s,
                node,
                "task `"@ + t.name + "` depends on unknown task `"@ + t.dependencies[j] + "`"@,
            ),
        )
    } else {
        validate_dependencies_of(s, tasks, count, node, t, j + 1)
    }
}

/// Checks the dependencies of the tasks from the `i`-th on.
pub open spec fn validate_dependencies(
    s: Seq<char>,
    tasks: Seq<TaskView>,
    nodes: Seq<NodeView>,
    i: int,
) -> Result<(), ErrView>
    decreases pair_count(tasks, nodes) - i,
{
    if i < 0 || i >= pair_count(tasks, nodes) {
        Ok(())
    } else {
        match validate_dependencies_of(s, tasks, pair_count(tasks, nodes), nodes[i], tasks[i], 0) {
            Err(e) => Err(e),
            Ok(_) => validate_dependencies(s, tasks, nodes, i + 1),
        }
    }
}

/// Whether a node is named `name`.
pub open spec fn node_named(name: Seq<char>) -> spec_fn(NodeView) -> bool {
    |c: NodeView| c.name == name
}

/// The task nodes among the recipe's children.
pub open spec fn task_nodes(ch: Seq<NodeView>) -> Seq<NodeView> {
    ch.filter(node_named("task"@))
}

/// The recipe described by a KDL document, or the first error found in it.
pub open spec fn recipe_from_document(s: Seq<char>, d: DocumentView) -> Result<RecipeView, ErrView> {
    if d.nodes.len() != 1 {
        Err(
            error_at(
                s,
                d.offset,
                d.len,
                "expected exactly one top-level recipe node, found "@ + decimal(d.nodes.len()),
            ),
        )
    } else {
        let n = d.nodes[0];
        if n.name != "recipe"@ {
            Err(node_err(s, n, "expected node `recipe`, found `"@ + n.name + "`"@))
        } else {
            match required_string_argument(s, n, "recipe name"@) {
                Err(e) => Err(e),
                Ok(name) => match n.children {
                    None => Err(node_err(s, n, "recipe node must contain task definitions"@)),
                    Some(ch) => match recipe_children(
                        s,
                        ch,
                        0,
                        RecipeParts {
                            config: RecipeConfig {
                                live_display: LiveDisplay::LinePerTask,
                                failure_mode: FailureMode::FailEarly,
                                max_parallel_tasks: None,
                            },
                            config_seen: false,
                            tasks: Seq::empty(),
                        },
                    ) {
                        Err(e) => Err(e),
                        Ok(parts) => match validate_names(s, parts.tasks, task_nodes(ch), 0) {
                            Err(e) => Err(e),
                            Ok(_) => match validate_dependencies(
                                s,
                                parts.tasks,
                                task_nodes(ch),
                                0,
                            ) {
                                Err(e) => Err(e),
                                Ok(_) => Ok(
                                    RecipeView { name, config: parts.config, tasks: parts.tasks },
                                ),
                            },
                        },
                    },
                },
            }
        }
    }
}

} // verus!

verus! {

/// View of a string-or-error result.
pub open spec fn string_result(r: Result<String, RecipeError>) -> Result<Seq<char>, ErrView> {
    match r {
        Ok(v) => Ok(v@),
        Err(e) => Err(e@),
    }
}

/// View of an optional-string-or-error result.
pub open spec fn opt_string_result(r: Result<Option<String>, RecipeError>) -> Result<
    Option<Seq<char>>,
    ErrView,
> {
    match r {
        Ok(Some(v)) => Ok(Some(v@)),
        Ok(None) => Ok(None),
        Err(e) => Err(e@),
    }
}

/// View of a unit-or-error result.
pub open spec fn unit_result(r: Result<(), RecipeError>) -> Result<(), ErrView> {
    match r {
        Ok(_) => Ok(()),
        Err(e) => Err(e@),
    }
}

/// View of an optional name given as `&str`.
pub open spec fn opt_str_view(o: Option<&str>) -> Option<Seq<char>> {
    match o {
        Some(p) => Some(p@),
        None => None,
    }
}

/// One more element of a prefix, filtered.
pub proof fn lemma_filter_take_step<A>(s: Seq<A>, p: spec_fn(A) -> bool, i: int)
    requires
        0 <= i < s.len(),
    ensures
        s.take(i + 1).filter(p) == (if p(s[i]) {
            s.take(i).filter(p).push(s[i])
        } else {
            s.take(i).filter(p)
        }),
{
    reveal(Seq::filter);
    assert(s.take(i + 1).drop_last() =~= s.take(i));
    assert(s.take(i + 1).last() == s[i]);
}

/// Filtering the empty prefix gives nothing.
pub proof fn lemma_filter_take_zero<A>(s: Seq<A>, p: spec_fn(A) -> bool)
    ensures
        s.take(0).filter(p) == Seq::<A>::empty(),
{
    reveal(Seq::filter);
    assert(s.take(0).filter(p) =~= Seq::<A>::empty());
}

fn error_at_exec(src: &Vec<char>, offset: usize, len: usize, msg: String) -> (e: RecipeError)
    ensures
        e@ == error_at(src@, offset as nat, len as nat, msg@),
{
    let location = render_source_span(src, offset, len);
    RecipeError::with_rendered_location(msg, string_from_chars(&location))
}

fn node_error(src: &Vec<char>, n: &NodeData, msg: String) -> (e: RecipeError)
    ensures
        e@ == node_err(src@, n@, msg@),
{
    error_at_exec(src, n.offset, n.len, msg)
}

fn entry_error(src: &Vec<char>, e: &EntryData, msg: String) -> (r: RecipeError)
    ensures
        r@ == entry_err(src@, e@, msg@),
{
    error_at_exec(src, e.offset, e.len, msg)
}

fn string_value_exec(src: &Vec<char>, e: &EntryData, desc: &str) -> (r: Result<String, RecipeError>)
    ensures
        string_result(r) == string_value(src@, e@, desc@),
{
    match &e.value {
        Scalar::Str(v) => Ok(v.clone()),
        _ => {
            let msg = join2(desc, " must be a string value");
            if src.len() == 0 {
                Err(RecipeError::new(msg))
            } else {
                Err(entry_error(src, e, msg))
            }
        },
    }
}

fn name_matches(entry_name: &Option<String>, name: Option<&str>) -> (b: bool)
    ensures
        b == (match entry_name {
            Some(n) => Some(n@),
            None => None,
        } == opt_str_view(name)),
{
    match (entry_name, name) {
        (Some(n), Some(p)) => str_equals(n.as_str(), p),
        (None, None) => true,
        _ => false,
    }
}

/// Positions of the entries whose name is `name`.
fn matching_indices(entries: &Vec<EntryData>, name: Option<&str>) -> (idx: Vec<usize>)
    ensures
        idx@.len() == matching(entries_view(entries@), opt_str_view(name)).len(),
        forall|k: int|
            0 <= k < idx@.len() ==> (#[trigger] idx@[k]) < entries@.len() && entries@[idx@[k] as int]@
                == matching(entries_view(entries@), opt_str_view(name))[k],
{
    let ghost es = entries_view(entries@);
    let ghost pred = name_is(opt_str_view(name));
    let mut idx: Vec<usize> = Vec::new();
    let mut i: usize = 0;
    proof {
        lemma_filter_take_zero(es, pred);
    }
    while i < entries.len()
        invariant
            i <= entries@.len(),
            es == entries_view(entries@),
            pred == name_is(opt_str_view(name)),
            idx@.len() == es.take(i as int).filter(pred).len(),
            forall|k: int|
                0 <= k < idx@.len() ==> (#[trigger] idx@[k]) < entries@.len() && entries@[idx@[k] as int]@
                    == es.take(i as int).filter(pred)[k],
        decreases entries@.len() - i,
    {
        proof {
            lemma_filter_take_step(es, pred, i as int);
        }
        let ghost old_idx = idx@;
        if name_matches(&entries[i].name, name) {
            idx.push(i);
            assert(idx@[idx@.len() - 1] == i);
        }
        assert forall|k: int| 0 <= k < idx@.len() implies (#[trigger] idx@[k]) < entries@.len()
            && entries@[idx@[k] as int]@ == es.take(i + 1).filter(pred)[k] by {
            if k < old_idx.len() {
                assert(idx@[k] == old_idx[k]);
            }
        }
        i = i + 1;
    }
    assert(es.take(entries@.len() as int) =~= es);
    idx
}

fn required_string_argument_exec(src: &Vec<char>, n: &NodeData, desc: &str) -> (r: Result<
    String,
    RecipeError,
>)
    ensures
        string_result(r) == required_string_argument(src@, n@, desc@),
{
    let idx = matching_indices(&n.entries, None);
    if idx.len() == 0 {
        return Err(node_error(src, n, join2("missing ", desc)));
    }
    if idx.len() > 1 {
        return Err(node_error(src, n, join2(desc, " must be a single string argument")));
    }
    string_value_exec(src, &n.entries[idx[0]], desc)
}

fn optional_string_property_exec(src: &Vec<char>, n: &NodeData, prop: &str) -> (r: Result<
    Option<String>,
    RecipeError,
>)
    ensures
        opt_string_result(r) == optional_string_property(src@, n@, prop@),
{
    let idx = matching_indices(&n.entries, Some(prop));
    if idx.len() == 0 {
        return Ok(None);
    }
    if idx.len() > 1 {
        let msg = join3("property `", prop, "` must not be repeated");
        return Err(entry_error(src, &n.entries[idx[0]], msg));
    }
    match string_value_exec(src, &n.entries[idx[0]], prop) {
        Ok(v) => Ok(Some(v)),
        Err(e) => Err(e),
    }
}

fn optional_usize_property_exec(src: &Vec<char>, n: &NodeData, prop: &str) -> (r: Result<
    Option<usize>,
    RecipeError,
>)
    ensures
        match r {
            Ok(v) => optional_usize_property(src@, n@, prop@) == Ok::<Option<usize>, ErrView>(v),
            Err(e) => optional_usize_property(src@, n@, prop@) == Err::<Option<usize>, ErrView>(e@),
        },
{
    let idx = matching_indices(&n.entries, Some(prop));
    if idx.len() == 0 {
        return Ok(None);
    }
    let entry = &n.entries[idx[0]];
    if idx.len() > 1 {
        let msg = join3("property `", prop, "` must not be repeated");
        return Err(entry_error(src, entry, msg));
    }
    match &entry.value {
        Scalar::Int(i) => {
            if 0 <= *i && *i <= usize::MAX as i128 {
                return Ok(Some(*i as usize));
            }
        },
        _ => {},
    }
    let msg = join3("property `", prop, "` must be a non-negative integer value");
    Err(entry_error(src, entry, msg))
}

} // verus!

verus! {

fn config_exec(src: &Vec<char>, n: &NodeData) -> (r: Result<RecipeConfig, RecipeError>)
    ensures
        match r {
            Ok(c) => recipe_config(src@, n@) == Ok::<RecipeConfig, ErrView>(c),
            Err(e) => recipe_config(src@, n@) == Err::<RecipeConfig, ErrView>(e@),
        },
{
    if n.children.is_some() {
        return Err(node_error(src, n, String::from_str("config node does not support child nodes")));
    }
    let mut i: usize = 0;
    while i < n.entries.len()
        invariant
            i <= n.entries@.len(),
            n.children is None,
            config_entries_ok(src@, n@, 0) == config_entries_ok(src@, n@, i as int),
        decreases n.entries@.len() - i,
    {
        let entry = &n.entries[i];
        assert(n@.entries[i as int] == entry@);
        match &entry.name {
            None => {
                return Err(node_error(src, n, String::from_str("config nodes must use named properties")));
            },
            Some(name) => {
                proof {
                    reveal_strlit("live-display");
                    reveal_strlit("max-parallel-tasks");
                }
                proof {
                    reveal_strlit("failure-mode");
                }
                if !str_equals(name.as_str(), "live-display") && !str_equals(
                    name.as_str(),
                    "max-parallel-tasks",
                ) && !str_equals(name.as_str(), "failure-mode") {
                    let msg = join3("config property `", name.as_str(), "` is not supported");
                    return Err(entry_error(src, entry, msg));
                }
            },
        }
        i = i + 1;
    }
    let live = match optional_string_property_exec(src, n, "live-display") {
        Ok(v) => v,
        Err(e) => return Err(e),
    };
    let live_display = match live {
        None => LiveDisplay::LinePerTask,
        Some(v) => match LiveDisplay::parse(v.as_str()) {
            Some(mode) => mode,
            None => {
                let msg = join3(
                    "config live-display must be one of `single-line` or `line-per-task`, found `",
                    v.as_str(),
                    "`",
                );
                return Err(node_error(src, n, msg));
            },
        },
    };
    let mode = match optional_string_property_exec(src, n, "failure-mode") {
        Ok(v) => v,
        Err(e) => return Err(e),
    };
    let failure_mode = match mode {
        None => FailureMode::FailEarly,
        Some(v) => match FailureMode::parse(v.as_str()) {
            Some(m) => m,
            None => {
                let msg = join3(
                    "config failure-mode must be one of `fail-early` or `fail-late`, found `",
                    v.as_str(),
                    "`",
                );
                return Err(node_error(src, n, msg));
            },
        },
    };
    let max = match optional_usize_property_exec(src, n, "max-parallel-tasks") {
        Ok(v) => v,
        Err(e) => return Err(e),
    };
    match max {
        None => Ok(RecipeConfig { live_display, failure_mode, max_parallel_tasks: None }),
        Some(k) => {
            if k == 0 {
                Err(node_error(src, n, String::from_str("config max-parallel-tasks must be at least 1")))
            } else {
                Ok(RecipeConfig { live_display, failure_mode, max_parallel_tasks: Some(k) })
            }
        },
    }
}

fn no_children_exec(src: &Vec<char>, n: &NodeData, tn: &str, kind: &str) -> (r: Result<(), RecipeError>)
    ensures
        unit_result(r) == no_children(src@, n@, tn@, kind@),
{
    if n.children.is_some() {
        let msg = join5("task `", tn, "` ", kind, " run does not support child nodes");
        Err(node_error(src, n, msg))
    } else {
        Ok(())
    }
}

/// View of a list of strings.
pub open spec fn strings_of(v: Seq<String>) -> Seq<Seq<char>> {
    v.map_values(|s: String| s@)
}

fn container_args_exec(src: &Vec<char>, n: &NodeData, tn: &str) -> (r: Result<Vec<String>, RecipeError>)
    ensures
        match r {
            Ok(v) => container_args(src@, n@, tn@) == Ok::<Seq<Seq<char>>, ErrView>(strings_of(v@)),
            Err(e) => container_args(src@, n@, tn@) == Err::<Seq<Seq<char>>, ErrView>(e@),
        },
{
    let children = match &n.children {
        None => {
            let empty: Vec<String> = Vec::new();
            assert(strings_of(empty@) =~= Seq::<Seq<char>>::empty());
            return Ok(empty);
        },
        Some(c) => c,
    };
    let ghost ch = nodes_view(children@);
    assert(n@.children == Some(ch));
    let mut args: Vec<String> = Vec::new();
    let mut i: usize = 0;
    assert(strings_of(args@) =~= Seq::<Seq<char>>::empty());
    while i < children.len()
        invariant
            i <= children@.len(),
            ch == nodes_view(children@),
            n@.children == Some(ch),
            container_args(src@, n@, tn@) == args_children(src@, ch, tn@, i as int, strings_of(args@)),
        decreases children@.len() - i,
    {
        let child = &children[i];
        assert(ch[i as int] == child@);
        proof {
            reveal_strlit("args");
        }
        if !str_equals(child.name.as_str(), "args") {
            let msg = join3("task `", tn, "` container run only supports `args` child nodes");
            return Err(node_error(src, child, msg));
        }
        let ghost before = strings_of(args@);
        let mut j: usize = 0;
        while j < child.entries.len()
            invariant
                j <= child.entries@.len(),
                i < children@.len(),
                ch == nodes_view(children@),
                ch[i as int] == child@,
                child@.name == "args"@,
                container_args(src@, n@, tn@) == args_children(src@, ch, tn@, i as int, before),
                args_entries(src@, child@.entries, tn@, 0, before) == args_entries(
                    src@,
                    child@.entries,
                    tn@,
                    j as int,
                    strings_of(args@),
                ),
            decreases child.entries@.len() - j,
        {
            let entry = &child.entries[j];
            assert(child@.entries[j as int] == entry@);
            if entry.name.is_some() {
                let msg = join3("task `", tn, "` container args must use positional string values");
                return Err(entry_error(src, entry, msg));
            }
            match string_value_exec(src, entry, "container argument") {
                Ok(v) => {
                    let ghost prev = strings_of(args@);
                    args.push(v);
                    assert(strings_of(args@) =~= prev.push(v@));
                },
                Err(e) => return Err(e),
            }
            j = j + 1;
        }
        i = i + 1;
    }
    Ok(args)
}

fn run_spec_exec(src: &Vec<char>, n: &NodeData, tn: &str) -> (r: Result<RunSpec, RecipeError>)
    ensures
        match r {
            Ok(v) => run_spec(src@, n@, tn@) == Ok::<RunView, ErrView>(v@),
            Err(e) => run_spec(src@, n@, tn@) == Err::<RunView, ErrView>(e@),
        },
{
    let shell = match optional_string_property_exec(src, n, "shell") {
        Ok(v) => v,
        Err(e) => return Err(e),
    };
    let script = match optional_string_property_exec(src, n, "script") {
        Ok(v) => v,
        Err(e) => return Err(e),
    };
    let container = match optional_string_property_exec(src, n, "container") {
        Ok(v) => v,
        Err(e) => return Err(e),
    };
    let defined: u8 = (if shell.is_some() { 1u8 } else { 0u8 }) + (if script.is_some() { 1u8 } else { 0u8 })
        + (if container.is_some() { 1u8 } else { 0u8 });
    if defined != 1 {
        let msg = join3(
            "task `",
            tn,
            "` run node must define exactly one of `shell`, `script`, or `container`",
        );
        return Err(node_error(src, n, msg));
    }
    match shell {
        Some(command) => {
            match no_children_exec(src, n, tn, "shell") {
                Ok(_) => return Ok(RunSpec::Shell(command)),
                Err(e) => return Err(e),
            }
        },
        None => {},
    }
    match script {
        Some(path) => {
            match no_children_exec(src, n, tn, "script") {
                Ok(_) => return Ok(RunSpec::Script(FilePath(path))),
                Err(e) => return Err(e),
            }
        },
        None => {},
    }
    let image = match container {
        Some(image) => image,
        None => {
            assert(false);
            return Err(node_error(src, n, String::new()));
        },
    };
    match container_args_exec(src, n, tn) {
        Ok(args) => {
            let spec = ContainerRunSpec { image, args };
            assert(spec@.args == strings_of(spec.args@));
            Ok(RunSpec::Container(spec))
        },
        Err(e) => Err(e),
    }
}

fn environment_exec(src: &Vec<char>, n: &NodeData, tn: &str) -> (r: Result<EnvironmentSpec, RecipeError>)
    ensures
        match r {
            Ok(v) => environment_spec(src@, n@, tn@) == Ok::<(Seq<char>, Seq<char>), ErrView>(v@),
            Err(e) => environment_spec(src@, n@, tn@) == Err::<(Seq<char>, Seq<char>), ErrView>(e@),
        },
{
    let mut k: usize = 0;
    while k < n.entries.len()
        invariant
            k <= n.entries@.len(),
            forall|m: int| 0 <= m < k ==> (#[trigger] n@.entries[m]).name is Some,
        decreases n.entries@.len() - k,
    {
        assert(n@.entries[k as int] == n.entries@[k as int]@);
        if n.entries[k].name.is_none() {
            let msg = join3(
                "task `",
                tn,
                "` env nodes must use named properties like `env KEY=\"value\"`",
            );
            return Err(node_error(src, n, msg));
        }
        k = k + 1;
    }
    if n.entries.len() != 1 {
        let msg = join3("task `", tn, "` env nodes must define exactly one variable");
        return Err(node_error(src, n, msg));
    }
    let entry = &n.entries[0];
    assert(n@.entries[0] == entry@);
    match string_value_exec(src, entry, "environment value") {
        Err(e) => Err(e),
        Ok(value) => {
            let name = match &entry.name {
                Some(name) => name.clone(),
                None => {
                    assert(false);
                    String::new()
                },
            };
            Ok(EnvironmentSpec { name, value })
        },
    }
}

fn artifact_exec(src: &Vec<char>, n: &NodeData, tn: &str) -> (r: Result<ArtifactSpec, RecipeError>)
    ensures
        match r {
            Ok(v) => artifact_spec(src@, n@, tn@) == Ok::<(Seq<char>, Seq<char>), ErrView>(v@),
            Err(e) => artifact_spec(src@, n@, tn@) == Err::<(Seq<char>, Seq<char>), ErrView>(e@),
        },
{
    let name = match required_string_argument_exec(src, n, "artifact name") {
        Ok(v) => v,
        Err(e) => return Err(e),
    };
    match optional_string_property_exec(src, n, "path") {
        Err(e) => Err(e),
        Ok(None) => {
            let msg = join5("task `", tn, "` artifact `", name.as_str(), "` is missing a `path` property");
            Err(node_error(src, n, msg))
        },
        Ok(Some(path)) => Ok(ArtifactSpec { name, path: FilePath(path) }),
    }
}

} // verus!

verus! {

/// The parts gathered so far while reading a task's children.
pub open spec fn parts_view(
    dependencies: Seq<DependencyName>,
    run: Option<RunSpec>,
    environment: Seq<EnvironmentSpec>,
    artifacts: Seq<ArtifactSpec>,
) -> TaskParts {
    TaskParts {
        dependencies: dependencies.map_values(|d: DependencyName| d@),
        run: match run {
            Some(r) => Some(r@),
            None => None,
        },
        environment: environment.map_values(|e: EnvironmentSpec| e@),
        artifacts: artifacts.map_values(|a: ArtifactSpec| a@),
    }
}

fn task_exec(src: &Vec<char>, n: &NodeData) -> (r: Result<Task, RecipeError>)
    ensures
        match r {
            Ok(t) => task_spec(src@, n@) == Ok::<TaskView, ErrView>(t@),
            Err(e) => task_spec(src@, n@) == Err::<TaskView, ErrView>(e@),
        },
{
    let name = match required_string_argument_exec(src, n, "task name") {
        Ok(v) => v,
        Err(e) => return Err(e),
    };
    let description = match optional_string_property_exec(src, n, "description") {
        Ok(v) => v,
        Err(e) => return Err(e),
    };
    let children = match &n.children {
        None => {
            let msg = join3("task `", name.as_str(), "` must have child nodes");
            return Err(node_error(src, n, msg));
        },
        Some(c) => c,
    };
    let ghost ch = nodes_view(children@);
    assert(n@.children == Some(ch));
    let mut dependencies: Vec<DependencyName> = Vec::new();
    let mut run: Option<RunSpec> = None;
    let mut environment: Vec<EnvironmentSpec> = Vec::new();
    let mut artifacts: Vec<ArtifactSpec> = Vec::new();
    let ghost start = parts_view(dependencies@, run, environment@, artifacts@);
    assert(start =~= TaskParts {
        dependencies: Seq::empty(),
        run: None,
        environment: Seq::empty(),
        artifacts: Seq::empty(),
    });
    let mut i: usize = 0;
    while i < children.len()
        invariant
            i <= children@.len(),
            ch == nodes_view(children@),
            n@.children == Some(ch),
            required_string_argument(src@, n@, "task name"@) == Ok::<Seq<char>, ErrView>(name@),
            optional_string_property(src@, n@, "description"@) == Ok::<Option<Seq<char>>, ErrView>(
                crate::recipe::opt_view(description),
            ),
            start == (TaskParts {
                dependencies: Seq::empty(),
                run: None,
                environment: Seq::empty(),
                artifacts: Seq::empty(),
            }),
            task_children(src@, name@, ch, 0, start) == task_children(
                src@,
                name@,
                ch,
                i as int,
                parts_view(dependencies@, run, environment@, artifacts@),
            ),
        decreases children@.len() - i,
    {
        let child = &children[i];
        assert(ch[i as int] == child@);
        proof {
            reveal_strlit("depends-on");
            reveal_strlit("run");
            reveal_strlit("env");
            reveal_strlit("artifact");
        }
        let ghost before = parts_view(dependencies@, run, environment@, artifacts@);
        if str_equals(child.name.as_str(), "depends-on") {
            match required_string_argument_exec(src, child, "dependency name") {
                Ok(d) => {
                    dependencies.push(DependencyName(d));
                    assert(parts_view(dependencies@, run, environment@, artifacts@) =~= TaskParts {
                        dependencies: before.dependencies.push(d@),
                        ..before
                    });
                },
                Err(e) => return Err(e),
            }
        } else if str_equals(child.name.as_str(), "run") {
            if run.is_some() {
                let msg = join3("task `", name.as_str(), "` cannot define multiple run nodes");
                return Err(node_error(src, child, msg));
            }
            match run_spec_exec(src, child, name.as_str()) {
                Ok(spec) => {
                    run = Some(spec);
                    assert(parts_view(dependencies@, run, environment@, artifacts@) =~= TaskParts {
                        run: Some(spec@),
                        ..before
                    });
                },
                Err(e) => return Err(e),
            }
        } else if str_equals(child.name.as_str(), "env") {
            match environment_exec(src, child, name.as_str()) {
                Ok(v) => {
                    let ghost view = v@;
                    environment.push(v);
                    assert(parts_view(dependencies@, run, environment@, artifacts@) =~= TaskParts {
                        environment: before.environment.push(view),
                        ..before
                    });
                },
                Err(e) => return Err(e),
            }
        } else if str_equals(child.name.as_str(), "artifact") {
            match artifact_exec(src, child, name.as_str()) {
                Ok(a) => {
                    let ghost view = a@;
                    artifacts.push(a);
                    assert(parts_view(dependencies@, run, environment@, artifacts@) =~= TaskParts {
                        artifacts: before.artifacts.push(view),
                        ..before
                    });
                },
                Err(e) => return Err(e),
            }
        } else {
            let msg = join5("task `", name.as_str(), "` contains unsupported node `", child.name.as_str(), "`");
            return Err(node_error(src, child, msg));
        }
        i = i + 1;
    }
    match run {
        None => {
            let msg = join3("task `", name.as_str(), "` is missing a run node");
            Err(node_error(src, n, msg))
        },
        Some(run) => {
            let task = Task { name: TaskName(name), description, dependencies, run, environment, artifacts };
            proof {
                assert(crate::recipe::opt_view(task.description) == match description {
                    Some(d) => Some(d@),
                    None => None::<Seq<char>>,
                });
            }
            Ok(task)
        },
    }
}

} // verus!

verus! {

/// Positions of the nodes named `name`.
fn named_node_indices(nodes: &Vec<NodeData>, name: &str) -> (idx: Vec<usize>)
    ensures
        idx@.len() == nodes_view(nodes@).filter(node_named(name@)).len(),
        forall|k: int|
            0 <= k < idx@.len() ==> (#[trigger] idx@[k]) < nodes@.len() && nodes@[idx@[k] as int]@
                == nodes_view(nodes@).filter(node_named(name@))[k],
{
    let ghost ns = nodes_view(nodes@);
    let ghost pred = node_named(name@);
    let mut idx: Vec<usize> = Vec::new();
    let mut i: usize = 0;
    proof {
        lemma_filter_take_zero(ns, pred);
    }
    while i < nodes.len()
        invariant
            i <= nodes@.len(),
            ns == nodes_view(nodes@),
            pred == node_named(name@),
            idx@.len() == ns.take(i as int).filter(pred).len(),
            forall|k: int|
                0 <= k < idx@.len() ==> (#[trigger] idx@[k]) < nodes@.len() && nodes@[idx@[k] as int]@
                    == ns.take(i as int).filter(pred)[k],
        decreases nodes@.len() - i,
    {
        proof {
            lemma_filter_take_step(ns, pred, i as int);
        }
        let ghost old_idx = idx@;
        assert(ns[i as int] == nodes@[i as int]@);
        if str_equals(nodes[i].name.as_str(), name) {
            idx.push(i);
            assert(idx@[idx@.len() - 1] == i);
        }
        assert forall|k: int| 0 <= k < idx@.len() implies (#[trigger] idx@[k]) < nodes@.len()
            && nodes@[idx@[k] as int]@ == ns.take(i + 1).filter(pred)[k] by {
            if k < old_idx.len() {
                assert(idx@[k] == old_idx[k]);
            }
        }
        i = i + 1;
    }
    assert(ns.take(nodes@.len() as int) =~= ns);
    idx
}

fn has_underscore_exec(name: &str) -> (b: bool)
    ensures
        b == has_underscore(name@),
{
    let chars = chars_of(name);
    let mut k: usize = 0;
    while k < chars.len()
        invariant
            k <= chars@.len(),
            chars@ == name@,
            forall|m: int| 0 <= m < k ==> chars@[m] != '_',
        decreases chars@.len() - k,
    {
        if chars[k] == '_' {
            return true;
        }
        k = k + 1;
    }
    false
}

/// Whether one of the first `count` tasks is named `name`.
fn names_contain_exec(tasks: &Vec<Task>, count: usize, name: &str) -> (b: bool)
    requires
        count <= tasks@.len(),
    ensures
        b == names_contain(crate::recipe::tasks_view(tasks@), count as int, name@),
{
    let ghost tv = crate::recipe::tasks_view(tasks@);
    let mut k: usize = 0;
    while k < count
        invariant
            k <= count <= tasks@.len(),
            tv == crate::recipe::tasks_view(tasks@),
            forall|m: int| 0 <= m < k ==> (#[trigger] tv[m]).name != name@,
        decreases count - k,
    {
        assert(tv[k as int] == tasks@[k as int]@);
        if str_equals(tasks[k].name.as_str(), name) {
            assert(tv[k as int].name == name@);
            return true;
        }
        k = k + 1;
    }
    false
}

fn validate_tasks_exec(
    src: &Vec<char>,
    tasks: &Vec<Task>,
    children: &Vec<NodeData>,
    idx: &Vec<usize>,
) -> (r: Result<(), RecipeError>)
    requires
        idx@.len() == task_nodes(nodes_view(children@)).len(),
        forall|k: int|
            0 <= k < idx@.len() ==> (#[trigger] idx@[k]) < children@.len() && children@[idx@[k] as int]@
                == task_nodes(nodes_view(children@))[k],
    ensures
        unit_result(r) == (match validate_names(
            src@,
            crate::recipe::tasks_view(tasks@),
            task_nodes(nodes_view(children@)),
            0,
        ) {
            Err(e) => Err(e),
            Ok(_) => validate_dependencies(
                src@,
                crate::recipe::tasks_view(tasks@),
                task_nodes(nodes_view(children@)),
                0,
            ),
        }),
{
    let ghost tv = crate::recipe::tasks_view(tasks@);
    let ghost tn = task_nodes(nodes_view(children@));
    let count: usize = if tasks.len() < idx.len() { tasks.len() } else { idx.len() };
    assert(count == pair_count(tv, tn));
    let mut i: usize = 0;
    while i < count
        invariant
            i <= count,
            count == pair_count(tv, tn),
            count <= tasks@.len(),
            count <= idx@.len(),
            tv == crate::recipe::tasks_view(tasks@),
            tn == task_nodes(nodes_view(children@)),
            idx@.len() == tn.len(),
            forall|k: int|
                0 <= k < idx@.len() ==> (#[trigger] idx@[k]) < children@.len() && children@[idx@[k] as int]@
                    == tn[k],
            validate_names(src@, tv, tn, 0) == validate_names(src@, tv, tn, i as int),
        decreases count - i,
    {
        let task = &tasks[i];
        assert(tv[i as int] == task@);
        let node = &children[idx[i]];
        if has_underscore_exec(task.name.as_str()) {
            let msg = join3(
                "task name `",
                task.name.as_str(),
                "` cannot contain `_` because `_` is reserved for wildcard task selectors",
            );
            return Err(node_error(src, node, msg));
        }
        if names_contain_exec(tasks, i, task.name.as_str()) {
            let msg = join3("duplicate task name `", task.name.as_str(), "`");
            return Err(node_error(src, node, msg));
        }
        i = i + 1;
    }
    let mut i: usize = 0;
    while i < count
        invariant
            i <= count,
            count == pair_count(tv, tn),
            count <= tasks@.len(),
            count <= idx@.len(),
            tv == crate::recipe::tasks_view(tasks@),
            tn == task_nodes(nodes_view(children@)),
            idx@.len() == tn.len(),
            forall|k: int|
                0 <= k < idx@.len() ==> (#[trigger] idx@[k]) < children@.len() && children@[idx@[k] as int]@
                    == tn[k],
            validate_names(src@, tv, tn, 0) == Ok::<(), ErrView>(()),
            validate_dependencies(src@, tv, tn, 0) == validate_dependencies(src@, tv, tn, i as int),
        decreases count - i,
    {
        let task = &tasks[i];
        assert(tv[i as int] == task@);
        let node = &children[idx[i]];
        let mut j: usize = 0;
        while j < task.dependencies.len()
            invariant
                i < count,
                count == pair_count(tv, tn),
                count <= tasks@.len(),
                tv == crate::recipe::tasks_view(tasks@),
                tn == task_nodes(nodes_view(children@)),
                validate_names(src@, tv, tn, 0) == Ok::<(), ErrView>(()),
                tv[i as int] == task@,
                tn[i as int] == node@,
                validate_dependencies(src@, tv, tn, 0) == validate_dependencies(src@, tv, tn, i as int),
                j <= task.dependencies@.len(),
                validate_dependencies_of(src@, tv, count as int, node@, task@, 0)
                    == validate_dependencies_of(src@, tv, count as int, node@, task@, j as int),
            decreases task.dependencies@.len() - j,
        {
            let dependency = &task.dependencies[j];
            assert(task@.dependencies[j as int] == dependency@);
            if !names_contain_exec(tasks, count, dependency.as_str()) {
                let msg = join5(
                    "task `",
                    task.name.as_str(),
                    "` depends on unknown task `",
                    dependency.as_str(),
                    "`",
                );
                return Err(node_error(src, node, msg));
            }
            j = j + 1;
        }
        i = i + 1;
    }
    Ok(())
}

/// Parses a recipe from its source text and the KDL document parsed from it.
pub fn parse_recipe_document(source: &str, document: &DocumentData) -> (r: Result<Recipe, RecipeError>)
    ensures
        match r {
            Ok(recipe) => recipe_from_document(source@, document@) == Ok::<RecipeView, ErrView>(recipe@),
            Err(e) => recipe_from_document(source@, document@) == Err::<RecipeView, ErrView>(e@),
        },
{
    let src = chars_of(source);
    if document.nodes.len() != 1 {
        let count = u128_to_string(document.nodes.len() as u128);
        let msg = join2("expected exactly one top-level recipe node, found ", count.as_str());
        return Err(error_at_exec(&src, document.offset, document.len, msg));
    }
    let node = &document.nodes[0];
    assert(document@.nodes[0] == node@);
    proof {
        reveal_strlit("recipe");
    }
    if !str_equals(node.name.as_str(), "recipe") {
        let msg = join3("expected node `recipe`, found `", node.name.as_str(), "`");
        return Err(node_error(&src, node, msg));
    }
    let name = match required_string_argument_exec(&src, node, "recipe name") {
        Ok(v) => v,
        Err(e) => return Err(e),
    };
    let children = match &node.children {
        None => {
            return Err(node_error(&src, node, String::from_str("recipe node must contain task definitions")));
        },
        Some(c) => c,
    };
    let ghost ch = nodes_view(children@);
    assert(node@.children == Some(ch));
    let mut config = RecipeConfig {
        live_display: LiveDisplay::LinePerTask,
        failure_mode: FailureMode::FailEarly,
        max_parallel_tasks: None,
    };
    let mut config_seen = false;
    let mut tasks: Vec<Task> = Vec::new();
    let ghost start = RecipeParts { config, config_seen, tasks: crate::recipe::tasks_view(tasks@) };
    assert(start.tasks =~= Seq::<TaskView>::empty());
    let mut i: usize = 0;
    while i < children.len()
        invariant
            i <= children@.len(),
            ch == nodes_view(children@),
            node@.children == Some(ch),
            node@ == document@.nodes[0],
            document@.nodes.len() == 1,
            node@.name == "recipe"@,
            src@ == source@,
            required_string_argument(src@, node@, "recipe name"@) == Ok::<Seq<char>, ErrView>(name@),
            start == (RecipeParts {
                config: RecipeConfig {
                    live_display: LiveDisplay::LinePerTask,
                    failure_mode: FailureMode::FailEarly,
                    max_parallel_tasks: None,
                },
                config_seen: false,
                tasks: Seq::empty(),
            }),
            recipe_children(src@, ch, 0, start) == recipe_children(
                src@,
                ch,
                i as int,
                RecipeParts { config, config_seen, tasks: crate::recipe::tasks_view(tasks@) },
            ),
        decreases children@.len() - i,
    {
        let child = &children[i];
        assert(ch[i as int] == child@);
        proof {
            reveal_strlit("config");
            reveal_strlit("task");
        }
        if str_equals(child.name.as_str(), "config") {
            if config_seen {
                return Err(node_error(&src, child, String::from_str("recipe cannot define multiple config nodes")));
            }
            match config_exec(&src, child) {
                Ok(c) => {
                    config = c;
                    config_seen = true;
                },
                Err(e) => return Err(e),
            }
        } else if str_equals(child.name.as_str(), "task") {
            match task_exec(&src, child) {
                Ok(t) => {
                    let ghost prev = crate::recipe::tasks_view(tasks@);
                    let ghost view = t@;
                    tasks.push(t);
                    assert(crate::recipe::tasks_view(tasks@) =~= prev.push(view));
                },
                Err(e) => return Err(e),
            }
        } else {
            let msg = join3("recipe contains unsupported node `", child.name.as_str(), "`");
            return Err(node_error(&src, child, msg));
        }
        i = i + 1;
    }
    let idx = named_node_indices(children, "task");
    match validate_tasks_exec(&src, &tasks, children, &idx) {
        Ok(_) => {},
        Err(e) => return Err(e),
    }
    Ok(Recipe { name, config, tasks })
}

} // verus!

verus! {

/// The text shown for a KDL syntax error: the rendered report; when the renderer failed,
/// what it wrote followed by a plain summary naming the first diagnostic and its help.
pub open spec fn kdl_failure_text(
    rendered: Seq<char>,
    finished: bool,
    first: Option<(Seq<char>, Option<Seq<char>>)>,
) -> Seq<char> {
    if finished {
        rendered
    } else {
        rendered + "Failed to parse KDL document"@ + match first {
            None => Seq::empty(),
            Some((message, help)) => "\n- "@ + message + match help {
                Some(h) => " (help: "@ + h + ")"@,
                None => Seq::empty(),
            },
        }
    }
}

/// Builds the text shown for a KDL syntax error from what the renderer wrote, whether it
/// finished, and the first diagnostic's text and help.
pub fn kdl_failure_message(rendered: String, finished: bool, first: Option<(String, Option<String>)>) -> (text:
    String)
    ensures
        text@ == kdl_failure_text(
            rendered@,
            finished,
            match first {
                Some((m, h)) => Some(
                    (
                        m@,
                        match h {
                            Some(x) => Some(x@),
                            None => None,
                        },
                    ),
                ),
                None => None,
            },
        ),
{
    if finished {
        return rendered;
    }
    let ghost start = rendered@;
    let mut text = rendered;
    text.append("Failed to parse KDL document");
    match first {
        None => {
            assert(text@ =~= start + "Failed to parse KDL document"@ + Seq::<char>::empty());
        },
        Some((message, help)) => {
            text.append("\n- ");
            text.append(message.as_str());
            match help {
                Some(h) => {
                    text.append(" (help: ");
                    text.append(h.as_str());
                    text.append(")");
                    assert(text@ =~= start + "Failed to parse KDL document"@ + ("\n- "@ + message@ + (" (help: "@
                        + h@ + ")"@)));
                },
                None => {
                    assert(text@ =~= start + "Failed to parse KDL document"@ + ("\n- "@ + message@
                        + Seq::<char>::empty()));
                },
            }
        },
    }
    text
}

/// Parses a recipe from KDL source text: the recipe of the document that the `kdl` crate
/// reads from it, or, on a KDL syntax error, the message `failed to parse recipe KDL` with
/// the rendered KDL report as its location.
pub fn parse_recipe(source: &str) -> (r: Result<Recipe, RecipeError>)
    ensures
        !crate::kdl_model::kdl_accepts(source@) ==> (r matches Err(e) && e.message@ == "failed to parse recipe KDL"@
            && e.rendered_location is Some),
        crate::kdl_model::kdl_accepts(source@) ==> match r {
            Ok(recipe) => recipe_from_document(source@, crate::kdl_model::kdl_document(source@)) == Ok::<
                RecipeView,
                ErrView,
            >(recipe@),
            Err(e) => recipe_from_document(source@, crate::kdl_model::kdl_document(source@)) == Err::<
                RecipeView,
                ErrView,
            >(e@),
        },
{
    match crate::kdl_model::kdl_parse(source) {
        Err(error) => {
            let first = crate::kdl_model::kdl_first_diagnostic(&error);
            let (rendered, finished) = match first {
                Some(diagnostic) => crate::kdl_model::render_diagnostic_report(diagnostic),
                None => crate::kdl_model::render_error_report(&error),
            };
            let first_text = match first {
                Some(diagnostic) => Some(crate::kdl_model::kdl_diagnostic_text(diagnostic)),
                None => None,
            };
            let text = kdl_failure_message(rendered, finished, first_text);
            Err(RecipeError::with_rendered_location(String::from_str("failed to parse recipe KDL"), text))
        },
        Ok(data) => parse_recipe_document(source, &data),
    }
}

/// Fills in the platform's default parallelism when the recipe sets no limit.
pub fn with_default_parallelism(recipe: Recipe, parallelism: usize) -> (r: Recipe)
    ensures
        r@.name == recipe@.name,
        r@.tasks == recipe@.tasks,
        r.config.live_display == recipe.config.live_display,
        r.config.failure_mode == recipe.config.failure_mode,
        r.config.max_parallel_tasks == (match recipe.config.max_parallel_tasks {
            Some(k) => Some(k),
            None => Some(parallelism),
        }),
{
    let mut recipe = recipe;
    if recipe.config.max_parallel_tasks.is_none() {
        recipe.config.max_parallel_tasks = Some(parallelism);
    }
    recipe
}

} // verus!

verus! {

proof fn lemma_recipe_children_one_task_per_task_node(s: Seq<char>, ch: Seq<NodeView>, i: int, acc: RecipeParts)
    requires
        0 <= i <= ch.len(),
        acc.tasks.len() == ch.take(i).filter(node_named("task"@)).len(),
        forall|m: int|
            0 <= m < acc.tasks.len() ==> task_spec(s, ch.take(i).filter(node_named("task"@))[m]) == Ok::<
                TaskView,
                ErrView,
            >(#[trigger] acc.tasks[m]),
    ensures
        recipe_children(s, ch, i, acc) matches Ok(r) ==> {
            &&& r.tasks.len() == task_nodes(ch).len()
            &&& forall|m: int|
                0 <= m < r.tasks.len() ==> task_spec(s, task_nodes(ch)[m]) == Ok::<TaskView, ErrView>(
                    #[trigger] r.tasks[m],
                )
        },
    decreases ch.len() - i,
{
    if i < ch.len() {
        lemma_filter_take_step(ch, node_named("task"@), i);
        let c = ch[i];
        if c.name == "config"@ {
            reveal_strlit("config");
            reveal_strlit("task");
            assert("config"@[0] != "task"@[0]);
            assert(!node_named("task"@)(c));
            assert(ch.take(i + 1).filter(node_named("task"@)) == ch.take(i).filter(node_named("task"@)));
            if !acc.config_seen {
                match recipe_config(s, c) {
                    Err(_) => {},
                    Ok(config) => {
                        lemma_recipe_children_one_task_per_task_node(
                            s,
                            ch,
                            i + 1,
                            RecipeParts { config, config_seen: true, ..acc },
                        );
                    },
                }
            }
        } else if c.name == "task"@ {
            match task_spec(s, c) {
                Err(_) => {},
                Ok(t) => {
                    let next = RecipeParts { tasks: acc.tasks.push(t), ..acc };
                    assert(node_named("task"@)(c));
                    let before = ch.take(i).filter(node_named("task"@));
                    assert forall|m: int| 0 <= m < next.tasks.len() implies task_spec(
                        s,
                        ch.take(i + 1).filter(node_named("task"@))[m],
                    ) == Ok::<TaskView, ErrView>(#[trigger] next.tasks[m]) by {
                        if m < acc.tasks.len() {
                            assert(ch.take(i + 1).filter(node_named("task"@))[m] == before[m]);
                            assert(next.tasks[m] == acc.tasks[m]);
                        } else {
                            assert(ch.take(i + 1).filter(node_named("task"@))[m] == c);
                        }
                    }
                    lemma_recipe_children_one_task_per_task_node(s, ch, i + 1, next);
                },
            }
        }
    } else {
        assert(ch.take(i) =~= ch);
    }
}

proof fn lemma_validated_names(s: Seq<char>, tasks: Seq<TaskView>, nodes: Seq<NodeView>, i: int)
    requires
        0 <= i,
        validate_names(s, tasks, nodes, i) is Ok,
    ensures
        forall|k: int|
            i <= k < pair_count(tasks, nodes) ==> !has_underscore(#[trigger] tasks[k].name) && !names_contain(
                tasks,
                k,
                tasks[k].name,
            ),
    decreases pair_count(tasks, nodes) - i,
{
    if i < pair_count(tasks, nodes) {
        lemma_validated_names(s, tasks, nodes, i + 1);
    }
}

proof fn lemma_validated_dependencies_of(
    s: Seq<char>,
    tasks: Seq<TaskView>,
    count: int,
    node: NodeView,
    t: TaskView,
    j: int,
)
    requires
        0 <= j,
        validate_dependencies_of(s, tasks, count, node, t, j) is Ok,
    ensures
        forall|d: int| j <= d < t.dependencies.len() ==> names_contain(tasks, count, #[trigger] t.dependencies[d]),
    decreases t.dependencies.len() - j,
{
    if j < t.dependencies.len() {
        lemma_validated_dependencies_of(s, tasks, count, node, t, j + 1);
    }
}

proof fn lemma_validated_dependencies(s: Seq<char>, tasks: Seq<TaskView>, nodes: Seq<NodeView>, i: int)
    requires
        0 <= i,
        validate_dependencies(s, tasks, nodes, i) is Ok,
    ensures
        forall|k: int, d: int|
            i <= k < pair_count(tasks, nodes) && 0 <= d < tasks[k].dependencies.len() ==> names_contain(
                tasks,
                pair_count(tasks, nodes),
                #[trigger] tasks[k].dependencies[d],
            ),
    decreases pair_count(tasks, nodes) - i,
{
    if i < pair_count(tasks, nodes) {
        lemma_validated_dependencies_of(s, tasks, pair_count(tasks, nodes), nodes[i], tasks[i], 0);
        lemma_validated_dependencies(s, tasks, nodes, i + 1);
    }
}

/// Validation law: a recipe that parses has task names that are distinct and hold no `_`,
/// and every prerequisite names one of its tasks.
pub proof fn lemma_parsed_recipe_is_valid(s: Seq<char>, d: DocumentView)
    ensures
        recipe_from_document(s, d) matches Ok(r) ==> {
            &&& forall|a: int, b: int|
                0 <= a < b < r.tasks.len() ==> (#[trigger] r.tasks[a]).name != (#[trigger] r.tasks[b]).name
            &&& forall|k: int| 0 <= k < r.tasks.len() ==> !has_underscore(#[trigger] r.tasks[k].name)
            &&& forall|k: int, j: int|
                0 <= k < r.tasks.len() && 0 <= j < r.tasks[k].dependencies.len() ==> names_contain(
                    r.tasks,
                    r.tasks.len() as int,
                    #[trigger] r.tasks[k].dependencies[j],
                )
        },
{
    if d.nodes.len() == 1 {
        let n = d.nodes[0];
        if n.name == "recipe"@ {
            match required_string_argument(s, n, "recipe name"@) {
                Err(_) => {},
                Ok(name) => match n.children {
                    None => {},
                    Some(ch) => {
                        let acc = RecipeParts {
                            config: RecipeConfig {
                                live_display: LiveDisplay::LinePerTask,
                                failure_mode: FailureMode::FailEarly,
                                max_parallel_tasks: None,
                            },
                            config_seen: false,
                            tasks: Seq::empty(),
                        };
                        lemma_filter_take_zero(ch, node_named("task"@));
                        lemma_recipe_children_one_task_per_task_node(s, ch, 0, acc);
                        match recipe_children(s, ch, 0, acc) {
                            Err(_) => {},
                            Ok(parts) => {
                                let tasks = parts.tasks;
                                let nodes = task_nodes(ch);
                                if validate_names(s, tasks, nodes, 0) is Ok {
                                    lemma_validated_names(s, tasks, nodes, 0);
                                    if validate_dependencies(s, tasks, nodes, 0) is Ok {
                                        lemma_validated_dependencies(s, tasks, nodes, 0);
                                        assert(pair_count(tasks, nodes) == tasks.len());
                                        assert forall|a: int, b: int| 0 <= a < b < tasks.len() implies (
                                        #[trigger] tasks[a]).name != (#[trigger] tasks[b]).name by {
                                            assert(!names_contain(tasks, b, tasks[b].name));
                                            if tasks[a].name == tasks[b].name {
                                                assert(names_contain(tasks, b, tasks[b].name));
                                            }
                                        }
                                    }
                                }
                            },
                        }
                    },
                },
            }
        }
    }
}

/// Document law: a document without exactly one top-level node is refused with the count
/// of its top-level nodes; a recipe read from a document comes from its single `recipe`
/// node, is named by that node's string argument, and has one task per `task` child, in
/// the children's order, each read from its node.
pub proof fn lemma_recipe_reads_its_document(s: Seq<char>, d: DocumentView)
    ensures
        d.nodes.len() != 1 ==> recipe_from_document(s, d) == Err::<RecipeView, ErrView>(
            error_at(s, d.offset, d.len, "expected exactly one top-level recipe node, found "@ + decimal(d.nodes.len())),
        ),
        recipe_from_document(s, d) matches Ok(r) ==> {
            &&& d.nodes.len() == 1
            &&& d.nodes[0].name == "recipe"@
            &&& required_string_argument(s, d.nodes[0], "recipe name"@) == Ok::<Seq<char>, ErrView>(r.name)
            &&& d.nodes[0].children matches Some(ch) && {
                &&& r.tasks.len() == task_nodes(ch).len()
                &&& forall|m: int|
                    0 <= m < r.tasks.len() ==> task_spec(s, task_nodes(ch)[m]) == Ok::<TaskView, ErrView>(
                        #[trigger] r.tasks[m],
                    )
            }
        },
{
    if d.nodes.len() == 1 {
        let n = d.nodes[0];
        if n.name == "recipe"@ {
            match n.children {
                None => {},
                Some(ch) => {
                    let acc = RecipeParts {
                        config: RecipeConfig {
                            live_display: LiveDisplay::LinePerTask,
                            failure_mode: FailureMode::FailEarly,
                            max_parallel_tasks: None,
                        },
                        config_seen: false,
                        tasks: Seq::empty(),
                    };
                    lemma_filter_take_zero(ch, node_named("task"@));
                    lemma_recipe_children_one_task_per_task_node(s, ch, 0, acc);
                },
            }
        }
    }
}

} // verus!

verus! {

/// Whether a message reads like the top-level node count error: `ex` first and `e` at
/// its tenth character, as in `expected exactly`.
pub open spec fn count_like(message: Seq<char>) -> bool {
    message.len() >= 10 && message[0] == 'e' && message[1] == 'x' && message[9] == 'e'
}

/// Whether a result is not an error that reads like the count error.
pub open spec fn no_count_error<T>(r: Result<T, ErrView>) -> bool {
    r matches Err(e) ==> !count_like(e.0)
}

/// Whether a description cannot start a count-like message.
pub open spec fn plain_desc(desc: Seq<char>) -> bool {
    desc.len() >= 2 && !(desc[0] == 'e' && desc[1] == 'x')
}

// Each reading step below refuses only with messages unlike the count error: they start
// with `config`, `duplicate`, `missing`, `property`, `recipe`, `task`, a plain description,
// or `expected node`.
proof fn lemma_string_value_no_count_error(s: Seq<char>, e: EntryView, desc: Seq<char>)
    requires
        plain_desc(desc),
    ensures
        no_count_error(string_value(s, e, desc)),
{
    reveal_strlit(" must be a string value");
}

proof fn lemma_string_argument_no_count_error(s: Seq<char>, n: NodeView, desc: Seq<char>)
    requires
        plain_desc(desc),
    ensures
        no_count_error(required_string_argument(s, n, desc)),
{
    reveal_strlit("missing ");
    reveal_strlit(" must be a single string argument");
    let p = matching(n.entries, None);
    if p.len() == 1 {
        lemma_string_value_no_count_error(s, p[0], desc);
    }
}

proof fn lemma_string_property_no_count_error(s: Seq<char>, n: NodeView, prop: Seq<char>)
    requires
        plain_desc(prop),
    ensures
        no_count_error(optional_string_property(s, n, prop)),
{
    reveal_strlit("property `");
    reveal_strlit("` must not be repeated");
    let m = matching(n.entries, Some(prop));
    if m.len() == 1 {
        lemma_string_value_no_count_error(s, m[0], prop);
    }
}

proof fn lemma_usize_property_no_count_error(s: Seq<char>, n: NodeView, prop: Seq<char>)
    ensures
        no_count_error(optional_usize_property(s, n, prop)),
{
    reveal_strlit("property `");
    reveal_strlit("` must not be repeated");
    reveal_strlit("` must be a non-negative integer value");
}

proof fn lemma_config_entries_no_count_error(s: Seq<char>, n: NodeView, i: int)
    ensures
        no_count_error(config_entries_ok(s, n, i)),
    decreases n.entries.len() - i,
{
    reveal_strlit("config nodes must use named properties");
    reveal_strlit("config property `");
    reveal_strlit("` is not supported");
    if 0 <= i < n.entries.len() {
        lemma_config_entries_no_count_error(s, n, i + 1);
    }
}

proof fn lemma_recipe_config_no_count_error(s: Seq<char>, n: NodeView)
    ensures
        no_count_error(recipe_config(s, n)),
{
    reveal_strlit("config node does not support child nodes");
    reveal_strlit("live-display");
    reveal_strlit("failure-mode");
    reveal_strlit("max-parallel-tasks");
    reveal_strlit("config max-parallel-tasks must be at least 1");
    reveal_strlit("config live-display must be one of `single-line` or `line-per-task`, found `");
    reveal_strlit("config failure-mode must be one of `fail-early` or `fail-late`, found `");
    lemma_config_entries_no_count_error(s, n, 0);
    lemma_string_property_no_count_error(s, n, "live-display"@);
    lemma_string_property_no_count_error(s, n, "failure-mode"@);
    lemma_usize_property_no_count_error(s, n, "max-parallel-tasks"@);
}

proof fn lemma_args_entries_no_count_error(s: Seq<char>, es: Seq<EntryView>, tn: Seq<char>, j: int, acc: Seq<Seq<char>>)
    ensures
        no_count_error(args_entries(s, es, tn, j, acc)),
    decreases es.len() - j,
{
    reveal_strlit("task `");
    reveal_strlit("container argument");
    if 0 <= j < es.len() {
        lemma_string_value_no_count_error(s, es[j], "container argument"@);
        match string_value(s, es[j], "container argument"@) {
            Err(_) => {},
            Ok(v) => lemma_args_entries_no_count_error(s, es, tn, j + 1, acc.push(v)),
        }
    }
}

proof fn lemma_args_children_no_count_error(s: Seq<char>, ch: Seq<NodeView>, tn: Seq<char>, i: int, acc: Seq<Seq<char>>)
    ensures
        no_count_error(args_children(s, ch, tn, i, acc)),
    decreases ch.len() - i,
{
    reveal_strlit("task `");
    if 0 <= i < ch.len() {
        lemma_args_entries_no_count_error(s, ch[i].entries, tn, 0, acc);
        match args_entries(s, ch[i].entries, tn, 0, acc) {
            Err(_) => {},
            Ok(next) => lemma_args_children_no_count_error(s, ch, tn, i + 1, next),
        }
    }
}

proof fn lemma_run_spec_no_count_error(s: Seq<char>, n: NodeView, tn: Seq<char>)
    ensures
        no_count_error(run_spec(s, n, tn)),
{
    reveal_strlit("shell");
    reveal_strlit("script");
    reveal_strlit("container");
    reveal_strlit("task `");
    lemma_string_property_no_count_error(s, n, "shell"@);
    lemma_string_property_no_count_error(s, n, "script"@);
    lemma_string_property_no_count_error(s, n, "container"@);
    match n.children {
        None => {},
        Some(ch) => lemma_args_children_no_count_error(s, ch, tn, 0, Seq::empty()),
    }
}

proof fn lemma_environment_no_count_error(s: Seq<char>, n: NodeView, tn: Seq<char>)
    ensures
        no_count_error(environment_spec(s, n, tn)),
{
    reveal_strlit("task `");
    reveal_strlit("environment value");
    if n.entries.len() == 1 {
        lemma_string_value_no_count_error(s, n.entries[0], "environment value"@);
    }
}

proof fn lemma_artifact_no_count_error(s: Seq<char>, n: NodeView, tn: Seq<char>)
    ensures
        no_count_error(artifact_spec(s, n, tn)),
{
    reveal_strlit("artifact name");
    reveal_strlit("path");
    reveal_strlit("task `");
    lemma_string_argument_no_count_error(s, n, "artifact name"@);
    lemma_string_property_no_count_error(s, n, "path"@);
}

proof fn lemma_task_children_no_count_error(s: Seq<char>, tn: Seq<char>, ch: Seq<NodeView>, i: int, acc: TaskParts)
    ensures
        no_count_error(task_children(s, tn, ch, i, acc)),
    decreases ch.len() - i,
{
    reveal_strlit("dependency name");
    reveal_strlit("task `");
    if 0 <= i < ch.len() {
        let c = ch[i];
        lemma_string_argument_no_count_error(s, c, "dependency name"@);
        lemma_run_spec_no_count_error(s, c, tn);
        lemma_environment_no_count_error(s, c, tn);
        lemma_artifact_no_count_error(s, c, tn);
        if c.name == "depends-on"@ {
            match required_string_argument(s, c, "dependency name"@) {
                Err(_) => {},
                Ok(d) => lemma_task_children_no_count_error(s, tn, ch, i + 1, TaskParts { dependencies: acc.dependencies.push(d), ..acc }),
            }
        } else if c.name == "run"@ {
            match run_spec(s, c, tn) {
                Err(_) => {},
                Ok(r) => lemma_task_children_no_count_error(s, tn, ch, i + 1, TaskParts { run: Some(r), ..acc }),
            }
        } else if c.name == "env"@ {
            match environment_spec(s, c, tn) {
                Err(_) => {},
                Ok(v) => lemma_task_children_no_count_error(s, tn, ch, i + 1, TaskParts { environment: acc.environment.push(v), ..acc }),
            }
        } else if c.name == "artifact"@ {
            match artifact_spec(s, c, tn) {
                Err(_) => {},
                Ok(a) => lemma_task_children_no_count_error(s, tn, ch, i + 1, TaskParts { artifacts: acc.artifacts.push(a), ..acc }),
            }
        }
    }
}

proof fn lemma_task_spec_no_count_error(s: Seq<char>, n: NodeView)
    ensures
        no_count_error(task_spec(s, n)),
{
    reveal_strlit("task name");
    reveal_strlit("description");
    reveal_strlit("task `");
    lemma_string_argument_no_count_error(s, n, "task name"@);
    lemma_string_property_no_count_error(s, n, "description"@);
    match required_string_argument(s, n, "task name"@) {
        Err(_) => {},
        Ok(name) => match n.children {
            None => {},
            Some(ch) => lemma_task_children_no_count_error(
                s,
                name,
                ch,
                0,
                TaskParts { dependencies: Seq::empty(), run: None, environment: Seq::empty(), artifacts: Seq::empty() },
            ),
        },
    }
}

proof fn lemma_recipe_children_no_count_error(s: Seq<char>, ch: Seq<NodeView>, i: int, acc: RecipeParts)
    ensures
        no_count_error(recipe_children(s, ch, i, acc)),
    decreases ch.len() - i,
{
    reveal_strlit("recipe cannot define multiple config nodes");
    reveal_strlit("recipe contains unsupported node `");
    if 0 <= i < ch.len() {
        let c = ch[i];
        lemma_recipe_config_no_count_error(s, c);
        lemma_task_spec_no_count_error(s, c);
        if c.name == "config"@ {
            match recipe_config(s, c) {
                Err(_) => {},
                Ok(config) => lemma_recipe_children_no_count_error(s, ch, i + 1, RecipeParts { config, config_seen: true, ..acc }),
            }
        } else if c.name == "task"@ {
            match task_spec(s, c) {
                Err(_) => {},
                Ok(t) => lemma_recipe_children_no_count_error(s, ch, i + 1, RecipeParts { tasks: acc.tasks.push(t), ..acc }),
            }
        }
    }
}

proof fn lemma_validate_names_no_count_error(s: Seq<char>, tasks: Seq<TaskView>, nodes: Seq<NodeView>, i: int)
    ensures
        no_count_error(validate_names(s, tasks, nodes, i)),
    decreases pair_count(tasks, nodes) - i,
{
    reveal_strlit("task name `");
    reveal_strlit("duplicate task name `");
    if 0 <= i < pair_count(tasks, nodes) {
        lemma_validate_names_no_count_error(s, tasks, nodes, i + 1);
    }
}

proof fn lemma_dependencies_of_no_count_error(s: Seq<char>, tasks: Seq<TaskView>, count: int, node: NodeView, t: TaskView, j: int)
    ensures
        no_count_error(validate_dependencies_of(s, tasks, count, node, t, j)),
    decreases t.dependencies.len() - j,
{
    reveal_strlit("task `");
    if 0 <= j < t.dependencies.len() {
        lemma_dependencies_of_no_count_error(s, tasks, count, node, t, j + 1);
    }
}

proof fn lemma_validate_dependencies_no_count_error(s: Seq<char>, tasks: Seq<TaskView>, nodes: Seq<NodeView>, i: int)
    ensures
        no_count_error(validate_dependencies(s, tasks, nodes, i)),
    decreases pair_count(tasks, nodes) - i,
{
    if 0 <= i < pair_count(tasks, nodes) {
        lemma_dependencies_of_no_count_error(s, tasks, pair_count(tasks, nodes), nodes[i], tasks[i], 0);
        lemma_validate_dependencies_no_count_error(s, tasks, nodes, i + 1);
    }
}

/// Document law, count: a document is refused with an error that reads like the count of
/// its top-level nodes exactly when it does not hold exactly one top-level node; every
/// error of a document with one node says something else.
pub proof fn lemma_count_error_exactly_without_one_node(s: Seq<char>, d: DocumentView)
    ensures
        (recipe_from_document(s, d) matches Err(e) && count_like(e.0)) <==> d.nodes.len() != 1,
{
    reveal_strlit("expected node `recipe`, found `");
    reveal_strlit("recipe name");
    reveal_strlit("recipe node must contain task definitions");
    reveal_strlit("expected exactly one top-level recipe node, found ");
    if d.nodes.len() == 1 {
        let n = d.nodes[0];
        lemma_string_argument_no_count_error(s, n, "recipe name"@);
        match n.children {
            None => {},
            Some(ch) => {
                let acc = RecipeParts {
                    config: RecipeConfig {
                        live_display: LiveDisplay::LinePerTask,
                        failure_mode: FailureMode::FailEarly,
                        max_parallel_tasks: None,
                    },
                    config_seen: false,
                    tasks: Seq::empty(),
                };
                lemma_recipe_children_no_count_error(s, ch, 0, acc);
                match recipe_children(s, ch, 0, acc) {
                    Err(_) => {},
                    Ok(parts) => {
                        lemma_validate_names_no_count_error(s, parts.tasks, task_nodes(ch), 0);
                        lemma_validate_dependencies_no_count_error(s, parts.tasks, task_nodes(ch), 0);
                    },
                }
            },
        }
    } else {
        let m = "expected exactly one top-level recipe node, found "@ + decimal(d.nodes.len());
        assert(m[0] == 'e' && m[1] == 'x' && m[9] == 'e');
    }
}

} // verus!

verus! {

proof fn lemma_recipe_children_prefix(s: Seq<char>, ch: Seq<NodeView>, i: int, m: int, acc: RecipeParts)
    requires
        0 <= i <= m <= ch.len(),
    ensures
        recipe_children(s, ch, i, acc) == match recipe_children(s, ch.take(m), i, acc) {
            Err(e) => Err(e),
            Ok(mid) => recipe_children(s, ch, m, mid),
        },
    decreases m - i,
{
    if i < m {
        let c = ch[i];
        assert(ch.take(m)[i] == c);
        if c.name == "config"@ {
            if !acc.config_seen {
                match recipe_config(s, c) {
                    Err(_) => {},
                    Ok(config) => lemma_recipe_children_prefix(s, ch, i + 1, m, RecipeParts { config, config_seen: true, ..acc }),
                }
            }
        } else if c.name == "task"@ {
            match task_spec(s, c) {
                Err(_) => {},
                Ok(t) => lemma_recipe_children_prefix(s, ch, i + 1, m, RecipeParts { tasks: acc.tasks.push(t), ..acc }),
            }
        }
    }
}

proof fn lemma_config_seen_after_config_child(s: Seq<char>, ch: Seq<NodeView>, i: int, m: int, acc: RecipeParts)
    requires
        0 <= i <= m <= ch.len(),
        recipe_children(s, ch.take(m), i, acc) is Ok,
    ensures
        recipe_children(s, ch.take(m), i, acc)->Ok_0.config_seen <==> (acc.config_seen || exists|k: int|
            i <= k < m && (#[trigger] ch[k]).name == "config"@),
    decreases m - i,
{
    if i < m {
        let c = ch[i];
        assert(ch.take(m)[i] == c);
        if c.name == "config"@ {
            match recipe_config(s, c) {
                Err(_) => {},
                Ok(config) => lemma_config_seen_after_config_child(s, ch, i + 1, m, RecipeParts { config, config_seen: true, ..acc }),
            }
        } else if c.name == "task"@ {
            match task_spec(s, c) {
                Err(_) => {},
                Ok(t) => {
                    let next = RecipeParts { tasks: acc.tasks.push(t), ..acc };
                    lemma_config_seen_after_config_child(s, ch, i + 1, m, next);
                    if exists|k: int| i <= k < m && (#[trigger] ch[k]).name == "config"@ {
                        let k = choose|k: int| i <= k < m && (#[trigger] ch[k]).name == "config"@;
                        assert(k != i);
                    }
                },
            }
        }
    }
}

/// Children law: the recipe's children are read in order and the first refused child
/// decides the error; once the children before child `i` are read, a `config` child after
/// an earlier `config` child is refused as repeated, and a child that is neither `config`
/// nor `task` is refused as unsupported.
pub proof fn lemma_recipe_refuses_the_first_bad_child(s: Seq<char>, ch: Seq<NodeView>, i: int, acc: RecipeParts)
    requires
        0 <= i < ch.len(),
        !acc.config_seen,
        recipe_children(s, ch.take(i), 0, acc) is Ok,
    ensures
        ch[i].name == "config"@ && (exists|k: int| 0 <= k < i && (#[trigger] ch[k]).name == "config"@)
            ==> recipe_children(s, ch, 0, acc) == Err::<RecipeParts, ErrView>(
            node_err(s, ch[i], "recipe cannot define multiple config nodes"@),
        ),
        ch[i].name != "config"@ && ch[i].name != "task"@ ==> recipe_children(s, ch, 0, acc) == Err::<
            RecipeParts,
            ErrView,
        >(node_err(s, ch[i], "recipe contains unsupported node `"@ + ch[i].name + "`"@)),
{
    lemma_recipe_children_prefix(s, ch, 0, i, acc);
    lemma_config_seen_after_config_child(s, ch, 0, i, acc);
}

} // verus!
