//! Recipe data model: tasks, run specifications and recipe-wide configuration.

use crate::file_path::FilePath;
use vstd::prelude::*;
use vstd::string::*;

verus! {

/// Returns the crate name of the recipe component.
pub fn crate_name() -> (name: &'static str)
    ensures
        name@ == "nao-recipe"@,
{
    "nao-recipe"
}

/// Controls how the scheduler reacts after a task failure.
#[derive(Debug, Clone, Copy, PartialEq, Eq, Structural)]
pub enum FailureMode {
    /// Stop launching new tasks after the first failure.
    FailEarly,
    /// Continue launching tasks that do not depend on failed work.
    FailLate,
}

impl FailureMode {
    /// Parses a recipe config value.
    pub fn parse(value: &str) -> (mode: Option<FailureMode>)
        ensures
            mode == (if value@ == "fail-early"@ {
                Some(FailureMode::FailEarly)
            } else if value@ == "fail-late"@ {
                Some(FailureMode::FailLate)
            } else {
                None
            }),
    {
        proof {
            reveal_strlit("fail-early");
            reveal_strlit("fail-late");
        }
        if crate::text::str_equals(value, "fail-early") {
            Some(FailureMode::FailEarly)
        } else if crate::text::str_equals(value, "fail-late") {
            Some(FailureMode::FailLate)
        } else {
            None
        }
    }

    /// Returns the config string representation.
    pub fn as_str(self) -> (s: String)
        ensures
            s@ == (match self {
                FailureMode::FailEarly => "fail-early"@,
                FailureMode::FailLate => "fail-late"@,
            }),
    {
        match self {
            FailureMode::FailEarly => String::from_str("fail-early"),
            FailureMode::FailLate => String::from_str("fail-late"),
        }
    }
}

/// Controls how live task execution is rendered in interactive terminals.
#[derive(Debug, Clone, Copy, PartialEq, Eq, Structural)]
pub enum LiveDisplay {
    /// Show one aggregate status line for the whole run.
    SingleLine,
    /// Show one continuously updated line per planned task.
    LinePerTask,
}

impl LiveDisplay {
    /// Parses a config string into a live display mode.
    pub fn parse(value: &str) -> (mode: Option<LiveDisplay>)
        ensures
            mode == (if value@ == "single-line"@ {
                Some(LiveDisplay::SingleLine)
            } else if value@ == "line-per-task"@ {
                Some(LiveDisplay::LinePerTask)
            } else {
                None
            }),
    {
        proof {
            reveal_strlit("single-line");
            reveal_strlit("line-per-task");
        }
        if crate::text::str_equals(value, "single-line") {
            Some(LiveDisplay::SingleLine)
        } else if crate::text::str_equals(value, "line-per-task") {
            Some(LiveDisplay::LinePerTask)
        } else {
            None
        }
    }

    /// Returns the config string for this live display mode.
    pub fn as_str(&self) -> (s: &'static str)
        ensures
            s@ == (match *self {
                LiveDisplay::SingleLine => "single-line"@,
                LiveDisplay::LinePerTask => "line-per-task"@,
            }),
    {
        match self {
            LiveDisplay::SingleLine => "single-line",
            LiveDisplay::LinePerTask => "line-per-task",
        }
    }
}

/// Stores recipe-wide configuration settings.
#[derive(Debug, Clone, Copy, PartialEq, Eq)]
pub struct RecipeConfig {
    /// Chooses the interactive live display mode for task execution.
    pub live_display: LiveDisplay,
    /// Chooses whether failures stop scheduling immediately or allow unrelated work to continue.
    pub failure_mode: FailureMode,
    /// Overrides how many task processes may run at the same time.
    pub max_parallel_tasks: Option<usize>,
}

impl Default for RecipeConfig {
    fn default() -> (config: Self)
        ensures
            config.live_display == LiveDisplay::LinePerTask,
            config.failure_mode == FailureMode::FailEarly,
            config.max_parallel_tasks is None,
    {
        RecipeConfig {
            live_display: LiveDisplay::LinePerTask,
            failure_mode: FailureMode::FailEarly,
            max_parallel_tasks: None,
        }
    }
}

/// Names a task in a recipe.
#[derive(Debug, PartialEq, Eq, PartialOrd, Ord, Hash)]
pub struct TaskName(pub String);

impl TaskName {
    /// Returns the task name as a string.
    pub fn as_str(&self) -> (s: &str)
        ensures
            s@ == self.0@,
    {
        self.0.as_str()
    }
}

/// Names a prerequisite task.
#[derive(Debug, PartialEq, Eq, PartialOrd, Ord, Hash)]
pub struct DependencyName(pub String);

impl DependencyName {
    /// Returns the dependency name as a string.
    pub fn as_str(&self) -> (s: &str)
        ensures
            s@ == self.0@,
    {
        self.0.as_str()
    }
}

/// Defines a single environment variable for task execution.
#[derive(Debug, PartialEq, Eq)]
pub struct EnvironmentSpec {
    /// Environment variable name.
    pub name: String,
    /// Environment variable value.
    pub value: String,
}

/// Describes an artifact produced by a task.
#[derive(Debug, PartialEq, Eq)]
pub struct ArtifactSpec {
    /// Logical artifact name.
    pub name: String,
    /// Output path for the artifact.
    pub path: FilePath,
}

/// Describes container-based execution details.
#[derive(Debug, PartialEq, Eq)]
pub struct ContainerRunSpec {
    /// Container image reference.
    pub image: String,
    /// Positional container arguments.
    pub args: Vec<String>,
}

/// Describes Docker Compose-based execution details.
#[derive(Debug, PartialEq, Eq)]
pub struct ComposeRunSpec {
    /// Directory that holds `docker-compose.yaml`.
    pub directory: FilePath,
    /// Compose service name to run.
    pub service: String,
    /// Positional service arguments.
    pub args: Vec<String>,
}

/// Describes how a task should execute.
#[derive(Debug, PartialEq, Eq)]
pub enum RunSpec {
    /// Executes a shell command.
    Shell(String),
    /// Executes a script path.
    Script(FilePath),
    /// Executes a container image.
    Container(ContainerRunSpec),
    /// Executes a Docker Compose service.
    Compose(ComposeRunSpec),
}

/// Represents a task in a recipe.
#[derive(Debug, PartialEq, Eq)]
pub struct Task {
    /// Task name.
    pub name: TaskName,
    /// Optional human-readable description.
    pub description: Option<String>,
    /// Named prerequisite tasks.
    pub dependencies: Vec<DependencyName>,
    /// Task execution configuration.
    pub run: RunSpec,
    /// Environment variables for the task.
    pub environment: Vec<EnvironmentSpec>,
    /// Declared task artifacts.
    pub artifacts: Vec<ArtifactSpec>,
}


/// Represents a parsed recipe file.
#[derive(Debug, PartialEq, Eq)]
pub struct Recipe {
    /// Recipe name.
    pub name: String,
    /// Recipe-wide configuration.
    pub config: RecipeConfig,
    /// Tasks contained in the recipe.
    pub tasks: Vec<Task>,
}

/// Describes a recipe parse or validation failure.
#[derive(Debug, PartialEq, Eq)]
pub struct RecipeError {
    /// Human-readable message.
    pub message: String,
    /// Rendering of the offending source location, when known.
    pub rendered_location: Option<String>,
}

impl RecipeError {
    /// Creates a new recipe error with a human-readable message.
    pub fn new(message: String) -> (error: RecipeError)
        ensures
            error.message@ == message@,
            error.rendered_location is None,
    {
        RecipeError { message, rendered_location: None }
    }

    /// Creates a new recipe error with an attached source-location rendering.
    pub fn with_rendered_location(message: String, rendered_location: String) -> (error:
        RecipeError)
        ensures
            error.message@ == message@,
            error.rendered_location matches Some(l) && l@ == rendered_location@,
    {
        RecipeError { message, rendered_location: Some(rendered_location) }
    }

    /// Returns the error message.
    pub fn message(&self) -> (s: &str)
        ensures
            s@ == self.message@,
    {
        self.message.as_str()
    }

    /// The displayed form: the message, then the rendered location on its own line.
    pub open spec fn display_view(&self) -> Seq<char> {
        match self.rendered_location {
            Some(l) => self.message@ + "\n"@ + l@,
            None => self.message@,
        }
    }

    /// Renders the error as it is displayed to users.
    pub fn to_display_string(&self) -> (s: String)
        ensures
            s@ == self.display_view(),
    {
        let mut s = self.message.clone();
        match &self.rendered_location {
            Some(l) => {
                s.append("\n");
                s.append(l.as_str());
            },
            None => {},
        }
        s
    }
}



/// View of a string list.
pub open spec fn strings_view(v: Seq<String>) -> Seq<Seq<char>> {
    v.map_values(|s: String| s@)
}

/// Abstract container run: image and arguments.
#[verifier::ext_equal]
pub struct ContainerView {
    pub image: Seq<char>,
    pub args: Seq<Seq<char>>,
}

/// Abstract run specification.
#[verifier::ext_equal]
pub enum RunView {
    Shell(Seq<char>),
    Script(Seq<char>),
    Container(ContainerView),
    Compose(ComposeView),
}

/// Abstract compose run: directory, service and arguments.
#[verifier::ext_equal]
pub struct ComposeView {
    pub directory: Seq<char>,
    pub service: Seq<char>,
    pub args: Seq<Seq<char>>,
}

/// Abstract task: every field as plain sequences.
#[verifier::ext_equal]
pub struct TaskView {
    pub name: Seq<char>,
    pub description: Option<Seq<char>>,
    pub dependencies: Seq<Seq<char>>,
    pub run: RunView,
    pub environment: Seq<(Seq<char>, Seq<char>)>,
    pub artifacts: Seq<(Seq<char>, Seq<char>)>,
}

/// Abstract recipe.
#[verifier::ext_equal]
pub struct RecipeView {
    pub name: Seq<char>,
    pub config: RecipeConfig,
    pub tasks: Seq<TaskView>,
}

impl View for TaskName {
    type V = Seq<char>;

    open spec fn view(&self) -> Seq<char> {
        self.0@
    }
}

impl View for DependencyName {
    type V = Seq<char>;

    open spec fn view(&self) -> Seq<char> {
        self.0@
    }
}

impl View for EnvironmentSpec {
    type V = (Seq<char>, Seq<char>);

    open spec fn view(&self) -> (Seq<char>, Seq<char>) {
        (self.name@, self.value@)
    }
}

impl View for ArtifactSpec {
    type V = (Seq<char>, Seq<char>);

    open spec fn view(&self) -> (Seq<char>, Seq<char>) {
        (self.name@, self.path@)
    }
}

impl View for ContainerRunSpec {
    type V = ContainerView;

    open spec fn view(&self) -> ContainerView {
        ContainerView { image: self.image@, args: strings_view(self.args@) }
    }
}

impl View for ComposeRunSpec {
    type V = ComposeView;

    open spec fn view(&self) -> ComposeView {
        ComposeView { directory: self.directory@, service: self.service@, args: strings_view(self.args@) }
    }
}

impl View for RunSpec {
    type V = RunView;

    open spec fn view(&self) -> RunView {
        match self {
            RunSpec::Shell(c) => RunView::Shell(c@),
            RunSpec::Script(p) => RunView::Script(p@),
            RunSpec::Container(c) => RunView::Container(c@),
            RunSpec::Compose(c) => RunView::Compose(c@),
        }
    }
}

/// View of an optional string.
pub open spec fn opt_view(o: Option<String>) -> Option<Seq<char>> {
    match o {
        Some(s) => Some(s@),
        None => None,
    }
}

impl View for Task {
    type V = TaskView;

    open spec fn view(&self) -> TaskView {
        TaskView {
            name: self.name@,
            description: opt_view(self.description),
            dependencies: self.dependencies@.map_values(|d: DependencyName| d@),
            run: self.run@,
            environment: self.environment@.map_values(|e: EnvironmentSpec| e@),
            artifacts: self.artifacts@.map_values(|a: ArtifactSpec| a@),
        }
    }
}

/// View of a task list.
pub open spec fn tasks_view(v: Seq<Task>) -> Seq<TaskView> {
    v.map_values(|t: Task| t@)
}

impl View for Recipe {
    type V = RecipeView;

    open spec fn view(&self) -> RecipeView {
        RecipeView { name: self.name@, config: self.config, tasks: tasks_view(self.tasks@) }
    }
}

/// Clones a vector of strings, keeping every element.
pub fn clone_strings(v: &Vec<String>) -> (r: Vec<String>)
    ensures
        r@ == v@,
{
    let r = v.clone();
    assert(r@ =~= v@);
    r
}

/// Clones an optional string, keeping its text.
pub(crate) fn clone_opt(o: &Option<String>) -> (r: Option<String>)
    ensures
        opt_view(r) == opt_view(*o),
{
    match o {
        Some(s) => Some(s.clone()),
        None => None,
    }
}

impl Clone for TaskName {
    fn clone(&self) -> (r: Self)
        ensures
            r@ == self@,
    {
        TaskName(self.0.clone())
    }
}

impl Clone for DependencyName {
    fn clone(&self) -> (r: Self)
        ensures
            r@ == self@,
    {
        DependencyName(self.0.clone())
    }
}

impl Clone for EnvironmentSpec {
    fn clone(&self) -> (r: Self)
        ensures
            r@ == self@,
    {
        EnvironmentSpec { name: self.name.clone(), value: self.value.clone() }
    }
}

impl Clone for ArtifactSpec {
    fn clone(&self) -> (r: Self)
        ensures
            r@ == self@,
    {
        ArtifactSpec { name: self.name.clone(), path: self.path.clone() }
    }
}

impl Clone for ContainerRunSpec {
    fn clone(&self) -> (r: Self)
        ensures
            r@ == self@,
    {
        ContainerRunSpec { image: self.image.clone(), args: clone_strings(&self.args) }
    }
}

impl Clone for ComposeRunSpec {
    fn clone(&self) -> (r: Self)
        ensures
            r@ == self@,
    {
        ComposeRunSpec {
            directory: self.directory.clone(),
            service: self.service.clone(),
            args: clone_strings(&self.args),
        }
    }
}

impl Clone for RunSpec {
    fn clone(&self) -> (r: Self)
        ensures
            r@ == self@,
    {
        match self {
            RunSpec::Shell(c) => RunSpec::Shell(c.clone()),
            RunSpec::Script(p) => RunSpec::Script(p.clone()),
            RunSpec::Container(c) => RunSpec::Container(c.clone()),
            RunSpec::Compose(c) => RunSpec::Compose(c.clone()),
        }
    }
}

impl Clone for Task {
    fn clone(&self) -> (r: Self)
        ensures
            r@ == self@,
    {
        let description = match &self.description {
            Some(d) => Some(d.clone()),
            None => None,
        };
        let dependencies = self.dependencies.clone();
        assert(dependencies@.map_values(|d: DependencyName| d@) =~= self.dependencies@.map_values(
            |d: DependencyName| d@,
        ));
        let environment = self.environment.clone();
        assert(environment@.map_values(|e: EnvironmentSpec| e@) =~= self.environment@.map_values(
            |e: EnvironmentSpec| e@,
        ));
        let artifacts = self.artifacts.clone();
        assert(artifacts@.map_values(|a: ArtifactSpec| a@) =~= self.artifacts@.map_values(
            |a: ArtifactSpec| a@,
        ));
        Task {
            name: self.name.clone(),
            description,
            dependencies,
            run: self.run.clone(),
            environment,
            artifacts,
        }
    }
}

/// Clones a task list, keeping every task's view.
pub fn clone_tasks(v: &Vec<Task>) -> (r: Vec<Task>)
    ensures
        tasks_view(r@) == tasks_view(v@),
{
    let r = v.clone();
    assert(tasks_view(r@) =~= tasks_view(v@));
    r
}

impl Clone for Recipe {
    fn clone(&self) -> (r: Self)
        ensures
            r@ == self@,
    {
        Recipe { name: self.name.clone(), config: self.config, tasks: clone_tasks(&self.tasks) }
    }
}

impl View for RecipeError {
    type V = (Seq<char>, Option<Seq<char>>);

    open spec fn view(&self) -> (Seq<char>, Option<Seq<char>>) {
        (self.message@, opt_view(self.rendered_location))
    }
}

impl Clone for RecipeError {
    fn clone(&self) -> (r: Self)
        ensures
            r == *self,
    {
        let rendered_location = match &self.rendered_location {
            Some(l) => Some(l.clone()),
            None => None,
        };
        RecipeError { message: self.message.clone(), rendered_location }
    }
}

} // verus!
