use nao::cli::{
    init_refusal, is_default_action_request, normalize_commit_date, normalize_short_commit, render_help,
    render_version, resolve_default_recipe_path, should_run_tui, validate_ci_request, validate_init_request,
    validate_restart_request, validate_tui_request, validate_version_request, Nao, VersionMetadata,
};
use nao::cli::{
    cli_command, gitignore_needed, primary_recipe_gitignore_content, primary_recipe_gitignore_path, recipe_directory_of,
    starter_recipe, CliCommand,
};
use nao::file_path::FilePath;

fn flags() -> Nao {
    Nao {
        init: false,
        list: false,
        tui: false,
        ci: false,
        version: false,
        restart: false,
        config: None,
        task_name: Vec::new(),
    }
}

#[test]
fn help_text_documents_cli_and_recipe_format() {
    let help = render_help(
        r#"ARGS:
    <task_name>...
      Task names or wildcard selectors to execute.

OPTIONS:
    --init
      Create a starter `nao.kdl` in the current directory.

    --list
      List task names from the selected recipe file.

    --tui
      Open the terminal UI.

    --ci
      Run with CI-friendly logging and a final task-log summary.

    --version
      Print build-time version metadata.

    --config <config>
      Load a recipe file other than `nao.kdl`.

    -h, --help
      Prints help information.
"#,
    );

    assert!(help.contains("OPTIONS:"));
    assert!(help.contains("Recipe file overview"));
    assert!(help.contains("Task outcomes"));
    assert!(help.contains("nao --ci build test"));
    assert!(help.contains("run shell=\"<command>\""));
    assert!(help.contains("artifact \"<name>\" path=\"<path>\""));
    assert!(help.contains("nao --init"));
    assert!(help.contains("Only lines that begin exactly with `Task outcome: ` are captured."));
}

#[test]
fn help_text_indents_the_starter_recipe_and_trims_argument_help() {
    let help = render_help("ARGS:\n   \n");
    assert!(help.starts_with("nao 0.1.0-unknown-unknown\n\nARGS:\n\nDefault behavior"));
    assert!(help.contains("Minimal example\n  recipe \"default\" {\n    task \"build\""));
    assert!(help.contains("      printf 'Task outcome: 3 sample tests passed\\n'\n"));
}

#[test]
fn renders_version_without_dev_suffix_for_clean_worktree() {
    let rendered = render_version(&VersionMetadata {
        last_commit_date: "2026-03-21".to_owned(),
        short_commit_id: "abc1234".to_owned(),
        has_uncommitted_changes: false,
    });

    assert_eq!(rendered, format!("{}-2026-03-21-abc1234", "0.1.0"));
}

#[test]
fn renders_version_with_dev_suffix_for_dirty_worktree() {
    let rendered = render_version(&VersionMetadata {
        last_commit_date: "2026-03-21".to_owned(),
        short_commit_id: "abc1234".to_owned(),
        has_uncommitted_changes: true,
    });

    assert_eq!(rendered, format!("{}-2026-03-21-abc1234-dev", "0.1.0"));
}

#[test]
fn normalizes_shadow_commit_date_to_calendar_date() {
    assert_eq!(normalize_commit_date("2026-03-21 14:22:11 +00:00"), "2026-03-21");
}

#[test]
fn falls_back_to_unknown_when_shadow_commit_date_is_missing() {
    assert_eq!(normalize_commit_date(""), "unknown");
}

#[test]
fn falls_back_to_unknown_when_shadow_short_commit_is_missing() {
    assert_eq!(normalize_short_commit(""), "unknown");
}

#[test]
fn keeps_short_commit_dates_and_trims_commit_ids() {
    assert_eq!(normalize_commit_date("  2026-03 "), "2026-03");
    assert_eq!(normalize_short_commit("  abc1234\n"), "abc1234");
}

#[test]
fn rejects_list_with_tui() {
    let mut f = flags();
    f.tui = true;
    f.list = true;
    let error = validate_tui_request(&f).unwrap_err();
    assert!(error.contains("--tui cannot be combined with --list"));
}

#[test]
fn rejects_task_names_with_tui() {
    let mut f = flags();
    f.tui = true;
    f.task_name = vec!["build".to_owned()];
    assert_eq!(validate_tui_request(&f).unwrap_err(), "--tui cannot be combined with task names");
}

#[test]
fn rejects_ci_with_tui() {
    let mut f = flags();
    f.tui = true;
    f.ci = true;
    assert_eq!(validate_ci_request(&f).unwrap_err(), "--ci cannot be combined with --tui");
    f.tui = false;
    assert!(validate_ci_request(&f).is_ok());
}

#[test]
fn restart_and_version_and_init_reject_other_flags_in_order() {
    let mut f = flags();
    f.restart = true;
    f.config = Some("x.kdl".to_owned());
    f.task_name = vec!["build".to_owned()];
    assert_eq!(validate_restart_request(&f).unwrap_err(), "--restart cannot be combined with --config");
    let mut f = flags();
    f.version = true;
    f.restart = true;
    f.list = true;
    assert_eq!(validate_version_request(&f).unwrap_err(), "--version cannot be combined with --restart");
    let mut f = flags();
    f.init = true;
    f.ci = true;
    assert_eq!(validate_init_request(&f).unwrap_err(), "--init cannot be combined with --ci");
    assert!(validate_init_request(&flags()).is_ok());
}

#[test]
fn default_action_opens_tui_only_in_interactive_terminals() {
    let f = flags();
    assert!(is_default_action_request(&f));
    assert!(should_run_tui(&f, true));
    assert!(!should_run_tui(&f, false));
    let mut ci = flags();
    ci.ci = true;
    ci.tui = true;
    assert!(!should_run_tui(&ci, true));
}

#[test]
fn prefers_primary_recipe_path_when_present() {
    assert_eq!(resolve_default_recipe_path(true, true).as_str(), ".nao/nao.kdl");
}

#[test]
fn falls_back_to_legacy_recipe_path_when_primary_is_missing() {
    assert_eq!(resolve_default_recipe_path(false, true).as_str(), "nao.kdl");
}

#[test]
fn defaults_to_primary_recipe_path_when_no_recipe_exists() {
    assert_eq!(resolve_default_recipe_path(false, false).as_str(), ".nao/nao.kdl");
}

#[test]
fn init_refuses_existing_recipes() {
    let primary = FilePath::from_str(".nao/nao.kdl");
    assert_eq!(init_refusal(&primary, true, false), Some(".nao/nao.kdl already exists".to_owned()));
    assert_eq!(init_refusal(&primary, false, true), Some("nao.kdl already exists".to_owned()));
    assert_eq!(init_refusal(&primary, false, false), None);
}

#[test]
fn dispatches_command_lines_in_order_of_precedence() {
    let mut version = flags();
    version.version = true;
    assert_eq!(cli_command(&version, false), Ok(CliCommand::ShowVersion));
    version.init = true;
    assert_eq!(cli_command(&version, false).unwrap_err(), "--version cannot be combined with --init");
    let mut init = flags();
    init.init = true;
    assert_eq!(cli_command(&init, true), Ok(CliCommand::InitRecipe));
    let mut restart = flags();
    restart.restart = true;
    assert_eq!(cli_command(&restart, true), Ok(CliCommand::TouchRestartMarker));
    assert_eq!(cli_command(&flags(), false), Ok(CliCommand::DefaultHelp));
    assert_eq!(cli_command(&flags(), true), Ok(CliCommand::OpenTui));
    let mut ci_tui = flags();
    ci_tui.ci = true;
    ci_tui.tui = true;
    assert_eq!(cli_command(&ci_tui, true).unwrap_err(), "--ci cannot be combined with --tui");
    let mut tui_tasks = flags();
    tui_tasks.tui = true;
    tui_tasks.task_name = vec!["build".to_owned()];
    assert_eq!(cli_command(&tui_tasks, true).unwrap_err(), "--tui cannot be combined with task names");
    let mut run = flags();
    run.task_name = vec!["test".to_owned()];
    assert_eq!(cli_command(&run, true), Ok(CliCommand::Execute));
    let mut list = flags();
    list.list = true;
    assert_eq!(cli_command(&list, false), Ok(CliCommand::Execute));
}


#[test]
fn rejects_tui_with_ci() {
    let mut f = flags();
    f.tui = true;
    f.ci = true;
    let error = validate_ci_request(&f).unwrap_err();
    assert!(error.contains("--ci cannot be combined with --tui"));
}

#[test]
fn rejects_task_names_with_restart() {
    let mut f = flags();
    f.restart = true;
    f.task_name = vec!["build".to_owned()];
    let error = validate_restart_request(&f).unwrap_err();
    assert!(error.contains("--restart cannot be combined with task names"));
}

#[test]
fn rejects_config_with_restart() {
    let mut f = flags();
    f.restart = true;
    f.config = Some("custom.kdl".to_owned());
    let error = validate_restart_request(&f).unwrap_err();
    assert!(error.contains("--restart cannot be combined with --config"));
}

#[test]
fn rejects_init_with_version() {
    let mut f = flags();
    f.version = true;
    f.init = true;
    let error = validate_version_request(&f).unwrap_err();
    assert!(error.contains("--version cannot be combined with --init"));
}

#[test]
fn rejects_restart_with_version() {
    let mut f = flags();
    f.version = true;
    f.restart = true;
    let error = validate_version_request(&f).unwrap_err();
    assert!(error.contains("--version cannot be combined with --restart"));
}

#[test]
fn rejects_config_with_version() {
    let mut f = flags();
    f.version = true;
    f.config = Some("custom.kdl".to_owned());
    let error = validate_version_request(&f).unwrap_err();
    assert!(error.contains("--version cannot be combined with --config"));
}

#[test]
fn rejects_task_names_with_version() {
    let mut f = flags();
    f.version = true;
    f.task_name = vec!["build".to_owned()];
    let error = validate_version_request(&f).unwrap_err();
    assert!(error.contains("--version cannot be combined with task names"));
}

#[test]
fn rejects_list_with_init() {
    let mut f = flags();
    f.init = true;
    f.list = true;
    let error = validate_init_request(&f).unwrap_err();
    assert!(error.contains("--init cannot be combined with --list"));
}

#[test]
fn rejects_restart_with_init() {
    let mut f = flags();
    f.init = true;
    f.restart = true;
    let error = validate_init_request(&f).unwrap_err();
    assert!(error.contains("--init cannot be combined with --restart"));
}

#[test]
fn rejects_config_with_init() {
    let mut f = flags();
    f.init = true;
    f.config = Some("custom.kdl".to_owned());
    let error = validate_init_request(&f).unwrap_err();
    assert!(error.contains("--init cannot be combined with --config"));
}

#[test]
fn rejects_task_names_with_init() {
    let mut f = flags();
    f.init = true;
    f.task_name = vec!["build".to_owned()];
    let error = validate_init_request(&f).unwrap_err();
    assert!(error.contains("--init cannot be combined with task names"));
}

#[test]
fn defaults_to_tui_when_no_action_is_given() {
    let f = flags();
    assert!(is_default_action_request(&f));
    assert!(should_run_tui(&f, true));
}

#[test]
fn does_not_default_to_tui_when_no_action_is_given_in_non_interactive_mode() {
    let f = flags();
    assert!(is_default_action_request(&f));
    assert!(!should_run_tui(&f, false));
}

#[test]
fn does_not_default_to_tui_when_listing_tasks() {
    let mut f = flags();
    f.list = true;
    assert!(!should_run_tui(&f, true));
}

#[test]
fn does_not_default_to_tui_when_tasks_are_requested() {
    let mut f = flags();
    f.task_name = vec!["build".to_owned()];
    assert!(!should_run_tui(&f, true));
}

#[test]
fn does_not_default_to_tui_when_init_is_requested() {
    let mut f = flags();
    f.init = true;
    assert!(!should_run_tui(&f, true));
}

#[test]
fn does_not_default_to_tui_when_version_is_requested() {
    let mut f = flags();
    f.version = true;
    assert!(!should_run_tui(&f, true));
}

#[test]
fn does_not_default_to_tui_when_ci_is_requested() {
    let mut f = flags();
    f.ci = true;
    assert!(!should_run_tui(&f, true));
}

#[test]
fn init_writes_starter_recipe_when_missing() {
    let path = FilePath::from_str(".nao/nao.kdl");
    assert_eq!(init_refusal(&path, false, false), None);
    assert_eq!(recipe_directory_of(&path).as_str(), ".nao");
    assert!(gitignore_needed(&path, false));
    assert_eq!(primary_recipe_gitignore_path().as_str(), ".nao/.gitignore");
    assert_eq!(primary_recipe_gitignore_content(), "*\n!.gitignore\n!nao.kdl\n");
    assert!(starter_recipe().starts_with("recipe \"default\" {\n  task \"build\""));
    assert!(starter_recipe().contains("    depends-on \"build\"\n"));
}

#[test]
fn init_keeps_existing_recipe_file() {
    let path = FilePath::from_str(".nao/nao.kdl");
    let error = init_refusal(&path, true, false).unwrap();
    assert!(error.contains(".nao/nao.kdl already exists"));
}

#[test]
fn init_refuses_to_create_primary_recipe_when_legacy_recipe_exists() {
    let path = FilePath::from_str(".nao/nao.kdl");
    let error = init_refusal(&path, false, true).unwrap();
    assert!(error.contains("nao.kdl already exists"));
}
