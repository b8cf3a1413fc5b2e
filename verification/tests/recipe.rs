use nao::recipe::{crate_name, FailureMode, LiveDisplay, RecipeConfig, RunSpec};
use nao::recipe_parse::{kdl_failure_message, parse_recipe, with_default_parallelism};

fn default_config() -> RecipeConfig {
    RecipeConfig::default()
}

#[test]
fn returns_crate_name() {
    assert_eq!(crate_name(), "nao-recipe");
}

#[test]
fn parses_documented_recipe_shape() {
    let recipe = parse_recipe(
        r#"
            recipe "default" {
              task "build" description="Build the workspace" {
                run shell="cargo build --workspace"
                artifact "workspace-target" path="target"
              }

              task "lint" {
                run shell="cargo clippy --workspace --all-targets --all-features -- -D warnings"
              }

              task "test" {
                depends-on "build"
                run shell="cargo nextest run --workspace --all-targets --all-features"
              }

              task "verify-docs" {
                run script="./scripts/check-docs.sh"
                env RUST_LOG="warn"
              }

              task "image" {
                depends-on "build"
                run container="ghcr.io/example/packager:latest" {
                  args "--input" "target" "--output" "dist/image.tar"
                }
                artifact "container-image" path="dist/image.tar"
              }
            }
            "#,
    )
    .unwrap();

    assert_eq!(recipe.name, "default");
    assert_eq!(recipe.config, default_config());
    assert_eq!(recipe.tasks.len(), 5);
    assert_eq!(recipe.tasks[0].description, Some("Build the workspace".to_owned()));
    assert_eq!(recipe.tasks[2].dependencies[0].as_str(), "build");
    assert_eq!(recipe.tasks[3].environment[0].name, "RUST_LOG");

    let RunSpec::Container(container) = &recipe.tasks[4].run else {
        panic!("expected container run");
    };
    assert_eq!(container.args.len(), 4);
    assert_eq!(recipe.tasks[4].artifacts[0].path.as_str(), "dist/image.tar");
}

#[test]
fn rejects_duplicate_task_names() {
    let error = parse_recipe(
        r#"
            recipe "default" {
              task "build" {
                run shell="cargo build"
              }

              task "build" {
                run shell="cargo test"
              }
            }
            "#,
    )
    .unwrap_err();

    assert!(error.to_display_string().contains("duplicate task name `build`"));
}

#[test]
fn rejects_task_names_with_underscores() {
    let error = parse_recipe(
        r#"
            recipe "default" {
              task "unit_tests" {
                run shell="cargo test"
              }
            }
            "#,
    )
    .unwrap_err();

    assert!(error.to_display_string().contains(
        "task name `unit_tests` cannot contain `_` because `_` is reserved for wildcard task selectors"
    ));
}

#[test]
fn defaults_recipe_live_display_to_line_per_task() {
    let recipe = parse_recipe(
        r#"
            recipe "default" {
              task "build" {
                run shell="cargo build"
              }
            }
            "#,
    )
    .unwrap();

    assert_eq!(recipe.config.live_display, LiveDisplay::LinePerTask);
}

#[test]
fn parses_recipe_live_display_config() {
    let recipe = parse_recipe(
        r#"
            recipe "default" {
              config live-display="single-line"

              task "build" {
                run shell="cargo build"
              }
            }
            "#,
    )
    .unwrap();

    assert_eq!(recipe.config.live_display, LiveDisplay::SingleLine);
}

#[test]
fn defaults_recipe_max_parallel_tasks_to_one() {
    let recipe = parse_recipe(
        r#"
            recipe "default" {
              task "build" {
                run shell="cargo build"
              }
            }
            "#,
    )
    .unwrap();

    assert_eq!(recipe.config.max_parallel_tasks, None);
}

#[test]
fn parses_recipe_max_parallel_tasks_config() {
    let recipe = parse_recipe(
        r#"
            recipe "default" {
              config max-parallel-tasks=4

              task "build" {
                run shell="cargo build"
              }
            }
            "#,
    )
    .unwrap();

    assert_eq!(recipe.config.max_parallel_tasks, Some(4));
}

#[test]
fn parses_recipe_failure_mode_config() {
    let recipe = parse_recipe(
        r#"
            recipe "default" {
              config failure-mode="fail-late"
              task "test" {
                run script="./scripts/test.sh"
              }
            }
            "#,
    )
    .unwrap();

    assert_eq!(recipe.config.failure_mode, FailureMode::FailLate);
}

#[test]
fn rejects_zero_recipe_max_parallel_tasks_config() {
    let error = parse_recipe(
        r#"
            recipe "default" {
              config max-parallel-tasks=0

              task "build" {
                run shell="cargo build"
              }
            }
            "#,
    )
    .unwrap_err();

    assert!(error.to_display_string().contains("config max-parallel-tasks must be at least 1"));
}

#[test]
fn rejects_invalid_recipe_max_parallel_tasks_config_type() {
    let error = parse_recipe(
        r#"
            recipe "default" {
              config max-parallel-tasks="many"

              task "build" {
                run shell="cargo build"
              }
            }
            "#,
    )
    .unwrap_err();

    assert!(error
        .to_display_string()
        .contains("property `max-parallel-tasks` must be a non-negative integer value"));
}

#[test]
fn rejects_invalid_recipe_live_display_config() {
    let error = parse_recipe(
        r#"
            recipe "default" {
              config live-display="sideways"

              task "build" {
                run shell="cargo build"
              }
            }
            "#,
    )
    .unwrap_err();

    assert!(error.to_display_string().contains(
        "config live-display must be one of `single-line` or `line-per-task`, found `sideways`"
    ));
}

#[test]
fn rejects_unknown_dependencies() {
    let error = parse_recipe(
        r#"
            recipe "default" {
              task "test" {
                depends-on "build"
                run shell="cargo test"
              }
            }
            "#,
    )
    .unwrap_err();

    assert!(error.to_display_string().contains("task `test` depends on unknown task `build`"));
}

#[test]
fn rejects_invalid_run_configuration() {
    let error = parse_recipe(
        r#"
            recipe "default" {
              task "build" {
                run shell="cargo build" script="./build.sh"
              }
            }
            "#,
    )
    .unwrap_err();

    let rendered = error.to_display_string();

    assert!(rendered.contains(
        "task `build` run node must define exactly one of `shell`, `script`, or `container`"
    ));
    assert!(rendered.contains("--> line 4, column 17"));
    assert!(rendered.contains("4 |                 run shell=\"cargo build\" script=\"./build.sh\""));
}

#[test]
fn rejects_invalid_env_configuration() {
    let error = parse_recipe(
        r#"
            recipe "default" {
              task "build" {
                run shell="cargo build"
                env "RUST_LOG" "warn"
              }
            }
            "#,
    )
    .unwrap_err();

    assert!(error
        .to_display_string()
        .contains("task `build` env nodes must use named properties like `env KEY=\"value\"`"));
}

#[test]
fn adds_context_for_invalid_kdl() {
    let error = parse_recipe("recipe \"default\" {").unwrap_err();
    let rendered = error.to_display_string();

    assert!(rendered.contains("failed to parse recipe KDL"));
    assert!(rendered.contains("No closing '}' for child block"));
    assert!(rendered.contains("recipe \"default\" {"));
    assert!(rendered.contains("not closed"));
}

#[test]
fn rejects_several_top_level_nodes_and_other_node_kinds() {
    let error = parse_recipe("recipe \"a\" {\n}\nrecipe \"b\" {\n}\n").unwrap_err();
    assert_eq!(error.message(), "expected exactly one top-level recipe node, found 2");
    let error = parse_recipe("workflow \"a\" {\n}\n").unwrap_err();
    assert_eq!(error.message(), "expected node `recipe`, found `workflow`");
    let error = parse_recipe("recipe \"a\" {\n  step \"x\"\n}\n").unwrap_err();
    assert_eq!(error.message(), "recipe contains unsupported node `step`");
    let error = parse_recipe("recipe \"a\" {\n  task \"x\" {\n    depends-on \"y\"\n  }\n}\n").unwrap_err();
    assert_eq!(error.message(), "task `x` is missing a run node");
}

#[test]
fn points_at_the_offending_node() {
    let error = parse_recipe("recipe \"a\" {\n  task \"x\" {\n    run shell=\"a\"\n    run shell=\"b\"\n  }\n}\n")
        .unwrap_err();
    assert_eq!(error.message(), "task `x` cannot define multiple run nodes");
    assert_eq!(
        error.rendered_location.as_deref(),
        Some("  --> line 4, column 5\n4 |     run shell=\"b\"\n  |     ^^^^^^^^^^^^^")
    );
}

#[test]
fn renders_plain_kdl_failures_when_no_report_is_available() {
    assert_eq!(
        kdl_failure_message(String::new(), false, Some(("bad token".to_owned(), Some("quote it".to_owned())))),
        "Failed to parse KDL document\n- bad token (help: quote it)"
    );
    assert_eq!(kdl_failure_message(String::new(), false, None), "Failed to parse KDL document");
    assert_eq!(
        kdl_failure_message("partial ".to_owned(), false, Some(("bad".to_owned(), None))),
        "partial Failed to parse KDL document\n- bad"
    );
    assert_eq!(kdl_failure_message("report".to_owned(), true, None), "report");
}

#[test]
fn a_kdl_syntax_error_renders_only_its_first_diagnostic() {
    let error = parse_recipe("recipe \"a\" {\n  task \"b\" {\n    run shell=\"x\n").unwrap_err();
    assert_eq!(error.message(), "failed to parse recipe KDL");
    let report = error.rendered_location.unwrap();
    assert!(!report.is_empty());
    assert!(report.matches('×').count() <= 1);
}

#[test]
fn loads_default_parallelism_when_recipe_sets_none() {
    let recipe = parse_recipe(
        r#"
            recipe "default" {
              task "build" description="Build the workspace" {
                run shell="cargo build"
              }
            }
            "#,
    )
    .unwrap();
    let recipe = with_default_parallelism(recipe, 8);
    assert_eq!(recipe.name, "default");
    assert_eq!(recipe.tasks.len(), 1);
    assert_eq!(recipe.config.max_parallel_tasks, Some(8));
}
