use influo::config::{ApiConfiguration, ApiSetupError, Configuration, HttpApiConfiguration};
use influo::logger::{LogLevel, Logger};
use influo::log_render::{
    clock_text, decimal_text, default_log_template, elapsed_seconds, log_file_path, resolve_template,
    two_digit_text,
};
use influo::pipeline::{find_stage, Condition, HashMapWithOriginalOrder, Log, Pipeline, Stage};
use influo::pipeline_manager::{first_runnable, PipelineAction};
use influo::procedure::{AutoRestartPolicy, Procedure, RestartPolicyError};
use influo::procedure_manager::{child_outcome, next_procedure_action, ChildEvent, ProcedureAction, ProcedureError};
use influo::system_cmd::{
    clone_command, command_invocation, head_from_captures, invocation_from_words, list_heads_command,
    parse_remote_heads, pull_command, repository_name, workspace_paths, workspace_step, WorkspaceStep,
};
use influo::updater::{head_changed, short_hash};
use influo::project::Branch;

fn proc_with(template: Option<&str>, policy: AutoRestartPolicy) -> Procedure {
    Procedure {
        name: None,
        commands: vec!["x".to_string()],
        condition: Condition::Automatic,
        auto_restart: policy,
        log_template: template.map(|t| t.to_string()),
        persistent: false,
    }
}

fn log_with(template: Option<&str>, file_path: Option<&str>) -> Log {
    Log {
        template: template.map(|t| t.to_string()),
        console: Some(true),
        save_to_file: None,
        file_path: file_path.map(|p| p.to_string()),
        in_memory: None,
    }
}

#[test]
fn logger_filters_by_level() {
    let mut logger = Logger::new(LogLevel::Warn);
    assert_eq!(logger.render("boom", LogLevel::Error), Some("[ERROR] boom".to_string()));
    assert_eq!(logger.render("careful", LogLevel::Warn), Some("[WARN] careful".to_string()));
    assert_eq!(logger.render("chatty", LogLevel::Info), None);
    logger.set_log_level(LogLevel::Debug);
    assert_eq!(logger.level(), LogLevel::Debug);
    assert_eq!(logger.render("chatty", LogLevel::Debug), Some("[DEBUG] chatty".to_string()));
    assert_eq!(LogLevel::Info.rank(), 2);
}

#[test]
fn short_hash_takes_five_characters() {
    assert_eq!(short_hash(&"deadbeef0".to_string()), "deadb");
    assert_eq!(short_hash(&"abc".to_string()), "abc");
}

#[test]
fn clock_formats_hours_minutes_seconds() {
    assert_eq!(clock_text(0), "00:00:00");
    assert_eq!(clock_text(3725), "01:02:05");
    assert_eq!(clock_text(360000), "100:00:00");
    assert_eq!(two_digit_text(7), "07");
    assert_eq!(decimal_text(1234), "1234");
    assert_eq!(elapsed_seconds(10, 70), 60);
    assert_eq!(elapsed_seconds(70, 10), 0);
}

#[test]
fn template_resolution_order() {
    let none = proc_with(None, AutoRestartPolicy::Never);
    let own = proc_with(Some("own {message}"), AutoRestartPolicy::Never);
    assert_eq!(resolve_template(&own, &Some(log_with(Some("pipe"), None))), "own {message}");
    assert_eq!(resolve_template(&none, &Some(log_with(Some("pipe"), None))), "pipe");
    assert_eq!(resolve_template(&none, &Some(log_with(None, None))), default_log_template());
    assert_eq!(resolve_template(&none, &None), "[{pipeline_name}] [{pipeline_stage}] {message}");
}

#[test]
fn log_file_location() {
    let default = "/var/log/influo/x".to_string();
    let with_default = log_file_path(&log_with(None, None), &default, "p1", "main", "deadb", "unit", "20240102");
    assert_eq!(with_default, "/var/log/influo/x/p1/main/deadb_unit_20240102.log");
    let with_own = log_file_path(&log_with(None, Some("/logs")), &default, "p1", "main", "deadb", "p1", "20240102");
    assert_eq!(with_own, "/logs/p1/main/deadb_p1_20240102.log");
}

#[test]
fn restart_policy_from_configuration_forms() {
    assert!(matches!(AutoRestartPolicy::from_flag(true), AutoRestartPolicy::Always));
    assert!(matches!(AutoRestartPolicy::from_flag(false), AutoRestartPolicy::Never));
    assert!(matches!(
        AutoRestartPolicy::from_code_lists(Some(vec![1, 2]), None),
        Ok(AutoRestartPolicy::InclusionCodes(c)) if c == vec![1, 2]
    ));
    assert!(matches!(
        AutoRestartPolicy::from_code_lists(None, Some(vec![3])),
        Ok(AutoRestartPolicy::ExclusionCodes(c)) if c == vec![3]
    ));
    assert!(matches!(
        AutoRestartPolicy::from_code_lists(Some(vec![1]), Some(vec![2])),
        Err(RestartPolicyError::BothLists)
    ));
    assert!(matches!(AutoRestartPolicy::from_code_lists(None, None), Err(RestartPolicyError::MissingCondition)));
}

#[test]
fn restart_decisions() {
    let excl = AutoRestartPolicy::ExclusionCodes(vec![2]);
    assert!(excl.should_restart(1));
    assert!(!excl.should_restart(2));
    let incl = AutoRestartPolicy::InclusionCodes(vec![2]);
    assert!(!incl.should_restart(1));
    assert!(incl.should_restart(2));
    assert!(AutoRestartPolicy::Always.should_restart(0));
    assert!(!AutoRestartPolicy::Never.should_restart(9));
}

#[test]
fn procedure_error_events() {
    let pr = proc_with(None, AutoRestartPolicy::Always);
    assert_eq!(
        next_procedure_action(&pr, 0, ChildEvent::SpawnFailed),
        ProcedureAction::Fail(ProcedureError::SpawnFailed)
    );
    assert_eq!(
        next_procedure_action(&pr, 0, ChildEvent::Exited { code: None }),
        ProcedureAction::Fail(ProcedureError::ChildEndMissingCloseCode)
    );
}

#[test]
fn child_outcome_defaults_code_to_one() {
    assert_eq!(child_outcome(None), ChildEvent::Exited { code: Some(1) });
    assert_eq!(child_outcome(Some(Some(0))), ChildEvent::Exited { code: Some(0) });
    assert_eq!(child_outcome(Some(None)), ChildEvent::Exited { code: Some(1) });
    assert_eq!(child_outcome(Some(Some(3))), ChildEvent::Exited { code: Some(3) });
}

#[test]
fn http_port_needs_both_sections() {
    let mut c = Configuration {
        update_interval: 30,
        log_level: LogLevel::Info,
        default_deploy_path: "/srv".to_string(),
        default_log_path: "/var/log".to_string(),
        api: None,
        projects: vec![],
    };
    assert_eq!(c.http_api_port(), Err(ApiSetupError::MissingApiConfiguration));
    c.api = Some(ApiConfiguration { http: None });
    assert_eq!(c.http_api_port(), Err(ApiSetupError::MissingHttpConfiguration));
    c.api = Some(ApiConfiguration { http: Some(HttpApiConfiguration { port: 8080 }) });
    assert_eq!(c.http_api_port(), Ok(8080));
}

#[test]
fn git_command_lines() {
    assert_eq!(list_heads_command("https://h/o/r.git"), "git ls-remote --heads https://h/o/r.git");
    assert_eq!(
        clone_command("https://h/o/r.git", "main"),
        "git clone --single-branch --branch main https://h/o/r.git main"
    );
    assert_eq!(pull_command("dev"), "git pull origin dev");
    let (pipeline_dir, working_dir) = workspace_paths("/srv", "r", "p1", "dev");
    assert_eq!(pipeline_dir, "/srv/r/p1");
    assert_eq!(working_dir, "/srv/r/p1/dev");
}

#[test]
fn command_line_splitting() {
    let (program, args) = command_invocation("cargo build --release 'a b'", false).unwrap();
    assert_eq!(program, "cargo");
    assert_eq!(args, vec!["build".to_string(), "--release".to_string(), "a b".to_string()]);
    assert!(command_invocation("echo 'unterminated", false).is_none());
    assert!(command_invocation("   ", false).is_none());
    let (program, args) = command_invocation("dir /w", true).unwrap();
    assert_eq!(program, "cmd");
    assert_eq!(args, vec!["/C".to_string(), "dir /w".to_string()]);
}

#[test]
fn remote_heads_parsing() {
    let out = "0123abcd\trefs/heads/main\n\nfeedBEEF   refs/heads/feature/x\n";
    let heads = parse_remote_heads(out).unwrap();
    assert_eq!(heads.len(), 2);
    assert_eq!(heads[0].name, "main");
    assert_eq!(heads[0].latest_commit_hash, "0123abcd");
    assert_eq!(heads[1].name, "feature/x");
    assert_eq!(heads[1].latest_commit_hash, "feedBEEF");
    assert!(parse_remote_heads("").unwrap().is_empty());
    assert!(parse_remote_heads("\n").unwrap().is_empty());
}

#[test]
fn unreadable_remote_heads_fail() {
    assert!(parse_remote_heads("0123abcd\trefs/heads/main\nnot a ref line\n").is_none());
    assert!(parse_remote_heads("0123abcd\trefs/tags/v1\n").is_none());
    assert!(parse_remote_heads("xyz\trefs/heads/main").is_none());
}

#[test]
fn head_from_regex_groups() {
    let caps = Some(vec![vec![
        Some("abc\trefs/heads/dev".to_string()),
        Some("abc".to_string()),
        Some("dev".to_string()),
    ]]);
    let b = head_from_captures(&caps).unwrap();
    assert_eq!(b.name, "dev");
    assert_eq!(b.latest_commit_hash, "abc");
    assert!(head_from_captures(&None).is_none());
    assert!(head_from_captures(&Some(vec![])).is_none());
    assert!(head_from_captures(&Some(vec![vec![Some("x".to_string()), None, Some("dev".to_string())]])).is_none());
}

#[test]
fn invocation_from_split_words() {
    let (program, args) =
        invocation_from_words(Some(vec!["ls".to_string(), "-l".to_string(), "/tmp".to_string()])).unwrap();
    assert_eq!(program, "ls");
    assert_eq!(args, vec!["-l".to_string(), "/tmp".to_string()]);
    assert!(invocation_from_words(Some(vec![])).is_none());
    assert!(invocation_from_words(None).is_none());
}

#[test]
fn clone_then_pull() {
    assert_eq!(workspace_step(true, None), WorkspaceStep::Ready);
    assert_eq!(workspace_step(false, None), WorkspaceStep::Pull);
    assert_eq!(workspace_step(false, Some(true)), WorkspaceStep::Ready);
    assert_eq!(workspace_step(false, Some(false)), WorkspaceStep::Failed);
}

#[test]
fn repository_names() {
    assert_eq!(repository_name("https://github.com/owner/tool.git"), Some("tool".to_string()));
    assert_eq!(repository_name("git@github.com:owner/tool"), Some("tool".to_string()));
    assert_eq!(repository_name("ftp://github.com/owner/tool.git"), None);
}

#[test]
fn cached_heads_compare_by_first_entry() {
    let cache = vec![
        Branch { name: "main".to_string(), latest_commit_hash: "a".to_string() },
        Branch { name: "main".to_string(), latest_commit_hash: "b".to_string() },
    ];
    let same = Branch { name: "main".to_string(), latest_commit_hash: "a".to_string() };
    let other = Branch { name: "main".to_string(), latest_commit_hash: "b".to_string() };
    let fresh = Branch { name: "dev".to_string(), latest_commit_hash: "a".to_string() };
    assert!(!head_changed(&cache, &same));
    assert!(head_changed(&cache, &other));
    assert!(head_changed(&cache, &fresh));
}

#[test]
fn stage_table_keeps_order_and_last_value() {
    let mut table = HashMapWithOriginalOrder::new();
    table.insert("a".to_string(), Stage::Multiple(vec![]));
    table.insert("b".to_string(), Stage::Multiple(vec![]));
    table.insert("a".to_string(), Stage::Single(proc_with(None, AutoRestartPolicy::Never)));
    assert_eq!(table.entries.len(), 2);
    assert!(matches!(table.entries[0].1, Stage::Single(_)));
    assert_eq!(table.order, vec!["a".to_string(), "b".to_string(), "a".to_string()]);
    assert_eq!(find_stage(&table.entries, &"b".to_string()), Some(1));
    assert_eq!(find_stage(&table.entries, &"c".to_string()), None);
}

#[test]
fn missing_stages_are_skipped() {
    let p = Pipeline {
        name: "p".to_string(),
        stages_order: Some(vec!["ghost".to_string(), "real".to_string()]),
        branches: vec![],
        deploy_path: None,
        log: None,
        condition: Condition::Automatic,
        stages: vec![("real".to_string(), Stage::Multiple(vec![]))],
        persistent: false,
    };
    assert_eq!(first_runnable(&p, 0), PipelineAction::RunStage { position: 1, entry: 0 });
    assert_eq!(first_runnable(&p, 2), PipelineAction::End { success: true });
    assert_eq!(p.branch_index(&"main".to_string()), None);
}

#[test]
fn configuration_read_from_disk_is_persistent() {
    let pipeline = Pipeline {
        name: "p".to_string(),
        stages_order: None,
        branches: vec!["main".to_string()],
        deploy_path: None,
        log: None,
        condition: Condition::Manual,
        stages: vec![],
        persistent: false,
    };
    let project = influo::project::Project {
        url: "https://h/o/r.git".to_string(),
        pipelines: vec![pipeline.clone(), pipeline],
        branches: vec![],
        persistent: false,
    };
    let mut c = Configuration {
        update_interval: 5,
        log_level: LogLevel::Debug,
        default_deploy_path: "/srv".to_string(),
        default_log_path: "/var/log".to_string(),
        api: None,
        projects: vec![project],
    };
    c.mark_persistent();
    assert_eq!(c.update_interval, 5);
    assert_eq!(c.projects.len(), 1);
    assert!(c.projects[0].persistent);
    assert_eq!(c.projects[0].pipelines.len(), 2);
    assert!(c.projects[0].pipelines.iter().all(|p| p.persistent && p.name == "p"));
}
