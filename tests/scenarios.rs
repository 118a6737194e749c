use influo::channel::{Command, ConnectionRegistry, PipelineConnection};
use influo::config::{default_http_api_port, default_update_interval};
use influo::pipeline::{Condition, HashMapWithOriginalOrder, IntermediatePipeline, Log, Pipeline, Stage};
use influo::pipeline_manager::{after_stage, all_succeeded, begin_pipeline, PipelineAction, StageOutcome};
use influo::procedure::{AutoRestartPolicy, Procedure};
use influo::procedure_manager::{
    next_procedure_action, start_procedure, ChildEvent, ProcedureAction, ProcedureError,
};
use influo::project::{Branch, Project};
use influo::system_cmd::{command_invocation, parse_remote_heads, repository_name, workspace_paths};
use influo::log_render::{render_log_line, LogFields};
use influo::updater::{poll_project, Launch};

fn procedure(commands: &[&str], policy: AutoRestartPolicy) -> Procedure {
    Procedure {
        name: None,
        commands: commands.iter().map(|c| c.to_string()).collect(),
        condition: Condition::Automatic,
        auto_restart: policy,
        log_template: None,
        persistent: false,
    }
}

fn pipeline(name: &str, condition: Condition, stages: Vec<(&str, Stage)>, order: &[&str]) -> Pipeline {
    Pipeline {
        name: name.to_string(),
        stages_order: Some(order.iter().map(|s| s.to_string()).collect()),
        branches: vec!["main".to_string()],
        deploy_path: None,
        log: None,
        condition,
        stages: stages.into_iter().map(|(n, s)| (n.to_string(), s)).collect(),
        persistent: false,
    }
}

fn project(url: &str, pipelines: Vec<Pipeline>) -> Project {
    Project { url: url.to_string(), pipelines, branches: Vec::new(), persistent: false }
}

fn head(name: &str, hash: &str) -> Branch {
    Branch { name: name.to_string(), latest_commit_hash: hash.to_string() }
}

fn echo_pipeline() -> Pipeline {
    pipeline(
        "p1",
        Condition::Automatic,
        vec![("test", Stage::Single(procedure(&["echo ok"], AutoRestartPolicy::Never)))],
        &["test"],
    )
}

#[test]
fn new_commit_triggers_pipeline() {
    let mut p = project("https://example.com/owner/x.git", vec![echo_pipeline()]);
    let output = "deadbeef0123456789\trefs/heads/main\n";
    let heads = parse_remote_heads(output).unwrap();
    assert_eq!(heads.len(), 1);
    assert_eq!(heads[0].name, "main");
    assert_eq!(heads[0].latest_commit_hash, "deadbeef0123456789");

    let launches = poll_project(&mut p, Some(heads));
    assert_eq!(launches, vec![Launch { pipeline_index: 0, branch_index: 0, head_index: 0 }]);
    assert_eq!(p.branches.len(), 1);
    assert_eq!(p.branches[0].latest_commit_hash, "deadbeef0123456789");

    let repo = repository_name(&p.url).unwrap();
    assert_eq!(repo, "x");
    let (_, working_dir) = workspace_paths("/srv", &repo, "p1", "main");
    assert!(working_dir.ends_with("/x/p1/main"));

    let pl = &p.pipelines[0];
    assert_eq!(begin_pipeline(pl, true), PipelineAction::RunStage { position: 0, entry: 0 });
    let proc0 = match &pl.stages[0].1 {
        Stage::Single(pr) => pr.clone(),
        Stage::Multiple(_) => panic!("expected a single procedure"),
    };
    assert_eq!(start_procedure(&proc0), ProcedureAction::Spawn(0));
    let (program, args) = command_invocation(&proc0.commands[0], false).unwrap();
    assert_eq!(program, "echo");
    assert_eq!(args, vec!["ok".to_string()]);
    let next = next_procedure_action(&proc0, 0, ChildEvent::Exited { code: Some(0) });
    assert_eq!(next, ProcedureAction::Succeed);
    let end = after_stage(pl, 0, &StageOutcome::Completed(vec![Ok(())]));
    assert_eq!(end, PipelineAction::End { success: true });
}

#[test]
fn newer_commit_preempts_running_pipeline() {
    let mut p = project("https://example.com/owner/x.git", vec![echo_pipeline()]);
    let mut registry = ConnectionRegistry::new();

    let first = poll_project(&mut p, Some(vec![head("main", "aaaaaaa")]));
    assert_eq!(first.len(), 1);
    let (c1, mut rx1) = PipelineConnection::new(p.url.clone(), "main".to_string(), "p1".to_string());
    assert_eq!(registry.launch(c1), 0);

    let second = poll_project(&mut p, Some(vec![head("main", "bbbbbbb")]));
    assert_eq!(second, vec![Launch { pipeline_index: 0, branch_index: 0, head_index: 0 }]);
    assert_eq!(p.branches.len(), 1);
    assert_eq!(p.branches[0].latest_commit_hash, "bbbbbbb");
    assert_eq!(influo::updater::short_hash(&p.branches[0].latest_commit_hash), "bbbbb");
    let (c2, mut rx2) = PipelineConnection::new(p.url.clone(), "main".to_string(), "p1".to_string());
    assert_eq!(registry.launch(c2), 1);

    assert!(matches!(rx1.try_recv(), Ok(Command::KillProcedure)));
    assert!(rx2.try_recv().is_err());
    assert_eq!(registry.len(), 1);
    registry.prune_closed();
    assert_eq!(registry.len(), 1);

    // the older pipeline passes the kill on to its procedures and stops
    assert_eq!(after_stage(&p.pipelines[0], 0, &StageOutcome::Killed), PipelineAction::BroadcastKill);
}

#[test]
fn inclusion_code_restarts_until_cancelled() {
    let pr = procedure(&["false"], AutoRestartPolicy::InclusionCodes(vec![1]));
    assert_eq!(start_procedure(&pr), ProcedureAction::Spawn(0));
    let mut spawns = 1;
    for _ in 0..3 {
        let a = next_procedure_action(&pr, 0, ChildEvent::Exited { code: Some(1) });
        assert_eq!(a, ProcedureAction::Spawn(0));
        spawns += 1;
    }
    assert!(spawns >= 2);
    let a = next_procedure_action(&pr, 0, ChildEvent::Cancelled);
    assert_eq!(a, ProcedureAction::KillAndFinish(ProcedureError::Cancelled));
}

#[test]
fn stage_failure_aborts_pipeline() {
    let build = Stage::Multiple(vec![
        procedure(&["true"], AutoRestartPolicy::Never),
        procedure(&["false"], AutoRestartPolicy::Never),
    ]);
    let deploy = Stage::Single(procedure(&["echo deploy"], AutoRestartPolicy::Never));
    let pl = pipeline("p1", Condition::Automatic, vec![("build", build), ("deploy", deploy)], &["build", "deploy"]);
    assert_eq!(begin_pipeline(&pl, true), PipelineAction::RunStage { position: 0, entry: 0 });

    let failing = procedure(&["false"], AutoRestartPolicy::Never);
    let r = next_procedure_action(&failing, 0, ChildEvent::Exited { code: Some(1) });
    assert_eq!(r, ProcedureAction::KillAndFinish(ProcedureError::ChildKillFail));

    let outcome = StageOutcome::Completed(vec![Ok(()), Err(ProcedureError::ChildKillFail)]);
    assert_eq!(after_stage(&pl, 0, &outcome), PipelineAction::End { success: false });
    // with both procedures succeeding the deploy stage would run
    let ok = StageOutcome::Completed(vec![Ok(()), Ok(())]);
    assert_eq!(after_stage(&pl, 0, &ok), PipelineAction::RunStage { position: 1, entry: 1 });
}

#[test]
fn failing_project_keeps_its_cache() {
    let mut a = project("https://example.com/owner/a.git", vec![echo_pipeline()]);
    let mut b = project("https://example.com/owner/b.git", vec![echo_pipeline()]);
    b.branches = vec![head("main", "0000000")];

    let la = poll_project(&mut a, Some(vec![head("main", "1111111")]));
    let lb = poll_project(&mut b, None);
    assert_eq!(la.len(), 1);
    assert_eq!(a.branches[0].latest_commit_hash, "1111111");
    assert!(lb.is_empty());
    assert_eq!(b.branches.len(), 1);
    assert_eq!(b.branches[0].latest_commit_hash, "0000000");

    // the next tick retries B
    let lb2 = poll_project(&mut b, Some(vec![head("main", "2222222")]));
    assert_eq!(lb2.len(), 1);
    assert_eq!(b.branches[0].latest_commit_hash, "2222222");
}

#[test]
fn log_template_substitution() {
    let fields = LogFields {
        pipeline_name: "p1".to_string(),
        pipeline_stage: "test".to_string(),
        time: "00:00:01".to_string(),
        path: "/srv/x/p1/main".to_string(),
        command: "echo hello".to_string(),
    };
    let line = render_log_line("{pipeline_name}|{pipeline_stage}|{command}|{message}", &fields, "hello");
    assert_eq!(line, "p1|test|echo hello|hello");
}

#[test]
fn defaults() {
    assert_eq!(default_update_interval(), 30);
    assert_eq!(default_http_api_port(), 4200);
}

#[test]
fn missing_stage_order_uses_insertion_order() {
    let names = ["test", "lint", "deploy_staging", "deploy_production", "cleanup", "post"];
    let mut stages = HashMapWithOriginalOrder::new();
    for n in names.iter() {
        stages.insert(n.to_string(), Stage::Single(procedure(&["true"], AutoRestartPolicy::Never)));
    }
    let ip = IntermediatePipeline {
        name: "default_stage_order_test_config".to_string(),
        stages_order: None,
        branches: vec!["main".to_string()],
        deploy_path: None,
        log: None,
        condition: Condition::Automatic,
        stages,
        persistent: false,
    };
    let p = Pipeline::try_from(ip).unwrap();
    let expected: Vec<String> = names.iter().map(|s| s.to_string()).collect();
    assert_eq!(p.stages_order, Some(expected));
}

#[test]
fn unknown_stage_in_order_is_rejected() {
    let mut stages = HashMapWithOriginalOrder::new();
    stages.insert("build".to_string(), Stage::Single(procedure(&["true"], AutoRestartPolicy::Never)));
    let ip = IntermediatePipeline {
        name: "p".to_string(),
        stages_order: Some(vec!["build".to_string(), "ship".to_string()]),
        branches: vec![],
        deploy_path: None,
        log: None,
        condition: Condition::Manual,
        stages,
        persistent: false,
    };
    let err = Pipeline::try_from(ip).unwrap_err();
    assert_eq!(err, "Stage with name: ship mentioned in order does not exist");
}

#[test]
fn unnamed_procedure_uses_pipeline_name() {
    let pr = procedure(&["true"], AutoRestartPolicy::Never);
    assert_eq!(pr.identifier(&"p1".to_string()), "p1");
    let mut named = pr.clone();
    named.name = Some("unit".to_string());
    assert_eq!(named.identifier(&"p1".to_string()), "unit");
}

#[test]
fn always_restarts_and_yields_to_cancel() {
    let pr = procedure(&["false", "true"], AutoRestartPolicy::Always);
    for code in [1, 2, 127, -1] {
        let a = next_procedure_action(&pr, 0, ChildEvent::Exited { code: Some(code) });
        assert_eq!(a, ProcedureAction::Spawn(0));
    }
    let a = next_procedure_action(&pr, 0, ChildEvent::Cancelled);
    assert_eq!(a, ProcedureAction::KillAndFinish(ProcedureError::Cancelled));
}

#[test]
fn inclusion_of_zero_is_vacuous() {
    let pr = procedure(&["a", "b"], AutoRestartPolicy::InclusionCodes(vec![0]));
    let ok = next_procedure_action(&pr, 0, ChildEvent::Exited { code: Some(0) });
    assert_eq!(ok, ProcedureAction::Spawn(1));
    let fail = next_procedure_action(&pr, 0, ChildEvent::Exited { code: Some(1) });
    assert_eq!(fail, ProcedureAction::KillAndFinish(ProcedureError::ChildKillFail));
    let never = procedure(&["a", "b"], AutoRestartPolicy::Never);
    for event in [
        ChildEvent::Exited { code: Some(0) },
        ChildEvent::Exited { code: Some(1) },
        ChildEvent::Exited { code: Some(-9) },
        ChildEvent::Exited { code: None },
        ChildEvent::Cancelled,
        ChildEvent::SpawnFailed,
    ] {
        for index in 0..2 {
            assert_eq!(next_procedure_action(&pr, index, event), next_procedure_action(&never, index, event));
        }
    }
}

#[test]
fn empty_procedure_spawns_nothing() {
    let pr = procedure(&[], AutoRestartPolicy::Always);
    assert_eq!(start_procedure(&pr), ProcedureAction::Succeed);
}

#[test]
fn stage_outcome_ignores_completion_order() {
    let a = vec![Ok(()), Err(ProcedureError::SpawnFailed), Ok(())];
    let b = vec![Err(ProcedureError::SpawnFailed), Ok(()), Ok(())];
    assert_eq!(all_succeeded(&a), all_succeeded(&b));
    assert!(!all_succeeded(&a));
    assert!(all_succeeded(&vec![Ok(()), Ok(())]));
    assert!(all_succeeded(&vec![]));
}

#[test]
fn unchanged_heads_are_a_no_op() {
    let mut p = project("https://example.com/owner/x.git", vec![echo_pipeline()]);
    let heads = vec![head("main", "abc1234"), head("dev", "def5678")];
    let first = poll_project(&mut p, Some(heads.clone()));
    assert_eq!(first.len(), 1);
    let second = poll_project(&mut p, Some(heads));
    assert!(second.is_empty());
    assert_eq!(p.branches.len(), 2);
    assert_eq!(p.branches[0].latest_commit_hash, "abc1234");
}

#[test]
fn relaunch_keeps_one_connection() {
    let mut registry = ConnectionRegistry::new();
    let url = "https://example.com/owner/x.git".to_string();
    let (c1, _rx1) = PipelineConnection::new(url.clone(), "main".to_string(), "p1".to_string());
    let (c2, _rx2) = PipelineConnection::new(url.clone(), "dev".to_string(), "p1".to_string());
    let (c3, _rx3) = PipelineConnection::new(url.clone(), "main".to_string(), "p1".to_string());
    registry.launch(c1);
    registry.launch(c2);
    assert_eq!(registry.len(), 2);
    registry.launch(c3);
    assert_eq!(registry.len(), 2);
}

#[test]
fn closed_connections_are_pruned() {
    let mut registry = ConnectionRegistry::new();
    let (c1, rx1) = PipelineConnection::new("u".to_string(), "main".to_string(), "p1".to_string());
    let (c2, _rx2) = PipelineConnection::new("u".to_string(), "main".to_string(), "p2".to_string());
    registry.launch(c1);
    registry.launch(c2);
    drop(rx1);
    registry.prune_closed();
    assert_eq!(registry.len(), 1);
}

#[test]
fn retain_open_keeps_flagged_connections() {
    let mut registry = ConnectionRegistry::new();
    let mut receivers = Vec::new();
    for name in ["p1", "p2", "p3"] {
        let (c, rx) = PipelineConnection::new("u".to_string(), "main".to_string(), name.to_string());
        registry.launch(c);
        receivers.push(rx);
    }
    registry.retain_open(&vec![true, false, true]);
    assert_eq!(registry.len(), 2);
    // p2 was dropped, so relaunching it adds an entry, while relaunching p3 replaces one
    let (c, _rx) = PipelineConnection::new("u".to_string(), "main".to_string(), "p3".to_string());
    registry.launch(c);
    assert_eq!(registry.len(), 2);
    let (c, _rx) = PipelineConnection::new("u".to_string(), "main".to_string(), "p2".to_string());
    registry.launch(c);
    assert_eq!(registry.len(), 3);
}

#[test]
fn manual_pipeline_never_fires() {
    let manual = pipeline(
        "m",
        Condition::Manual,
        vec![("test", Stage::Single(procedure(&["echo"], AutoRestartPolicy::Never)))],
        &["test"],
    );
    let mut p = project("https://example.com/owner/x.git", vec![manual, echo_pipeline()]);
    let launches = poll_project(&mut p, Some(vec![head("main", "1234567")]));
    assert_eq!(launches, vec![Launch { pipeline_index: 1, branch_index: 0, head_index: 0 }]);
}

#[test]
fn pipeline_without_stages_or_branch_does_not_fire() {
    let mut empty = echo_pipeline();
    empty.stages.clear();
    let mut other = echo_pipeline();
    other.branches = vec!["release".to_string(), "main".to_string()];
    let mut p = project("https://example.com/owner/x.git", vec![empty, other]);
    let launches = poll_project(&mut p, Some(vec![head("main", "1"), head("dev", "2")]));
    assert_eq!(launches, vec![Launch { pipeline_index: 1, branch_index: 1, head_index: 0 }]);
}

#[test]
fn log_is_enabled_by_any_sink() {
    let mut log = Log { template: None, console: None, save_to_file: None, file_path: None, in_memory: None };
    assert!(!log.is_enabled());
    log.console = Some(false);
    assert!(!log.is_enabled());
    log.save_to_file = Some(true);
    assert!(log.is_enabled());
}
