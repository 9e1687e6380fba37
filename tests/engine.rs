use spec_agent::execution::{
    command_output, execution_result, failure_output, final_status, get_error_details,
    timeout_output, ProcessOutcome,
};
use spec_agent::policy::{assess_risk_level, is_safe_command, validate_command, RiskLevel, ValidationError};
use spec_agent::registry::{
    ApprovalStatus, CommandExecutor, CommandOutput, ProposeError, RegistryError, RetentionPolicy,
    StatusKind,
};
use spec_agent::workflow::{
    apply_decision, on_decision, on_outcome, CommandApprovalEvent, DecisionQueue, NextStep,
    WorkflowStatistics,
};

fn executed(code: i32) -> ApprovalStatus {
    ApprovalStatus::Executed {
        output: CommandOutput {
            stdout: String::new(),
            stderr: String::new(),
            exit_code: code,
            success: code == 0,
            duration_ms: 0,
        },
    }
}

#[test]
fn test_command_validation() {
    assert!(validate_command("ls -la").is_ok());
    assert!(validate_command("").is_err());
    assert!(validate_command("   ").is_err());
    assert!(validate_command("rm -rf /").is_err());
}

#[test]
fn test_risk_assessment() {
    assert!(is_safe_command("ls -la"));
    assert!(is_safe_command("echo hello"));
    assert!(!is_safe_command("rm -rf /"));
    assert!(!is_safe_command("sudo rm file"));
}

#[test]
fn test_safe_command_validation() {
    let executor = CommandExecutor::new();
    assert!(executor.is_safe_command("ls -la"));
    assert!(executor.is_safe_command("pwd"));
    assert!(executor.is_safe_command("echo hello"));
    assert!(!executor.is_safe_command("rm -rf /"));
    assert!(!executor.is_safe_command("sudo rm file"));
}

#[test]
fn test_timeout_management() {
    let mut executor = CommandExecutor::new();
    assert_eq!(executor.get_timeout(), 300);
    executor.set_timeout(60);
    assert_eq!(executor.get_timeout(), 60);
}

#[test]
fn test_workflow_statistics() {
    let stats = WorkflowStatistics {
        pending_approvals: 0,
        pending_commands: 0,
        active_operations: 0,
        active_command_blocks: 0,
        interface_open: false,
    };
    assert!(stats.is_idle());
    assert_eq!(stats.total_active(), 0);
    assert!(!stats.interface_open);
    let busy = WorkflowStatistics { pending_commands: 2, active_operations: 3, ..stats };
    assert!(!busy.is_idle());
    assert_eq!(busy.total_active(), 5);
}

#[test]
fn validation_errors_name_the_pattern() {
    assert_eq!(validate_command(" \t\n"), Err(ValidationError::EmptyCommand));
    assert_eq!(
        validate_command("echo hi; mkfs.ext4 /dev/sda"),
        Err(ValidationError::ForbiddenPattern("mkfs".to_string()))
    );
    assert_eq!(
        validate_command(":(){ :|:& };:"),
        Err(ValidationError::ForbiddenPattern(":(){ :|:& };:".to_string()))
    );
    assert_eq!(
        validate_command("rm -rf / && mkfs"),
        Err(ValidationError::ForbiddenPattern("rm -rf /".to_string()))
    );
    assert!(validate_command("rm -rf ./build").is_ok());
}

#[test]
fn classification_tiers() {
    assert_eq!(assess_risk_level("ls -la"), RiskLevel::Low);
    assert_eq!(assess_risk_level("sudo rm file"), RiskLevel::High);
    assert_eq!(assess_risk_level("mv a b"), RiskLevel::Medium);
    assert_eq!(assess_risk_level("chmod 777 x"), RiskLevel::High);
    assert_eq!(assess_risk_level("chmod 644 x"), RiskLevel::Medium);
    assert_eq!(assess_risk_level("echo x > /dev/null"), RiskLevel::High);
    assert_eq!(assess_risk_level("SUDO ls"), RiskLevel::Low);
    assert_eq!(assess_risk_level("kill -9 1"), RiskLevel::Medium);
    assert_eq!(assess_risk_level("ls -la"), assess_risk_level("ls -la"));
}

#[test]
fn scenario_forbidden_proposal_leaves_registry_empty() {
    let mut executor = CommandExecutor::new();
    let r = executor.create_command_block("rm -rf /", "/tmp", "cleanup", [1; 16], 0);
    assert_eq!(
        r,
        Err(ValidationError::ForbiddenPattern("rm -rf /".to_string()))
    );
    assert_eq!(executor.len(), 0);
    assert!(executor.list_pending_commands().is_empty());
    assert!(matches!(
        executor.create_command_block("  ", "/tmp", "x", [2; 16], 0),
        Err(ValidationError::EmptyCommand)
    ));
    assert_eq!(executor.len(), 0);
}

#[test]
fn scenario_low_risk_proposal_runs_once() {
    let mut executor = CommandExecutor::new();
    let id = executor.create_command_block("ls -la", "/tmp", "list", [3; 16], 100).unwrap();
    let block = executor.get_command_block(&id).unwrap();
    assert!(matches!(block.approval_status, ApprovalStatus::Pending));
    assert_eq!(block.risk_level, RiskLevel::Low);
    assert_eq!(block.command, "ls -la");
    assert_eq!(block.working_directory, "/tmp");
    assert_eq!(block.description, "list");
    assert_eq!(executor.list_pending_commands().len(), 1);

    assert_eq!(executor.approve_command(&id), Ok(()));
    assert!(matches!(
        executor.get_command_block(&id).unwrap().approval_status,
        ApprovalStatus::Approved
    ));
    assert_eq!(executor.begin_execution(&id), Ok(()));
    assert_eq!(executor.begin_execution(&id), Err(RegistryError::InvalidTransition));
    let outcome = ProcessOutcome::Finished {
        stdout: b"total 0\n".to_vec(),
        stderr: Vec::new(),
        code: Some(0),
        elapsed_ms: 4,
    };
    let status = final_status(&outcome, executor.get_timeout());
    assert_eq!(executor.finalize(&id, status), Ok(()));
    match executor.get_command_block(&id).unwrap().approval_status {
        ApprovalStatus::Executed { output } => {
            assert_eq!(output.exit_code, 0);
            assert!(output.success);
            assert_eq!(output.duration_ms, 4);
            assert_eq!(output.stdout, "total 0\n");
        }
        other => panic!("unexpected status {:?}", other),
    }
}

#[test]
fn scenario_high_risk_is_not_safe() {
    let mut executor = CommandExecutor::new();
    let id = executor.create_command_block("sudo rm file", "/tmp", "x", [4; 16], 100).unwrap();
    assert_eq!(executor.get_command_block(&id).unwrap().risk_level, RiskLevel::High);
    assert!(!executor.is_safe(&id));
    assert!(!executor.is_safe("no-such-id"));
    let low = executor.create_command_block("pwd", "/tmp", "y", [5; 16], 100).unwrap();
    assert!(executor.is_safe(&low));
}

#[test]
fn scenario_two_proposals_keep_their_own_output() {
    let mut executor = CommandExecutor::new();
    let a = executor.insert_proposal("a".to_string(), 0, "echo a", "/tmp", "first");
    let b = executor.insert_proposal("b".to_string(), 0, "echo b", "/tmp", "second");
    assert!(a.is_ok() && b.is_ok());
    for id in ["a", "b"] {
        executor.approve_command(id).unwrap();
        executor.begin_execution(id).unwrap();
    }
    let out_b = ProcessOutcome::Finished { stdout: b"b\n".to_vec(), stderr: Vec::new(), code: Some(0), elapsed_ms: 3 };
    let out_a = ProcessOutcome::Finished { stdout: b"a\n".to_vec(), stderr: Vec::new(), code: Some(0), elapsed_ms: 3 };
    executor.finalize("b", final_status(&out_b, 300)).unwrap();
    executor.finalize("a", final_status(&out_a, 300)).unwrap();
    for (id, text) in [("a", "a\n"), ("b", "b\n")] {
        match executor.get_command_block(id).unwrap().approval_status {
            ApprovalStatus::Executed { output } => assert_eq!(output.stdout, text),
            other => panic!("unexpected status {:?}", other),
        }
    }
    assert_eq!(executor.list_by_state(StatusKind::Executed).len(), 2);
}

#[test]
fn transitions_follow_the_state_machine() {
    let mut executor = CommandExecutor::new();
    executor.insert_proposal("p".to_string(), 0, "ls", "/", "d").unwrap();
    assert_eq!(executor.begin_execution("p"), Err(RegistryError::InvalidTransition));
    assert_eq!(executor.finalize("p", executed(0)), Err(RegistryError::InvalidTransition));
    assert_eq!(executor.reject_command("p"), Ok(()));
    assert_eq!(executor.approve_command("p"), Err(RegistryError::InvalidTransition));
    assert_eq!(executor.reject_command("p"), Err(RegistryError::InvalidTransition));
    assert_eq!(executor.approve_command("q"), Err(RegistryError::NotFound));
    assert!(matches!(executor.get_command_block("q"), Err(RegistryError::NotFound)));
    assert_eq!(
        executor.insert_proposal("p".to_string(), 0, "ls", "/", "d"),
        Err(ProposeError::DuplicateId)
    );
    executor.insert_proposal("r".to_string(), 0, "ls", "/", "d").unwrap();
    executor.approve_command("r").unwrap();
    executor.begin_execution("r").unwrap();
    assert_eq!(executor.finalize("r", ApprovalStatus::Approved), Err(RegistryError::InvalidTransition));
    let failed = final_status(&ProcessOutcome::TimedOut { elapsed_ms: 5000 }, 5);
    assert_eq!(executor.finalize("r", failed), Ok(()));
    assert_eq!(executor.finalize("r", executed(0)), Err(RegistryError::InvalidTransition));
    match executor.get_command_block("r").unwrap().approval_status {
        ApprovalStatus::Failed { reason } => assert_eq!(reason, "Command timed out after 5 seconds"),
        other => panic!("unexpected status {:?}", other),
    }
}

#[test]
fn cleanup_of_executed_commands() {
    let mut executor = CommandExecutor::new();
    for id in ["a", "b", "c", "d"] {
        executor.insert_proposal(id.to_string(), 0, "ls", "/", "x").unwrap();
    }
    executor.approve_command("a").unwrap();
    executor.begin_execution("a").unwrap();
    executor.finalize("a", executed(0)).unwrap();
    executor.reject_command("b").unwrap();
    executor.approve_command("c").unwrap();
    executor.begin_execution("c").unwrap();
    executor.finalize("c", ApprovalStatus::Failed { reason: "x".to_string() }).unwrap();
    executor.cleanup_executed_commands();
    assert_eq!(executor.len(), 2);
    assert!(executor.get_command_block("a").is_err());
    assert!(executor.get_command_block("b").is_ok());
    assert!(executor.get_command_block("c").is_err());
    assert_eq!(executor.list_pending_commands()[0].id, "d");
}

#[test]
fn cleanup_by_age_and_count() {
    let mut executor = CommandExecutor::new();
    let names = ["old", "t1", "t2", "t3", "live"];
    let times = [0i64, 100, 200, 300, 0];
    for i in 0..5 {
        executor.insert_proposal(names[i].to_string(), times[i], "ls", "/", "x").unwrap();
    }
    for id in ["old", "t1", "t2", "t3"] {
        executor.reject_command(id).unwrap();
    }
    executor.cleanup(RetentionPolicy { max_age_secs: 500, max_terminal: 2 }, 550);
    let left: Vec<String> = (0..names.len())
        .filter(|i| executor.get_command_block(names[*i]).is_ok())
        .map(|i| names[i].to_string())
        .collect();
    assert_eq!(left, vec!["t2", "t3", "live"]);
    executor.cleanup(RetentionPolicy { max_age_secs: 10, max_terminal: 100 }, 550);
    assert_eq!(executor.len(), 1);
    assert_eq!(executor.list_by_state(StatusKind::Pending)[0].id, "live");
}

#[test]
fn execution_results() {
    let out = command_output(b"ok\xff", b"", None, 12);
    assert_eq!(out.stdout, "ok\u{fffd}");
    assert_eq!(out.exit_code, -1);
    assert_eq!(out.duration_ms, 12);
    assert!(!out.success);
    let out = command_output(b"", b"bad", Some(2), 0);
    assert_eq!((out.exit_code, out.success, out.stderr.as_str()), (2, false, "bad"));
    let t = timeout_output(30, 30000);
    assert_eq!(t.stderr, "Command timed out after 30 seconds");
    assert_eq!((t.exit_code, t.success), (-1, false));
    let f = failure_output("no shell", 0);
    assert_eq!(f.stderr, "Command execution failed: no shell");
    let spawn = ProcessOutcome::SpawnFailed { message: "denied".to_string() };
    assert_eq!(execution_result(&spawn, 1).stderr, "Command execution failed: denied");
    match final_status(&ProcessOutcome::CaptureFailed { message: "pipe".to_string(), elapsed_ms: 1 }, 1) {
        ApprovalStatus::Failed { reason } => assert_eq!(reason, "Command execution failed: pipe"),
        other => panic!("unexpected status {:?}", other),
    }
}

#[test]
fn error_details_text() {
    let ok = CommandOutput { stdout: "x".to_string(), stderr: String::new(), exit_code: 0, success: true, duration_ms: 0 };
    assert_eq!(get_error_details(&ok), "Command failed with no error details");
    let bad = CommandOutput {
        stdout: "partial".to_string(),
        stderr: "boom".to_string(),
        exit_code: -3,
        success: false,
        duration_ms: 9,
    };
    assert_eq!(
        get_error_details(&bad),
        "Exit code: -3\n\nError output:\nboom\n\nStandard output:\npartial"
    );
    let warn = CommandOutput { stdout: String::new(), stderr: "w".to_string(), exit_code: 0, success: true, duration_ms: 0 };
    assert_eq!(get_error_details(&warn), "Error output:\nw");
}

#[test]
fn decisions_are_routed_by_id() {
    let mut queue = DecisionQueue::new();
    queue.push(CommandApprovalEvent::Approve("b".to_string()));
    queue.push(CommandApprovalEvent::Reject("a".to_string()));
    queue.push(CommandApprovalEvent::Timeout("b".to_string()));
    assert!(matches!(queue.take_for("a"), Some(CommandApprovalEvent::Reject(_))));
    assert_eq!(queue.len(), 2);
    assert!(queue.take_for("a").is_none());
    assert!(matches!(queue.take_for("b"), Some(CommandApprovalEvent::Approve(_))));
    assert!(matches!(queue.take_for("b"), Some(CommandApprovalEvent::Timeout(_))));
    assert_eq!(queue.len(), 0);

    let mut executor = CommandExecutor::new();
    executor.insert_proposal("a".to_string(), 0, "ls", "/", "x").unwrap();
    executor.insert_proposal("b".to_string(), 0, "ls", "/", "x").unwrap();
    let r = apply_decision(&mut executor, &CommandApprovalEvent::Timeout("a".to_string()));
    assert!(matches!(r, Ok(ApprovalStatus::Rejected)));
    let r = apply_decision(&mut executor, &CommandApprovalEvent::Approve("b".to_string()));
    assert!(matches!(r, Ok(ApprovalStatus::Approved)));
    let r = apply_decision(&mut executor, &CommandApprovalEvent::Approve("a".to_string()));
    assert!(matches!(r, Err(RegistryError::InvalidTransition)));
    let r = apply_decision(&mut executor, &CommandApprovalEvent::Reject("zz".to_string()));
    assert!(matches!(r, Err(RegistryError::NotFound)));
}

#[test]
fn decisions_lead_to_runs() {
    let mut executor = CommandExecutor::new();
    executor.insert_proposal("a".to_string(), 0, "echo a", "/tmp", "x").unwrap();
    executor.insert_proposal("b".to_string(), 0, "echo b", "/tmp", "y").unwrap();
    match on_decision(&mut executor, &CommandApprovalEvent::Approve("a".to_string())) {
        Ok(NextStep::Run(block)) => {
            assert_eq!(block.command, "echo a");
            assert!(matches!(block.approval_status, ApprovalStatus::Approved));
        }
        other => panic!("unexpected {:?}", other),
    }
    assert!(matches!(
        on_decision(&mut executor, &CommandApprovalEvent::Timeout("b".to_string())),
        Ok(NextStep::Done)
    ));
    assert!(matches!(
        on_decision(&mut executor, &CommandApprovalEvent::Approve("b".to_string())),
        Err(RegistryError::InvalidTransition)
    ));
    assert_eq!(on_outcome(&mut executor, "a", &ProcessOutcome::TimedOut { elapsed_ms: 7000 }), Err(RegistryError::InvalidTransition));
    executor.begin_execution("a").unwrap();
    executor.set_timeout(7);
    assert_eq!(on_outcome(&mut executor, "a", &ProcessOutcome::TimedOut { elapsed_ms: 7000 }), Ok(()));
    match executor.get_command_block("a").unwrap().approval_status {
        ApprovalStatus::Failed { reason } => assert_eq!(reason, "Command timed out after 7 seconds"),
        other => panic!("unexpected status {:?}", other),
    }
    assert_eq!(on_outcome(&mut executor, "zz", &ProcessOutcome::TimedOut { elapsed_ms: 7000 }), Err(RegistryError::NotFound));
}

#[test]
fn valid_proposals_are_always_recorded() {
    let mut executor = CommandExecutor::new();
    let first = executor.create_command_block("ls", "/tmp", "a", [7; 16], 10).unwrap();
    let second = executor.create_command_block("pwd", "", "b", [7; 16], 11).unwrap();
    assert_ne!(first, second);
    assert_eq!(first.len(), 36);
    assert!(second.len() > 36);
    assert_eq!(executor.len(), 2);
    let b = executor.get_command_block(&second).unwrap();
    assert_eq!(b.working_directory, "/");
    assert_eq!(b.created_at, 11);
    executor.set_default_working_directory("/srv");
    assert_eq!(executor.default_working_directory(), "/srv");
    let third = executor.create_command_block("pwd", "", "c", [9; 16], 12).unwrap();
    assert_eq!(executor.get_command_block(&third).unwrap().working_directory, "/srv");
    assert_eq!(executor.list_pending_commands().len(), 3);
}
