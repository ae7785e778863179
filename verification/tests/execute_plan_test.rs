use agw::error::AgwError;
use agw::executor::{push_line, Launch, PlanResult, PlanRun};
use agw::plan::{Plan, Task};
use std::io::Write;
use std::time::{Duration, Instant};
use tokio::process::Command;

/// What a subprocess left behind.
struct Outcome {
    stdout: String,
    stderr: String,
    code: Option<i32>,
}

fn lines_of(bytes: &[u8]) -> String {
    let mut output = String::new();
    for line in String::from_utf8_lossy(bytes).lines() {
        push_line(&mut output, line);
    }
    output
}

/// Runs one subprocess to its end, or to its timeout.
async fn execute_task(launch: &Launch) -> Result<Outcome, AgwError> {
    let mut command = Command::new(&launch.command);
    command.args(&launch.args).kill_on_drop(true);
    if let Some(input) = &launch.stdin {
        let (reader, mut writer) = std::io::pipe()
            .map_err(|e| AgwError::Executor(format!("Failed to open stdin: {e}")))?;
        writer
            .write_all(input.as_bytes())
            .map_err(|e| AgwError::Executor(format!("Failed to write stdin: {e}")))?;
        command.stdin(reader);
    }
    let spawn_error = |e: std::io::Error| {
        AgwError::Executor(format!(
            "Failed to spawn command '{}': {}",
            launch.command, e
        ))
    };
    let output = match launch.timeout_secs {
        Some(secs) => {
            match tokio::time::timeout(Duration::from_secs(u64::from(secs)), command.output())
                .await
            {
                Ok(output) => output.map_err(spawn_error)?,
                Err(_) => {
                    return Ok(Outcome {
                        stdout: String::new(),
                        stderr: String::new(),
                        code: None,
                    })
                }
            }
        }
        None => command.output().await.map_err(spawn_error)?,
    };
    Ok(Outcome {
        stdout: lines_of(&output.stdout),
        stderr: lines_of(&output.stderr),
        code: output.status.code(),
    })
}

/// Runs the plan for the job `job_id`, task after task.
fn execute_plan(job_id: &str, plan: &Plan) -> Result<PlanResult, AgwError> {
    let runtime = tokio::runtime::Builder::new_current_thread()
        .enable_all()
        .build()
        .unwrap();
    runtime.block_on(async {
        let mut run = PlanRun::new(job_id.to_string(), plan.clone());
        while let Some(launch) = run.next_step()? {
            let outcome = execute_task(&launch).await?;
            run.record(outcome.stdout, outcome.stderr, outcome.code);
        }
        Ok(run.finish())
    })
}

#[test]
fn test_execute_task_plan() {
    let plan = Plan {
        plan_id: "plan-456".to_string(),
        plan_description: None,
        tasks: vec![Task {
            task_number: 1,
            command: "echo".to_string(),
            args: vec!["hello".to_string()],
            input_from_task: None,
            timeout_secs: Some(30),
        }],
    };

    let result = execute_plan("job-123", &plan).unwrap();
    assert_eq!(result.job_id, "job-123");
    assert_eq!(result.plan_id, "plan-456");
    assert_eq!(result.task_results.len(), 1);
    assert_eq!(result.task_results[0].stdout.trim(), "hello");
    assert_eq!(result.task_results[0].exit_code, 0);
    assert!(result.success);
}

#[test]
fn test_execute_multi_step_plan() {
    let plan = Plan {
        plan_id: "plan-456".to_string(),
        plan_description: Some("Multi-step test".to_string()),
        tasks: vec![
            Task {
                task_number: 1,
                command: "echo".to_string(),
                args: vec!["line1\nline2\nline3".to_string()],
                input_from_task: None,
                timeout_secs: Some(30),
            },
            Task {
                task_number: 2,
                command: "wc".to_string(),
                args: vec!["-l".to_string()],
                input_from_task: Some(1),
                timeout_secs: Some(30),
            },
        ],
    };

    let result = execute_plan("job-123", &plan).unwrap();
    assert_eq!(result.task_results.len(), 2);
    assert!(result.task_results[0].success);
    assert!(result.task_results[1].success);
    assert!(result.success);
    assert_eq!(result.task_results[1].stdout.trim(), "3");
}

#[test]
fn test_execute_plan_with_failure() {
    let plan = Plan {
        plan_id: "plan-456".to_string(),
        plan_description: None,
        tasks: vec![
            Task {
                task_number: 1,
                command: "sh".to_string(),
                args: vec!["-c".to_string(), "exit 42".to_string()],
                input_from_task: None,
                timeout_secs: Some(30),
            },
            Task {
                task_number: 2,
                command: "echo".to_string(),
                args: vec!["should not run".to_string()],
                input_from_task: None,
                timeout_secs: Some(30),
            },
        ],
    };

    let result = execute_plan("job-123", &plan).unwrap();
    // Should only execute first task
    assert_eq!(result.task_results.len(), 1);
    assert_eq!(result.task_results[0].exit_code, 42);
    assert!(!result.task_results[0].success);
    assert!(!result.success);
}

#[test]
fn test_execute_plan_with_timeout() {
    let plan = Plan {
        plan_id: "plan-456".to_string(),
        plan_description: None,
        tasks: vec![Task {
            task_number: 1,
            command: "sleep".to_string(),
            args: vec!["10".to_string()],
            input_from_task: None,
            timeout_secs: Some(1),
        }],
    };

    let started = Instant::now();
    let result = execute_plan("job-123", &plan).unwrap();
    assert_eq!(result.task_results.len(), 1);
    assert!(!result.task_results[0].success);
    assert!(!result.success);
    assert!(started.elapsed() < Duration::from_secs(5));
}

#[test]
fn test_execute_plan_with_stdin_piping() {
    let plan = Plan {
        plan_id: "plan-456".to_string(),
        plan_description: None,
        tasks: vec![
            Task {
                task_number: 1,
                command: "echo".to_string(),
                args: vec!["foo\nbar\nfoo".to_string()],
                input_from_task: None,
                timeout_secs: Some(30),
            },
            Task {
                task_number: 2,
                command: "sort".to_string(),
                args: vec![],
                input_from_task: Some(1),
                timeout_secs: Some(30),
            },
            Task {
                task_number: 3,
                command: "uniq".to_string(),
                args: vec![],
                input_from_task: Some(2),
                timeout_secs: Some(30),
            },
        ],
    };

    let result = execute_plan("job-123", &plan).unwrap();
    assert_eq!(result.task_results.len(), 3);
    assert!(result.success);

    // Final output should be sorted and unique
    let final_output = result.task_results[2].stdout.trim();
    assert!(final_output.contains("bar"));
    assert!(final_output.contains("foo"));
    assert_eq!(result.task_results[2].stdout, "bar\nfoo\n");
}

#[test]
fn test_execute_invalid_command() {
    let plan = Plan {
        plan_id: "plan-456".to_string(),
        plan_description: None,
        tasks: vec![Task {
            task_number: 1,
            command: "this_command_does_not_exist_12345".to_string(),
            args: vec![],
            input_from_task: None,
            timeout_secs: None,
        }],
    };

    let result = execute_plan("job-123", &plan);
    assert!(result.is_err());
}
