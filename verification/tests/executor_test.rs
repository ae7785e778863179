use agw::error::ErrorKind;
use agw::executor::{push_line, Launch, PlanResult, PlanRun, TaskResult};
use agw::plan::{Plan, Task};

fn task(number: u32, command: &str, args: &[&str], from: Option<u32>) -> Task {
    Task {
        task_number: number,
        command: command.to_string(),
        args: args.iter().map(|a| a.to_string()).collect(),
        input_from_task: from,
        timeout_secs: Some(30),
    }
}

fn plan_of(tasks: Vec<Task>) -> Plan {
    Plan {
        plan_id: "plan-456".to_string(),
        plan_description: None,
        tasks,
    }
}

fn launch_of(run: &PlanRun) -> Launch {
    run.next_step().unwrap().unwrap()
}

#[test]
fn test_combined_output_methods() {
    let task_results = vec![
        TaskResult::new(1, "output1\n".to_string(), "error1\n".to_string(), 0),
        TaskResult::new(2, "output2\n".to_string(), "error2\n".to_string(), 0),
        TaskResult::new(3, "output3\n".to_string(), "error3\n".to_string(), 0),
    ];

    let plan_result = PlanResult::new("job-123".to_string(), "plan-456".to_string(), task_results);

    assert_eq!(
        plan_result.combined_stdout(),
        "output1\n\noutput2\n\noutput3\n"
    );
    assert_eq!(
        plan_result.combined_stderr(),
        "error1\n\nerror2\n\nerror3\n"
    );
}

#[test]
fn test_combined_output_empty() {
    let plan_result = PlanResult::new("job-123".to_string(), "plan-456".to_string(), vec![]);

    assert_eq!(plan_result.combined_stdout(), "");
    assert_eq!(plan_result.combined_stderr(), "");
}

#[test]
fn task_result_succeeds_exactly_on_exit_code_zero() {
    let ok = TaskResult::new(3, "out".to_string(), "err".to_string(), 0);
    assert_eq!(ok.task_number, 3);
    assert_eq!(ok.stdout, "out");
    assert_eq!(ok.stderr, "err");
    assert_eq!(ok.exit_code, 0);
    assert!(ok.success);
    for code in [1, 42, -1, i32::MIN, i32::MAX] {
        let failed = TaskResult::new(1, String::new(), String::new(), code);
        assert_eq!(failed.exit_code, code);
        assert!(!failed.success);
    }
}

#[test]
fn task_result_without_exit_code_is_a_failure() {
    let killed = TaskResult::from_exit(1, "partial\n".to_string(), String::new(), None);
    assert_eq!(killed.exit_code, -1);
    assert!(!killed.success);
    assert_eq!(killed.stdout, "partial\n");
    let ok = TaskResult::from_exit(1, String::new(), String::new(), Some(0));
    assert_eq!(ok.exit_code, 0);
    assert!(ok.success);
    let failed = TaskResult::from_exit(1, String::new(), String::new(), Some(137));
    assert_eq!(failed.exit_code, 137);
    assert!(!failed.success);
}

#[test]
fn plan_result_succeeds_when_every_task_did() {
    let result = |codes: &[i32]| {
        PlanResult::new(
            "job-1".to_string(),
            "plan-1".to_string(),
            codes
                .iter()
                .enumerate()
                .map(|(i, c)| TaskResult::new(i as u32 + 1, String::new(), String::new(), *c))
                .collect(),
        )
    };
    assert!(result(&[]).success);
    assert!(result(&[0]).success);
    assert!(result(&[0, 0, 0]).success);
    assert!(!result(&[0, 0, 1]).success);
    assert!(!result(&[2, 0, 0]).success);
    let r = result(&[0, 5]);
    assert_eq!(r.job_id, "job-1");
    assert_eq!(r.plan_id, "plan-1");
    assert_eq!(r.task_results.len(), 2);
    assert_eq!(r.task_results[1].exit_code, 5);
}

#[test]
fn combined_output_of_one_task_has_no_separator() {
    let r = PlanResult::new(
        "j".to_string(),
        "p".to_string(),
        vec![TaskResult::new(1, "only".to_string(), "".to_string(), 0)],
    );
    assert_eq!(r.combined_stdout(), "only");
    assert_eq!(r.combined_stderr(), "");
    let r = PlanResult::new(
        "j".to_string(),
        "p".to_string(),
        vec![
            TaskResult::new(1, "".to_string(), "e1".to_string(), 0),
            TaskResult::new(2, "".to_string(), "".to_string(), 1),
        ],
    );
    assert_eq!(r.combined_stdout(), "\n");
    assert_eq!(r.combined_stderr(), "e1\n");
}

#[test]
fn push_line_keeps_a_line_feed_after_every_line() {
    let mut output = String::new();
    push_line(&mut output, "foo");
    push_line(&mut output, "");
    push_line(&mut output, "bar");
    assert_eq!(output, "foo\n\nbar\n");
}

#[test]
fn run_of_one_task_launches_it_and_finishes() {
    let plan = plan_of(vec![task(1, "echo", &["hello"], None)]);
    let mut run = PlanRun::new("job-123".to_string(), plan);
    assert!(!run.is_finished());
    let launch = launch_of(&run);
    assert_eq!(launch.task_number, 1);
    assert_eq!(launch.command, "echo");
    assert_eq!(launch.args, vec!["hello".to_string()]);
    assert_eq!(launch.stdin, None);
    assert_eq!(launch.timeout_secs, Some(30));
    run.record("hello\n".to_string(), String::new(), Some(0));
    assert!(run.is_finished());
    assert_eq!(run.next_step().unwrap(), None);
    let result = run.finish();
    assert_eq!(result.job_id, "job-123");
    assert_eq!(result.plan_id, "plan-456");
    assert_eq!(result.task_results.len(), 1);
    assert_eq!(result.task_results[0].stdout.trim(), "hello");
    assert_eq!(result.task_results[0].exit_code, 0);
    assert!(result.success);
}

#[test]
fn run_halts_at_the_first_failure() {
    let plan = plan_of(vec![
        task(1, "sh", &["-c", "exit 42"], None),
        task(2, "echo", &["should not run"], None),
    ]);
    let mut run = PlanRun::new("job-123".to_string(), plan);
    assert_eq!(launch_of(&run).task_number, 1);
    run.record(String::new(), "boom\n".to_string(), Some(42));
    assert!(run.is_finished());
    assert_eq!(run.next_step().unwrap(), None);
    let result = run.finish();
    assert_eq!(result.task_results.len(), 1);
    assert_eq!(result.task_results[0].exit_code, 42);
    assert!(!result.task_results[0].success);
    assert!(!result.success);
    assert_eq!(result.combined_stderr(), "boom\n");
}

#[test]
fn run_pipes_the_output_of_the_named_task() {
    let plan = plan_of(vec![
        task(1, "echo", &["foo\nbar\nfoo"], None),
        task(2, "sort", &[], Some(1)),
        task(3, "uniq", &[], Some(2)),
        task(4, "wc", &["-l"], Some(1)),
    ]);
    let mut run = PlanRun::new("job-123".to_string(), plan);
    assert_eq!(launch_of(&run).stdin, None);
    run.record("foo\nbar\nfoo\n".to_string(), String::new(), Some(0));
    let second = launch_of(&run);
    assert_eq!(second.task_number, 2);
    assert_eq!(second.command, "sort");
    assert_eq!(second.stdin, Some("foo\nbar\nfoo\n".to_string()));
    run.record("bar\nfoo\nfoo\n".to_string(), String::new(), Some(0));
    let third = launch_of(&run);
    assert_eq!(third.task_number, 3);
    assert_eq!(third.stdin, Some("bar\nfoo\nfoo\n".to_string()));
    run.record("bar\nfoo\n".to_string(), String::new(), Some(0));
    let fourth = launch_of(&run);
    assert_eq!(fourth.stdin, Some("foo\nbar\nfoo\n".to_string()));
    run.record("3\n".to_string(), String::new(), Some(0));
    assert!(run.is_finished());
    let result = run.finish();
    assert_eq!(result.task_results.len(), 4);
    assert!(result.success);
    let final_output = result.task_results[2].stdout.trim();
    assert!(final_output.contains("bar"));
    assert!(final_output.contains("foo"));
    assert_eq!(
        result.combined_stdout(),
        "foo\nbar\nfoo\n\nbar\nfoo\nfoo\n\nbar\nfoo\n\n3\n"
    );
}

#[test]
fn run_counts_a_task_without_exit_code_as_failed() {
    let mut sleeper = task(1, "sleep", &["10"], None);
    sleeper.timeout_secs = Some(1);
    let plan = plan_of(vec![sleeper, task(2, "echo", &[], None)]);
    let mut run = PlanRun::new("job-123".to_string(), plan);
    assert_eq!(launch_of(&run).timeout_secs, Some(1));
    run.record(String::new(), String::new(), None);
    assert!(run.is_finished());
    let result = run.finish();
    assert_eq!(result.task_results.len(), 1);
    assert_eq!(result.task_results[0].exit_code, -1);
    assert!(!result.task_results[0].success);
    assert!(!result.success);
}

#[test]
fn run_refuses_an_empty_command() {
    let plan = plan_of(vec![task(1, "echo", &[], None), task(2, "", &[], None)]);
    let mut run = PlanRun::new("job-123".to_string(), plan);
    assert!(run.next_step().is_ok());
    run.record(String::new(), String::new(), Some(0));
    assert!(!run.is_finished());
    let e = run.next_step().unwrap_err();
    assert_eq!(e.kind(), ErrorKind::Executor);
    assert_eq!(e.message(), "Command cannot be empty");
    assert_eq!(e.to_string(), "Executor error: Command cannot be empty");
}

#[test]
fn run_of_no_task_is_finished_at_once() {
    let run = PlanRun::new("job-123".to_string(), plan_of(vec![]));
    assert!(run.is_finished());
    assert_eq!(run.next_step().unwrap(), None);
    let result = run.finish();
    assert!(result.task_results.is_empty());
    assert!(result.success);
}

#[test]
fn run_gives_no_input_for_a_task_that_has_not_run() {
    let plan = plan_of(vec![task(1, "cat", &[], Some(5)), task(2, "cat", &[], Some(2))]);
    let mut run = PlanRun::new("job-123".to_string(), plan);
    assert_eq!(launch_of(&run).stdin, None);
    run.record("one\n".to_string(), String::new(), Some(0));
    assert_eq!(launch_of(&run).stdin, None);
}
