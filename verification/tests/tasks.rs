use pulp::tasks::{
    concurrency_limit, exit_status, extract_subdirectory, plan_compress_jobs, refresh_millis, DashboardText,
    TaskDashboard, TaskEvent,
};

fn strings(items: &[&str]) -> Vec<String> {
    items.iter().map(|item| item.to_string()).collect()
}

fn text() -> DashboardText {
    DashboardText {
        running: "running".to_string(),
        finished: "finished".to_string(),
        failed: "failed".to_string(),
        cancelled: "cancelled".to_string(),
        warning_before: "warning: ".to_string(),
        warning_after: String::new(),
        error_before: "error: ".to_string(),
        error_after: "!".to_string(),
    }
}

#[test]
fn zero_concurrency_means_no_practical_limit() {
    assert_eq!(concurrency_limit(0), 1024);
    assert_eq!(concurrency_limit(1), 1);
    assert_eq!(concurrency_limit(8), 8);
}

#[test]
fn one_output_packs_every_input() {
    let jobs = plan_compress_jobs(&strings(&["all.7z"]), &strings(&["a", "b", "c"])).expect("one output");
    assert_eq!(jobs.len(), 1);
    assert_eq!(jobs[0].output, "all.7z");
    assert_eq!(jobs[0].inputs, strings(&["a", "b", "c"]));
}

#[test]
fn several_outputs_pair_with_inputs_by_position() {
    let jobs = plan_compress_jobs(&strings(&["a.zip", "b.zip"]), &strings(&["a", "b"])).expect("paired");
    let pairs: Vec<(Vec<String>, String)> = jobs.into_iter().map(|job| (job.inputs, job.output)).collect();
    assert_eq!(pairs, vec![(strings(&["a"]), "a.zip".to_string()), (strings(&["b"]), "b.zip".to_string())]);
    let refused = plan_compress_jobs(&strings(&["a.zip", "b.zip"]), &strings(&["a", "b", "c"]));
    assert_eq!(refused.unwrap_err(), "When multiple --out are provided, number of inputs must match.");
}

#[test]
fn each_archive_extracts_into_its_own_subdirectory() {
    assert_eq!(extract_subdirectory(Some("photos.tar.gz"), 3), "photos.tar");
    assert_eq!(extract_subdirectory(Some(".hidden"), 3), ".hidden");
    assert_eq!(extract_subdirectory(None, 42), "archive-42");
}

#[test]
fn the_dashboard_lists_tasks_by_number_with_their_state() {
    let mut dashboard = TaskDashboard::new();
    dashboard.apply(TaskEvent::Started { task_id: 7, kind: "List".to_string(), title: "list: a.zip".to_string() });
    dashboard.apply(TaskEvent::BackendSelected { task_id: 7, backend: "sevenz".to_string() });
    dashboard.apply(TaskEvent::EntryStarted { task_id: 7, path: "a.txt".to_string(), processed: 4, total: Some(20) });
    dashboard.apply(TaskEvent::EntryProgress { task_id: 7, path: "a.txt".to_string(), processed: 10, total: None });
    for message in ["w1", "w2", "w3", "w4"] {
        dashboard.apply(TaskEvent::Warning { task_id: 7, message: message.to_string() });
    }
    dashboard.apply(TaskEvent::Failed { task_id: 7, message: "boom".to_string() });
    dashboard.apply(TaskEvent::Started { task_id: 2, kind: "Extract".to_string(), title: "extract: b.zip".to_string() });
    dashboard.apply(TaskEvent::PhaseChanged { task_id: 1234, phase: "Reading".to_string() });
    dashboard.apply(TaskEvent::Finished { task_id: 1234 });
    assert_eq!(dashboard.len(), 3);
    assert_eq!(dashboard.task(0).id, 2);
    let expected = "----\n\
[#  2] running | Extract | extract: b.zip | phase=- | backend=- | 0 | -\n\
[#  7] failed | List | list: a.zip | phase=- | backend=sevenz | 10/20 | a.txt\n\
[#  7] warning: w1\n\
[#  7] warning: w2\n\
[#  7] warning: w3\n\
[#  7] warning: \u{2026} (+1)\n\
[#  7] error: boom!\n\
[#1234] finished | - | - | phase=Reading | backend=- | 0 | -\n";
    assert_eq!(dashboard.render_compact(&text()), expected);
}

#[test]
fn cancellation_outranks_failure_and_completion() {
    let mut dashboard = TaskDashboard::new();
    dashboard.apply(TaskEvent::Finished { task_id: 1 });
    dashboard.apply(TaskEvent::Failed { task_id: 1, message: "late".to_string() });
    dashboard.apply(TaskEvent::Cancelled { task_id: 1 });
    dashboard.apply(TaskEvent::Note { task_id: 1, message: "stopped".to_string() });
    let task = dashboard.task(0);
    assert_eq!(task.status(&text()), "cancelled");
    assert_eq!(task.warnings, strings(&["stopped"]));
    assert_eq!(task.progress(), "0");
}

#[test]
fn dashboard_refreshes_are_spaced_and_failures_set_the_exit_status() {
    assert_eq!(refresh_millis(200), 200);
    assert_eq!(refresh_millis(10), 50);
    assert_eq!(exit_status(&vec![Ok(()), Ok(())]), 0);
    assert_eq!(exit_status(&vec![Ok(()), Err("broken".to_string())]), 1);
    assert_eq!(exit_status(&vec![]), 0);
}
