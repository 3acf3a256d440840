use feedsync::ledger::Ledger;
use feedsync::orchestrator::{download_args, exit_succeeded, DownloadConfig, DownloadTask, TaskState};

fn config() -> DownloadConfig {
    DownloadConfig::new(
        "/data/downloaded.txt".to_string(),
        "/data/videos",
        "/data/cookies.txt".to_string(),
        "/usr/bin".to_string(),
    )
}

#[test]
fn only_the_unrecorded_item_is_downloaded_and_then_recorded() {
    let mut ledger = Ledger::load(Some("youtube ABC\n"));
    let cfg = config();
    let candidates = vec![
        "https://www.youtube.com/watch?v=ABC".to_string(),
        "https://www.youtube.com/watch?v=DEF".to_string(),
    ];
    let mut invoked: Vec<Vec<String>> = Vec::new();
    for url in candidates {
        let mut task = DownloadTask::new(url);
        task.start(&ledger);
        if task.state == TaskState::Running {
            invoked.push(task.args(&cfg));
            task.finish(Some(0), &mut ledger);
            assert_eq!(task.state, TaskState::Succeeded);
        } else {
            assert_eq!(task.state, TaskState::Skipped);
        }
    }
    assert_eq!(invoked.len(), 1);
    assert_eq!(invoked[0].last().unwrap(), "https://www.youtube.com/watch?v=DEF");
    assert!(ledger.contains("DEF"));
    assert!(ledger.contains("ABC"));
    assert_eq!(ledger.len(), 2);
}

#[test]
fn failed_download_leaves_ledger_unchanged() {
    let mut ledger = Ledger::new();
    let mut task = DownloadTask::new("https://youtu.be/Z9".to_string());
    assert_eq!(task.id, Some("Z9".to_string()));
    task.start(&ledger);
    assert_eq!(task.state, TaskState::Running);
    task.finish(Some(1), &mut ledger);
    assert_eq!(task.state, TaskState::Failed);
    assert_eq!(ledger.len(), 0);
}

#[test]
fn item_without_identifier_runs_and_records_nothing() {
    let mut ledger = Ledger::new();
    let mut task = DownloadTask::new("https://example.com/page".to_string());
    assert_eq!(task.id, None);
    task.start(&ledger);
    assert_eq!(task.state, TaskState::Running);
    task.finish(Some(0), &mut ledger);
    assert_eq!(task.state, TaskState::Succeeded);
    assert_eq!(ledger.len(), 0);
}

#[test]
fn signal_termination_is_a_failure() {
    let mut ledger = Ledger::new();
    let mut task = DownloadTask::new("https://youtu.be/S1".to_string());
    task.start(&ledger);
    task.finish(None, &mut ledger);
    assert_eq!(task.state, TaskState::Failed);
    assert!(!ledger.contains("S1"));
}

#[test]
fn exit_codes() {
    assert!(exit_succeeded(Some(0)));
    assert!(!exit_succeeded(Some(1)));
    assert!(!exit_succeeded(Some(-1)));
    assert!(!exit_succeeded(None));
}

#[test]
fn arguments_of_one_invocation() {
    let cfg = config();
    assert_eq!(cfg.output_template, "/data/videos/%(title)s.%(ext)s");
    let args = download_args(&cfg, "https://youtu.be/Q");
    let want: Vec<String> = [
        "--download-archive", "/data/downloaded.txt",
        "-f", "bestvideo[ext=mp4]+bestaudio[ext=m4a]/mp4",
        "--sleep-requests", "5",
        "--match-filters", "!is_live",
        "--ffmpeg-location", "/usr/bin",
        "--cookies", "/data/cookies.txt",
        "-o", "/data/videos/%(title)s.%(ext)s",
        "https://youtu.be/Q",
    ]
    .iter()
    .map(|s| s.to_string())
    .collect();
    assert_eq!(args, want);
}
