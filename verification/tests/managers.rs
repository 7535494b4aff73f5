use mediaforge::ConversionManager;
use mediaforge::ConversionType;
use mediaforge::ConvertRequest;
use mediaforge::DownloadManager;
use mediaforge::DownloadRequest;
use mediaforge::DownloadType;
use mediaforge::FileStatus;
use mediaforge::MediaFormat;
use mediaforge::MediaForgeError;
use mediaforge::ProgressInfo;
use mediaforge::SupervisionOutcome;
use mediaforge::TaskStatus;
use mediaforge::TaskUpdate;

const HOME: &str = "/home/user";
const CWD: &str = "/work";

fn download_request(urls: Vec<&str>) -> DownloadRequest {
    DownloadRequest {
        urls: urls.into_iter().map(|u| u.to_string()).collect(),
        download_type: DownloadType::Bulk,
        format: MediaFormat::Mp4,
        quality: None,
        audio_quality: None,
        download_path: "/tmp/media".to_string(),
        trim: None,
    }
}

#[test]
fn test_download_manager_task_handles() {
    let mut manager = DownloadManager::new();

    // Create a task
    let task_id = manager.create_task("Test Task".to_string());

    // Verify initial state
    assert_eq!(manager.supervision_count(), 0);

    // Simulate adding a supervision record
    manager.register_supervision(task_id);

    // Verify the record was added
    assert_eq!(manager.supervision_count(), 1);
    assert!(manager.is_supervised(task_id));

    // Test cleanup - remove the record
    manager.unregister_supervision(task_id);
    assert_eq!(manager.supervision_count(), 0);
}

#[test]
fn test_race_condition_prevention() {
    let mut manager = DownloadManager::new();

    // Create a task
    let task_id = manager.create_task("Test Task".to_string());

    // Set task to Downloading status before any supervised work runs
    manager.update_task(task_id, TaskUpdate::Activated(TaskStatus::Downloading));

    // Verify status was set before any async operations
    let task = manager.get_task(task_id).expect("Task should exist");
    assert_eq!(task.status, TaskStatus::Downloading);

    // Simulate completion and cleanup
    manager.update_task(task_id, TaskUpdate::Completed(None));

    // Verify final state: complete, at 100% (10000 hundredths of a percent)
    let task = manager.get_task(task_id).expect("Task should exist");
    assert_eq!(task.status, TaskStatus::Completed);
    assert_eq!(task.progress, 10000);
}

#[test]
fn test_conversion_manager_task_handles() {
    let mut manager = ConversionManager::new();

    // Create a task
    let task_id = manager.create_task("Test Conversion".to_string());

    // Verify initial state
    assert_eq!(manager.supervision_count(), 0);

    // Simulate adding a supervision record
    manager.register_supervision(task_id);

    // Verify the record was added
    assert_eq!(manager.supervision_count(), 1);
    assert!(manager.is_supervised(task_id));

    // Test cleanup - remove the record
    manager.unregister_supervision(task_id);
    assert_eq!(manager.supervision_count(), 0);
}

#[test]
fn test_child_process_cleanup() {
    let mut manager = ConversionManager::new();

    // Create a task
    let task_id = manager.create_task("Test Process Cleanup".to_string());

    // Set task to Processing status (simulating process lifecycle)
    manager.update_task(task_id, TaskUpdate::Activated(TaskStatus::Processing));

    // Verify status was set before any async operations
    let task = manager.get_task(task_id).expect("Task should exist");
    assert_eq!(task.status, TaskStatus::Processing);

    // Simulate completion and cleanup
    manager.update_task(task_id, TaskUpdate::Completed(None));

    // Verify final state
    let task = manager.get_task(task_id).expect("Task should exist");
    assert_eq!(task.status, TaskStatus::Completed);
    assert_eq!(task.progress, 10000);
}

#[test]
fn test_cancel_conversion_task() {
    let mut manager = ConversionManager::new();

    // Create a task
    let task_id = manager.create_task("Test Cancellation".to_string());

    // Cancelling a task that is not running succeeds against the registry.
    let was_running = manager.cancel_task(task_id);
    assert!(!was_running);

    // Verify task was marked as cancelled
    let task = manager.get_task(task_id).expect("task should exist");
    assert_eq!(task.status, TaskStatus::Cancelled);
    assert!(task.error.is_some());
}

#[test]
fn submit_three_items_yields_three_active_supervised_tasks() {
    let mut manager = DownloadManager::new();
    let request = download_request(vec![
        "https://www.youtube.com/watch?v=dQw4w9WgXcQ",
        "https://youtu.be/abcdefghijk",
        "https://www.youtube.com/shorts/AAAAAAAAAAA",
    ]);
    let ids = manager.start_download(&request, HOME, CWD).expect("submission succeeds");
    assert_eq!(ids.len(), 3);
    assert!(ids[0] != ids[1] && ids[1] != ids[2] && ids[0] != ids[2]);
    for id in &ids {
        let task = manager.get_task(*id).expect("task exists right away");
        // Active immediately - never observed as Queued.
        assert_eq!(task.status, TaskStatus::Downloading);
        assert_eq!(task.progress, 0);
        assert!(manager.is_supervised(*id));
    }
    let all = manager.get_all_tasks();
    assert_eq!(all.len(), 3);
    assert_eq!(all[0].name, "Downloading from https://www.youtube.com/watch?v=dQw4w9WgXcQ");
}

#[test]
fn submit_rejects_bad_destination_before_any_task() {
    let mut manager = DownloadManager::new();
    let mut request = download_request(vec!["https://youtu.be/abcdefghijk"]);
    request.download_path = "/etc/media".to_string();
    let r = manager.start_download(&request, HOME, CWD);
    assert!(matches!(r, Err(MediaForgeError::InvalidSettings(_))));
    assert_eq!(manager.get_all_tasks().len(), 0);
}

#[test]
fn submit_rejects_bad_url_before_any_task() {
    let mut manager = DownloadManager::new();
    let request = download_request(vec![
        "https://youtu.be/abcdefghijk",
        "https://evil.com/watch?v=dQw4w9WgXcQ",
        "https://youtu.be/abcdefghijk",
    ]);
    let r = manager.start_download(&request, HOME, CWD);
    assert!(matches!(r, Err(MediaForgeError::InvalidUrl(_))));
    // The whole batch was validated eagerly: no task was created for any
    // item, not even the valid one before the failing URL.
    assert_eq!(manager.get_all_tasks().len(), 0);
    assert_eq!(manager.supervision_count(), 0);
}

#[test]
fn progress_is_clamped_and_monotone_while_active() {
    let mut manager = DownloadManager::new();
    let id = manager.create_task("clip".to_string());
    manager.update_task(id, TaskUpdate::Activated(TaskStatus::Downloading));

    manager.update_task(
        id,
        TaskUpdate::Progress(ProgressInfo { percentage: 5000, speed: None, eta: None }),
    );
    assert_eq!(manager.get_task(id).unwrap().progress, 5000);

    // A late, lower report never lowers progress.
    manager.update_task(
        id,
        TaskUpdate::Progress(ProgressInfo { percentage: 3000, speed: None, eta: None }),
    );
    assert_eq!(manager.get_task(id).unwrap().progress, 5000);

    // An untrusted value above 100% is clamped into range.
    manager.update_task(
        id,
        TaskUpdate::Progress(ProgressInfo { percentage: 60000, speed: None, eta: None }),
    );
    assert_eq!(manager.get_task(id).unwrap().progress, 10000);
}

#[test]
fn terminal_tasks_are_frozen() {
    let mut manager = DownloadManager::new();
    let id = manager.create_task("clip".to_string());
    manager.update_task(id, TaskUpdate::Activated(TaskStatus::Downloading));
    manager.finish_task(id, SupervisionOutcome::Completed(Some("/tmp/a.mp4".to_string())));

    let done = manager.get_task(id).unwrap();
    assert_eq!(done.status, TaskStatus::Completed);
    assert_eq!(done.progress, 10000);
    assert_eq!(done.file_path.as_deref(), Some("/tmp/a.mp4"));

    // A late progress callback changes nothing.
    manager.update_task(
        id,
        TaskUpdate::Progress(ProgressInfo {
            percentage: 100,
            speed: Some("1MiB/s".to_string()),
            eta: Some("00:01".to_string()),
        }),
    );
    let after = manager.get_task(id).unwrap();
    assert_eq!(after.status, TaskStatus::Completed);
    assert_eq!(after.progress, 10000);
    assert!(after.error.is_none());
    assert!(after.speed.is_none());

    // Neither does a late failure, cancellation or pause.
    manager.update_task(id, TaskUpdate::Failed("late".to_string()));
    manager.update_task(id, TaskUpdate::Cancelled("late".to_string()));
    manager.update_task(id, TaskUpdate::Paused);
    let after = manager.get_task(id).unwrap();
    assert_eq!(after.status, TaskStatus::Completed);
    assert!(after.error.is_none());
}

#[test]
fn cancel_without_record_is_a_successful_noop_on_the_record() {
    let mut manager = DownloadManager::new();
    let id = manager.create_task("clip".to_string());
    manager.update_task(id, TaskUpdate::Activated(TaskStatus::Downloading));
    // No supervision record (the execution already finished and removed it).
    let was_running = manager.cancel_task(id);
    assert!(!was_running);
    let task = manager.get_task(id).unwrap();
    assert_eq!(task.status, TaskStatus::Cancelled);
    assert_eq!(task.error.as_deref(), Some("Task cancelled by user"));
    // Cancelling again is tolerated and changes nothing further.
    let was_running = manager.cancel_task(id);
    assert!(!was_running);
    assert_eq!(manager.get_task(id).unwrap().status, TaskStatus::Cancelled);
}

#[test]
fn cancel_running_task_drops_the_record() {
    let mut manager = DownloadManager::new();
    let request = download_request(vec!["https://youtu.be/abcdefghijk"]);
    let ids = manager.start_download(&request, HOME, CWD).unwrap();
    assert!(manager.is_supervised(ids[0]));
    let was_running = manager.cancel_task(ids[0]);
    assert!(was_running);
    assert!(!manager.is_supervised(ids[0]));
    assert_eq!(manager.get_task(ids[0]).unwrap().status, TaskStatus::Cancelled);
}

#[test]
fn finish_task_reconciles_each_outcome() {
    let mut manager = DownloadManager::new();

    let failed = manager.create_task("a".to_string());
    manager.update_task(failed, TaskUpdate::Activated(TaskStatus::Downloading));
    manager.register_supervision(failed);
    manager.finish_task(
        failed,
        SupervisionOutcome::Failed(MediaForgeError::YtDlpError("exit 9".to_string())),
    );
    let t = manager.get_task(failed).unwrap();
    assert_eq!(t.status, TaskStatus::Failed);
    assert_eq!(t.error.as_deref(), Some("yt-dlp error: exit 9"));
    assert!(!manager.is_supervised(failed));

    let timed = manager.create_task("b".to_string());
    manager.register_supervision(timed);
    manager.finish_task(timed, SupervisionOutcome::TimedOut);
    let t = manager.get_task(timed).unwrap();
    assert_eq!(t.status, TaskStatus::Failed);
    assert_eq!(t.error.as_deref(), Some("Download timed out after 1 hour"));

    let cancelled = manager.create_task("c".to_string());
    manager.register_supervision(cancelled);
    manager.finish_task(cancelled, SupervisionOutcome::Cancelled);
    let t = manager.get_task(cancelled).unwrap();
    assert_eq!(t.status, TaskStatus::Cancelled);
    assert_eq!(t.error.as_deref(), Some("Task was cancelled by user"));
}

#[test]
fn conversion_timeout_has_its_own_ceiling_message() {
    let mut manager = ConversionManager::new();
    let id = manager.create_task("conv".to_string());
    manager.register_supervision(id);
    manager.finish_task(id, SupervisionOutcome::TimedOut);
    let t = manager.get_task(id).unwrap();
    assert_eq!(t.status, TaskStatus::Failed);
    assert_eq!(t.error.as_deref(), Some("Conversion timed out after 2 hours"));
}

#[test]
fn pause_flips_the_flag_only() {
    let mut manager = DownloadManager::new();
    let id = manager.create_task("clip".to_string());
    manager.update_task(id, TaskUpdate::Activated(TaskStatus::Downloading));
    assert!(manager.pause_task(id).is_ok());
    assert_eq!(manager.get_task(id).unwrap().status, TaskStatus::Paused);
    // Pausing a finished task leaves it finished.
    manager.update_task(id, TaskUpdate::Completed(None));
    assert!(manager.pause_task(id).is_ok());
    assert_eq!(manager.get_task(id).unwrap().status, TaskStatus::Completed);
}

#[test]
fn remove_task_tolerates_races() {
    let mut manager = DownloadManager::new();
    let id = manager.create_task("clip".to_string());
    manager.remove_task(id);
    assert!(manager.get_task(id).is_none());
    // Removing again, and updating after removal, are harmless no-ops.
    manager.remove_task(id);
    manager.update_task(id, TaskUpdate::Paused);
    assert!(manager.get_task(id).is_none());
}

#[test]
fn destination_update_renames_the_task() {
    let mut manager = DownloadManager::new();
    let id = manager.create_task("clip".to_string());
    manager.update_task(id, TaskUpdate::Activated(TaskStatus::Downloading));
    manager.update_task(id, TaskUpdate::Destination("/tmp/final.mp4".to_string()));
    let t = manager.get_task(id).unwrap();
    assert_eq!(t.name, "/tmp/final.mp4");
    assert_eq!(t.file_path.as_deref(), Some("/tmp/final.mp4"));
}

#[test]
fn start_conversion_validates_each_item() {
    let mut manager = ConversionManager::new();
    let request = ConvertRequest {
        input_files: vec!["/data/a.png".to_string(), "/data/b.jpg".to_string()],
        conversion_type: ConversionType::Image,
        output_format: "png".to_string(),
        output_path: "/tmp/out".to_string(),
        video_settings: None,
        audio_settings: None,
        image_settings: None,
    };
    let statuses = vec![
        FileStatus { exists: true, is_file: true },
        FileStatus { exists: true, is_file: true },
    ];
    let ids = manager.start_conversion(&request, &statuses, HOME, CWD).expect("valid batch");
    assert_eq!(ids.len(), 2);
    for id in &ids {
        let t = manager.get_task(*id).unwrap();
        assert_eq!(t.status, TaskStatus::Processing);
        assert!(manager.is_supervised(*id));
    }
    assert_eq!(manager.get_all_tasks()[0].name, "Converting a.png");

    // A missing file rejects the batch, before any further task is created.
    let before = manager.get_all_tasks().len();
    let statuses2 = vec![
        FileStatus { exists: false, is_file: false },
        FileStatus { exists: true, is_file: true },
    ];
    let r = manager.start_conversion(&request, &statuses2, HOME, CWD);
    assert!(matches!(r, Err(MediaForgeError::FileSystemError(_))));
    assert_eq!(manager.get_all_tasks().len(), before);

    // An unsupported output format rejects image work.
    let mut bad = request.clone();
    bad.output_format = "webm".to_string();
    let r = manager.start_conversion(&bad, &statuses, HOME, CWD);
    assert!(matches!(r, Err(MediaForgeError::InvalidSettings(_))));

    // A bad output directory rejects the whole batch.
    let mut bad_dest = request.clone();
    bad_dest.output_path = "/proc/x".to_string();
    let r = manager.start_conversion(&bad_dest, &statuses, HOME, CWD);
    assert!(matches!(r, Err(MediaForgeError::InvalidSettings(_))));
}
