use veteran_desktop::download::{DownloadItem, DownloadService, DownloadStatus, TransferOutcome};
use veteran_desktop::game::Game;
use veteran_desktop::transfer::RcloneService;

fn sample_game(package_name: &str) -> Game {
    Game {
        game_name: "Sample Game".to_string(),
        release_name: format!("Sample Release {}", package_name),
        package_name: package_name.to_string(),
        version_code: "1".to_string(),
        release_apk_path: String::new(),
        version_name: "1.0.0".to_string(),
        downloads: "1000".to_string(),
        size: "500 MB".to_string(),
        last_updated: "2024-01-01".to_string(),
        thumbnail_path: String::new(),
        thumbnail_exists: false,
        note_path: String::new(),
        note_excerpt: String::new(),
        note_exists: false,
        popularity_rank: 1,
        is_new: false,
    }
}

fn sample_game_with_release(package_name: &str, release_name: &str) -> Game {
    Game {
        release_name: release_name.to_string(),
        ..sample_game(package_name)
    }
}

fn order(service: &DownloadService) -> Vec<String> {
    service
        .queue()
        .iter()
        .map(|item| item.game.package_name.clone())
        .collect()
}

#[test]
fn add_to_queue_rejects_duplicates() {
    let mut service = DownloadService::new("/tmp/downloads");
    assert!(service.add_to_queue(sample_game("com.test")));
    assert!(!service.add_to_queue(sample_game("com.test")));
    assert_eq!(service.queue().len(), 1);
}

#[test]
fn remove_from_queue_removes_non_downloading_item() {
    let mut service = DownloadService::new("/tmp/downloads");
    service.add_to_queue(sample_game("com.one"));
    service.add_to_queue(sample_game("com.two"));
    assert!(service.remove_from_queue("com.one"));
    assert_eq!(service.queue().len(), 1);
    assert_eq!(service.queue()[0].game.package_name, "com.two");
}

#[test]
fn reorder_queue_changes_item_position() {
    let mut service = DownloadService::new("/tmp/downloads");
    service.add_to_queue(sample_game("com.one"));
    service.add_to_queue(sample_game("com.two"));
    service.add_to_queue(sample_game("com.three"));
    assert!(service.reorder_queue("com.three", 0));
    assert_eq!(order(&service), vec!["com.three", "com.one", "com.two"]);
}

#[test]
fn test_download_service_add_to_queue_basic() {
    let mut service = DownloadService::new("/tmp/downloads");
    let game = sample_game("com.test.game");
    let result = service.add_to_queue(game.clone());
    assert!(result, "Adding a new game to queue should return true");
    assert_eq!(service.queue().len(), 1);
    assert_eq!(service.queue()[0].game.package_name, "com.test.game");
    assert_eq!(service.queue()[0].status, DownloadStatus::Queued);
    assert!(!service.queue()[0].operation_id.is_empty(), "Operation ID should be generated");
}

#[test]
fn test_download_service_add_to_queue_prevents_duplicates() {
    let mut service = DownloadService::new("/tmp/downloads");
    let game1 = sample_game("com.test.game");
    let game2 = sample_game_with_release("com.test.game", "Different Release");
    let first_add = service.add_to_queue(game1);
    let second_add = service.add_to_queue(game2);
    assert!(first_add, "First add should succeed");
    assert!(!second_add, "Adding duplicate package_name should return false");
    assert_eq!(service.queue().len(), 1, "Queue should only contain one item");
}

#[test]
fn test_download_service_add_to_queue_different_packages_allowed() {
    let mut service = DownloadService::new("/tmp/downloads");
    assert!(service.add_to_queue(sample_game("com.test.game1")));
    assert!(service.add_to_queue(sample_game("com.test.game2")));
    assert!(service.add_to_queue(sample_game("com.test.game3")));
    assert_eq!(service.queue().len(), 3);
}

#[test]
fn test_download_service_remove_from_queue_success() {
    let mut service = DownloadService::new("/tmp/downloads");
    service.add_to_queue(sample_game("com.test.game1"));
    service.add_to_queue(sample_game("com.test.game2"));
    service.add_to_queue(sample_game("com.test.game3"));
    let removed = service.remove_from_queue("com.test.game2");
    assert!(removed, "Remove should return true when item exists");
    assert_eq!(service.queue().len(), 2);
    assert_eq!(order(&service), vec!["com.test.game1", "com.test.game3"]);
}

#[test]
fn test_download_service_remove_from_queue_nonexistent() {
    let mut service = DownloadService::new("/tmp/downloads");
    service.add_to_queue(sample_game("com.test.game1"));
    let removed = service.remove_from_queue("com.nonexistent");
    assert!(!removed, "Remove should return false when item doesn't exist");
    assert_eq!(service.queue().len(), 1);
}

#[test]
fn remove_keeps_a_downloading_item() {
    let mut service = DownloadService::new("/tmp/downloads");
    service.add_to_queue(sample_game("com.a"));
    service.add_to_queue(sample_game("com.b"));
    assert!(service.begin_processing());
    let started = service.start_next().unwrap();
    assert_eq!(started.game.package_name, "com.a");
    assert_eq!(started.status, DownloadStatus::Downloading);
    assert!(!service.remove_from_queue("com.a"));
    assert_eq!(service.queue().len(), 2);
    assert!(service.remove_from_queue("com.b"));
    assert_eq!(order(&service), vec!["com.a"]);
}

#[test]
fn test_download_service_reorder_queue_basic() {
    let mut service = DownloadService::new("/tmp/downloads");
    service.add_to_queue(sample_game("com.first"));
    service.add_to_queue(sample_game("com.second"));
    service.add_to_queue(sample_game("com.third"));
    let reordered = service.reorder_queue("com.third", 0);
    assert!(reordered, "Reorder should return true when successful");
    assert_eq!(order(&service), vec!["com.third", "com.first", "com.second"]);
}

#[test]
fn test_download_service_reorder_queue_to_end() {
    let mut service = DownloadService::new("/tmp/downloads");
    service.add_to_queue(sample_game("com.first"));
    service.add_to_queue(sample_game("com.second"));
    service.add_to_queue(sample_game("com.third"));
    assert!(service.reorder_queue("com.first", 10));
    assert_eq!(order(&service), vec!["com.second", "com.third", "com.first"]);
}

#[test]
fn test_download_service_reorder_queue_nonexistent() {
    let mut service = DownloadService::new("/tmp/downloads");
    service.add_to_queue(sample_game("com.first"));
    service.add_to_queue(sample_game("com.second"));
    let reordered = service.reorder_queue("com.nonexistent", 0);
    assert!(!reordered, "Reorder should return false for nonexistent package");
    assert_eq!(order(&service), vec!["com.first", "com.second"]);
}

#[test]
fn test_download_service_get_download_dir() {
    let service = DownloadService::new("/tmp/downloads");
    let game = sample_game_with_release("com.test", "My Game v1+abc123");
    let download_dir = service.get_download_dir(&game);
    assert!(download_dir.starts_with("/tmp/downloads/"));
    let dir_name = download_dir.rsplit('/').next().unwrap();
    assert_eq!(dir_name.len(), 32, "Directory name should be MD5 hash (32 hex chars)");
}

#[test]
fn test_download_service_is_processing_initial_state() {
    let service = DownloadService::new("/tmp/downloads");
    assert!(!service.is_processing(), "Processing should be false initially");
}

#[test]
fn test_download_service_download_dir_accessor() {
    let service = DownloadService::new("/tmp/downloads");
    assert_eq!(service.download_dir(), "/tmp/downloads");
}

#[test]
fn test_download_service_queue_accessor() {
    let mut service = DownloadService::new("/tmp/downloads");
    assert!(service.queue().is_empty());
    service.add_to_queue(sample_game("com.test"));
    assert_eq!(service.queue().len(), 1);
}

#[test]
fn test_download_service_cancel_current_no_active_download() {
    let mut service = DownloadService::new("/tmp/downloads");
    service.add_to_queue(sample_game("com.test"));
    assert!(!service.cancel_current(), "Should return false when no active download");
}

#[test]
fn test_download_item_creation() {
    let game = sample_game("com.test");
    let item = DownloadItem::new(game.clone());
    assert!(!item.operation_id.is_empty());
    assert_eq!(item.game.package_name, game.package_name);
    assert_eq!(item.status, DownloadStatus::Queued);
    assert_eq!(item.progress.percent_hundredths, 0);
    assert!(item.error.is_empty());
}

#[test]
fn test_download_item_game_hash() {
    let game = sample_game_with_release("com.test", "Game v1+abcdef123");
    let item = DownloadItem::new(game);
    assert_eq!(item.game_hash().len(), 32);
}

#[test]
fn test_download_status_equality() {
    assert_eq!(DownloadStatus::Queued, DownloadStatus::Queued);
    assert_eq!(DownloadStatus::Downloading, DownloadStatus::Downloading);
    assert_eq!(DownloadStatus::Completed, DownloadStatus::Completed);
    assert_eq!(DownloadStatus::Failed, DownloadStatus::Failed);
    assert_eq!(DownloadStatus::Cancelled, DownloadStatus::Cancelled);

    assert_ne!(DownloadStatus::Queued, DownloadStatus::Downloading);
    assert_ne!(DownloadStatus::Completed, DownloadStatus::Failed);
}

#[test]
fn test_download_item_clone() {
    let item = DownloadItem::new(sample_game("com.test"));
    let cloned = item.clone();
    assert_eq!(item.operation_id, cloned.operation_id);
    assert_eq!(item.game.package_name, cloned.game.package_name);
    assert_eq!(item.status, cloned.status);
}

#[test]
fn test_download_service_process_queue_prevents_concurrent() {
    let mut service = DownloadService::new("/tmp/downloads");
    assert!(service.begin_processing());
    assert!(!service.begin_processing());
    assert!(service.is_processing());
}

#[test]
fn test_download_service_process_queue_empty() {
    let mut service = DownloadService::new("/tmp/downloads");
    assert!(service.begin_processing());
    assert!(service.start_next().is_none());
    assert!(!service.is_processing());
}

#[test]
fn scheduler_settles_each_outcome() {
    let mut service = DownloadService::new("/tmp/downloads");
    for p in ["a", "b", "c", "d"] {
        service.add_to_queue(sample_game(p));
    }
    assert!(service.begin_processing());

    let a = service.start_next().unwrap();
    let tick = RcloneService::parse_rc_stats(50, 100, 2048, 30);
    let seen = service.update_progress("a", tick).unwrap();
    assert_eq!(seen.progress.percent_hundredths, 5000);
    let done = service.finish_download(&a.game.package_name, TransferOutcome::Success).unwrap();
    assert_eq!(done.status, DownloadStatus::Completed);
    assert_eq!(done.progress.percent_hundredths, 10000);

    service.start_next().unwrap();
    let failed = service
        .finish_download("b", TransferOutcome::BackendFailure("boom".to_string()))
        .unwrap();
    assert_eq!(failed.status, DownloadStatus::Failed);
    assert_eq!(failed.error, "boom");

    service.start_next().unwrap();
    assert!(service.cancel_current());
    let kept = service
        .finish_download("c", TransferOutcome::TransportError("lost".to_string()))
        .unwrap();
    assert_eq!(kept.status, DownloadStatus::Cancelled);
    assert!(kept.error.is_empty());

    service.start_next().unwrap();
    let err = service
        .finish_download("d", TransferOutcome::TransportError("lost".to_string()))
        .unwrap();
    assert_eq!(err.status, DownloadStatus::Failed);
    assert_eq!(err.error, "lost");

    assert!(service.start_next().is_none());
    assert!(!service.is_processing());
}
