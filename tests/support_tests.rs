use veteran_desktop::binary_paths::{adb, rclone, resolve, sevenz};
use veteran_desktop::catalog::{paginate, CatalogService};
use veteran_desktop::config::{ConfigError, ConfigService, PublicConfig};
use veteran_desktop::download::{map_download_status, DownloadStatus};
use veteran_desktop::logger::{debug, drain_logs, log, LogBuffer, LogLevel};
use veteran_desktop::responses::DeviceInfo;

#[test]
fn test_device_info_creation() {
    let device = DeviceInfo {
        serial: "test123".to_string(),
        state: "device".to_string(),
        model: "Quest_3".to_string(),
        product: "hollywood".to_string(),
        is_selected: false,
        is_connected: true,
    };
    assert_eq!(device.serial, "test123");
    assert_eq!(device.state, "device");
    assert_eq!(device.model, "Quest_3");
    assert_eq!(device.product, "hollywood");
}

#[test]
fn test_valid_config() {
    // "secret_password" in standard base64.
    let config = PublicConfig::from_fields(
        Some("https://example.com/"),
        Some("c2VjcmV0X3Bhc3N3b3Jk"),
    )
    .unwrap();
    assert_eq!(config.base_uri, "https://example.com/");
    assert_eq!(config.password, "secret_password");
}

#[test]
fn test_invalid_base64() {
    let result = PublicConfig::from_fields(Some("https://example.com/"), Some("not_base64!!!"));
    assert!(matches!(result, Err(ConfigError::Base64Error)));
}

#[test]
fn test_missing_fields_defaults() {
    let config = PublicConfig::from_fields(None, None).unwrap();
    assert_eq!(config.base_uri, "");
    assert_eq!(config.password, "");
}

#[test]
fn password_must_decode_to_utf8() {
    // 0xff 0xfe is not UTF-8.
    let result = PublicConfig::from_fields(None, Some("//4="));
    assert!(matches!(result, Err(ConfigError::Utf8Error)));
}

#[test]
fn config_cache_path() {
    assert_eq!(ConfigService::new("/c").cache_path(), "/c/vrp-public.json");
}

#[test]
fn binary_resolution() {
    assert_eq!(adb(Some("/res"), true), "/res/adb");
    assert_eq!(adb(Some("/res"), false), "adb");
    assert_eq!(rclone(None, true), "rclone");
    assert_eq!(sevenz(Some("/res/"), true), "/res/7z");
    assert_eq!(resolve(Some("/r"), true, "tool"), "/r/tool");
}

#[test]
fn log_buffer_caps_and_drains_in_order() {
    let mut buffer = LogBuffer::new();
    log(&mut buffer, "one");
    debug(&mut buffer, "two");
    buffer.log_with_level("three", LogLevel::Error);
    assert_eq!(drain_logs(&mut buffer, 2), vec!["[INFO] one", "[DEBUG] two"]);
    assert_eq!(drain_logs(&mut buffer, 10), vec!["[ERROR] three"]);
    assert!(drain_logs(&mut buffer, 10).is_empty());
    for i in 0..1005 {
        log(&mut buffer, &format!("m{}", i));
    }
    let all = drain_logs(&mut buffer, 5000);
    assert_eq!(all.len(), 1000);
    assert_eq!(all[0], "[INFO] m5");
    assert_eq!(LogLevel::Warn.as_str(), "WARN");
}

#[test]
fn status_names() {
    assert_eq!(map_download_status(DownloadStatus::Queued), "queued");
    assert_eq!(map_download_status(DownloadStatus::Cancelled), "cancelled");
}

#[test]
fn pages_of_a_listing() {
    let games = CatalogService::parse_game_list_content("h\nA;r;a;1\nB;r;b;1\nC;r;c;1");
    let (page, total) = paginate(games.clone(), 2, 1);
    assert_eq!(total, 3);
    assert_eq!(page.len(), 2);
    assert_eq!(page[0].package_name, "b");
    let (empty, _) = paginate(games, 5, 9);
    assert!(empty.is_empty());
}
