//! Typed results of the operations the user interface invokes.
use vstd::prelude::*;

verus! {

/// Generic success/error response for simple operations
#[derive(Debug, Clone)]
pub struct OperationResult {
    pub success: bool,
    pub message: Option<String>,
}

/// Generic boolean result with optional data
#[derive(Debug, Clone)]
pub struct BoolResult {
    pub value: bool,
}

/// Response with a single string value
#[derive(Debug, Clone)]
pub struct StringResult {
    pub value: String,
}

/// Paginated response wrapper
#[derive(Debug, Clone)]
pub struct PaginatedResponse<T> {
    pub items: Vec<T>,
    pub total: u32,
    pub offset: u32,
    pub limit: u32,
}

#[derive(Debug, Clone)]
pub struct BackendReadyState {
    pub ready: bool,
    pub pid: Option<u32>,
    pub version: Option<String>,
}

#[derive(Debug, Clone)]
pub struct BackendRecoverResult {
    pub recovered: bool,
    pub message: Option<String>,
}

#[derive(Debug, Clone)]
pub struct SettingsResponse {
    pub download_dir: String,
    pub auto_install: bool,
    pub auto_backup: bool,
    pub backup_dir: String,
    pub theme: String,
    pub language: String,
    pub enable_notifications: bool,
    pub concurrent_downloads: u32,
    pub favorited_games: Vec<String>,
    pub wireless_auto_reconnect: bool,
}

#[derive(Debug, Clone)]
pub struct SettingsUpdateResponse {
    pub updated: bool,
    pub settings: SettingsResponse,
}

/// A game in catalog search results (condensed view)
#[derive(Debug, Clone)]
pub struct CatalogSearchGame {
    pub package_name: String,
    pub release_name: String,
    pub game_name: String,
    pub version_code: String,
    pub version_name: String,
    pub size: String,
    pub last_updated: String,
    pub downloads: String,
}

#[derive(Debug, Clone)]
pub struct CatalogSearchResult {
    pub games: Vec<CatalogSearchGame>,
    pub total: u32,
    pub offset: u32,
    pub limit: u32,
    pub query: String,
}

/// Full game details (used when fetching single game)
#[derive(Debug, Clone)]
pub struct CatalogGameDetail {
    pub game_name: String,
    pub release_name: String,
    pub package_name: String,
    pub version_code: String,
    pub version_name: String,
    pub size: String,
    pub last_updated: String,
    pub downloads: String,
    pub release_apk_path: String,
    pub thumbnail_path: String,
    pub thumbnail_exists: bool,
    pub note_path: String,
    pub note_excerpt: String,
    pub note_exists: bool,
}

#[derive(Debug, Clone)]
pub struct CatalogGameVersions {
    pub games: Vec<CatalogSearchGame>,
}

#[derive(Debug, Clone)]
pub struct CatalogThumbnailPath {
    pub thumbnail_path: String,
    pub thumbnail_exists: bool,
}

#[derive(Debug, Clone)]
pub struct CatalogNote {
    pub note: String,
}

/// A game in the library view (with UI-specific fields)
#[derive(Debug, Clone)]
pub struct LibraryGame {
    pub package_name: String,
    pub release_name: String,
    pub game_name: String,
    pub size: String,
    pub last_updated: String,
    pub version_code: String,
    pub downloads: String,
    pub is_favorite: bool,
    pub is_new: bool,
    pub popularity_rank: i32,
    pub is_downloaded: bool,
}

#[derive(Debug, Clone)]
pub struct LibraryResult {
    pub games: Vec<LibraryGame>,
    pub total: u32,
    pub offset: u32,
    pub limit: u32,
    pub query: String,
    pub sort_by: String,
    pub sort_ascending: bool,
    pub filter: String,
    pub favorites_count: u32,
}

#[derive(Debug, Clone)]
pub struct FavoritesToggleResult {
    pub package_name: String,
    pub is_favorite: bool,
    pub favorites: Vec<String>,
}

#[derive(Debug, Clone)]
pub struct DownloadQueueAddResult {
    pub added: bool,
    pub retried: bool,
    pub package_name: String,
    pub queue_length: u32,
    pub reason: Option<String>,
}

#[derive(Debug, Clone)]
pub struct DownloadQueueRemoveResult {
    pub removed: bool,
    pub package_name: String,
}

#[derive(Debug, Clone)]
pub struct DownloadStartResult {
    pub started: bool,
}

#[derive(Debug, Clone)]
pub struct DownloadCancelResult {
    pub cancelled: bool,
}

#[derive(Debug, Clone)]
pub struct DownloadRetryResult {
    pub retried: bool,
}

#[derive(Debug, Clone)]
pub struct DownloadOpenFolderResult {
    pub opened: bool,
}

#[derive(Debug, Clone)]
pub struct InstallGameResult {
    pub operation_id: String,
    pub package_name: String,
}

#[derive(Debug, Clone)]
pub struct InstallCancelResult {
    pub cancelled: bool,
}

#[derive(Debug, Clone)]
pub struct InstallLocalResult {
    pub success: bool,
    pub message: String,
}

#[derive(Debug, Clone)]
pub struct AppVersionResult {
    pub version_code: String,
    pub version_name: String,
}

#[derive(Debug, Clone)]
pub struct UninstallResult {
    pub uninstalled: bool,
    pub package_name: String,
    pub message: Option<String>,
}

#[derive(Debug, Clone)]
pub struct DeviceInfo {
    pub serial: String,
    pub state: String,
    pub model: String,
    pub product: String,
    pub is_selected: bool,
    pub is_connected: bool,
}

#[derive(Debug, Clone)]
pub struct DeviceKeepAwake {
    pub enabled: bool,
    pub interval_seconds: u32,
    pub active_count: u32,
    pub active_operation_ids: Vec<String>,
}

#[derive(Debug, Clone)]
pub struct DeviceClearSelectionResult {
    pub cleared: bool,
}

#[derive(Debug, Clone)]
pub struct WirelessConnectResult {
    pub connected: bool,
    pub endpoint: String,
    pub message: String,
}

#[derive(Debug, Clone)]
pub struct WirelessDisconnectResult {
    pub disconnected: bool,
    pub message: String,
}

#[derive(Debug, Clone)]
pub struct WirelessReconnectResult {
    pub reconnected: bool,
    pub endpoint: Option<String>,
    pub message: String,
}

#[derive(Debug, Clone)]
pub struct WirelessEnableTcpipResult {
    pub success: bool,
    pub ip_address: Option<String>,
    pub message: String,
}

#[derive(Debug, Clone)]
pub struct WirelessScanResult {
    pub devices: Vec<String>,
    pub message: String,
}

#[derive(Debug, Clone)]
pub struct LogExportResult {
    pub exported: bool,
    pub path: Option<String>,
}

#[derive(Debug, Clone)]
pub struct LogResetResult {
    pub reset: bool,
}

#[derive(Debug, Clone)]
pub struct LogUploadPayload {
    pub payload: String,
}

#[derive(Debug, Clone)]
pub struct WindowState {
    pub width: i32,
    pub height: i32,
    pub x: i32,
    pub y: i32,
    pub maximized: bool,
}

#[derive(Debug, Clone)]
pub struct WindowStateResult {
    pub state: WindowState,
}

#[derive(Debug, Clone)]
pub struct WindowStateSetResult {
    pub saved: bool,
}

#[derive(Debug, Clone)]
pub struct BackupAppResult {
    pub operation_id: String,
    pub package_name: String,
}

#[derive(Debug, Clone)]
pub struct RestoreAppResult {
    pub operation_id: String,
    pub package_name: String,
}

#[derive(Debug, Clone)]
pub struct DeleteBackupResult {
    pub deleted: bool,
    pub backup_path: String,
}

#[derive(Debug, Clone)]
pub struct BulkBackupResult {
    pub operation_id: String,
    pub app_count: u32,
}

#[derive(Debug, Clone)]
pub struct BulkRestoreResult {
    pub operation_id: String,
    pub backup_count: u32,
}

#[derive(Debug, Clone)]
pub struct UpdateInfo {
    pub package_name: String,
    pub current_version: String,
    pub available_version: String,
    pub update_size: String,
}

#[derive(Debug, Clone)]
pub struct DetectUpdatesResult {
    pub has_updates: bool,
    pub updates: Vec<UpdateInfo>,
    pub count: u32,
}

#[derive(Debug, Clone)]
pub struct UpdateAppResult {
    pub operation_id: String,
    pub package_name: String,
}

#[derive(Debug, Clone)]
pub struct PerformanceProfile {
    pub profile_name: String,
    pub cpu_limit_percent: u32,
    pub memory_limit_mb: u32,
    pub priority: String,
}

#[derive(Debug, Clone)]
pub struct PerformanceProfileResult {
    pub profile: PerformanceProfile,
}

#[derive(Debug, Clone)]
pub struct PerformanceProfileSetResult {
    pub saved: bool,
}

#[derive(Debug, Clone)]
pub struct AdbConsoleExecuteResult {
    pub success: bool,
    pub output: String,
    pub exit_code: i32,
}

#[derive(Debug, Clone)]
pub struct AdbConsoleHistoryResult {
    pub commands: Vec<String>,
}

#[derive(Debug, Clone)]
pub struct DonationMetadata {
    pub donation_url: String,
    pub qr_code_data: String,
}

#[derive(Debug, Clone)]
pub struct DonationMetadataResult {
    pub metadata: DonationMetadata,
}

#[derive(Debug, Clone)]
pub struct PrivacyUuidRotateResult {
    pub rotated: bool,
    pub new_uuid: String,
}

#[derive(Debug, Clone)]
pub struct OfflineModeSetResult {
    pub enabled: bool,
}

#[derive(Debug, Clone)]
pub struct CrashReportResult {
    pub reported: bool,
    pub report_id: Option<String>,
}

#[derive(Debug, Clone)]
pub struct CrashDismissResult {
    pub dismissed: bool,
}

} // verus!
