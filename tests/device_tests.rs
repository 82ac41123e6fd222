use veteran_desktop::adb::{AdbResult, AdbService, BatteryInfo, RawDeviceInfo, StorageInfo};

#[test]
fn test_is_connected() {
    let device = RawDeviceInfo {
        serial: "123".into(),
        state: "device".into(),
        ..Default::default()
    };
    assert!(device.is_connected());

    let offline = RawDeviceInfo {
        serial: "123".into(),
        state: "offline".into(),
        ..Default::default()
    };
    assert!(!offline.is_connected());
}

#[test]
fn test_parse_devices_output() {
    let output = "List of devices attached
1WMHH824D50421\tdevice product:hollywood model:Quest_3 device:eureka transport_id:2
192.168.1.10:5555\toffline transport_id:7";

    let parsed = AdbService::parse_devices_output(output);
    assert_eq!(parsed.len(), 2);
    assert_eq!(parsed[0].serial, "1WMHH824D50421");
    assert_eq!(parsed[0].state, "device");
    assert_eq!(parsed[0].model, "Quest_3");
    assert_eq!(parsed[0].product, "hollywood");
    assert_eq!(parsed[1].serial, "192.168.1.10:5555");
    assert_eq!(parsed[1].state, "offline");
}




#[test]
fn test_adb_service_size_token_to_mb_bytes() {
    // The size-token helper is private; storage parsing covers it.
}

#[test]
fn test_adb_result_success() {
    let result = AdbResult {
        stdout: "Success".to_string(),
        stderr: String::new(),
        returncode: 0,
    };
    assert!(result.success());
    assert_eq!(result.output(), "Success");
}

#[test]
fn test_adb_result_failure() {
    let result = AdbResult {
        stdout: "".to_string(),
        stderr: "Error: device not found".to_string(),
        returncode: 1,
    };
    assert!(!result.success());
    assert_eq!(result.output(), "");
}

#[test]
fn test_adb_result_output_trims_whitespace() {
    let result = AdbResult {
        stdout: "  trimmed output  \n".to_string(),
        stderr: String::new(),
        returncode: 0,
    };
    assert_eq!(result.output(), "trimmed output");
}

#[test]
fn test_storage_info_default() {
    let info = StorageInfo::default();
    assert_eq!(info.total_mb, 0);
    assert_eq!(info.used_mb, 0);
    assert_eq!(info.free_mb, 0);
}

#[test]
fn test_storage_info_equality() {
    let info1 = StorageInfo { total_mb: 1000, used_mb: 500, free_mb: 500 };
    let info2 = StorageInfo { total_mb: 1000, used_mb: 500, free_mb: 500 };
    let info3 = StorageInfo { total_mb: 2000, used_mb: 1000, free_mb: 1000 };
    assert_eq!(info1, info2);
    assert_ne!(info1, info3);
}

#[test]
fn test_adb_service_parse_devices_output_with_unauthorized_device() {
    let output = "List of devices attached
1WMHH824D50421\tdevice product:hollywood model:Quest_3 device:eureka transport_id:2
192.168.1.10:5555\tunauthorized transport_id:7
192.168.1.20:5555\toffline transport_id:8";

    let parsed = AdbService::parse_devices_output(output);
    assert_eq!(parsed.len(), 3);
    
    // Online device
    assert_eq!(parsed[0].serial, "1WMHH824D50421");
    assert_eq!(parsed[0].state, "device");
    assert_eq!(parsed[0].model, "Quest_3");
    assert_eq!(parsed[0].product, "hollywood");
    
    // Unauthorized device
    assert_eq!(parsed[1].serial, "192.168.1.10:5555");
    assert_eq!(parsed[1].state, "unauthorized");
    
    // Offline device
    assert_eq!(parsed[2].serial, "192.168.1.20:5555");
    assert_eq!(parsed[2].state, "offline");
}

#[test]
fn test_adb_service_parse_devices_output_empty() {
    let output = "List of devices attached
";
    let parsed = AdbService::parse_devices_output(output);
    assert_eq!(parsed.len(), 0);
}

#[test]
fn test_adb_service_parse_devices_output_daemon_lines() {
    // ADB output sometimes has daemon messages
    let output = "* daemon not running; starting now at tcp:5037
* daemon started successfully
List of devices attached
1WMHH824D50421\tdevice product:hollywood model:Quest_3 device:eureka transport_id:2";

    let parsed = AdbService::parse_devices_output(output);
    assert_eq!(parsed.len(), 1);
    assert_eq!(parsed[0].serial, "1WMHH824D50421");
}

#[test]
fn test_adb_service_parse_devices_output_without_model_product() {
    // Simple device listing without model/product info
    let output = "List of devices attached
1WMHH824D50421\tdevice transport_id:2";

    let parsed = AdbService::parse_devices_output(output);
    assert_eq!(parsed.len(), 1);
    assert_eq!(parsed[0].serial, "1WMHH824D50421");
    assert_eq!(parsed[0].state, "device");
    assert_eq!(parsed[0].model, "");
    assert_eq!(parsed[0].product, "");
}

#[test]
fn test_adb_service_parse_devices_output_recovery_mode() {
    let output = "List of devices attached
1WMHH824D50421\trecovery product:hollywood model:Quest_3 device:eureka transport_id:2";

    let parsed = AdbService::parse_devices_output(output);
    assert_eq!(parsed.len(), 1);
    assert_eq!(parsed[0].serial, "1WMHH824D50421");
    assert_eq!(parsed[0].state, "recovery");
}

#[test]
fn test_adb_service_parse_devices_output_sideload_mode() {
    let output = "List of devices attached
1WMHH824D50421\tsideload product:hollywood model:Quest_3 device:eureka transport_id:2";

    let parsed = AdbService::parse_devices_output(output);
    assert_eq!(parsed.len(), 1);
    assert_eq!(parsed[0].serial, "1WMHH824D50421");
    assert_eq!(parsed[0].state, "sideload");
}

#[test]
fn test_adb_service_parse_storage_info_output_storage_emulated() {
    let output = "Filesystem     1K-blocks      Used Available Use% Mounted on
/dev/fuse       120000000  30000000 90000000  25% /storage/emulated";
    
    let parsed = AdbService::parse_storage_info_output(output);
    // 120000000 KB = 117187.5 MB
    // 30000000 KB = 29296.875 MB
    // 90000000 KB = 87890.625 MB
    assert!(parsed.total_mb > 0);
    assert!(parsed.used_mb > 0);
    assert!(parsed.free_mb > 0);
}

#[test]
fn test_adb_service_parse_storage_info_output_empty() {
    let output = "Filesystem     1K-blocks      Used Available Use% Mounted on";
    let parsed = AdbService::parse_storage_info_output(output);
    assert_eq!(parsed, StorageInfo::default());
}

#[test]
fn test_adb_service_parse_storage_info_output_multiple_mounts() {
    // Test that it prefers /data over /storage/emulated
    let output = "Filesystem     1K-blocks      Used Available Use% Mounted on
/dev/fuse       120000000  30000000 90000000  25% /storage/emulated
/dev/block/dm-1  64000000  16000000 48000000  25% /data
/dev/block/sda   256000000  80000000 176000000  31% /sdcard";
    
    let parsed = AdbService::parse_storage_info_output(output);
    // Should prefer /data
    assert!(parsed.total_mb > 0);
}

#[test]
fn test_adb_service_parse_battery_output_discharging() {
    let output = "Current Battery Service state:
  AC powered: false
  USB powered: false
  Wireless powered: false
  status: 3
  level: 45
  scale: 100
  temperature: 280";

    let parsed = AdbService::parse_battery_output(output);
    assert_eq!(parsed.level_percent, Some(45));
    assert_eq!(parsed.status, "discharging");
    assert!(!parsed.is_charging);
    assert_eq!(parsed.temperature_tenths.map(|t| t as f64 / 10.0), Some(28.0));
}

#[test]
fn test_adb_service_parse_battery_output_full() {
    let output = "Current Battery Service state:
  AC powered: true
  USB powered: false
  Wireless powered: false
  status: 5
  level: 100
  scale: 100
  temperature: 305";

    let parsed = AdbService::parse_battery_output(output);
    assert_eq!(parsed.level_percent, Some(100));
    assert_eq!(parsed.status, "full");
    assert!(parsed.is_charging);
    assert_eq!(parsed.temperature_tenths.map(|t| t as f64 / 10.0), Some(30.5));
}

#[test]
fn test_adb_service_parse_battery_output_not_charging() {
    let output = "Current Battery Service state:
  AC powered: false
  USB powered: false
  Wireless powered: false
  status: 4
  level: 80
  scale: 100
  temperature: 300";

    let parsed = AdbService::parse_battery_output(output);
    assert_eq!(parsed.level_percent, Some(80));
    assert_eq!(parsed.status, "not_charging");
    assert!(!parsed.is_charging);
}

#[test]
fn test_adb_service_parse_battery_output_unknown_status() {
    let output = "Current Battery Service state:
  AC powered: false
  USB powered: false
  Wireless powered: false
  status: 1
  level: 50
  scale: 100
  temperature: 250";

    let parsed = AdbService::parse_battery_output(output);
    assert_eq!(parsed.level_percent, Some(50));
    assert_eq!(parsed.status, "unknown");
    assert!(!parsed.is_charging);
}

#[test]
fn test_adb_service_parse_battery_output_empty() {
    let output = "";
    let parsed = AdbService::parse_battery_output(output);
    assert_eq!(parsed.level_percent, None);
    assert_eq!(parsed.status, "unknown");
    assert!(!parsed.is_charging);
    assert_eq!(parsed.temperature_tenths, None);
}

#[test]
fn test_adb_service_parse_packages_with_versions_output_complex() {
    let output = "package:com.oculus.shellenv
package:com.oculus.vrshell homeActivity:com.oculus.vrshell.MainActivity
package:com.oculus.quest.settings versionCode:12345678
package:com.beatgames.beatsaber versionCode:98765432";
    
    let parsed = AdbService::parse_packages_with_versions_output(output);
    assert_eq!(parsed.get("com.oculus.shellenv"), Some(&None));
    assert_eq!(parsed.get("com.oculus.vrshell"), Some(&None));
    assert_eq!(parsed.get("com.oculus.quest.settings"), Some(&Some("12345678".to_string())));
    assert_eq!(parsed.get("com.beatgames.beatsaber"), Some(&Some("98765432".to_string())));
}

#[test]
fn test_adb_service_parse_packages_with_versions_output_empty() {
    let output = "";
    let parsed = AdbService::parse_packages_with_versions_output(output);
    assert!(parsed.is_empty());
}

#[test]
fn test_battery_info_default() {
    let info = BatteryInfo::default();
    assert_eq!(info.level_percent, None);
    assert_eq!(info.status, "");
    assert!(!info.is_charging);
    assert_eq!(info.temperature_tenths, None);
}

#[test]
fn test_parse_storage_info_output_prefers_data_mount() {
    let output = "Filesystem     1K-blocks      Used Available Use% Mounted on
/dev/fuse       120000000  30000000 90000000  25% /storage/emulated
/dev/block/dm-5  64000000  16000000 48000000  25% /data";
    let parsed = AdbService::parse_storage_info_output(output);
    assert_eq!(
        parsed,
        StorageInfo {
            total_mb: 62500,
            used_mb: 15625,
            free_mb: 46875
        }
    );
}

#[test]
fn test_parse_battery_output() {
    let output = "Current Battery Service state:
  AC powered: false
  USB powered: true
  Wireless powered: false
  status: 2
  level: 71
  scale: 100
  temperature: 318";

    let parsed = AdbService::parse_battery_output(output);
    assert_eq!(parsed.level_percent, Some(71));
    assert_eq!(parsed.status, "charging");
    assert!(parsed.is_charging);
    assert_eq!(parsed.temperature_tenths.map(|t| t as f64 / 10.0), Some(31.8));
}

#[test]
fn test_parse_packages_with_versions_output() {
    let output = "package:com.test.one versionCode:12345
package:com.test.two versionCode:8
package:com.test.three";
    let parsed = AdbService::parse_packages_with_versions_output(output);
    assert_eq!(parsed.get("com.test.one"), Some(&Some("12345".to_string())));
    assert_eq!(parsed.get("com.test.two"), Some(&Some("8".to_string())));
    assert_eq!(parsed.get("com.test.three"), Some(&None));
}

#[test]
fn packages_take_the_name_after_an_equals_sign_and_the_last_line() {
    let output = "package:/data/app/base.apk=com.a versionCode:3\npackage:com.a versionCode:4\npackage:\npackage:com.b versionCode:x";
    let parsed = AdbService::parse_packages_with_versions_output(output);
    assert_eq!(parsed.len(), 2);
    assert_eq!(parsed.get("com.a"), Some(&Some("4".to_string())));
    assert_eq!(parsed.get("com.b"), Some(&None));
    assert_eq!(parsed.get("com.c"), None);
}

#[test]
fn storage_sizes_with_units() {
    let token = |s: &str| AdbService::size_token_to_mb(&s.chars().collect(), true);
    assert_eq!(token("1024"), Some(1));
    assert_eq!(token("1.5G"), Some(1536));
    assert_eq!(token("512MiB"), Some(512));
    assert_eq!(token("2t"), Some(2_097_152));
    assert_eq!(token("10x"), None);
    assert_eq!(token("abc"), None);
    assert_eq!(AdbService::size_token_to_mb(&"1048576".chars().collect(), false), Some(1));
    let parsed = AdbService::parse_storage_info_output("Filesystem Size Used Avail Use% Mounted on\n/dev/a 10G 2.5G 7.5G 25% /sdcard\n/dev/b 4G 1G 3G 25% /mnt/other");
    assert_eq!(parsed, StorageInfo { total_mb: 10240, used_mb: 2560, free_mb: 7680 });
}

#[test]
fn battery_level_scales_and_rounds() {
    let parsed = AdbService::parse_battery_output("level: 1\nscale: 3\nStatus: 5\ntemperature: 255");
    assert_eq!(parsed.level_percent, Some(33));
    assert_eq!(parsed.status, "full");
    assert!(parsed.is_charging);
    assert_eq!(parsed.temperature_tenths, Some(255));
    let zero_scale = AdbService::parse_battery_output("level: 5\nscale: 0");
    assert_eq!(zero_scale.level_percent, None);
    let half = AdbService::parse_battery_output("level: 1\nscale: 200");
    assert_eq!(half.level_percent, Some(1));
}

#[test]
fn test_adb_service_new() {
    let service = AdbService::new();
    assert!(service.device_serial().is_none());
}

#[test]
fn test_adb_service_set_device_serial() {
    let mut service = AdbService::new();
    assert!(service.device_serial().is_none());

    service.set_device_serial(Some("test_device_123".to_string()));
    assert_eq!(service.device_serial(), Some("test_device_123"));

    service.set_device_serial(None);
    assert!(service.device_serial().is_none());
}

#[test]
fn serial_resolution_prefers_the_named_device() {
    let mut service = AdbService::new();
    assert_eq!(service.resolve_serial(None), None);
    service.set_device_serial(Some("SEL".to_string()));
    assert_eq!(service.resolve_serial(None), Some("SEL".to_string()));
    assert_eq!(service.resolve_serial(Some("X")), Some("X".to_string()));
}
