use veteran_desktop::adb::AdbResult;
use veteran_desktop::install::{
    after_reinstall, choose_game_dir, classify_apk_install, find_archives, find_first_apk,
    find_install_txt,
    finish_default, is_downloaded, obb_outcome, plan_start,
    reinstall_install_check, reinstall_precheck, remote_obb_dir, restore_outcome, script_command,
    script_result, script_warning, uninstall_failed, uninstall_result, ApkStep, GameDir,
    InstallResult, InstallService, InstallStart, ScriptCommand,
};

fn res(stdout: &str, stderr: &str, code: i32) -> AdbResult {
    AdbResult { stdout: stdout.to_string(), stderr: stderr.to_string(), returncode: code }
}

fn names(v: &[&str]) -> Vec<String> {
    v.iter().map(|s| s.to_string()).collect()
}

#[test]
fn parse_install_txt_line_handles_valid_and_invalid_rows() {
    assert_eq!(
        InstallService::parse_install_txt_line("adb shell pm list packages").unwrap(),
        vec!["shell", "pm", "list", "packages"]
    );
    assert!(InstallService::parse_install_txt_line("echo hello").is_none());
    assert!(InstallService::parse_install_txt_line("   ").is_none());
}

#[test]
fn script_line_edges() {
    assert!(InstallService::parse_install_txt_line("adb").is_none());
    assert!(InstallService::parse_install_txt_line("  adb   ").is_none());
    assert_eq!(
        InstallService::parse_install_txt_line("\tadb  push  a.obb\t/sdcard/x ").unwrap(),
        vec!["push", "a.obb", "/sdcard/x"]
    );
}

#[test]
fn find_first_apk_finds_apk_in_directory() {
    let apk = find_first_apk(&names(&["readme.txt", "com.example.game.apk"]));
    assert!(apk.is_some());
    assert!(apk.unwrap().ends_with("com.example.game.apk"));
}

#[test]
fn find_first_apk_returns_none_when_no_apk() {
    assert!(find_first_apk(&names(&["readme.txt"])).is_none());
}

#[test]
fn find_first_apk_takes_the_least_name() {
    let apk = find_first_apk(&names(&["z.apk", "b.APK", "a.txt", ".apk", "c.apk"]));
    assert_eq!(apk.unwrap(), "b.APK");
}

#[test]
fn find_archives_finds_7z_files() {
    let found = find_archives(&names(&[
        "abc123.7z.001",
        "abc123.7z.002",
        "single.7z",
        "readme.txt",
    ]));
    assert_eq!(found.len(), 2);
    assert_eq!(found, vec!["abc123.7z.001", "single.7z"]);
}

#[test]
fn find_archives_is_case_insensitive_and_sorted() {
    let found = find_archives(&names(&["b.7Z", "a.7z.001", "C.7z"]));
    assert_eq!(found, vec!["C.7z", "a.7z.001", "b.7Z"]);
}

#[test]
fn script_commands() {
    assert_eq!(
        script_command(&names(&["install", "game.apk"])),
        ScriptCommand::Install("game.apk".to_string())
    );
    assert_eq!(
        script_command(&names(&["push", "a", "/sdcard/a"])),
        ScriptCommand::Push("a".to_string(), "/sdcard/a".to_string())
    );
    assert_eq!(
        script_command(&names(&["shell", "pm", "list", "packages"])),
        ScriptCommand::Shell("pm list packages".to_string())
    );
    assert_eq!(script_command(&names(&["push", "a"])), ScriptCommand::Unsupported);
    assert_eq!(script_command(&names(&["reboot"])), ScriptCommand::Unsupported);
}

#[test]
fn script_warnings() {
    let install = ScriptCommand::Install("x.apk".to_string());
    assert_eq!(
        script_warning(&install, &res("", "bad", 1)),
        Some("Install failed: bad".to_string())
    );
    assert_eq!(script_warning(&install, &res("Success", "bad", 1)), None);
    let push = ScriptCommand::Push("a".to_string(), "b".to_string());
    assert_eq!(script_warning(&push, &res("", "no", 1)), Some("Push failed: no".to_string()));
    let shell = ScriptCommand::Shell("ls".to_string());
    assert_eq!(
        script_warning(&shell, &res("", " oops \n", 0)),
        Some("Warning: oops".to_string())
    );
    assert_eq!(script_warning(&shell, &res("", "mkdir: exists", 1)), None);
    assert_eq!(script_warning(&shell, &res("", "  ", 1)), None);
}

#[test]
fn custom_script_always_succeeds_with_trailer() {
    // A script of one `adb shell pm list packages` line: whatever the shell
    // command's exit code, the run succeeds with the fixed trailer.
    let argv = InstallService::parse_install_txt_line("adb shell pm list packages").unwrap();
    let command = script_command(&argv);
    assert_eq!(command, ScriptCommand::Shell("pm list packages".to_string()));
    for code in [0, 1, 255] {
        let mut warnings = Vec::new();
        if let Some(w) = script_warning(&command, &res("package:a", "", code)) {
            warnings.push(w);
        }
        let r = script_result(&warnings);
        assert!(r.success);
        assert_eq!(r.message, "Custom install successful!");
    }
    let r = script_result(&vec!["Warning: x".to_string()]);
    assert_eq!(r.message, "Warning: x\nCustom install successful!");
}

#[test]
fn apk_install_classification() {
    assert_eq!(classify_apk_install(&res("Success", "", 0)), ApkStep::Installed);
    assert_eq!(classify_apk_install(&res("Success", "Error", 1)), ApkStep::Installed);
    assert_eq!(classify_apk_install(&res("done", "warning only", 0)), ApkStep::Installed);
    assert_eq!(
        classify_apk_install(&res("", "Failure: signatures do not match", 1)),
        ApkStep::Reinstall
    );
    assert_eq!(
        classify_apk_install(&res("", "Exception: INSUFFICIENT_STORAGE", 0)),
        ApkStep::Reinstall
    );
    assert_eq!(
        classify_apk_install(&res(" Failure [X] ", "", 1)),
        ApkStep::Fail(InstallResult {
            success: false,
            message: "APK install failed: Failure [X]".to_string()
        })
    );
}

#[test]
fn install_start_and_game_dir() {
    assert_eq!(plan_start("/d/h", true, false), InstallStart::Extract);
    assert_eq!(plan_start("/d/h", false, true), InstallStart::UseReleaseDir);
    match plan_start("/d/h", false, false) {
        InstallStart::NotFound(r) => {
            assert!(!r.success);
            assert!(r.message.contains("not found"));
            assert_eq!(r.message, "Game directory not found: /d/h");
        }
        other => panic!("unexpected {:?}", other),
    }
    assert_eq!(choose_game_dir("/d/R", true, true), GameDir::Release);
    assert_eq!(choose_game_dir("/d/R", false, true), GameDir::Staging);
    match choose_game_dir("/d/R", false, false) {
        GameDir::Missing(r) => assert_eq!(
            r.message,
            "Extracted game folder not found: /d/R. Expected release name directory after extraction."
        ),
        other => panic!("unexpected {:?}", other),
    }
}

#[test]
fn reinstall_messages() {
    assert!(reinstall_precheck("").is_some());
    assert!(reinstall_precheck("com.a").is_none());
    assert_eq!(uninstall_failed("gone").message, "Failed to uninstall old version: gone");
    assert_eq!(
        reinstall_install_check(&res("", "nope", 1)).unwrap().message,
        "Reinstall failed: nope"
    );
    assert!(reinstall_install_check(&res("Success", "", 1)).is_none());
    let partial = restore_outcome(Some("push broke"));
    assert!(partial.success);
    assert_eq!(partial.message, "Reinstall succeeded but data restore failed: push broke");
    assert_eq!(restore_outcome(None).message, "Reinstall with backup: Success");
    assert_eq!(
        after_reinstall(Ok(InstallResult { success: true, message: String::new() })).unwrap(),
        "Reinstalled successfully"
    );
    assert_eq!(
        after_reinstall(Ok(InstallResult { success: false, message: "m".to_string() }))
            .unwrap_err()
            .message,
        "Reinstall failed: m"
    );
    assert_eq!(
        after_reinstall(Err("io".to_string())).unwrap_err().message,
        "Reinstall error: io"
    );
}

#[test]
fn obb_and_final_results() {
    assert_eq!(remote_obb_dir("com.a"), "/sdcard/Android/obb/com.a");
    assert_eq!(obb_outcome(&res("", "", 0), "com.a").unwrap(), "OBB com.a: Success");
    assert_eq!(
        obb_outcome(&res(" out ", "", 1), "com.a").unwrap_err().message,
        "OBB push failed: out"
    );
    let none = finish_default(&Vec::new());
    assert!(!none.success);
    assert_eq!(none.message, "No installable content found");
    let both = finish_default(&names(&["APK installed successfully", "OBB p: Success"]));
    assert!(both.success);
    assert_eq!(both.message, "APK installed successfully\nOBB p: Success");
}

#[test]
fn uninstall_results() {
    let ok = uninstall_result("com.a", "Success");
    assert!(ok.success);
    assert_eq!(ok.message, "Uninstalled com.a");
    let bad = uninstall_result("com.a", "Failure [DELETE_FAILED_INTERNAL_ERROR]");
    assert!(!bad.success);
    assert_eq!(bad.message, "Failed to uninstall com.a: Failure [DELETE_FAILED_INTERNAL_ERROR]");
}

#[test]
fn is_downloaded_detects_apk_or_install_txt() {
    assert!(!is_downloaded(true, &Vec::new()));
    assert!(is_downloaded(true, &names(&["install.txt"])));
    assert!(is_downloaded(true, &names(&["app.APK"])));
    assert!(!is_downloaded(false, &names(&["app.apk"])));
}

#[test]
fn install_locks_gate_one_package() {
    let mut locks = InstallService::new();
    assert!(locks.try_start_install("com.a"));
    assert!(!locks.try_start_install("com.a"));
    assert!(locks.try_start_install("com.b"));
    locks.finish_install("com.a");
    assert!(locks.try_start_install("com.a"));
}

#[test]
fn test_install_result_creation() {
    let success_result = InstallResult {
        success: true,
        message: "Installation successful".to_string(),
    };
    assert!(success_result.success);
    assert_eq!(success_result.message, "Installation successful");

    let failure_result = InstallResult {
        success: false,
        message: "Installation failed".to_string(),
    };
    assert!(!failure_result.success);
    assert_eq!(failure_result.message, "Installation failed");
}

#[test]
fn test_install_result_clone() {
    let result = InstallResult { success: true, message: "Test message".to_string() };
    let cloned = result.clone();
    assert_eq!(result.success, cloned.success);
    assert_eq!(result.message, cloned.message);
}

#[test]
fn test_install_result_equality() {
    let result1 = InstallResult { success: true, message: "Success".to_string() };
    let result2 = InstallResult { success: true, message: "Success".to_string() };
    let result3 = InstallResult { success: false, message: "Failure".to_string() };
    assert_eq!(result1, result2);
    assert_ne!(result1, result3);
}

#[test]
fn test_install_result_default_failure() {
    let result = InstallResult { success: false, message: String::new() };
    assert!(!result.success);
    assert!(result.message.is_empty());
}

#[test]
fn test_install_result_display_trait() {
    let result = InstallResult { success: true, message: "Test message".to_string() };
    let debug_str = format!("{:?}", result);
    assert!(debug_str.contains("InstallResult"));
    assert!(debug_str.contains("success: true"));
}

#[test]
fn find_install_txt_case_insensitive() {
    assert!(find_install_txt(&names(&["readme.txt"])).is_none());
    assert_eq!(find_install_txt(&names(&["install.txt"])).unwrap(), "install.txt");
    assert_eq!(find_install_txt(&names(&["Install.txt"])).unwrap(), "Install.txt");
    assert_eq!(
        find_install_txt(&names(&["Install.txt", "install.txt"])).unwrap(),
        "install.txt"
    );
}

#[test]
fn test_install_service_install_game_nonexistent_directory() {
    match plan_start("/nonexistent/path/abc123", false, false) {
        InstallStart::NotFound(install_result) => {
            assert!(!install_result.success);
            assert!(install_result.message.contains("not found"));
        }
        other => panic!("unexpected {:?}", other),
    }
}

#[test]
fn test_download_service_is_downloaded_false_when_no_dir() {
    assert!(!is_downloaded(false, &Vec::new()));
}

#[test]
fn test_download_service_is_downloaded_true_with_install_txt() {
    assert!(is_downloaded(true, &names(&["install.txt"])));
}

#[test]
fn test_download_service_is_downloaded_true_with_apk() {
    assert!(is_downloaded(true, &names(&["app.apk"])));
}
