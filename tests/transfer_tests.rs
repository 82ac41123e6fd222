use veteran_desktop::config::PublicConfig;
use veteran_desktop::transfer::{
    bandwidth_rate, copy_source, job_result, probe_step, stats_group, DownloadProgress, JobStatus,
    ProbeAction, RcloneResult, RcloneService,
};

#[test]
fn format_speed_formats_correctly() {
    assert_eq!(RcloneService::format_speed(100), "100 B/s");
    assert_eq!(RcloneService::format_speed(1024), "1.0 KiB/s");
    assert_eq!(RcloneService::format_speed(1024 * 1024), "1.0 MiB/s");
    assert_eq!(RcloneService::format_speed(1024 * 1024 * 1024), "1.0 GiB/s");
}

#[test]
fn format_speed_rounds_to_one_decimal() {
    assert_eq!(RcloneService::format_speed(0), "0 B/s");
    assert_eq!(RcloneService::format_speed(1023), "1023 B/s");
    assert_eq!(RcloneService::format_speed(11_010_048), "10.5 MiB/s");
    assert_eq!(RcloneService::format_speed(1_100), "1.1 KiB/s");
    assert_eq!(RcloneService::format_speed(1_048_575), "1024.0 KiB/s");
}

#[test]
fn format_eta_formats_correctly() {
    assert_eq!(RcloneService::format_eta(30), "30s");
    assert_eq!(RcloneService::format_eta(90), "1m30s");
    assert_eq!(RcloneService::format_eta(3660), "1h1m");
    assert_eq!(RcloneService::format_eta(-1), "calculating...");
}

#[test]
fn format_eta_bucket_edges() {
    assert_eq!(RcloneService::format_eta(0), "0s");
    assert_eq!(RcloneService::format_eta(59), "59s");
    assert_eq!(RcloneService::format_eta(60), "1m0s");
    assert_eq!(RcloneService::format_eta(3599), "59m59s");
    assert_eq!(RcloneService::format_eta(3600), "1h0m");
    assert_eq!(RcloneService::format_eta(90061), "25h1m");
}

#[test]
fn parse_rc_stats_extracts_fields() {
    let progress = RcloneService::parse_rc_stats(104_857_600, 524_288_000, 11_010_048, 40);
    assert_eq!(progress.bytes_transferred, 104_857_600);
    assert_eq!(progress.total_bytes, 524_288_000);
    assert_eq!(progress.percent_hundredths, 2000);
    assert_eq!(progress.percent_hundredths as f64 / 100.0, 20.0);
    assert_eq!(progress.speed, "10.5 MiB/s");
    assert_eq!(progress.eta, "40s");
}

#[test]
fn percent_is_zero_without_a_total() {
    let progress = RcloneService::parse_rc_stats(500, 0, 0, -1);
    assert_eq!(progress.percent_hundredths, 0);
    assert_eq!(progress.eta, "calculating...");
    let third = RcloneService::parse_rc_stats(1, 3, 0, 0);
    assert_eq!(third.percent_hundredths, 3333);
}

#[test]
fn speed_display_falls_back_while_calculating() {
    let p = DownloadProgress::default();
    assert_eq!(p.speed_display(), "calculating...");
    let q = RcloneService::parse_rc_stats(0, 0, 2048, 0);
    assert_eq!(q.speed_display(), "2.0 KiB/s");
}

#[test]
fn bandwidth_rates() {
    assert_eq!(bandwidth_rate(0), "off");
    assert_eq!(bandwidth_rate(25), "2.5M");
    assert_eq!(bandwidth_rate(100), "10.0M");
}

#[test]
fn job_paths() {
    assert_eq!(copy_source("abc"), "vrp:abc/");
    assert_eq!(stats_group(42), "job/42");
}

#[test]
fn job_results() {
    let running = JobStatus { finished: false, success: false, error: String::new() };
    assert!(job_result(&running, "{}".to_string()).is_none());
    let ok = JobStatus { finished: true, success: true, error: String::new() };
    let r = job_result(&ok, "{\"finished\":true}".to_string()).unwrap();
    assert!(r.success());
    assert_eq!(r.stdout, "{\"finished\":true}");
    let bad = JobStatus { finished: true, success: false, error: "denied".to_string() };
    let r = job_result(&bad, "{}".to_string()).unwrap();
    assert_eq!(
        r,
        RcloneResult { stdout: String::new(), stderr: "denied".to_string(), returncode: 1 }
    );
}

#[test]
fn health_probe_is_bounded() {
    assert_eq!(probe_step(1, true), ProbeAction::Ready);
    assert_eq!(probe_step(1, false), ProbeAction::Retry);
    assert_eq!(probe_step(19, false), ProbeAction::Retry);
    assert_eq!(probe_step(20, false), ProbeAction::GiveUp);
}

#[test]
fn parse_bytes_supports_binary_units() {
    assert_eq!(RcloneService::parse_bytes("1 KiB"), 1024);
    assert_eq!(RcloneService::parse_bytes("1.5 MiB"), 1_572_864);
    assert_eq!(RcloneService::parse_bytes("2 GiB"), 2_147_483_648);
}

#[test]
fn parse_bytes_supports_decimal_units() {
    assert_eq!(RcloneService::parse_bytes("1 KB"), 1000);
    assert_eq!(RcloneService::parse_bytes("2.5 MB"), 2_500_000);
    assert_eq!(RcloneService::parse_bytes("3 GB"), 3_000_000_000);
}

#[test]
fn parse_bytes_edges() {
    assert_eq!(RcloneService::parse_bytes(" 512 "), 512);
    assert_eq!(RcloneService::parse_bytes("7b"), 7);
    assert_eq!(RcloneService::parse_bytes("0.5 kib"), 512);
    assert_eq!(RcloneService::parse_bytes("1.0000009 B"), 1);
    assert_eq!(RcloneService::parse_bytes("lots"), 0);
    assert_eq!(RcloneService::parse_bytes("99999999 PiB"), i64::MAX);
}

#[test]
fn controller_state_tracks_source_port_and_jobs() {
    let mut state = RcloneService::new(None);
    assert_eq!(state.rclone_path(), "rclone");
    assert_eq!(state.port(), None);
    state.set_public_config(&PublicConfig {
        base_uri: "https://host/files//".to_string(),
        password: "pw".to_string(),
    });
    assert_eq!(state.remote_url(), "https://host/files");
    assert_eq!(state.password(), "pw");
    state.record_port(Some(5572));
    assert_eq!(state.port(), Some(5572));
    state.track_job("aaa", 1);
    state.track_job("bbb", 2);
    state.track_job("aaa", 3);
    assert_eq!(state.job_ids(), vec![3, 2]);
    state.finish_job("aaa");
    assert_eq!(state.job_ids(), vec![2]);
    state.record_port(None);
    assert_eq!(state.port(), None);
    assert_eq!(RcloneService::new(Some("/opt/rclone".to_string())).rclone_path(), "/opt/rclone");
}
