//! Job registry behaviour: creation, snapshot reads, forward-only
//! mutation, terminal stickiness, and listing.

use iso_builder::model::{
    BuildConfig, BuildMode, BuildStatus, ColorScheme, DistroCategory, LogLevel, ThemeConfig,
};
use iso_builder::registry::JobRegistry;

fn server_config(distro: &str, category: DistroCategory) -> BuildConfig {
    BuildConfig {
        name: "test-image".to_string(),
        distro: distro.to_string(),
        category,
        mode: BuildMode::Server,
        overlays: vec![],
        custom_software: vec![],
        desktop_environment: None,
        theme: ThemeConfig {
            wallpaper: None,
            gtk_theme: None,
            icon_theme: None,
            colors: ColorScheme {
                primary: "#111111".to_string(),
                secondary: "#222222".to_string(),
                background: "#000000".to_string(),
                text: "#ffffff".to_string(),
            },
        },
        custom_scripts: vec![],
        hardware: String::new(),
        ai_mode: true,
    }
}

#[test]
fn create_returns_queued_job_with_creation_log() {
    let mut reg = JobRegistry::new();
    let id: u128 = 0x1234_5678_9abc_def0_1122_3344_5566_7788;
    assert!(reg.create_build(server_config("debian", DistroCategory::Debian), id, 1000));
    let job = reg.get_build(id).expect("job must exist");
    assert_eq!(job.id, id);
    assert_eq!(job.status, BuildStatus::Queued);
    assert_eq!(job.progress, 0);
    assert_eq!(job.started_at, 1000);
    assert!(job.completed_at.is_none());
    assert!(job.download_url.is_none());
    assert!(job.error.is_none());
    assert_eq!(job.logs.len(), 1);
    assert_eq!(job.logs[0].level, LogLevel::Info);
    assert_eq!(job.logs[0].message, format!("Build {:032x} created", id));
}

#[test]
fn get_build_on_unknown_id_is_not_found() {
    let mut reg = JobRegistry::new();
    assert!(reg.get_build(42).is_none());
    assert!(reg.create_build(server_config("debian", DistroCategory::Debian), 7, 0));
    let job = reg.get_build(7).expect("created job must be found");
    assert_eq!(job.config.distro, "debian");
    assert!(reg.get_build(42).is_none());
}

#[test]
fn duplicate_id_is_refused() {
    let mut reg = JobRegistry::new();
    assert!(reg.create_build(server_config("debian", DistroCategory::Debian), 9, 0));
    assert!(!reg.create_build(server_config("rocky", DistroCategory::Fedora), 9, 5));
    assert_eq!(reg.get_build(9).unwrap().config.distro, "debian");
}

#[test]
fn progress_never_decreases() {
    let mut reg = JobRegistry::new();
    assert!(reg.create_build(server_config("debian", DistroCategory::Debian), 1, 0));
    assert!(reg.advance(1, BuildStatus::Building, 20, "step one".to_string(), 1));
    assert_eq!(reg.get_build(1).unwrap().progress, 20);
    // a backward move is refused and changes nothing
    assert!(!reg.advance(1, BuildStatus::Building, 10, "backwards".to_string(), 2));
    assert_eq!(reg.get_build(1).unwrap().progress, 20);
    assert_eq!(reg.get_build(1).unwrap().logs.len(), 2);
    // a backward status is refused as well
    assert!(reg.advance(1, BuildStatus::Packaging, 80, "step two".to_string(), 3));
    assert!(!reg.advance(1, BuildStatus::Building, 90, "backwards".to_string(), 4));
    assert_eq!(reg.get_build(1).unwrap().status, BuildStatus::Packaging);
}

#[test]
fn fail_captures_the_error_and_is_terminal() {
    let mut reg = JobRegistry::new();
    assert!(reg.create_build(server_config("debian", DistroCategory::Debian), 2, 0));
    assert!(reg.fail(2, "debootstrap failed: no network".to_string(), 9));
    let job = reg.get_build(2).unwrap();
    assert_eq!(job.status, BuildStatus::Failed);
    assert_eq!(job.error.as_deref(), Some("debootstrap failed: no network"));
    assert_eq!(job.completed_at, Some(9));
    assert_eq!(
        job.logs.last().unwrap().message,
        "Build failed: debootstrap failed: no network"
    );
    assert_eq!(job.logs.last().unwrap().level, LogLevel::Error);
    // terminal jobs are never mutated again
    assert!(!reg.advance(2, BuildStatus::Building, 50, "late".to_string(), 10));
    assert!(!reg.fail(2, "again".to_string(), 11));
    assert!(!reg.complete(2, "https://example.invalid/x".to_string(), 12));
    assert_eq!(reg.get_build(2).unwrap().logs.len(), 2);
}

#[test]
fn complete_attaches_url_and_full_progress() {
    let mut reg = JobRegistry::new();
    assert!(reg.create_build(server_config("debian", DistroCategory::Debian), 3, 0));
    assert!(reg.complete(3, "https://storage.example.com/isos/x/y.iso".to_string(), 50));
    let job = reg.get_build(3).unwrap();
    assert_eq!(job.status, BuildStatus::Completed);
    assert_eq!(job.progress, 100);
    assert_eq!(
        job.download_url.as_deref(),
        Some("https://storage.example.com/isos/x/y.iso")
    );
    assert_eq!(job.completed_at, Some(50));
    assert_eq!(job.logs.last().unwrap().message, "Build completed successfully");
}

#[test]
fn listing_filters_by_status() {
    let mut reg = JobRegistry::new();
    for id in 1..=4u128 {
        assert!(reg.create_build(server_config("debian", DistroCategory::Debian), id, 0));
    }
    assert!(reg.complete(2, "https://storage.example.com/isos/a/b.iso".to_string(), 1));
    assert!(reg.complete(4, "https://storage.example.com/isos/c/d.iso".to_string(), 2));
    let done = reg.list_completed_builds();
    let ids: Vec<u128> = done.iter().map(|j| j.id).collect();
    assert_eq!(ids, vec![2, 4]);
    let queued = reg.list_with_status(BuildStatus::Queued);
    let ids: Vec<u128> = queued.iter().map(|j| j.id).collect();
    assert_eq!(ids, vec![1, 3]);
}

#[test]
fn submit_build_draws_a_fresh_id() {
    let mut reg = JobRegistry::new();
    let id = reg
        .submit_build(server_config("debian", DistroCategory::Debian))
        .expect("an empty registry accepts any drawn id");
    let job = reg.get_build(id).unwrap();
    assert_eq!(job.status, BuildStatus::Queued);
    assert_eq!(job.config.distro, "debian");
}
