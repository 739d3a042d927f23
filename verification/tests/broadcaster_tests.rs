//! Broadcaster behaviour: diffing snapshots into stream messages, the
//! closing messages, and the inbound control protocol.

use iso_builder::broadcaster::{
    broadcast_step, control_reply, initial_message, start_broadcast, ControlAction,
    InboundFrame, MessageData,
};
use iso_builder::model::{
    BuildConfig, BuildMode, BuildStatus, ColorScheme, DistroCategory, LogLevel, MessageType,
    ThemeConfig,
};
use iso_builder::registry::JobRegistry;

fn debian_config() -> BuildConfig {
    BuildConfig {
        name: "img".to_string(),
        distro: "debian".to_string(),
        category: DistroCategory::Debian,
        mode: BuildMode::Server,
        overlays: vec![],
        custom_software: vec![],
        desktop_environment: None,
        theme: ThemeConfig {
            wallpaper: None,
            gtk_theme: None,
            icon_theme: None,
            colors: ColorScheme {
                primary: "#1".to_string(),
                secondary: "#2".to_string(),
                background: "#3".to_string(),
                text: "#4".to_string(),
            },
        },
        custom_scripts: vec![],
        hardware: String::new(),
        ai_mode: false,
    }
}

#[test]
fn initial_message_carries_status_and_progress() {
    let mut reg = JobRegistry::new();
    assert!(reg.create_build(debian_config(), 5, 0));
    let job = reg.get_build(5).unwrap();
    let m = initial_message(job);
    assert_eq!(m.job_id, 5);
    assert_eq!(m.type_, MessageType::StatusUpdate);
    match m.data {
        MessageData::StatusWithProgress { status, progress } => {
            assert_eq!(status, BuildStatus::Queued);
            assert_eq!(progress, 0);
        }
        _ => panic!("wrong payload"),
    }
}

#[test]
fn unchanged_snapshot_emits_nothing() {
    let mut reg = JobRegistry::new();
    assert!(reg.create_build(debian_config(), 6, 0));
    let mut bs = start_broadcast(reg.get_build(6).unwrap());
    let (msgs, stop) = broadcast_step(&mut bs, reg.get_build(6));
    assert!(msgs.is_empty());
    assert!(!stop);
}

#[test]
fn changes_emit_status_progress_and_logs_in_order() {
    let mut reg = JobRegistry::new();
    assert!(reg.create_build(debian_config(), 7, 0));
    let mut bs = start_broadcast(reg.get_build(7).unwrap());
    assert!(reg.advance(7, BuildStatus::Building, 20, "one".to_string(), 1));
    assert!(reg.append_log(7, LogLevel::Warning, "two".to_string(), 2));
    let (msgs, stop) = broadcast_step(&mut bs, reg.get_build(7));
    assert!(!stop);
    assert_eq!(msgs.len(), 4);
    assert_eq!(msgs[0].type_, MessageType::StatusUpdate);
    assert_eq!(msgs[1].type_, MessageType::ProgressUpdate);
    assert_eq!(msgs[2].type_, MessageType::LogMessage);
    assert_eq!(msgs[3].type_, MessageType::LogMessage);
    match &msgs[2].data {
        MessageData::Log { entry } => assert_eq!(entry.message, "one"),
        _ => panic!("wrong payload"),
    }
    match &msgs[3].data {
        MessageData::Log { entry } => {
            assert_eq!(entry.message, "two");
            assert_eq!(entry.level, LogLevel::Warning);
        }
        _ => panic!("wrong payload"),
    }
    // a second poll with no change emits nothing further
    let (msgs, stop) = broadcast_step(&mut bs, reg.get_build(7));
    assert!(msgs.is_empty());
    assert!(!stop);
}

#[test]
fn completion_emits_final_message_with_url_and_stops() {
    let mut reg = JobRegistry::new();
    assert!(reg.create_build(debian_config(), 8, 0));
    let mut bs = start_broadcast(reg.get_build(8).unwrap());
    assert!(reg.complete(8, "https://storage.example.com/isos/a/img.iso".to_string(), 3));
    let (msgs, stop) = broadcast_step(&mut bs, reg.get_build(8));
    assert!(stop);
    let last = msgs.last().unwrap();
    assert_eq!(last.type_, MessageType::Completed);
    match &last.data {
        MessageData::Done { download_url } => {
            assert_eq!(
                download_url.as_deref(),
                Some("https://storage.example.com/isos/a/img.iso")
            );
        }
        _ => panic!("wrong payload"),
    }
}

#[test]
fn failure_emits_error_message_and_stops() {
    let mut reg = JobRegistry::new();
    assert!(reg.create_build(debian_config(), 9, 0));
    let mut bs = start_broadcast(reg.get_build(9).unwrap());
    assert!(reg.fail(9, "debootstrap failed: boom".to_string(), 3));
    let (msgs, stop) = broadcast_step(&mut bs, reg.get_build(9));
    assert!(stop);
    let last = msgs.last().unwrap();
    assert_eq!(last.type_, MessageType::Error);
    match &last.data {
        MessageData::Failure { error } => {
            assert_eq!(error.as_deref(), Some("debootstrap failed: boom"));
        }
        _ => panic!("wrong payload"),
    }
}

#[test]
fn vanished_job_stops_without_a_message() {
    let mut reg = JobRegistry::new();
    assert!(reg.create_build(debian_config(), 10, 0));
    let mut bs = start_broadcast(reg.get_build(10).unwrap());
    let (msgs, stop) = broadcast_step(&mut bs, reg.get_build(999));
    assert!(msgs.is_empty());
    assert!(stop);
}

#[test]
fn control_protocol_is_ping_pong_only() {
    match control_reply(InboundFrame::Ping(vec![1, 2, 3])) {
        ControlAction::Reply(p) => assert_eq!(p, vec![1, 2, 3]),
        _ => panic!("ping must be answered"),
    }
    assert!(matches!(control_reply(InboundFrame::Close), ControlAction::Stop));
    assert!(matches!(
        control_reply(InboundFrame::Text("hello".to_string())),
        ControlAction::Ignore
    ));
    assert!(matches!(
        control_reply(InboundFrame::Binary(vec![0])),
        ControlAction::Ignore
    ));
    assert!(matches!(control_reply(InboundFrame::Pong(vec![])), ControlAction::Ignore));
}
