//! Pipeline behaviour: command construction and whole runs against the
//! scripted executor.

use iso_builder::model::{
    BuildConfig, BuildMode, BuildStatus, ColorScheme, DistroCategory, ThemeConfig,
};
use iso_builder::pipeline::{
    bootstrap_command, event_matches, install_command, package_list, pick_manager,
    pipeline_step, run_scripted, upload_url, Action, Event, PackageManager, PipelineRun,
    PipelineState, ScriptPolicy,
};
use iso_builder::registry::JobRegistry;

fn config(
    category: DistroCategory,
    overlays: Vec<&str>,
    scripts: Vec<&str>,
    de: Option<&str>,
) -> BuildConfig {
    BuildConfig {
        name: "custom-linux".to_string(),
        distro: match category {
            DistroCategory::Ubuntu => "ubuntu-22.04".to_string(),
            DistroCategory::Debian => "debian-12".to_string(),
            DistroCategory::Arch => "arch-linux".to_string(),
            DistroCategory::Fedora => "fedora-39".to_string(),
            DistroCategory::Custom => "custom".to_string(),
        },
        category,
        mode: BuildMode::Desktop,
        overlays: overlays.iter().map(|s| s.to_string()).collect(),
        custom_software: vec![],
        desktop_environment: de.map(|s| s.to_string()),
        theme: ThemeConfig {
            wallpaper: None,
            gtk_theme: Some("Adwaita".to_string()),
            icon_theme: None,
            colors: ColorScheme {
                primary: "#111111".to_string(),
                secondary: "#222222".to_string(),
                background: "#000000".to_string(),
                text: "#ffffff".to_string(),
            },
        },
        custom_scripts: scripts.iter().map(|s| s.to_string()).collect(),
        hardware: String::new(),
        ai_mode: false,
    }
}

fn fresh_run(reg: &mut JobRegistry, c: BuildConfig, id: u128) -> PipelineRun {
    assert!(reg.create_build(c.clone(), id, 0));
    PipelineRun::new(id, c, "/tmp/work".to_string())
}

#[test]
fn successful_run_visits_every_stage() {
    let mut reg = JobRegistry::new();
    let mut run = fresh_run(
        &mut reg,
        config(DistroCategory::Debian, vec!["docker"], vec!["echo hi"], Some("gnome")),
        11,
    );
    run_scripted(&mut run, &mut reg, &ScriptPolicy::AllOk, 5);
    let job = reg.get_build(11).unwrap();
    assert_eq!(job.status, BuildStatus::Completed);
    assert_eq!(job.progress, 100);
    let url = job.download_url.as_deref().unwrap();
    assert!(url.starts_with("https://storage.example.com/isos/"));
    assert!(url.ends_with("custom-linux.iso"));
    let messages: Vec<&str> = job.logs.iter().map(|l| l.message.as_str()).collect();
    for expected in [
        "Starting build process",
        "Base system prepared",
        "Packages installed",
        "Customizations applied",
        "ISO image created",
        "ISO uploaded",
        "Build completed successfully",
    ] {
        assert!(messages.contains(&expected), "missing log {expected}");
    }
    // the stage messages appear in pipeline order
    let order: Vec<usize> = [
        "Starting build process",
        "Base system prepared",
        "Packages installed",
        "Customizations applied",
        "ISO image created",
        "ISO uploaded",
        "Build completed successfully",
    ]
    .iter()
    .map(|m| messages.iter().position(|x| x == m).unwrap())
    .collect();
    for w in order.windows(2) {
        assert!(w[0] < w[1]);
    }
}

#[test]
fn bootstrap_failure_is_fatal_and_never_reaches_packaging() {
    let mut reg = JobRegistry::new();
    let mut run = fresh_run(
        &mut reg,
        config(DistroCategory::Debian, vec![], vec![], None),
        12,
    );
    run_scripted(
        &mut run,
        &mut reg,
        &ScriptPolicy::FailCommandsNamed("debootstrap".to_string()),
        5,
    );
    let job = reg.get_build(12).unwrap();
    assert_eq!(job.status, BuildStatus::Failed);
    assert_eq!(job.progress, 0);
    let err = job.error.as_deref().unwrap();
    assert_eq!(err, "debootstrap failed: simulated tool failure");
    assert_eq!(
        job.logs.last().unwrap().message,
        "Build failed: debootstrap failed: simulated tool failure"
    );
    assert!(job
        .logs
        .iter()
        .any(|l| l.message.starts_with("Build failed: debootstrap failed: ")));
    assert!(!job.logs.iter().any(|l| l.message == "ISO image created"));
}

#[test]
fn arch_and_fedora_runs_complete() {
    for (category, id) in [(DistroCategory::Arch, 13u128), (DistroCategory::Fedora, 14u128)] {
        let mut reg = JobRegistry::new();
        let mut run = fresh_run(&mut reg, config(category, vec![], vec![], None), id);
        run_scripted(&mut run, &mut reg, &ScriptPolicy::AllOk, 5);
        assert_eq!(reg.get_build(id).unwrap().status, BuildStatus::Completed);
    }
}

#[test]
fn custom_distro_is_rejected_immediately() {
    let mut reg = JobRegistry::new();
    let mut run = fresh_run(&mut reg, config(DistroCategory::Custom, vec![], vec![], None), 15);
    let act = pipeline_step(&mut run, &mut reg, Event::Started, 3);
    assert!(act.is_none());
    let job = reg.get_build(15).unwrap();
    assert_eq!(job.status, BuildStatus::Failed);
    assert_eq!(job.error.as_deref(), Some("Custom distros not yet supported"));
}

#[test]
fn package_failures_are_soft() {
    let mut reg = JobRegistry::new();
    let mut run = fresh_run(
        &mut reg,
        config(DistroCategory::Debian, vec!["docker", "k3s"], vec![], None),
        16,
    );
    // every in-root command runs through `chroot`, so failing it fails
    // each package install without stopping the run
    run_scripted(
        &mut run,
        &mut reg,
        &ScriptPolicy::FailCommandsNamed("chroot".to_string()),
        5,
    );
    let job = reg.get_build(16).unwrap();
    assert_eq!(job.status, BuildStatus::Completed);
    let warnings: Vec<&str> = job
        .logs
        .iter()
        .filter(|l| l.level == iso_builder::model::LogLevel::Warning)
        .map(|l| l.message.as_str())
        .collect();
    assert_eq!(
        warnings,
        vec![
            "Failed to install package docker: simulated tool failure",
            "Failed to install package k3s: simulated tool failure",
        ]
    );
}

#[test]
fn script_failures_are_soft_and_warned() {
    let mut reg = JobRegistry::new();
    let mut run = fresh_run(
        &mut reg,
        config(DistroCategory::Debian, vec![], vec!["echo hi"], None),
        19,
    );
    // with no packages, the only in-root command is the custom script
    run_scripted(
        &mut run,
        &mut reg,
        &ScriptPolicy::FailCommandsNamed("chroot".to_string()),
        5,
    );
    let job = reg.get_build(19).unwrap();
    assert_eq!(job.status, BuildStatus::Completed);
    let warnings: Vec<&str> = job
        .logs
        .iter()
        .filter(|l| l.level == iso_builder::model::LogLevel::Warning)
        .map(|l| l.message.as_str())
        .collect();
    assert_eq!(warnings, vec!["Custom script failed: simulated tool failure"]);
}

#[test]
fn theme_values_are_recorded() {
    let mut reg = JobRegistry::new();
    let mut base = config(DistroCategory::Debian, vec![], vec![], None);
    base.theme.gtk_theme = Some("Adwaita".to_string());
    base.theme.icon_theme = Some("Papirus".to_string());
    base.theme.wallpaper = Some("https://example.invalid/w.png".to_string());
    let mut run = fresh_run(&mut reg, base, 20);
    run_scripted(&mut run, &mut reg, &ScriptPolicy::AllOk, 5);
    let job = reg.get_build(20).unwrap();
    let messages: Vec<&str> = job.logs.iter().map(|l| l.message.as_str()).collect();
    let gtk = messages.iter().position(|m| *m == "Setting GTK theme to: Adwaita").unwrap();
    let icon = messages.iter().position(|m| *m == "Setting icon theme to: Papirus").unwrap();
    let wall = messages
        .iter()
        .position(|m| *m == "Setting wallpaper to: https://example.invalid/w.png")
        .unwrap();
    assert!(gtk < icon && icon < wall);
}

#[test]
fn filesystem_failure_is_fatal_with_its_message() {
    let mut reg = JobRegistry::new();
    let mut run = fresh_run(&mut reg, config(DistroCategory::Debian, vec![], vec![], None), 21);
    let act = pipeline_step(&mut run, &mut reg, Event::Started, 1);
    assert!(matches!(act, Some(Action::MakeDir(_))));
    let act = pipeline_step(&mut run, &mut reg, Event::FsDone(Err("boom".to_string())), 2);
    assert!(act.is_none());
    let job = reg.get_build(21).unwrap();
    assert_eq!(job.status, BuildStatus::Failed);
    assert_eq!(job.error.as_deref(), Some("Filesystem error: boom"));
    assert_eq!(
        job.logs.last().unwrap().message,
        "Build failed: Filesystem error: boom"
    );
}

#[test]
fn first_step_makes_the_chroot() {
    let mut reg = JobRegistry::new();
    let mut run = fresh_run(&mut reg, config(DistroCategory::Debian, vec![], vec![], None), 17);
    let act = pipeline_step(&mut run, &mut reg, Event::Started, 1);
    match act {
        Some(Action::MakeDir(path)) => assert_eq!(path, "/tmp/work/chroot"),
        other => panic!("expected MakeDir, got {:?}", other.is_some()),
    }
    let job = reg.get_build(17).unwrap();
    assert_eq!(job.status, BuildStatus::Building);
    assert_eq!(job.progress, 0);
}

#[test]
fn bootstrap_commands_match_the_family() {
    let c = config(DistroCategory::Ubuntu, vec![], vec![], None);
    let cmd = bootstrap_command(&c, "/w/chroot");
    assert_eq!(cmd.program, "debootstrap");
    assert_eq!(
        cmd.args,
        vec![
            "--arch=amd64",
            "--variant=minbase",
            "ubuntu",
            "/w/chroot",
            "http://archive.ubuntu.com/ubuntu/"
        ]
    );

    let c = config(DistroCategory::Arch, vec![], vec![], None);
    let cmd = bootstrap_command(&c, "/w/chroot");
    assert_eq!(cmd.program, "pacstrap");
    assert_eq!(cmd.args, vec!["-K", "/w/chroot", "base"]);

    let c = config(DistroCategory::Fedora, vec![], vec![], None);
    let cmd = bootstrap_command(&c, "/w/chroot");
    assert_eq!(cmd.program, "dnf");
    assert_eq!(
        cmd.args,
        vec![
            "install",
            "-y",
            "--releasever=39",
            "--installroot",
            "/w/chroot",
            "fedora-release",
            "coreutils"
        ]
    );
}

#[test]
fn install_commands_run_inside_the_root() {
    let cmd = install_command(PackageManager::Apt, "/w/chroot", "firefox");
    assert_eq!(cmd.program, "chroot");
    assert_eq!(cmd.args, vec!["/w/chroot", "apt-get", "install", "-y", "firefox"]);
    let cmd = install_command(PackageManager::Pacman, "/w/chroot", "firefox");
    assert_eq!(cmd.args, vec!["/w/chroot", "pacman", "-S", "--noconfirm", "firefox"]);
    let cmd = install_command(PackageManager::Yum, "/w/chroot", "firefox");
    assert_eq!(cmd.args, vec!["/w/chroot", "yum", "install", "-y", "firefox"]);
}

#[test]
fn iso_command_carries_metadata_and_both_boot_records() {
    let cmd = iso_builder::pipeline::iso_command("custom-linux", "/w/custom-linux.iso", "/w/iso");
    assert_eq!(cmd.program, "xorriso");
    assert_eq!(
        cmd.args,
        vec![
            "-as",
            "mkisofs",
            "-iso-level",
            "3",
            "-full-iso9660-filenames",
            "-volid",
            "custom-linux",
            "-appid",
            "Linux ISO Creator",
            "-publisher",
            "Linux ISO Creator",
            "-preparer",
            "Linux ISO Creator",
            "-eltorito-boot",
            "boot/grub/i386-pc/eltorito.img",
            "-no-emul-boot",
            "-boot-load-size",
            "4",
            "-boot-info-table",
            "-eltorito-alt-boot",
            "-e",
            "boot/grub/efi.img",
            "-no-emul-boot",
            "-isohybrid-gpt-basdat",
            "-output",
            "/w/custom-linux.iso",
            "/w/iso"
        ]
    );
}

#[test]
fn manager_probe_prefers_apt() {
    assert_eq!(pick_manager(&vec![true, true, false, false]), Some(PackageManager::Apt));
    assert_eq!(pick_manager(&vec![false, true, false, true]), Some(PackageManager::Pacman));
    assert_eq!(pick_manager(&vec![false, false, true, true]), Some(PackageManager::Dnf));
    assert_eq!(pick_manager(&vec![false, false, false, true]), Some(PackageManager::Yum));
    assert_eq!(pick_manager(&vec![false, false, false, false]), None);
}

#[test]
fn missing_package_manager_is_fatal() {
    let mut reg = JobRegistry::new();
    let mut run = fresh_run(
        &mut reg,
        config(DistroCategory::Debian, vec!["docker"], vec![], None),
        18,
    );
    let mut act = pipeline_step(&mut run, &mut reg, Event::Started, 1);
    // chroot created, bootstrap succeeds, then the probe finds nothing
    loop {
        let ev = match act {
            Some(Action::MakeDir(_)) => Event::FsDone(Ok(())),
            Some(Action::Execute(_)) => Event::Ran(iso_builder::pipeline::CommandResult {
                success: true,
                stdout: String::new(),
                stderr: String::new(),
            }),
            Some(Action::ProbeManagers(_)) => Event::Probed(vec![false, false, false, false]),
            Some(_) => panic!("unexpected action before the probe"),
            None => break,
        };
        act = pipeline_step(&mut run, &mut reg, ev, 2);
    }
    let job = reg.get_build(18).unwrap();
    assert_eq!(job.status, BuildStatus::Failed);
    assert_eq!(job.error.as_deref(), Some("No supported package manager found"));
}

#[test]
fn package_order_is_desktop_environment_first() {
    let c = config(DistroCategory::Debian, vec!["a", "b"], vec![], Some("gnome"));
    let pkgs = package_list(&c);
    assert_eq!(pkgs, vec!["gnome", "a", "b"]);
}

#[test]
fn upload_url_names_job_and_image() {
    let url = upload_url(0xabcd, "custom-linux.iso");
    assert_eq!(
        url,
        format!(
            "https://storage.example.com/isos/{:032x}/custom-linux.iso",
            0xabcdu128
        )
    );
}

#[test]
fn events_must_match_the_outstanding_action() {
    assert!(event_matches(&PipelineState::Starting, &Event::Started));
    assert!(!event_matches(&PipelineState::Starting, &Event::FsDone(Ok(()))));
    assert!(event_matches(&PipelineState::MakingChroot, &Event::FsDone(Ok(()))));
    assert!(event_matches(
        &PipelineState::Probing { pkg: 0 },
        &Event::Probed(vec![true, false, false, false])
    ));
    assert!(!event_matches(
        &PipelineState::Probing { pkg: 0 },
        &Event::Probed(vec![true])
    ));
    assert!(!event_matches(&PipelineState::Finished, &Event::Started));
}
