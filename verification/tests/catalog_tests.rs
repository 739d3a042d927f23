//! Catalog contents, the self-test report, and small helpers.

use iso_builder::catalog::{get_distros, list_distros};
use iso_builder::model::{ApiResponse, DistroCategory};
use iso_builder::selftest::run_self_test;
use iso_builder::text::format_job_id;

#[test]
fn templates_cover_the_four_families() {
    let distros = get_distros();
    assert_eq!(distros.len(), 4);
    let ids: Vec<&str> = distros.iter().map(|d| d.id.as_str()).collect();
    assert_eq!(ids, vec!["ubuntu-22.04", "debian-12", "arch-linux", "fedora-39"]);
    assert_eq!(distros[0].category, DistroCategory::Ubuntu);
    assert_eq!(distros[1].category, DistroCategory::Debian);
    assert_eq!(distros[2].category, DistroCategory::Arch);
    assert_eq!(distros[3].category, DistroCategory::Fedora);
    assert_eq!(
        distros[0].default_packages,
        vec!["ubuntu-desktop-minimal", "gnome-shell", "firefox", "libreoffice"]
    );
    assert!(distros.iter().all(|d| d.desktop_environment == "GNOME"));
    assert_eq!(distros[3].base_image, "fedora:39");
}

#[test]
fn listing_names_the_four_offerings() {
    let distros = list_distros();
    assert_eq!(distros.len(), 4);
    let ids: Vec<&str> = distros.iter().map(|d| d.id.as_str()).collect();
    assert_eq!(ids, vec!["nixos", "debian", "rocky", "proxmox"]);
    assert_eq!(distros[1].tagline, "The universal operating system");
    assert_eq!(distros[2].source, "github.com/rocky-linux");
}

#[test]
fn self_test_passes_every_check() {
    let report = run_self_test(77, 0);
    assert_eq!(report.passed, 6);
    assert_eq!(report.failed, 0);
    assert_eq!(report.tests.len(), 6);
    assert!(report.tests.iter().all(|t| t.passed));
    let names: Vec<&str> = report.tests.iter().map(|t| t.name.as_str()).collect();
    assert_eq!(
        names,
        vec![
            "health_check",
            "distro_list",
            "build_job_create",
            "build_job_retrieve",
            "overlay_catalog",
            "stripe_integration"
        ]
    );
    assert_eq!(report.tests[2].message, format!("Job {:032x} created", 77u128));
}

#[test]
fn api_response_envelopes() {
    let ok: ApiResponse<u32> = ApiResponse::ok(5);
    assert!(ok.success);
    assert_eq!(ok.data, Some(5));
    assert!(ok.error.is_none());
    let bad: ApiResponse<u32> = ApiResponse::failure("nope".to_string());
    assert!(!bad.success);
    assert!(bad.data.is_none());
    assert_eq!(bad.error.as_deref(), Some("nope"));
}

#[test]
fn job_ids_render_as_padded_hex() {
    assert_eq!(format_job_id(0), "0".repeat(32));
    assert_eq!(format_job_id(0xdeadbeef), format!("{:032x}", 0xdeadbeefu128));
    assert_eq!(format_job_id(u128::MAX), format!("{:032x}", u128::MAX));
}
