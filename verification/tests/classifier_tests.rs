//! Device classifier behaviour on concrete enumeration text.

use iso_builder::classifier::{detect_kernel_modules, parse_lspci, recommend_modules};

#[test]
fn parses_example_vga_line() {
    let devices = parse_lspci("00:02.0 VGA compatible controller: NVIDIA Corporation GP108");
    assert_eq!(devices.len(), 1);
    assert_eq!(devices[0].slot, "00:02.0");
    assert_eq!(devices[0].device_type, "VGA compatible controller");
    assert_eq!(devices[0].device_name, "NVIDIA Corporation GP108");
}

#[test]
fn nvidia_vga_yields_nouveau_then_nvidia() {
    let devices = parse_lspci("00:02.0 VGA compatible controller: NVIDIA Corporation GP108");
    let mods = detect_kernel_modules(&devices);
    assert_eq!(mods.len(), 2);
    assert_eq!(mods[0].module, "nouveau");
    assert!(!mods[0].enabled);
    assert_eq!(mods[0].reason, "Open-source NVIDIA (conflicts with proprietary)");
    assert_eq!(mods[1].module, "nvidia");
    assert!(mods[1].enabled);
    assert_eq!(mods[1].reason, "GPU: NVIDIA Corporation GP108");
}

#[test]
fn one_record_per_nonblank_line() {
    let raw = "\n00:00.0 Host bridge: Intel Corporation Device\n\n   \n00:1f.3 Audio device: Intel Corporation Cannon Lake\nnocolonhere\n";
    let devices = parse_lspci(raw);
    assert_eq!(devices.len(), 3);
    assert_eq!(devices[2].slot, "nocolonhere");
    assert_eq!(devices[2].device_type, "Unknown");
    assert_eq!(devices[2].device_name, "");
}

#[test]
fn malformed_line_degrades_to_unknown() {
    let devices = parse_lspci("03:00.0 some device without separator");
    assert_eq!(devices.len(), 1);
    assert_eq!(devices[0].slot, "03:00.0");
    assert_eq!(devices[0].device_type, "Unknown");
    assert_eq!(devices[0].device_name, "some device without separator");
}

#[test]
fn classification_is_deterministic() {
    let raw = "00:02.0 VGA compatible controller: NVIDIA Corporation GP108\n00:1f.3 Audio device: Intel Corporation\n02:00.0 Ethernet controller: Realtek Semiconductor RTL8111";
    let devices = parse_lspci(raw);
    let a = detect_kernel_modules(&devices);
    let b = detect_kernel_modules(&devices);
    assert_eq!(a.len(), b.len());
    for (x, y) in a.iter().zip(b.iter()) {
        assert_eq!(x.module, y.module);
        assert_eq!(x.reason, y.reason);
        assert_eq!(x.enabled, y.enabled);
    }
}

#[test]
fn output_is_sorted_and_deduplicated() {
    let raw = "00:1f.3 Audio device: Intel Corporation Cannon Lake\n00:02.0 VGA compatible controller: NVIDIA Corporation GP108\n01:00.0 USB controller: Intel Corporation\n02:00.0 Audio device: Creative Labs Sound Core\n03:00.0 SATA controller: Intel Corporation AHCI";
    let mods = detect_kernel_modules(&parse_lspci(raw));
    let names: Vec<&str> = mods.iter().map(|m| m.module.as_str()).collect();
    assert_eq!(names, vec!["ahci", "nouveau", "nvidia", "snd_hda_intel", "xhci_hcd"]);
    for w in names.windows(2) {
        assert!(w[0] < w[1]);
    }
    // first occurrence wins: the audio reason names the Intel device
    let audio = mods.iter().find(|m| m.module == "snd_hda_intel").unwrap();
    assert_eq!(audio.reason, "Audio: Intel Corporation Cannon Lake");
}

#[test]
fn network_rules_pick_the_right_driver() {
    let raw = "00:14.3 Network controller: Intel Corporation Wi-Fi 6 AX201\n01:00.0 Ethernet controller: Intel Corporation I219-V\n02:00.0 Ethernet controller: Realtek Semiconductor RTL8111\n03:00.0 Ethernet controller: Broadcom BCM57416\n04:00.0 Network controller: Qualcomm Atheros QCA6174";
    let mods = detect_kernel_modules(&parse_lspci(raw));
    let names: Vec<&str> = mods.iter().map(|m| m.module.as_str()).collect();
    assert_eq!(names, vec!["ath11k", "bnxt_en", "e1000e", "iwlwifi", "r8169"]);
    assert!(mods.iter().all(|m| m.enabled));
}

#[test]
fn amd_and_intel_graphics() {
    let mods = detect_kernel_modules(&parse_lspci(
        "00:02.0 VGA compatible controller: Advanced Micro Devices Radeon RX",
    ));
    assert_eq!(mods.len(), 1);
    assert_eq!(mods[0].module, "amdgpu");
    assert!(mods[0].enabled);

    let mods = detect_kernel_modules(&parse_lspci(
        "00:02.0 VGA compatible controller: Intel Corporation UHD Graphics 620",
    ));
    assert_eq!(mods.len(), 1);
    assert_eq!(mods[0].module, "i915");
}

#[test]
fn storage_rules_distinguish_nvme() {
    let mods = detect_kernel_modules(&parse_lspci(
        "01:00.0 Non-Volatile memory controller nvme: Samsung SSD 970",
    ));
    assert_eq!(mods.len(), 1);
    assert_eq!(mods[0].module, "nvme");

    let mods = detect_kernel_modules(&parse_lspci(
        "00:17.0 SATA controller: Intel Corporation 300 Series AHCI",
    ));
    assert_eq!(mods.len(), 1);
    assert_eq!(mods[0].module, "ahci");
}

#[test]
fn chipset_noise_is_skipped() {
    let raw = "00:00.0 Host bridge: Intel Corporation Device\n00:1f.0 ISA bridge: Intel Corporation\n00:1f.4 SMBus: Intel Corporation";
    let mods = detect_kernel_modules(&parse_lspci(raw));
    assert!(mods.is_empty());
}

#[test]
fn recommend_composes_parse_and_classify() {
    let raw = "00:02.0 VGA compatible controller: NVIDIA Corporation GP108";
    let direct = recommend_modules(raw);
    let composed = detect_kernel_modules(&parse_lspci(raw));
    assert_eq!(direct.len(), composed.len());
    for (x, y) in direct.iter().zip(composed.iter()) {
        assert_eq!(x.module, y.module);
        assert_eq!(x.reason, y.reason);
        assert_eq!(x.enabled, y.enabled);
    }
}

#[test]
fn empty_input_yields_nothing() {
    assert!(parse_lspci("").is_empty());
    assert!(detect_kernel_modules(&parse_lspci("")).is_empty());
}
