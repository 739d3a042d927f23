//! The distribution catalogs the service offers: the full templates the
//! build form consumes, and the short listing the lightweight API serves.

use vstd::prelude::*;

use crate::model::DistroCategory;

verus! {

/// A selectable base distribution, with everything the build form needs.
#[derive(Clone, Debug)]
pub struct DistroTemplate {
    pub id: String,
    pub name: String,
    pub description: String,
    pub icon: String,
    pub category: DistroCategory,
    pub default_packages: Vec<String>,
    pub desktop_environment: String,
    pub base_image: String,
}

/// A short catalog entry: identifier, name, tagline, and where the
/// distribution's sources live.
#[derive(Clone, Debug)]
pub struct DistroInfo {
    pub id: String,
    pub name: String,
    pub tagline: String,
    pub source: String,
}

fn template(
    id: &str,
    name: &str,
    description: &str,
    icon: &str,
    category: DistroCategory,
    desktop_environment: &str,
    base_image: &str,
) -> (r: DistroTemplate)
    ensures
        r.id@ == id@,
        r.name@ == name@,
        r.description@ == description@,
        r.icon@ == icon@,
        r.category == category,
        r.default_packages@.len() == 0,
        r.desktop_environment@ == desktop_environment@,
        r.base_image@ == base_image@,
{
    DistroTemplate {
        id: String::from_str(id),
        name: String::from_str(name),
        description: String::from_str(description),
        icon: String::from_str(icon),
        category,
        default_packages: Vec::new(),
        desktop_environment: String::from_str(desktop_environment),
        base_image: String::from_str(base_image),
    }
}

/// The four templates the build form offers, in presentation order.
pub fn get_distros() -> (r: Vec<DistroTemplate>)
    ensures
        r@.len() == 4,
        r@[0].id@ == "ubuntu-22.04"@ && r@[0].name@ == "Ubuntu 22.04 LTS"@ && r@[0].category
            == DistroCategory::Ubuntu && r@[0].desktop_environment@ == "GNOME"@
            && r@[0].base_image@ == "ubuntu:22.04"@,
        r@[0].default_packages@.len() == 4 && r@[0].default_packages@[0]@
            == "ubuntu-desktop-minimal"@ && r@[0].default_packages@[1]@ == "gnome-shell"@
            && r@[0].default_packages@[2]@ == "firefox"@ && r@[0].default_packages@[3]@
            == "libreoffice"@,
        r@[1].id@ == "debian-12"@ && r@[1].name@ == "Debian 12"@ && r@[1].category
            == DistroCategory::Debian && r@[1].desktop_environment@ == "GNOME"@
            && r@[1].base_image@ == "debian:12"@,
        r@[1].default_packages@.len() == 3 && r@[1].default_packages@[0]@ == "gnome"@
            && r@[1].default_packages@[1]@ == "firefox-esr"@ && r@[1].default_packages@[2]@
            == "libreoffice"@,
        r@[2].id@ == "arch-linux"@ && r@[2].name@ == "Arch Linux"@ && r@[2].category
            == DistroCategory::Arch && r@[2].desktop_environment@ == "GNOME"@
            && r@[2].base_image@ == "archlinux:latest"@,
        r@[2].default_packages@.len() == 3 && r@[2].default_packages@[0]@ == "gnome"@
            && r@[2].default_packages@[1]@ == "firefox"@ && r@[2].default_packages@[2]@
            == "libreoffice-fresh"@,
        r@[3].id@ == "fedora-39"@ && r@[3].name@ == "Fedora 39"@ && r@[3].category
            == DistroCategory::Fedora && r@[3].desktop_environment@ == "GNOME"@
            && r@[3].base_image@ == "fedora:39"@,
        r@[3].default_packages@.len() == 3 && r@[3].default_packages@[0]@ == "@gnome-desktop"@
            && r@[3].default_packages@[1]@ == "firefox"@ && r@[3].default_packages@[2]@
            == "libreoffice"@,
{
    let mut r: Vec<DistroTemplate> = Vec::new();

    let mut ubuntu = template(
        "ubuntu-22.04",
        "Ubuntu 22.04 LTS",
        "The world's most popular Linux distribution with long-term support",
        "\u{1f7e0}",
        DistroCategory::Ubuntu,
        "GNOME",
        "ubuntu:22.04",
    );
    ubuntu.default_packages.push(String::from_str("ubuntu-desktop-minimal"));
    ubuntu.default_packages.push(String::from_str("gnome-shell"));
    ubuntu.default_packages.push(String::from_str("firefox"));
    ubuntu.default_packages.push(String::from_str("libreoffice"));
    r.push(ubuntu);

    let mut debian = template(
        "debian-12",
        "Debian 12",
        "The universal operating system known for stability and security",
        "\u{2764}\u{fe0f}",
        DistroCategory::Debian,
        "GNOME",
        "debian:12",
    );
    debian.default_packages.push(String::from_str("gnome"));
    debian.default_packages.push(String::from_str("firefox-esr"));
    debian.default_packages.push(String::from_str("libreoffice"));
    r.push(debian);

    let mut arch = template(
        "arch-linux",
        "Arch Linux",
        "A lightweight and flexible Linux distribution that keeps it simple",
        "\u{1f537}",
        DistroCategory::Arch,
        "GNOME",
        "archlinux:latest",
    );
    arch.default_packages.push(String::from_str("gnome"));
    arch.default_packages.push(String::from_str("firefox"));
    arch.default_packages.push(String::from_str("libreoffice-fresh"));
    r.push(arch);

    let mut fedora = template(
        "fedora-39",
        "Fedora 39",
        "Leading-edge platform for developers, artists, and sysadmins",
        "\u{1f535}",
        DistroCategory::Fedora,
        "GNOME",
        "fedora:39",
    );
    fedora.default_packages.push(String::from_str("@gnome-desktop"));
    fedora.default_packages.push(String::from_str("firefox"));
    fedora.default_packages.push(String::from_str("libreoffice"));
    r.push(fedora);

    r
}

fn info(id: &str, name: &str, tagline: &str, source: &str) -> (r: DistroInfo)
    ensures
        r.id@ == id@,
        r.name@ == name@,
        r.tagline@ == tagline@,
        r.source@ == source@,
{
    DistroInfo {
        id: String::from_str(id),
        name: String::from_str(name),
        tagline: String::from_str(tagline),
        source: String::from_str(source),
    }
}

/// The four entries of the short distribution listing, in order.
pub fn list_distros() -> (r: Vec<DistroInfo>)
    ensures
        r@.len() == 4,
        r@[0].id@ == "nixos"@ && r@[0].name@ == "NixOS"@ && r@[0].tagline@
            == "Reproducible, declarative"@ && r@[0].source@ == "github.com/NixOS/nixpkgs"@,
        r@[1].id@ == "debian"@ && r@[1].name@ == "Debian"@ && r@[1].tagline@
            == "The universal operating system"@ && r@[1].source@
            == "salsa.debian.org/kernel-team"@,
        r@[2].id@ == "rocky"@ && r@[2].name@ == "Rocky Linux"@ && r@[2].tagline@
            == "Enterprise RHEL-compatible"@ && r@[2].source@ == "github.com/rocky-linux"@,
        r@[3].id@ == "proxmox"@ && r@[3].name@ == "Proxmox VE"@ && r@[3].tagline@
            == "Enterprise virtualization platform"@ && r@[3].source@ == "git.proxmox.com"@,
{
    let mut r: Vec<DistroInfo> = Vec::new();
    r.push(info("nixos", "NixOS", "Reproducible, declarative", "github.com/NixOS/nixpkgs"));
    r.push(
        info(
            "debian",
            "Debian",
            "The universal operating system",
            "salsa.debian.org/kernel-team",
        ),
    );
    r.push(info("rocky", "Rocky Linux", "Enterprise RHEL-compatible", "github.com/rocky-linux"));
    r.push(
        info("proxmox", "Proxmox VE", "Enterprise virtualization platform", "git.proxmox.com"),
    );
    r
}

} // verus!
