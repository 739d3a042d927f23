//! Build pipeline: a state machine that turns a configuration into a built
//! image by driving external tools. Each step consumes the outcome of the
//! previous action, mutates the job record through the registry, and hands
//! back the next action to perform. The loop that actually runs commands,
//! touches the filesystem and uploads lives outside the crate; everything
//! it decides on is decided here.

use vstd::prelude::*;

use crate::model::{
    is_terminal, BuildConfig, BuildStatus, DistroCategory, LogLevel,
};
use crate::registry::JobRegistry;
use crate::text::{find_char, index_of_char, job_id_text, substring};

verus! {

/// One external command: program, arguments, working directory.
pub struct CommandSpec {
    pub program: String,
    pub args: Vec<String>,
    pub dir: String,
}

/// What running an external command produced.
pub struct CommandResult {
    pub success: bool,
    pub stdout: String,
    pub stderr: String,
}

/// The next piece of outside work the pipeline asks for.
pub enum Action {
    /// Run an external command.
    Execute(CommandSpec),
    /// Create a directory and its parents.
    MakeDir(String),
    /// Write a file: path, contents.
    WriteFileTo(String, String),
    /// Mark a file executable.
    MakeExecutable(String),
    /// Delete a file.
    DeleteFile(String),
    /// Report which of `apt-get`, `pacman`, `dnf`, `yum` exist under the
    /// given root's `usr/bin`, in that order.
    ProbeManagers(String),
    /// Upload the image at the given path to object storage.
    Transfer(String),
}

/// The outcome of the action the pipeline last asked for.
pub enum Event {
    /// Nothing has run yet; hands the pipeline its first step.
    Started,
    /// Outcome of `Execute`.
    Ran(CommandResult),
    /// Outcome of a filesystem action, with an error text on failure.
    FsDone(Result<(), String>),
    /// Outcome of `ProbeManagers`: one flag per candidate, in order.
    Probed(Vec<bool>),
    /// Outcome of `Transfer`, with an error text on failure.
    Transferred(Result<(), String>),
}

/// Where a pipeline run stands: which action is outstanding.
#[derive(Clone, Copy, Debug, PartialEq, Eq, Structural)]
pub enum PipelineState {
    /// Created, nothing dispatched yet.
    Starting,
    /// Creating the chroot directory.
    MakingChroot,
    /// Running the bootstrap tool for the distribution family.
    Bootstrapping,
    /// Probing for a package manager before installing package `pkg`.
    Probing { pkg: usize },
    /// Installing package `pkg` inside the root.
    Installing { pkg: usize },
    /// Creating the theme directory.
    MakingThemesDir,
    /// Creating the icon directory.
    MakingIconsDir,
    /// Writing custom script `idx` into the root.
    WritingScript { idx: usize },
    /// Marking custom script `idx` executable.
    ChmodScript { idx: usize },
    /// Running custom script `idx` inside the root.
    RunningScript { idx: usize },
    /// Deleting custom script `idx` from the root.
    DeletingScript { idx: usize },
    /// Creating the image staging directory.
    MakingIsoDir,
    /// Creating the boot directory.
    MakingBootDir,
    /// Creating the bootloader directory.
    MakingGrubDir,
    /// Writing the bootloader configuration.
    WritingGrubCfg,
    /// Compressing the root into the live filesystem image.
    Squashing,
    /// Authoring the final bootable image.
    MakingIso,
    /// Uploading the image to object storage.
    Transferring,
    /// Terminal: the job completed or failed.
    Finished,
}

/// The build worker: its scratch area is where per-run working
/// directories are created.
pub struct IsoBuilder {
    pub work_dir: String,
}

impl IsoBuilder {
    /// A worker rooted at the default scratch area.
    pub fn new() -> (r: IsoBuilder)
        ensures
            r.work_dir@ == "/tmp/iso-builder"@,
    {
        IsoBuilder { work_dir: String::from_str("/tmp/iso-builder") }
    }

    /// The isolated working directory of one run under this worker's
    /// scratch area, named by the job identifier.
    pub fn run_dir(&self, job_id: u128) -> (r: String)
        ensures
            r@ == self.work_dir@ + "/"@ + job_id_text(job_id),
    {
        join_path(self.work_dir.as_str(), crate::text::format_job_id(job_id).as_str())
    }
}

/// One pipeline run: the job it mutates, its configuration, the isolated
/// working directory the external tools use, and the current state.
pub struct PipelineRun {
    pub job_id: u128,
    pub config: BuildConfig,
    pub build_dir: String,
    pub state: PipelineState,
}

/// The packages stage 2 installs: the desktop environment, if any, then
/// every overlay and custom package.
pub open spec fn spec_packages(c: BuildConfig) -> Seq<String> {
    (match c.desktop_environment {
        Some(de) => seq![de],
        None => Seq::empty(),
    }) + c.overlays@ + c.custom_software@
}

/// Runtime counterpart of `spec_packages`.
pub fn package_list(c: &BuildConfig) -> (r: Vec<String>)
    ensures
        r@ == spec_packages(*c),
{
    let mut r: Vec<String> = Vec::new();
    match &c.desktop_environment {
        Some(de) => {
            r.push(de.clone());
            proof {
                assert(r@ =~= (match c.desktop_environment {
                    Some(de2) => seq![de2],
                    None => Seq::<String>::empty(),
                }));
            }
        },
        None => {
            proof {
                assert(r@ =~= (match c.desktop_environment {
                    Some(de2) => seq![de2],
                    None => Seq::<String>::empty(),
                }));
            }
        },
    }
    let ghost head = r@;
    let mut k: usize = 0;
    while k < c.overlays.len()
        invariant
            k <= c.overlays@.len(),
            r@ == head + c.overlays@.subrange(0, k as int),
        decreases c.overlays@.len() - k,
    {
        r.push(c.overlays[k].clone());
        proof {
            assert(r@ =~= head + c.overlays@.subrange(0, k + 1));
        }
        k += 1;
    }
    proof {
        assert(c.overlays@.subrange(0, c.overlays@.len() as int) =~= c.overlays@);
    }
    let ghost mid = r@;
    let mut t: usize = 0;
    while t < c.custom_software.len()
        invariant
            t <= c.custom_software@.len(),
            r@ == mid + c.custom_software@.subrange(0, t as int),
        decreases c.custom_software@.len() - t,
    {
        r.push(c.custom_software[t].clone());
        proof {
            assert(r@ =~= mid + c.custom_software@.subrange(0, t + 1));
        }
        t += 1;
    }
    proof {
        assert(c.custom_software@.subrange(0, c.custom_software@.len() as int)
            =~= c.custom_software@);
        assert(r@ =~= spec_packages(*c));
    }
    r
}

/// The recognized package managers, in probe priority order.
#[derive(Clone, Copy, Debug, PartialEq, Eq, Structural)]
pub enum PackageManager {
    Apt,
    Pacman,
    Dnf,
    Yum,
}

/// The first present manager in priority order, if any.
pub fn pick_manager(mask: &Vec<bool>) -> (r: Option<PackageManager>)
    requires
        mask@.len() == 4,
    ensures
        r == (if mask@[0] {
            Some(PackageManager::Apt)
        } else if mask@[1] {
            Some(PackageManager::Pacman)
        } else if mask@[2] {
            Some(PackageManager::Dnf)
        } else if mask@[3] {
            Some(PackageManager::Yum)
        } else {
            None::<PackageManager>
        }),
{
    if mask[0] {
        Some(PackageManager::Apt)
    } else if mask[1] {
        Some(PackageManager::Pacman)
    } else if mask[2] {
        Some(PackageManager::Dnf)
    } else if mask[3] {
        Some(PackageManager::Yum)
    } else {
        None
    }
}

/// `a` and `b` joined with a path separator.
fn join_path(a: &str, b: &str) -> (r: String)
    ensures
        r@ == a@ + "/"@ + b@,
{
    String::from_str(a).concat("/").concat(b)
}

/// Name of the bootstrap tool for a distribution family.
pub open spec fn bootstrap_tool_name(cat: DistroCategory) -> Seq<char> {
    match cat {
        DistroCategory::Ubuntu => "debootstrap"@,
        DistroCategory::Debian => "debootstrap"@,
        DistroCategory::Arch => "pacstrap"@,
        DistroCategory::Fedora => "dnf"@,
        DistroCategory::Custom => ""@,
    }
}

/// The suite name a distribution selector carries: its text up to the
/// first dash.
pub open spec fn suite_of(distro: Seq<char>) -> Seq<char> {
    distro.subrange(0, find_char(distro, '-'))
}

/// Runtime counterpart of `suite_of`.
fn suite_prefix(distro: &str) -> (r: String)
    ensures
        r@ == suite_of(distro@),
{
    let n = distro.unicode_len();
    let e = index_of_char(distro, 0, n, '-');
    proof {
        crate::text::lemma_find_char_unique(distro@, '-', e as int);
    }
    substring(distro, 0, e)
}

/// The bootstrap command of stage 1 for a non-custom distribution family.
pub fn bootstrap_command(config: &BuildConfig, chroot: &str) -> (r: CommandSpec)
    requires
        config.category != DistroCategory::Custom,
    ensures
        r.program@ == bootstrap_tool_name(config.category),
        r.dir@ == chroot@,
        config.category == DistroCategory::Ubuntu || config.category == DistroCategory::Debian
            ==> r.args@.len() == 5 && r.args@[0]@ == "--arch=amd64"@ && r.args@[1]@
            == "--variant=minbase"@ && r.args@[2]@ == suite_of(config.distro@) && r.args@[3]@
            == chroot@ && r.args@[4]@ == "http://archive.ubuntu.com/ubuntu/"@,
        config.category == DistroCategory::Arch ==> r.args@.len() == 3 && r.args@[0]@ == "-K"@
            && r.args@[1]@ == chroot@ && r.args@[2]@ == "base"@,
        config.category == DistroCategory::Fedora ==> r.args@.len() == 7 && r.args@[0]@
            == "install"@ && r.args@[1]@ == "-y"@ && r.args@[2]@ == "--releasever=39"@
            && r.args@[3]@ == "--installroot"@ && r.args@[4]@ == chroot@ && r.args@[5]@
            == "fedora-release"@ && r.args@[6]@ == "coreutils"@,
{
    match config.category {
        DistroCategory::Ubuntu | DistroCategory::Debian => {
            let mut args: Vec<String> = Vec::new();
            args.push(String::from_str("--arch=amd64"));
            args.push(String::from_str("--variant=minbase"));
            args.push(suite_prefix(config.distro.as_str()));
            args.push(String::from_str(chroot));
            args.push(String::from_str("http://archive.ubuntu.com/ubuntu/"));
            CommandSpec {
                program: String::from_str("debootstrap"),
                args,
                dir: String::from_str(chroot),
            }
        },
        DistroCategory::Arch => {
            let mut args: Vec<String> = Vec::new();
            args.push(String::from_str("-K"));
            args.push(String::from_str(chroot));
            args.push(String::from_str("base"));
            CommandSpec {
                program: String::from_str("pacstrap"),
                args,
                dir: String::from_str(chroot),
            }
        },
        _ => {
            let mut args: Vec<String> = Vec::new();
            args.push(String::from_str("install"));
            args.push(String::from_str("-y"));
            args.push(String::from_str("--releasever=39"));
            args.push(String::from_str("--installroot"));
            args.push(String::from_str(chroot));
            args.push(String::from_str("fedora-release"));
            args.push(String::from_str("coreutils"));
            CommandSpec { program: String::from_str("dnf"), args, dir: String::from_str(chroot) }
        },
    }
}

/// The in-root install command of stage 2 for one package.
pub fn install_command(mgr: PackageManager, chroot: &str, package: &str) -> (r: CommandSpec)
    ensures
        r.program@ == "chroot"@,
        r.dir@ == chroot@,
        r.args@.len() >= 2 && r.args@[0]@ == chroot@,
        mgr == PackageManager::Apt ==> r.args@.len() == 5 && r.args@[1]@ == "apt-get"@
            && r.args@[2]@ == "install"@ && r.args@[3]@ == "-y"@ && r.args@[4]@ == package@,
        mgr == PackageManager::Pacman ==> r.args@.len() == 5 && r.args@[1]@ == "pacman"@
            && r.args@[2]@ == "-S"@ && r.args@[3]@ == "--noconfirm"@ && r.args@[4]@ == package@,
        mgr == PackageManager::Dnf ==> r.args@.len() == 5 && r.args@[1]@ == "dnf"@ && r.args@[2]@
            == "install"@ && r.args@[3]@ == "-y"@ && r.args@[4]@ == package@,
        mgr == PackageManager::Yum ==> r.args@.len() == 5 && r.args@[1]@ == "yum"@ && r.args@[2]@
            == "install"@ && r.args@[3]@ == "-y"@ && r.args@[4]@ == package@,
{
    let mut args: Vec<String> = Vec::new();
    args.push(String::from_str(chroot));
    match mgr {
        PackageManager::Apt => {
            args.push(String::from_str("apt-get"));
            args.push(String::from_str("install"));
            args.push(String::from_str("-y"));
        },
        PackageManager::Pacman => {
            args.push(String::from_str("pacman"));
            args.push(String::from_str("-S"));
            args.push(String::from_str("--noconfirm"));
        },
        PackageManager::Dnf => {
            args.push(String::from_str("dnf"));
            args.push(String::from_str("install"));
            args.push(String::from_str("-y"));
        },
        PackageManager::Yum => {
            args.push(String::from_str("yum"));
            args.push(String::from_str("install"));
            args.push(String::from_str("-y"));
        },
    }
    args.push(String::from_str(package));
    CommandSpec {
        program: String::from_str("chroot"),
        args,
        dir: String::from_str(chroot),
    }
}

/// The in-root invocation of one written custom script.
pub fn script_command(chroot: &str) -> (r: CommandSpec)
    ensures
        r.program@ == "chroot"@,
        r.dir@ == chroot@,
        r.args@.len() == 2 && r.args@[0]@ == chroot@ && r.args@[1]@ == "/tmp/custom-script.sh"@,
{
    let mut args: Vec<String> = Vec::new();
    args.push(String::from_str(chroot));
    args.push(String::from_str("/tmp/custom-script.sh"));
    CommandSpec {
        program: String::from_str("chroot"),
        args,
        dir: String::from_str(chroot),
    }
}

/// The live-filesystem compression command of stage 4.
pub fn squashfs_command(chroot: &str, squashfs_path: &str) -> (r: CommandSpec)
    ensures
        r.program@ == "mksquashfs"@,
        r.args@.len() == 4 && r.args@[0]@ == chroot@ && r.args@[1]@ == squashfs_path@
            && r.args@[2]@ == "-e"@ && r.args@[3]@ == "boot"@,
{
    let mut args: Vec<String> = Vec::new();
    args.push(String::from_str(chroot));
    args.push(String::from_str(squashfs_path));
    args.push(String::from_str("-e"));
    args.push(String::from_str("boot"));
    CommandSpec {
        program: String::from_str("mksquashfs"),
        args,
        dir: String::from_str(chroot),
    }
}

/// The views of a list of argument strings.
pub open spec fn args_views(args: Seq<String>) -> Seq<Seq<char>> {
    args.map_values(|s: String| s@)
}

/// Every argument of the image-authoring command, in order: fixed volume
/// metadata and the dual BIOS/EFI boot records.
pub open spec fn iso_command_args(name: Seq<char>, iso_path: Seq<char>, iso_dir: Seq<char>) -> Seq<
    Seq<char>,
> {
    seq![
        "-as"@,
        "mkisofs"@,
        "-iso-level"@,
        "3"@,
        "-full-iso9660-filenames"@,
        "-volid"@,
        name,
        "-appid"@,
        "Linux ISO Creator"@,
        "-publisher"@,
        "Linux ISO Creator"@,
        "-preparer"@,
        "Linux ISO Creator"@,
        "-eltorito-boot"@,
        "boot/grub/i386-pc/eltorito.img"@,
        "-no-emul-boot"@,
        "-boot-load-size"@,
        "4"@,
        "-boot-info-table"@,
        "-eltorito-alt-boot"@,
        "-e"@,
        "boot/grub/efi.img"@,
        "-no-emul-boot"@,
        "-isohybrid-gpt-basdat"@,
        "-output"@,
        iso_path,
        iso_dir,
    ]
}

/// The image-authoring command of stage 4: every argument pinned, with
/// fixed volume metadata and dual BIOS/EFI boot records.
pub fn iso_command(name: &str, iso_path: &str, iso_dir: &str) -> (r: CommandSpec)
    ensures
        r.program@ == "xorriso"@,
        r.dir@ == iso_dir@,
        args_views(r.args@) == iso_command_args(name@, iso_path@, iso_dir@),
{
    let mut args: Vec<String> = Vec::new();
    args.push(String::from_str("-as"));
    args.push(String::from_str("mkisofs"));
    args.push(String::from_str("-iso-level"));
    args.push(String::from_str("3"));
    args.push(String::from_str("-full-iso9660-filenames"));
    args.push(String::from_str("-volid"));
    args.push(String::from_str(name));
    args.push(String::from_str("-appid"));
    args.push(String::from_str("Linux ISO Creator"));
    args.push(String::from_str("-publisher"));
    args.push(String::from_str("Linux ISO Creator"));
    args.push(String::from_str("-preparer"));
    args.push(String::from_str("Linux ISO Creator"));
    args.push(String::from_str("-eltorito-boot"));
    args.push(String::from_str("boot/grub/i386-pc/eltorito.img"));
    args.push(String::from_str("-no-emul-boot"));
    args.push(String::from_str("-boot-load-size"));
    args.push(String::from_str("4"));
    args.push(String::from_str("-boot-info-table"));
    args.push(String::from_str("-eltorito-alt-boot"));
    args.push(String::from_str("-e"));
    args.push(String::from_str("boot/grub/efi.img"));
    args.push(String::from_str("-no-emul-boot"));
    args.push(String::from_str("-isohybrid-gpt-basdat"));
    args.push(String::from_str("-output"));
    args.push(String::from_str(iso_path));
    args.push(String::from_str(iso_dir));
    proof {
        assert(args_views(args@) =~= iso_command_args(name@, iso_path@, iso_dir@));
    }
    CommandSpec {
        program: String::from_str("xorriso"),
        args,
        dir: String::from_str(iso_dir),
    }
}

/// The bootloader configuration written into the live system.
pub fn grub_config() -> (r: String)
    ensures
        r@
            == "set timeout=10\nset default=0\n\nmenuentry \"Linux Live\" {\n    linux /boot/vmlinuz boot=live quiet splash\n    initrd /boot/initrd.img\n}\n"@,
{
    String::from_str(
        "set timeout=10\nset default=0\n\nmenuentry \"Linux Live\" {\n    linux /boot/vmlinuz boot=live quiet splash\n    initrd /boot/initrd.img\n}\n",
    )
}

/// Whether an event reports success.
pub open spec fn ev_ok(ev: Event) -> bool {
    match ev {
        Event::Started => true,
        Event::Ran(r) => r.success,
        Event::FsDone(r) => r is Ok,
        Event::Probed(m) => m@[0] || m@[1] || m@[2] || m@[3],
        Event::Transferred(r) => r is Ok,
    }
}

/// States whose failures are soft: logged as warnings, the run proceeds.
pub open spec fn soft_state(st: PipelineState) -> bool {
    st matches PipelineState::Installing { .. } || st matches PipelineState::RunningScript { .. }
}

/// The event kind a state's outstanding action answers with.
pub open spec fn expects(st: PipelineState, ev: Event) -> bool {
    match st {
        PipelineState::Starting => ev is Started,
        PipelineState::MakingChroot => ev is FsDone,
        PipelineState::Bootstrapping => ev is Ran,
        PipelineState::Probing { .. } => ev matches Event::Probed(m) && m@.len() == 4,
        PipelineState::Installing { .. } => ev is Ran,
        PipelineState::MakingThemesDir => ev is FsDone,
        PipelineState::MakingIconsDir => ev is FsDone,
        PipelineState::WritingScript { .. } => ev is FsDone,
        PipelineState::ChmodScript { .. } => ev is FsDone,
        PipelineState::RunningScript { .. } => ev is Ran,
        PipelineState::DeletingScript { .. } => ev is FsDone,
        PipelineState::MakingIsoDir => ev is FsDone,
        PipelineState::MakingBootDir => ev is FsDone,
        PipelineState::MakingGrubDir => ev is FsDone,
        PipelineState::WritingGrubCfg => ev is FsDone,
        PipelineState::Squashing => ev is Ran,
        PipelineState::MakingIso => ev is Ran,
        PipelineState::Transferring => ev is Transferred,
        PipelineState::Finished => false,
    }
}

/// Runtime counterpart of `expects`; what the loop outside checks before
/// handing an event in.
pub fn event_matches(st: &PipelineState, ev: &Event) -> (r: bool)
    ensures
        r == expects(*st, *ev),
{
    match st {
        PipelineState::Starting => matches!(ev, Event::Started),
        PipelineState::Bootstrapping | PipelineState::Installing { .. }
            | PipelineState::RunningScript { .. } | PipelineState::Squashing
            | PipelineState::MakingIso => matches!(ev, Event::Ran(_)),
        PipelineState::Probing { .. } => match ev {
            Event::Probed(m) => m.len() == 4,
            _ => false,
        },
        PipelineState::Transferring => matches!(ev, Event::Transferred(_)),
        PipelineState::Finished => false,
        _ => matches!(ev, Event::FsDone(_)),
    }
}

/// The action kind a state is waiting on.
pub open spec fn awaiting(st: PipelineState, a: Action) -> bool {
    match st {
        PipelineState::Starting => false,
        PipelineState::MakingChroot => a is MakeDir,
        PipelineState::Bootstrapping => a is Execute,
        PipelineState::Probing { .. } => a is ProbeManagers,
        PipelineState::Installing { .. } => a is Execute,
        PipelineState::MakingThemesDir => a is MakeDir,
        PipelineState::MakingIconsDir => a is MakeDir,
        PipelineState::WritingScript { .. } => a is WriteFileTo,
        PipelineState::ChmodScript { .. } => a is MakeExecutable,
        PipelineState::RunningScript { .. } => a is Execute,
        PipelineState::DeletingScript { .. } => a is DeleteFile,
        PipelineState::MakingIsoDir => a is MakeDir,
        PipelineState::MakingBootDir => a is MakeDir,
        PipelineState::MakingGrubDir => a is MakeDir,
        PipelineState::WritingGrubCfg => a is WriteFileTo,
        PipelineState::Squashing => a is Execute,
        PipelineState::MakingIso => a is Execute,
        PipelineState::Transferring => a is Transfer,
        PipelineState::Finished => false,
    }
}

/// Index bounds of a state, and no run past `Starting` with a custom
/// distribution family.
pub open spec fn state_wf(st: PipelineState, c: BuildConfig) -> bool {
    &&& (match st {
        PipelineState::Probing { pkg } => pkg < spec_packages(c).len(),
        PipelineState::Installing { pkg } => pkg < spec_packages(c).len(),
        PipelineState::WritingScript { idx } => idx < c.custom_scripts@.len(),
        PipelineState::ChmodScript { idx } => idx < c.custom_scripts@.len(),
        PipelineState::RunningScript { idx } => idx < c.custom_scripts@.len(),
        PipelineState::DeletingScript { idx } => idx < c.custom_scripts@.len(),
        _ => true,
    })
    &&& (st != PipelineState::Starting && st != PipelineState::Finished ==> c.category
        != DistroCategory::Custom)
}

/// The job status a live state implies; `Finished` carries no expectation
/// and `run_inv` never consults it there.
pub open spec fn expected_status(st: PipelineState) -> BuildStatus {
    match st {
        PipelineState::Starting => BuildStatus::Queued,
        PipelineState::Transferring => BuildStatus::Packaging,
        PipelineState::Finished => BuildStatus::Failed,
        _ => BuildStatus::Building,
    }
}

/// The progress checkpoint a live state implies.
pub open spec fn expected_progress(st: PipelineState) -> int {
    match st {
        PipelineState::Starting => 0,
        PipelineState::MakingChroot => 0,
        PipelineState::Bootstrapping => 0,
        PipelineState::Probing { .. } => 20,
        PipelineState::Installing { .. } => 20,
        PipelineState::MakingThemesDir => 40,
        PipelineState::MakingIconsDir => 40,
        PipelineState::WritingScript { .. } => 40,
        PipelineState::ChmodScript { .. } => 40,
        PipelineState::RunningScript { .. } => 40,
        PipelineState::DeletingScript { .. } => 40,
        PipelineState::MakingIsoDir => 60,
        PipelineState::MakingBootDir => 60,
        PipelineState::MakingGrubDir => 60,
        PipelineState::WritingGrubCfg => 60,
        PipelineState::Squashing => 60,
        PipelineState::MakingIso => 60,
        PipelineState::Transferring => 80,
        PipelineState::Finished => 100,
    }
}

/// The full status/progress history of a successful run: exactly the
/// stage sequence with its fixed checkpoints.
pub open spec fn full_history() -> Seq<(BuildStatus, int)> {
    seq![
        (BuildStatus::Queued, 0int),
        (BuildStatus::Building, 0int),
        (BuildStatus::Building, 20int),
        (BuildStatus::Building, 40int),
        (BuildStatus::Building, 60int),
        (BuildStatus::Packaging, 80int),
        (BuildStatus::Uploading, 90int),
        (BuildStatus::Completed, 100int),
    ]
}

/// The history a job has accumulated on the success path entering a state.
pub open spec fn expected_history(st: PipelineState) -> Seq<(BuildStatus, int)> {
    match st {
        PipelineState::Starting => full_history().subrange(0, 1),
        PipelineState::MakingChroot => full_history().subrange(0, 2),
        PipelineState::Bootstrapping => full_history().subrange(0, 2),
        PipelineState::Probing { .. } => full_history().subrange(0, 3),
        PipelineState::Installing { .. } => full_history().subrange(0, 3),
        PipelineState::MakingThemesDir => full_history().subrange(0, 4),
        PipelineState::MakingIconsDir => full_history().subrange(0, 4),
        PipelineState::WritingScript { .. } => full_history().subrange(0, 4),
        PipelineState::ChmodScript { .. } => full_history().subrange(0, 4),
        PipelineState::RunningScript { .. } => full_history().subrange(0, 4),
        PipelineState::DeletingScript { .. } => full_history().subrange(0, 4),
        PipelineState::MakingIsoDir => full_history().subrange(0, 5),
        PipelineState::MakingBootDir => full_history().subrange(0, 5),
        PipelineState::MakingGrubDir => full_history().subrange(0, 5),
        PipelineState::WritingGrubCfg => full_history().subrange(0, 5),
        PipelineState::Squashing => full_history().subrange(0, 5),
        PipelineState::MakingIso => full_history().subrange(0, 5),
        PipelineState::Transferring => full_history().subrange(0, 6),
        PipelineState::Finished => full_history(),
    }
}

/// The state a successful (or soft-failed) event moves a live,
/// non-custom run to.
pub open spec fn success_next(st: PipelineState, c: BuildConfig) -> PipelineState {
    let np = spec_packages(c).len();
    let ns = c.custom_scripts@.len();
    match st {
        PipelineState::Starting => PipelineState::MakingChroot,
        PipelineState::MakingChroot => PipelineState::Bootstrapping,
        PipelineState::Bootstrapping => if np > 0 {
            PipelineState::Probing { pkg: 0 }
        } else {
            PipelineState::MakingThemesDir
        },
        PipelineState::Probing { pkg } => PipelineState::Installing { pkg },
        PipelineState::Installing { pkg } => if pkg + 1 < np {
            PipelineState::Probing { pkg: (pkg + 1) as usize }
        } else {
            PipelineState::MakingThemesDir
        },
        PipelineState::MakingThemesDir => PipelineState::MakingIconsDir,
        PipelineState::MakingIconsDir => if ns > 0 {
            PipelineState::WritingScript { idx: 0 }
        } else {
            PipelineState::MakingIsoDir
        },
        PipelineState::WritingScript { idx } => PipelineState::ChmodScript { idx },
        PipelineState::ChmodScript { idx } => PipelineState::RunningScript { idx },
        PipelineState::RunningScript { idx } => PipelineState::DeletingScript { idx },
        PipelineState::DeletingScript { idx } => if idx + 1 < ns {
            PipelineState::WritingScript { idx: (idx + 1) as usize }
        } else {
            PipelineState::MakingIsoDir
        },
        PipelineState::MakingIsoDir => PipelineState::MakingBootDir,
        PipelineState::MakingBootDir => PipelineState::MakingGrubDir,
        PipelineState::MakingGrubDir => PipelineState::WritingGrubCfg,
        PipelineState::WritingGrubCfg => PipelineState::Squashing,
        PipelineState::Squashing => PipelineState::MakingIso,
        PipelineState::MakingIso => PipelineState::Transferring,
        PipelineState::Transferring => PipelineState::Finished,
        PipelineState::Finished => PipelineState::Finished,
    }
}

/// How many steps of work remain from a state; strictly decreasing along
/// every transition of a live run.
pub open spec fn measure(st: PipelineState, c: BuildConfig) -> int {
    let np = spec_packages(c).len() as int;
    let ns = c.custom_scripts@.len() as int;
    match st {
        PipelineState::Finished => 0,
        PipelineState::Transferring => 1,
        PipelineState::MakingIso => 2,
        PipelineState::Squashing => 3,
        PipelineState::WritingGrubCfg => 4,
        PipelineState::MakingGrubDir => 5,
        PipelineState::MakingBootDir => 6,
        PipelineState::MakingIsoDir => 7,
        PipelineState::DeletingScript { idx } => 8 + 4 * (ns - 1 - idx),
        PipelineState::RunningScript { idx } => 9 + 4 * (ns - 1 - idx),
        PipelineState::ChmodScript { idx } => 10 + 4 * (ns - 1 - idx),
        PipelineState::WritingScript { idx } => 11 + 4 * (ns - 1 - idx),
        PipelineState::MakingIconsDir => 8 + 4 * ns,
        PipelineState::MakingThemesDir => 9 + 4 * ns,
        PipelineState::Installing { pkg } => 10 + 4 * ns + 2 * (np - 1 - pkg),
        PipelineState::Probing { pkg } => 11 + 4 * ns + 2 * (np - 1 - pkg),
        PipelineState::Bootstrapping => 12 + 4 * ns + 2 * np,
        PipelineState::MakingChroot => 13 + 4 * ns + 2 * np,
        PipelineState::Starting => 14 + 4 * ns + 2 * np,
    }
}

/// The chroot directory of a run.
pub open spec fn chroot_of(run: PipelineRun) -> Seq<char> {
    run.build_dir@ + "/"@ + "chroot"@
}

/// Where a custom script is written inside the root.
pub open spec fn script_path_of(run: PipelineRun) -> Seq<char> {
    chroot_of(run) + "/"@ + "tmp/custom-script.sh"@
}

/// Where the finished image sits in the working directory.
pub open spec fn iso_path_of(run: PipelineRun) -> Seq<char> {
    run.build_dir@ + "/"@ + (run.config.name@ + ".iso"@)
}

/// The exact action a state's outstanding work consists of: which kind,
/// on which path, with which program and key arguments.
pub open spec fn action_content(run: PipelineRun, st: PipelineState, a: Action) -> bool {
    match st {
        PipelineState::Starting => false,
        PipelineState::MakingChroot => a matches Action::MakeDir(p) && p@ == chroot_of(run),
        PipelineState::Bootstrapping => a matches Action::Execute(c) && c.program@
            == bootstrap_tool_name(run.config.category) && c.dir@ == chroot_of(run) && ((
        run.config.category == DistroCategory::Ubuntu || run.config.category
            == DistroCategory::Debian) ==> c.args@.len() == 5 && c.args@[2]@ == suite_of(
            run.config.distro@,
        ) && c.args@[3]@ == chroot_of(run)) && (run.config.category == DistroCategory::Arch
            ==> c.args@.len() == 3 && c.args@[1]@ == chroot_of(run)) && (run.config.category
            == DistroCategory::Fedora ==> c.args@.len() == 7 && c.args@[4]@ == chroot_of(run)),
        PipelineState::Probing { .. } => a matches Action::ProbeManagers(p) && p@ == chroot_of(
            run,
        ),
        PipelineState::Installing { pkg } => a matches Action::Execute(c) && c.program@
            == "chroot"@ && c.args@.len() == 5 && c.args@[0]@ == chroot_of(run) && c.args@[4]@
            == spec_packages(run.config)[pkg as int]@,
        PipelineState::MakingThemesDir => a matches Action::MakeDir(p) && p@ == chroot_of(run)
            + "/"@ + "usr/share/themes"@,
        PipelineState::MakingIconsDir => a matches Action::MakeDir(p) && p@ == chroot_of(run)
            + "/"@ + "usr/share/icons"@,
        PipelineState::WritingScript { idx } => a matches Action::WriteFileTo(p, s) && p@
            == script_path_of(run) && s@ == run.config.custom_scripts@[idx as int]@,
        PipelineState::ChmodScript { .. } => a matches Action::MakeExecutable(p) && p@
            == script_path_of(run),
        PipelineState::RunningScript { .. } => a matches Action::Execute(c) && c.program@
            == "chroot"@ && c.args@.len() == 2 && c.args@[0]@ == chroot_of(run) && c.args@[1]@
            == "/tmp/custom-script.sh"@,
        PipelineState::DeletingScript { .. } => a matches Action::DeleteFile(p) && p@
            == script_path_of(run),
        PipelineState::MakingIsoDir => a matches Action::MakeDir(p) && p@ == run.build_dir@
            + "/"@ + "iso"@,
        PipelineState::MakingBootDir => a matches Action::MakeDir(p) && p@ == run.build_dir@
            + "/"@ + "iso/boot"@,
        PipelineState::MakingGrubDir => a matches Action::MakeDir(p) && p@ == run.build_dir@
            + "/"@ + "iso/boot/grub"@,
        PipelineState::WritingGrubCfg => a matches Action::WriteFileTo(p, s) && p@
            == run.build_dir@ + "/"@ + "iso/boot/grub/grub.cfg"@ && s@
            == "set timeout=10\nset default=0\n\nmenuentry \"Linux Live\" {\n    linux /boot/vmlinuz boot=live quiet splash\n    initrd /boot/initrd.img\n}\n"@,
        PipelineState::Squashing => a matches Action::Execute(c) && c.program@ == "mksquashfs"@
            && args_views(c.args@) == seq![
            chroot_of(run),
            run.build_dir@ + "/"@ + "iso/filesystem.squashfs"@,
            "-e"@,
            "boot"@,
        ],
        PipelineState::MakingIso => a matches Action::Execute(c) && c.program@ == "xorriso"@
            && args_views(c.args@) == iso_command_args(
            run.config.name@,
            iso_path_of(run),
            run.build_dir@ + "/"@ + "iso"@,
        ),
        PipelineState::Transferring => a matches Action::Transfer(p) && p@ == iso_path_of(run),
        PipelineState::Finished => false,
    }
}

/// The error text a hard failure at a state captures: the failing
/// tool's standard error, or the filesystem, probe or upload message,
/// behind its identifying prefix.
pub open spec fn failure_text(st: PipelineState, c: BuildConfig, ev: Event) -> Seq<char> {
    match st {
        PipelineState::Starting => "Custom distros not yet supported"@,
        PipelineState::Bootstrapping => match ev {
            Event::Ran(res) => bootstrap_tool_name(c.category) + " failed: "@ + res.stderr@,
            _ => Seq::empty(),
        },
        PipelineState::Probing { .. } => "No supported package manager found"@,
        PipelineState::Squashing => match ev {
            Event::Ran(res) => "mksquashfs failed: "@ + res.stderr@,
            _ => Seq::empty(),
        },
        PipelineState::MakingIso => match ev {
            Event::Ran(res) => "xorriso failed: "@ + res.stderr@,
            _ => Seq::empty(),
        },
        PipelineState::Transferring => match ev {
            Event::Transferred(r) => match r {
                Err(e) => "Upload failed: "@ + e@,
                Ok(_) => Seq::empty(),
            },
            _ => Seq::empty(),
        },
        _ => match ev {
            Event::FsDone(r) => match r {
                Err(e) => "Filesystem error: "@ + e@,
                Ok(_) => Seq::empty(),
            },
            _ => Seq::empty(),
        },
    }
}

/// The invariant a pipeline run keeps with the registry: the registry is
/// well-formed, the state's indices are in bounds, and while the run is
/// live its job sits exactly at the state's status and progress
/// checkpoint.
pub open spec fn run_inv(run: PipelineRun, reg: JobRegistry) -> bool {
    &&& reg.wf()
    &&& state_wf(run.state, run.config)
    &&& (run.state != PipelineState::Finished ==> reg.contains_job(run.job_id)
        && reg.spec_get(run.job_id).status == expected_status(run.state)
        && reg.spec_get(run.job_id).progress as int == expected_progress(run.state))
}

/// The retrieval URL of a finished image: storage prefix, job id, file
/// name. Never empty.
pub fn upload_url(id: u128, filename: &str) -> (r: String)
    ensures
        r@ == "https://storage.example.com/isos/"@ + job_id_text(id) + "/"@ + filename@,
        r@.len() > 0,
{
    let r = String::from_str("https://storage.example.com/isos/").concat(
        crate::text::format_job_id(id).as_str(),
    ).concat("/").concat(filename);
    proof {
        reveal_strlit("https://storage.example.com/isos/");
    }
    r
}

/// The status/progress pairs a successful (or soft-failed) event appends
/// to the job history from a given state.
pub open spec fn history_delta(st: PipelineState, c: BuildConfig) -> Seq<(BuildStatus, int)> {
    let np = spec_packages(c).len();
    let ns = c.custom_scripts@.len();
    match st {
        PipelineState::Starting => seq![(BuildStatus::Building, 0int)],
        PipelineState::Bootstrapping => if np > 0 {
            seq![(BuildStatus::Building, 20int)]
        } else {
            seq![(BuildStatus::Building, 20int), (BuildStatus::Building, 40int)]
        },
        PipelineState::Installing { pkg } => if pkg + 1 < np {
            Seq::empty()
        } else {
            seq![(BuildStatus::Building, 40int)]
        },
        PipelineState::MakingIconsDir => if ns > 0 {
            Seq::empty()
        } else {
            seq![(BuildStatus::Building, 60int)]
        },
        PipelineState::DeletingScript { idx } => if idx + 1 < ns {
            Seq::empty()
        } else {
            seq![(BuildStatus::Building, 60int)]
        },
        PipelineState::MakingIso => seq![(BuildStatus::Packaging, 80int)],
        PipelineState::Transferring => seq![
            (BuildStatus::Uploading, 90int),
            (BuildStatus::Completed, 100int),
        ],
        _ => Seq::empty(),
    }
}

impl PipelineRun {
    /// A run bound to a freshly created job, before its first step.
    pub fn new(job_id: u128, config: BuildConfig, build_dir: String) -> (r: PipelineRun)
        ensures
            r.job_id == job_id,
            r.config == config,
            r.build_dir == build_dir,
            r.state == PipelineState::Starting,
    {
        PipelineRun { job_id, config, build_dir, state: PipelineState::Starting }
    }
}

/// Runtime name of the bootstrap tool of a non-custom family.
fn bootstrap_tool_str(cat: DistroCategory) -> (r: &'static str)
    requires
        cat != DistroCategory::Custom,
    ensures
        r@ == bootstrap_tool_name(cat),
        r@.len() > 0,
{
    proof {
        reveal_strlit("debootstrap");
        reveal_strlit("pacstrap");
        reveal_strlit("dnf");
    }
    match cat {
        DistroCategory::Arch => "pacstrap",
        DistroCategory::Fedora => "dnf",
        _ => "debootstrap",
    }
}

/// Advance one pipeline run by one event: record the outcome on the job
/// and hand back the next action, or `None` when the run has ended. The
/// job only ever moves forward; a hard failure ends the run with the job
/// `Failed` and the message captured; soft failures are logged as
/// warnings and the run proceeds.
#[verifier::rlimit(100)]
pub fn pipeline_step(run: &mut PipelineRun, reg: &mut JobRegistry, ev: Event, now: i64) -> (act:
    Option<Action>)
    requires
        run_inv(*old(run), *old(reg)),
        old(run).state != PipelineState::Finished,
        expects(old(run).state, ev),
    ensures
        run_inv(*final(run), *final(reg)),
        final(run).job_id == old(run).job_id,
        final(run).config == old(run).config,
        final(run).build_dir == old(run).build_dir,
        forall|other: u128|
            other != old(run).job_id ==> #[trigger] final(reg).contains_job(other)
                == old(reg).contains_job(other),
        forall|other: u128|
            other != old(run).job_id && old(reg).contains_job(other)
                ==> #[trigger] final(reg).spec_get(other) == old(reg).spec_get(other),
        ({
            let id = old(run).job_id;
            let pre = old(reg).spec_get(id);
            let j = final(reg).spec_get(id);
            &&& final(reg).contains_job(id)
            &&& j.id == pre.id
            &&& j.config == pre.config
            &&& j.started_at == pre.started_at
            &&& pre.logs@.is_prefix_of(j.logs@)
            &&& pre.history@.is_prefix_of(j.history@)
        }),
        (act is None) == (final(run).state == PipelineState::Finished),
        act matches Some(a) ==> awaiting(final(run).state, a),
        act matches Some(a) ==> action_content(*final(run), final(run).state, a),
        final(run).state == PipelineState::Finished ==> is_terminal(
            final(reg).spec_get(old(run).job_id).status,
        ),
        final(run).state != PipelineState::Finished ==> measure(
            final(run).state,
            final(run).config,
        ) < measure(old(run).state, old(run).config),
        (ev_ok(ev) || soft_state(old(run).state)) && !(old(run).state == PipelineState::Starting
            && old(run).config.category == DistroCategory::Custom) ==> ({
            let id = old(run).job_id;
            let pre = old(reg).spec_get(id);
            let j = final(reg).spec_get(id);
            &&& final(run).state == success_next(old(run).state, old(run).config)
            &&& j.history@ == pre.history@ + history_delta(old(run).state, old(run).config)
            &&& (final(run).state == PipelineState::Finished ==> j.status
                == BuildStatus::Completed && j.progress == 100 && (j.download_url matches Some(u)
                && u@.len() > 0))
        }),
        old(run).state == PipelineState::MakingChroot && ev_ok(ev) ==> (act matches Some(a)
            && a matches Action::Execute(c) && c.program@ == bootstrap_tool_name(
            old(run).config.category,
        )),
        !ev_ok(ev) && !soft_state(old(run).state) ==> ({
            let pre = old(reg).spec_get(old(run).job_id);
            let j = final(reg).spec_get(old(run).job_id);
            let captured = failure_text(old(run).state, old(run).config, ev);
            &&& final(run).state == PipelineState::Finished
            &&& j.status == BuildStatus::Failed
            &&& j.progress == pre.progress
            &&& (j.error matches Some(e) && e@ == captured && e@.len() > 0)
            &&& j.logs@.len() == pre.logs@.len() + 1
            &&& j.logs@.last().level == LogLevel::Error
            &&& j.logs@.last().timestamp == now
            &&& j.logs@.last().message@ == "Build failed: "@ + captured
            &&& j.history@ == pre.history@.push((BuildStatus::Failed, pre.progress as int))
        }),
        // a failed package install is recorded as exactly one warning
        (old(run).state matches PipelineState::Installing { pkg }) && (ev matches Event::Ran(res)
            && !res.success) ==> ({
            let c = old(run).config;
            let pre = old(reg).spec_get(old(run).job_id);
            let j = final(reg).spec_get(old(run).job_id);
            let k = pre.logs@.len() as int;
            let pkg_of = (match old(run).state {
                PipelineState::Installing { pkg } => pkg,
                _ => 0,
            });
            &&& j.logs@.len() == k + (if pkg_of + 1 < spec_packages(c).len() {
                1int
            } else {
                2int
            })
            &&& j.logs@[k].level == LogLevel::Warning
            &&& j.logs@[k].timestamp == now
            &&& j.logs@[k].message@ == "Failed to install package "@ + spec_packages(
                c,
            )[pkg_of as int]@ + ": "@ + (match ev {
                Event::Ran(res) => res.stderr@,
                _ => Seq::empty(),
            })
        }),
        // a failed custom script is recorded as exactly one warning
        (old(run).state matches PipelineState::RunningScript { .. }) && (ev matches Event::Ran(
            res,
        ) && !res.success) ==> ({
            let pre = old(reg).spec_get(old(run).job_id);
            let j = final(reg).spec_get(old(run).job_id);
            &&& j.logs@.len() == pre.logs@.len() + 1
            &&& j.logs@.last().level == LogLevel::Warning
            &&& j.logs@.last().timestamp == now
            &&& j.logs@.last().message@ == "Custom script failed: "@ + (match ev {
                Event::Ran(res) => res.stderr@,
                _ => Seq::empty(),
            })
        }),
        // the theme values are recorded, one informational entry each
        old(run).state == PipelineState::MakingIconsDir && ev_ok(ev) ==> ({
            let c = old(run).config;
            let pre = old(reg).spec_get(old(run).job_id);
            let j = final(reg).spec_get(old(run).job_id);
            let k = pre.logs@.len() as int;
            let n_gtk: int = if c.theme.gtk_theme is Some {
                1
            } else {
                0
            };
            let n_icon: int = if c.theme.icon_theme is Some {
                1
            } else {
                0
            };
            let n_wall: int = if c.theme.wallpaper is Some {
                1
            } else {
                0
            };
            &&& j.logs@.len() == k + n_gtk + n_icon + n_wall + (
            if c.custom_scripts@.len() > 0 {
                0int
            } else {
                1int
            })
            &&& (c.theme.gtk_theme matches Some(g) ==> j.logs@[k].level == LogLevel::Info
                && j.logs@[k].timestamp == now && j.logs@[k].message@
                == "Setting GTK theme to: "@ + g@)
            &&& (c.theme.icon_theme matches Some(th) ==> j.logs@[k + n_gtk].level
                == LogLevel::Info && j.logs@[k + n_gtk].timestamp == now && j.logs@[k
                + n_gtk].message@ == "Setting icon theme to: "@ + th@)
            &&& (c.theme.wallpaper matches Some(w) ==> j.logs@[k + n_gtk + n_icon].level
                == LogLevel::Info && j.logs@[k + n_gtk + n_icon].timestamp == now && j.logs@[k
                + n_gtk + n_icon].message@ == "Setting wallpaper to: "@ + w@)
        }),
        old(run).state == PipelineState::Starting && old(run).config.category
            == DistroCategory::Custom ==> ({
            let pre = old(reg).spec_get(old(run).job_id);
            let j = final(reg).spec_get(old(run).job_id);
            &&& final(run).state == PipelineState::Finished
            &&& j.status == BuildStatus::Failed
            &&& (j.error matches Some(e) && e@ == "Custom distros not yet supported"@)
            &&& j.logs@.len() == pre.logs@.len() + 1
            &&& j.logs@.last().level == LogLevel::Error
            &&& j.logs@.last().timestamp == now
            &&& j.logs@.last().message@ == "Build failed: "@
                + "Custom distros not yet supported"@
        }),
{
    let id = run.job_id;
    let chroot = join_path(run.build_dir.as_str(), "chroot");
    match run.state {
        PipelineState::Starting => {
            if run.config.category == DistroCategory::Custom {
                proof {
                    reveal_strlit("Custom distros not yet supported");
                }
                let _ok = reg.fail(
                    id,
                    String::from_str("Custom distros not yet supported"),
                    now,
                );
                run.state = PipelineState::Finished;
                None
            } else {
                let _ok = reg.advance(
                    id,
                    BuildStatus::Building,
                    0,
                    String::from_str("Starting build process"),
                    now,
                );
                run.state = PipelineState::MakingChroot;
                proof {
                    assert(final(reg).spec_get(id).history@ =~= old(reg).spec_get(id).history@
                        + history_delta(PipelineState::Starting, run.config));
                }
                Some(Action::MakeDir(chroot))
            }
        },
        PipelineState::MakingChroot => match ev {
            Event::FsDone(res) => match res {
                Ok(_) => {
                    let cmd = bootstrap_command(&run.config, chroot.as_str());
                    run.state = PipelineState::Bootstrapping;
                    proof {
                        assert(final(reg).spec_get(id).history@ =~= old(reg).spec_get(
                            id,
                        ).history@);
                    }
                    Some(Action::Execute(cmd))
                },
                Err(e) => {
                    proof {
                        reveal_strlit("Filesystem error: ");
                    }
                    let _ok = reg.fail(
                        id,
                        String::from_str("Filesystem error: ").concat(e.as_str()),
                        now,
                    );
                    run.state = PipelineState::Finished;
                    None
                },
            },
            _ => {
                proof {
                    assert(false);
                }
                None
            },
        },
        PipelineState::Bootstrapping => match ev {
            Event::Ran(res) => {
                if res.success {
                    let _ok = reg.advance(
                        id,
                        BuildStatus::Building,
                        20,
                        String::from_str("Base system prepared"),
                        now,
                    );
                    let pkgs = package_list(&run.config);
                    if pkgs.len() > 0 {
                        run.state = PipelineState::Probing { pkg: 0 };
                        proof {
                            assert(final(reg).spec_get(id).history@ =~= old(reg).spec_get(
                                id,
                            ).history@ + history_delta(PipelineState::Bootstrapping, run.config));
                        }
                        Some(Action::ProbeManagers(chroot))
                    } else {
                        let _ok2 = reg.advance(
                            id,
                            BuildStatus::Building,
                            40,
                            String::from_str("Packages installed"),
                            now,
                        );
                        run.state = PipelineState::MakingThemesDir;
                        proof {
                            assert(final(reg).spec_get(id).history@ =~= old(reg).spec_get(
                                id,
                            ).history@ + history_delta(PipelineState::Bootstrapping, run.config));
                        }
                        Some(Action::MakeDir(join_path(chroot.as_str(), "usr/share/themes")))
                    }
                } else {
                    proof {
                        reveal_strlit(" failed: ");
                    }
                    let msg = String::from_str(bootstrap_tool_str(run.config.category)).concat(
                        " failed: ",
                    ).concat(res.stderr.as_str());
                    let _ok = reg.fail(id, msg, now);
                    run.state = PipelineState::Finished;
                    None
                }
            },
            _ => {
                proof {
                    assert(false);
                }
                None
            },
        },
        PipelineState::Probing { pkg } => match ev {
            Event::Probed(mask) => match pick_manager(&mask) {
                Some(m) => {
                    let pkgs = package_list(&run.config);
                    let cmd = install_command(m, chroot.as_str(), pkgs[pkg].as_str());
                    run.state = PipelineState::Installing { pkg };
                    proof {
                        assert(final(reg).spec_get(id).history@ =~= old(reg).spec_get(
                            id,
                        ).history@);
                    }
                    Some(Action::Execute(cmd))
                },
                None => {
                    proof {
                        reveal_strlit("No supported package manager found");
                    }
                    let _ok = reg.fail(
                        id,
                        String::from_str("No supported package manager found"),
                        now,
                    );
                    run.state = PipelineState::Finished;
                    None
                },
            },
            _ => {
                proof {
                    assert(false);
                }
                None
            },
        },
        PipelineState::Installing { pkg } => match ev {
            Event::Ran(res) => {
                if !res.success {
                    let pkgs = package_list(&run.config);
                    let msg = String::from_str("Failed to install package ").concat(
                        pkgs[pkg].as_str(),
                    ).concat(": ").concat(res.stderr.as_str());
                    let _w = reg.append_log(id, LogLevel::Warning, msg, now);
                }
                let pkgs = package_list(&run.config);
                proof {
                    assert(state_wf(old(run).state, old(run).config));
                    assert(pkg < spec_packages(run.config).len());
                    assert(pkgs@.len() == spec_packages(run.config).len());
                }
                let n = pkgs.len();
                proof {
                    assert(pkg < n);
                }
                if pkg + 1 < n {
                    run.state = PipelineState::Probing { pkg: pkg + 1 };
                    proof {
                        assert(final(reg).spec_get(id).history@ =~= old(reg).spec_get(
                            id,
                        ).history@ + history_delta(
                            PipelineState::Installing { pkg },
                            run.config,
                        ));
                    }
                    Some(Action::ProbeManagers(chroot))
                } else {
                    let _ok = reg.advance(
                        id,
                        BuildStatus::Building,
                        40,
                        String::from_str("Packages installed"),
                        now,
                    );
                    run.state = PipelineState::MakingThemesDir;
                    proof {
                        assert(final(reg).spec_get(id).history@ =~= old(reg).spec_get(
                            id,
                        ).history@ + history_delta(
                            PipelineState::Installing { pkg },
                            run.config,
                        ));
                    }
                    Some(Action::MakeDir(join_path(chroot.as_str(), "usr/share/themes")))
                }
            },
            _ => {
                proof {
                    assert(false);
                }
                None
            },
        },
        PipelineState::MakingThemesDir => match ev {
            Event::FsDone(res) => match res {
                Ok(_) => {
                    run.state = PipelineState::MakingIconsDir;
                    proof {
                        assert(final(reg).spec_get(id).history@ =~= old(reg).spec_get(
                            id,
                        ).history@);
                    }
                    Some(Action::MakeDir(join_path(chroot.as_str(), "usr/share/icons")))
                },
                Err(e) => {
                    proof {
                        reveal_strlit("Filesystem error: ");
                    }
                    let _ok = reg.fail(
                        id,
                        String::from_str("Filesystem error: ").concat(e.as_str()),
                        now,
                    );
                    run.state = PipelineState::Finished;
                    None
                },
            },
            _ => {
                proof {
                    assert(false);
                }
                None
            },
        },
        PipelineState::MakingIconsDir => match ev {
            Event::FsDone(res) => match res {
                Ok(_) => {
                    match &run.config.theme.gtk_theme {
                        Some(g) => {
                            let _n = reg.append_log(
                                id,
                                LogLevel::Info,
                                String::from_str("Setting GTK theme to: ").concat(g.as_str()),
                                now,
                            );
                        },
                        None => {},
                    }
                    match &run.config.theme.icon_theme {
                        Some(t) => {
                            let _n = reg.append_log(
                                id,
                                LogLevel::Info,
                                String::from_str("Setting icon theme to: ").concat(t.as_str()),
                                now,
                            );
                        },
                        None => {},
                    }
                    match &run.config.theme.wallpaper {
                        Some(w) => {
                            let _n = reg.append_log(
                                id,
                                LogLevel::Info,
                                String::from_str("Setting wallpaper to: ").concat(w.as_str()),
                                now,
                            );
                        },
                        None => {},
                    }
                    if run.config.custom_scripts.len() > 0 {
                        let script = run.config.custom_scripts[0].clone();
                        run.state = PipelineState::WritingScript { idx: 0 };
                        proof {
                            assert(final(reg).spec_get(id).history@ =~= old(reg).spec_get(
                                id,
                            ).history@ + history_delta(
                                PipelineState::MakingIconsDir,
                                run.config,
                            ));
                        }
                        Some(Action::WriteFileTo(
                            join_path(chroot.as_str(), "tmp/custom-script.sh"),
                            script,
                        ))
                    } else {
                        let _ok = reg.advance(
                            id,
                            BuildStatus::Building,
                            60,
                            String::from_str("Customizations applied"),
                            now,
                        );
                        run.state = PipelineState::MakingIsoDir;
                        proof {
                            assert(final(reg).spec_get(id).history@ =~= old(reg).spec_get(
                                id,
                            ).history@ + history_delta(
                                PipelineState::MakingIconsDir,
                                run.config,
                            ));
                        }
                        Some(Action::MakeDir(join_path(run.build_dir.as_str(), "iso")))
                    }
                },
                Err(e) => {
                    proof {
                        reveal_strlit("Filesystem error: ");
                    }
                    let _ok = reg.fail(
                        id,
                        String::from_str("Filesystem error: ").concat(e.as_str()),
                        now,
                    );
                    run.state = PipelineState::Finished;
                    None
                },
            },
            _ => {
                proof {
                    assert(false);
                }
                None
            },
        },
        PipelineState::WritingScript { idx } => match ev {
            Event::FsDone(res) => match res {
                Ok(_) => {
                    run.state = PipelineState::ChmodScript { idx };
                    proof {
                        assert(final(reg).spec_get(id).history@ =~= old(reg).spec_get(
                            id,
                        ).history@);
                    }
                    Some(Action::MakeExecutable(
                        join_path(chroot.as_str(), "tmp/custom-script.sh"),
                    ))
                },
                Err(e) => {
                    proof {
                        reveal_strlit("Filesystem error: ");
                    }
                    let _ok = reg.fail(
                        id,
                        String::from_str("Filesystem error: ").concat(e.as_str()),
                        now,
                    );
                    run.state = PipelineState::Finished;
                    None
                },
            },
            _ => {
                proof {
                    assert(false);
                }
                None
            },
        },
        PipelineState::ChmodScript { idx } => match ev {
            Event::FsDone(res) => match res {
                Ok(_) => {
                    run.state = PipelineState::RunningScript { idx };
                    proof {
                        assert(final(reg).spec_get(id).history@ =~= old(reg).spec_get(
                            id,
                        ).history@);
                    }
                    Some(Action::Execute(script_command(chroot.as_str())))
                },
                Err(e) => {
                    proof {
                        reveal_strlit("Filesystem error: ");
                    }
                    let _ok = reg.fail(
                        id,
                        String::from_str("Filesystem error: ").concat(e.as_str()),
                        now,
                    );
                    run.state = PipelineState::Finished;
                    None
                },
            },
            _ => {
                proof {
                    assert(false);
                }
                None
            },
        },
        PipelineState::RunningScript { idx } => match ev {
            Event::Ran(res) => {
                if !res.success {
                    let msg = String::from_str("Custom script failed: ").concat(
                        res.stderr.as_str(),
                    );
                    let _w = reg.append_log(id, LogLevel::Warning, msg, now);
                }
                run.state = PipelineState::DeletingScript { idx };
                proof {
                    assert(final(reg).spec_get(id).history@ =~= old(reg).spec_get(id).history@);
                }
                Some(Action::DeleteFile(join_path(chroot.as_str(), "tmp/custom-script.sh")))
            },
            _ => {
                proof {
                    assert(false);
                }
                None
            },
        },
        PipelineState::DeletingScript { idx } => match ev {
            Event::FsDone(res) => match res {
                Ok(_) => {
                    proof {
                        assert(state_wf(old(run).state, old(run).config));
                        assert(idx < run.config.custom_scripts@.len());
                    }
                    let ns = run.config.custom_scripts.len();
                    proof {
                        assert(idx < ns);
                    }
                    if idx + 1 < ns {
                        let script = run.config.custom_scripts[idx + 1].clone();
                        run.state = PipelineState::WritingScript { idx: idx + 1 };
                        proof {
                            assert(final(reg).spec_get(id).history@ =~= old(reg).spec_get(
                                id,
                            ).history@);
                        }
                        Some(Action::WriteFileTo(
                            join_path(chroot.as_str(), "tmp/custom-script.sh"),
                            script,
                        ))
                    } else {
                        let _ok = reg.advance(
                            id,
                            BuildStatus::Building,
                            60,
                            String::from_str("Customizations applied"),
                            now,
                        );
                        run.state = PipelineState::MakingIsoDir;
                        proof {
                            assert(final(reg).spec_get(id).history@ =~= old(reg).spec_get(
                                id,
                            ).history@ + history_delta(
                                PipelineState::DeletingScript { idx },
                                run.config,
                            ));
                        }
                        Some(Action::MakeDir(join_path(run.build_dir.as_str(), "iso")))
                    }
                },
                Err(e) => {
                    proof {
                        reveal_strlit("Filesystem error: ");
                    }
                    let _ok = reg.fail(
                        id,
                        String::from_str("Filesystem error: ").concat(e.as_str()),
                        now,
                    );
                    run.state = PipelineState::Finished;
                    None
                },
            },
            _ => {
                proof {
                    assert(false);
                }
                None
            },
        },
        PipelineState::MakingIsoDir => match ev {
            Event::FsDone(res) => match res {
                Ok(_) => {
                    run.state = PipelineState::MakingBootDir;
                    proof {
                        assert(final(reg).spec_get(id).history@ =~= old(reg).spec_get(
                            id,
                        ).history@);
                    }
                    Some(Action::MakeDir(join_path(run.build_dir.as_str(), "iso/boot")))
                },
                Err(e) => {
                    proof {
                        reveal_strlit("Filesystem error: ");
                    }
                    let _ok = reg.fail(
                        id,
                        String::from_str("Filesystem error: ").concat(e.as_str()),
                        now,
                    );
                    run.state = PipelineState::Finished;
                    None
                },
            },
            _ => {
                proof {
                    assert(false);
                }
                None
            },
        },
        PipelineState::MakingBootDir => match ev {
            Event::FsDone(res) => match res {
                Ok(_) => {
                    run.state = PipelineState::MakingGrubDir;
                    proof {
                        assert(final(reg).spec_get(id).history@ =~= old(reg).spec_get(
                            id,
                        ).history@);
                    }
                    Some(Action::MakeDir(join_path(run.build_dir.as_str(), "iso/boot/grub")))
                },
                Err(e) => {
                    proof {
                        reveal_strlit("Filesystem error: ");
                    }
                    let _ok = reg.fail(
                        id,
                        String::from_str("Filesystem error: ").concat(e.as_str()),
                        now,
                    );
                    run.state = PipelineState::Finished;
                    None
                },
            },
            _ => {
                proof {
                    assert(false);
                }
                None
            },
        },
        PipelineState::MakingGrubDir => match ev {
            Event::FsDone(res) => match res {
                Ok(_) => {
                    run.state = PipelineState::WritingGrubCfg;
                    proof {
                        assert(final(reg).spec_get(id).history@ =~= old(reg).spec_get(
                            id,
                        ).history@);
                    }
                    Some(Action::WriteFileTo(
                        join_path(run.build_dir.as_str(), "iso/boot/grub/grub.cfg"),
                        grub_config(),
                    ))
                },
                Err(e) => {
                    proof {
                        reveal_strlit("Filesystem error: ");
                    }
                    let _ok = reg.fail(
                        id,
                        String::from_str("Filesystem error: ").concat(e.as_str()),
                        now,
                    );
                    run.state = PipelineState::Finished;
                    None
                },
            },
            _ => {
                proof {
                    assert(false);
                }
                None
            },
        },
        PipelineState::WritingGrubCfg => match ev {
            Event::FsDone(res) => match res {
                Ok(_) => {
                    let squash = join_path(run.build_dir.as_str(), "iso/filesystem.squashfs");
                    run.state = PipelineState::Squashing;
                    let cmd = squashfs_command(chroot.as_str(), squash.as_str());
                    proof {
                        assert(final(reg).spec_get(id).history@ =~= old(reg).spec_get(
                            id,
                        ).history@);
                        assert(args_views(cmd.args@) =~= seq![
                            chroot@,
                            squash@,
                            "-e"@,
                            "boot"@,
                        ]);
                    }
                    Some(Action::Execute(cmd))
                },
                Err(e) => {
                    proof {
                        reveal_strlit("Filesystem error: ");
                    }
                    let _ok = reg.fail(
                        id,
                        String::from_str("Filesystem error: ").concat(e.as_str()),
                        now,
                    );
                    run.state = PipelineState::Finished;
                    None
                },
            },
            _ => {
                proof {
                    assert(false);
                }
                None
            },
        },
        PipelineState::Squashing => match ev {
            Event::Ran(res) => {
                if res.success {
                    let iso_name = String::from_str(run.config.name.as_str()).concat(".iso");
                    let iso_path = join_path(run.build_dir.as_str(), iso_name.as_str());
                    let iso_dir = join_path(run.build_dir.as_str(), "iso");
                    run.state = PipelineState::MakingIso;
                    proof {
                        assert(final(reg).spec_get(id).history@ =~= old(reg).spec_get(
                            id,
                        ).history@);
                    }
                    Some(Action::Execute(iso_command(
                        run.config.name.as_str(),
                        iso_path.as_str(),
                        iso_dir.as_str(),
                    )))
                } else {
                    proof {
                        reveal_strlit("mksquashfs failed: ");
                    }
                    let _ok = reg.fail(
                        id,
                        String::from_str("mksquashfs failed: ").concat(res.stderr.as_str()),
                        now,
                    );
                    run.state = PipelineState::Finished;
                    None
                }
            },
            _ => {
                proof {
                    assert(false);
                }
                None
            },
        },
        PipelineState::MakingIso => match ev {
            Event::Ran(res) => {
                if res.success {
                    let _ok = reg.advance(
                        id,
                        BuildStatus::Packaging,
                        80,
                        String::from_str("ISO image created"),
                        now,
                    );
                    let iso_name = String::from_str(run.config.name.as_str()).concat(".iso");
                    let iso_path = join_path(run.build_dir.as_str(), iso_name.as_str());
                    run.state = PipelineState::Transferring;
                    proof {
                        assert(final(reg).spec_get(id).history@ =~= old(reg).spec_get(
                            id,
                        ).history@ + history_delta(PipelineState::MakingIso, run.config));
                    }
                    Some(Action::Transfer(iso_path))
                } else {
                    proof {
                        reveal_strlit("xorriso failed: ");
                    }
                    let _ok = reg.fail(
                        id,
                        String::from_str("xorriso failed: ").concat(res.stderr.as_str()),
                        now,
                    );
                    run.state = PipelineState::Finished;
                    None
                }
            },
            _ => {
                proof {
                    assert(false);
                }
                None
            },
        },
        PipelineState::Transferring => match ev {
            Event::Transferred(res) => match res {
                Ok(_) => {
                    let _ok = reg.advance(
                        id,
                        BuildStatus::Uploading,
                        90,
                        String::from_str("ISO uploaded"),
                        now,
                    );
                    let iso_name = String::from_str(run.config.name.as_str()).concat(".iso");
                    let url = upload_url(id, iso_name.as_str());
                    let _ok2 = reg.complete(id, url, now);
                    run.state = PipelineState::Finished;
                    proof {
                        assert(final(reg).spec_get(id).history@ =~= old(reg).spec_get(
                            id,
                        ).history@ + history_delta(PipelineState::Transferring, run.config));
                    }
                    None
                },
                Err(e) => {
                    proof {
                        reveal_strlit("Upload failed: ");
                    }
                    let _ok = reg.fail(
                        id,
                        String::from_str("Upload failed: ").concat(e.as_str()),
                        now,
                    );
                    run.state = PipelineState::Finished;
                    None
                },
            },
            _ => {
                proof {
                    assert(false);
                }
                None
            },
        },
        PipelineState::Finished => {
            proof {
                assert(false);
            }
            None
        },
    }
}

/// A scripted executor for whole-pipeline runs without any outside work:
/// every action succeeds, or every command with a given program name
/// fails.
pub enum ScriptPolicy {
    AllOk,
    FailCommandsNamed(String),
}

/// Whether the policy fails a command with this program name.
pub open spec fn policy_fails(p: ScriptPolicy, program: Seq<char>) -> bool {
    match p {
        ScriptPolicy::AllOk => false,
        ScriptPolicy::FailCommandsNamed(n) => n@ == program,
    }
}

/// Answer one action under a scripted policy. Filesystem work, probes and
/// transfers always succeed; a command succeeds unless the policy names
/// its program.
pub fn respond(policy: &ScriptPolicy, action: &Action) -> (ev: Event)
    ensures
        match action {
            Action::Execute(c) => ev matches Event::Ran(res) && res.success == !policy_fails(
                *policy,
                c.program@,
            ) && (!res.success ==> res.stderr@ == "simulated tool failure"@ && res.stderr@.len()
                > 0),
            Action::MakeDir(_) => ev matches Event::FsDone(r) && r is Ok,
            Action::WriteFileTo(_, _) => ev matches Event::FsDone(r) && r is Ok,
            Action::MakeExecutable(_) => ev matches Event::FsDone(r) && r is Ok,
            Action::DeleteFile(_) => ev matches Event::FsDone(r) && r is Ok,
            Action::ProbeManagers(_) => ev matches Event::Probed(m) && m@.len() == 4 && m@[0]
                && !m@[1] && !m@[2] && !m@[3],
            Action::Transfer(_) => ev matches Event::Transferred(r) && r is Ok,
        },
{
    match action {
        Action::Execute(c) => {
            let success = match policy {
                ScriptPolicy::AllOk => true,
                ScriptPolicy::FailCommandsNamed(n) => !(c.program == *n),
            };
            proof {
                reveal_strlit("simulated tool failure");
            }
            Event::Ran(
                CommandResult {
                    success,
                    stdout: String::new(),
                    stderr: String::from_str("simulated tool failure"),
                },
            )
        },
        Action::ProbeManagers(_) => {
            let mut mask: Vec<bool> = Vec::new();
            mask.push(true);
            mask.push(false);
            mask.push(false);
            mask.push(false);
            Event::Probed(mask)
        },
        Action::Transfer(_) => Event::Transferred(Ok(())),
        _ => Event::FsDone(Ok(())),
    }
}

/// On the success path, the history gathered entering the next state is
/// the history entering this one plus this step's delta.
proof fn lemma_history_chain(st: PipelineState, c: BuildConfig)
    requires
        st != PipelineState::Finished,
        state_wf(st, c),
    ensures
        expected_history(success_next(st, c)) == expected_history(st) + history_delta(st, c),
{
    let nxt = success_next(st, c);
    assert(expected_history(nxt) =~= expected_history(st) + history_delta(st, c));
}

/// Law: a whole pipeline run against a scripted executor. With every
/// action succeeding, a non-custom configuration ends `Completed` with
/// progress 100, a non-empty download URL, and a history that is exactly
/// the stage sequence `Queued, Building, Packaging, Uploading, Completed`
/// through the checkpoints 0, 20, 40, 60, 80, 90, 100. With the
/// bootstrap tool failing, the run ends `Failed` with a captured error
/// and never reaches `Packaging`.
pub fn run_scripted(
    run: &mut PipelineRun,
    reg: &mut JobRegistry,
    policy: &ScriptPolicy,
    now: i64,
)
    requires
        run_inv(*old(run), *old(reg)),
        old(run).state == PipelineState::Starting,
        old(reg).spec_get(old(run).job_id).history@ == expected_history(PipelineState::Starting),
    ensures
        run_inv(*final(run), *final(reg)),
        final(run).state == PipelineState::Finished,
        final(run).job_id == old(run).job_id,
        final(reg).contains_job(old(run).job_id),
        is_terminal(final(reg).spec_get(old(run).job_id).status),
        forall|other: u128|
            other != old(run).job_id ==> #[trigger] final(reg).contains_job(other)
                == old(reg).contains_job(other),
        forall|other: u128|
            other != old(run).job_id && old(reg).contains_job(other)
                ==> #[trigger] final(reg).spec_get(other) == old(reg).spec_get(other),
        *policy == ScriptPolicy::AllOk && old(run).config.category != DistroCategory::Custom
            ==> ({
            let j = final(reg).spec_get(old(run).job_id);
            &&& j.status == BuildStatus::Completed
            &&& j.progress == 100
            &&& (j.download_url matches Some(u) && u@.len() > 0)
            &&& j.history@ == full_history()
        }),
        (policy matches ScriptPolicy::FailCommandsNamed(n) && n@ == bootstrap_tool_name(
            old(run).config.category,
        )) && old(run).config.category != DistroCategory::Custom ==> ({
            let j = final(reg).spec_get(old(run).job_id);
            let captured = bootstrap_tool_name(old(run).config.category) + " failed: "@
                + "simulated tool failure"@;
            &&& j.status == BuildStatus::Failed
            &&& (j.error matches Some(e) && e@ == captured && e@.len() > 0)
            &&& j.logs@.last().level == LogLevel::Error
            &&& j.logs@.last().message@ == "Build failed: "@ + captured
            &&& j.history@ == expected_history(PipelineState::Bootstrapping).push(
                (BuildStatus::Failed, 0int),
            )
            &&& forall|i: int|
                0 <= i < j.history@.len() ==> (#[trigger] j.history@[i]).0
                    != BuildStatus::Packaging
        }),
{
    let ghost id = old(run).job_id;
    let ghost c = old(run).config;
    let ghost fail_bootstrap = match policy {
        ScriptPolicy::FailCommandsNamed(n) => n@ == bootstrap_tool_name(c.category),
        ScriptPolicy::AllOk => false,
    };
    let mut act = pipeline_step(run, reg, Event::Started, now);
    proof {
        if c.category != DistroCategory::Custom {
            lemma_history_chain(PipelineState::Starting, c);
        }
    }
    while act.is_some()
        invariant
            run_inv(*run, *reg),
            run.job_id == id,
            run.config == c,
            (act is Some) == (run.state != PipelineState::Finished),
            act matches Some(a) ==> awaiting(run.state, a),
            run.state != PipelineState::Starting,
            reg.contains_job(id),
            fail_bootstrap == (match policy {
                ScriptPolicy::FailCommandsNamed(n) => n@ == bootstrap_tool_name(c.category),
                ScriptPolicy::AllOk => false,
            }),
            forall|other: u128|
                other != id ==> #[trigger] reg.contains_job(other) == old(reg).contains_job(
                    other,
                ),
            forall|other: u128|
                other != id && old(reg).contains_job(other) ==> #[trigger] reg.spec_get(other)
                    == old(reg).spec_get(other),
            run.state == PipelineState::Finished ==> is_terminal(reg.spec_get(id).status),
            *policy == ScriptPolicy::AllOk && c.category != DistroCategory::Custom ==> ({
                let j = reg.spec_get(id);
                &&& (run.state != PipelineState::Finished ==> j.history@ == expected_history(
                    run.state,
                ))
                &&& (run.state == PipelineState::Finished ==> j.status == BuildStatus::Completed
                    && j.progress == 100 && (j.download_url matches Some(u) && u@.len() > 0)
                    && j.history@ == full_history())
            }),
            fail_bootstrap && c.category != DistroCategory::Custom ==> ({
                let j = reg.spec_get(id);
                &&& (run.state == PipelineState::MakingChroot || run.state
                    == PipelineState::Bootstrapping || run.state == PipelineState::Finished)
                &&& (run.state != PipelineState::Finished ==> j.history@ == expected_history(
                    run.state,
                ))
                &&& (run.state == PipelineState::Bootstrapping ==> (act matches Some(a)
                    && a matches Action::Execute(cmd) && cmd.program@ == bootstrap_tool_name(
                    c.category,
                )))
                &&& (run.state == PipelineState::Finished ==> ({
                    let captured = bootstrap_tool_name(c.category) + " failed: "@
                        + "simulated tool failure"@;
                    &&& j.status == BuildStatus::Failed
                    &&& (j.error matches Some(e) && e@ == captured && e@.len() > 0)
                    &&& j.logs@.last().level == LogLevel::Error
                    &&& j.logs@.last().message@ == "Build failed: "@ + captured
                    &&& j.history@ == expected_history(PipelineState::Bootstrapping).push(
                        (BuildStatus::Failed, 0int),
                    )
                }))
            }),
        decreases measure(run.state, run.config),
    {
        let ghost prev = run.state;
        let ghost pre_job = reg.spec_get(id);
        match act {
            Some(a) => {
                let ev = respond(policy, &a);
                proof {
                    assert(expects(run.state, ev));
                }
                act = pipeline_step(run, reg, ev, now);
                proof {
                    if *policy == ScriptPolicy::AllOk && c.category != DistroCategory::Custom {
                        assert(ev_ok(ev));
                        lemma_history_chain(prev, c);
                    }
                    if fail_bootstrap && c.category != DistroCategory::Custom {
                        if prev == PipelineState::MakingChroot {
                            assert(ev_ok(ev));
                            lemma_history_chain(prev, c);
                        }
                        if prev == PipelineState::Bootstrapping {
                            assert(a matches Action::Execute(cmd) && cmd.program@
                                == bootstrap_tool_name(c.category));
                            assert(policy_fails(*policy, bootstrap_tool_name(c.category)));
                            assert(!ev_ok(ev));
                            assert(pre_job.progress as int == expected_progress(
                                PipelineState::Bootstrapping,
                            ));
                        }
                    }
                }
            },
            None => {
                proof {
                    assert(false);
                }
                act = None;
            },
        }
    }
    proof {
        if fail_bootstrap && c.category != DistroCategory::Custom {
            let j = reg.spec_get(id);
            assert(j.history@ == expected_history(PipelineState::Bootstrapping).push(
                (BuildStatus::Failed, 0int),
            ));
            assert forall|i: int| 0 <= i < j.history@.len() implies (#[trigger] j.history@[i]).0
                != BuildStatus::Packaging by {
            }
        }
    }
}

} // verus!
