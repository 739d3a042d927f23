//! Data model of the build service: job states, log entries, build
//! configurations and the job record itself, together with the
//! well-formedness predicate that every stored job satisfies.

use vstd::prelude::*;

verus! {

/// Lifecycle state of a build job. On success a job moves strictly forward
/// through `Queued`, `Building`, `Packaging`, `Uploading`, `Completed`;
/// `Failed` is a parallel terminal state reachable from any non-terminal one.
#[derive(Clone, Copy, Debug, PartialEq, Eq, Structural)]
pub enum BuildStatus {
    Queued,
    Building,
    Packaging,
    Uploading,
    Completed,
    Failed,
}

/// Severity of one job log entry.
#[derive(Clone, Copy, Debug, PartialEq, Eq, Structural)]
pub enum LogLevel {
    Info,
    Warning,
    Error,
    Debug,
}

/// Kind of one status-stream message.
#[derive(Clone, Copy, Debug, PartialEq, Eq, Structural)]
pub enum MessageType {
    StatusUpdate,
    ProgressUpdate,
    LogMessage,
    Completed,
    Error,
}

/// Family of the selected base distribution; decides which bootstrap tool
/// prepares the root filesystem. `Custom` is rejected by the pipeline.
#[derive(Clone, Copy, Debug, PartialEq, Eq, Structural)]
pub enum DistroCategory {
    Ubuntu,
    Debian,
    Arch,
    Fedora,
    Custom,
}

/// Whether the image targets an interactive desktop or a headless server.
#[derive(Clone, Copy, Debug, PartialEq, Eq, Structural)]
pub enum BuildMode {
    Desktop,
    Server,
}

/// The failure taxonomy of the service. The first five abort a pipeline
/// run; `NotFound` is returned to callers asking about unknown job ids.
#[derive(Clone, Copy, Debug, PartialEq, Eq, Structural)]
pub enum BuildErrorKind {
    /// The configuration names a distribution family without a bootstrap
    /// strategy.
    UnsupportedDistro,
    /// An external command exited non-zero during a fatal stage.
    ToolInvocationFailure,
    /// No recognized package manager is present in the prepared root.
    PackageManagerNotFound,
    /// A directory or file operation failed.
    FilesystemError,
    /// The upload of the finished image failed.
    TransferError,
    /// No job with the given identifier exists.
    NotFound,
}

/// Colour values of a theme, kept as free-form text.
#[derive(Clone, Debug)]
pub struct ColorScheme {
    pub primary: String,
    pub secondary: String,
    pub background: String,
    pub text: String,
}

/// Theme customisation attached to a build: the values are recorded during
/// the customisation stage, not necessarily fetched.
#[derive(Clone, Debug)]
pub struct ThemeConfig {
    pub wallpaper: Option<String>,
    pub gtk_theme: Option<String>,
    pub icon_theme: Option<String>,
    pub colors: ColorScheme,
}

/// The declarative configuration a client submits; immutable once attached
/// to a job.
#[derive(Clone, Debug)]
pub struct BuildConfig {
    /// Volume name of the produced image.
    pub name: String,
    /// Distribution selector, e.g. `"debian"` or `"ubuntu-22.04"`.
    pub distro: String,
    /// Family of the selected distribution.
    pub category: DistroCategory,
    pub mode: BuildMode,
    /// Overlay package names to install into the root.
    pub overlays: Vec<String>,
    /// Free-text names of additional software to install.
    pub custom_software: Vec<String>,
    /// Desktop-environment package, if the build wants one.
    pub desktop_environment: Option<String>,
    pub theme: ThemeConfig,
    /// Shell scripts executed inside the prepared root.
    pub custom_scripts: Vec<String>,
    /// Raw hardware-enumeration text for kernel-module optimisation.
    pub hardware: String,
    /// Whether automatic kernel-module optimisation is on.
    pub ai_mode: bool,
}

/// One timestamped, leveled job log entry.
#[derive(Clone, Debug)]
pub struct BuildLog {
    pub timestamp: i64,
    pub level: LogLevel,
    pub message: String,
}

/// One build job record. Mutated exclusively through the registry, which
/// maintains `wellformed` below.
pub struct BuildJob {
    /// Unique identifier, fixed at creation.
    pub id: u128,
    /// The submitted configuration, immutable after creation.
    pub config: BuildConfig,
    pub status: BuildStatus,
    /// 0 to 100; never decreases after creation.
    pub progress: u8,
    pub started_at: i64,
    /// Set when the job reaches a terminal state.
    pub completed_at: Option<i64>,
    /// Set only on terminal success.
    pub download_url: Option<String>,
    /// The captured message of the fatal failure, if the job failed.
    pub error: Option<String>,
    /// Append-only log.
    pub logs: Vec<BuildLog>,
    /// Every `(status, progress)` pair the job has held, oldest first.
    pub history: Ghost<Seq<(BuildStatus, int)>>,
}

/// Position of a status on the forward path; `Failed` sits past everything
/// so that the one transition into it is also forward.
pub open spec fn status_rank(s: BuildStatus) -> int {
    match s {
        BuildStatus::Queued => 0,
        BuildStatus::Building => 1,
        BuildStatus::Packaging => 2,
        BuildStatus::Uploading => 3,
        BuildStatus::Completed => 4,
        BuildStatus::Failed => 5,
    }
}

/// A terminal job is never mutated again.
pub open spec fn is_terminal(s: BuildStatus) -> bool {
    s == BuildStatus::Completed || s == BuildStatus::Failed
}

/// Runtime test for `is_terminal`.
pub fn terminal(s: BuildStatus) -> (r: bool)
    ensures
        r == is_terminal(s),
{
    s == BuildStatus::Completed || s == BuildStatus::Failed
}

/// Runtime counterpart of `status_rank`.
pub fn rank_of_status(s: BuildStatus) -> (r: u8)
    ensures
        r as int == status_rank(s),
{
    match s {
        BuildStatus::Queued => 0,
        BuildStatus::Building => 1,
        BuildStatus::Packaging => 2,
        BuildStatus::Uploading => 3,
        BuildStatus::Completed => 4,
        BuildStatus::Failed => 5,
    }
}

impl BuildJob {
    /// Invariant of every job the registry stores: progress is bounded and,
    /// together with the status, never moves backwards over the recorded
    /// history; a terminal pair can only be the last one; the download URL
    /// exists exactly on terminal success and is never empty.
    pub open spec fn wellformed(self) -> bool {
        &&& self.progress <= 100
        &&& self.history@.len() >= 1
        &&& self.history@.first() == (BuildStatus::Queued, 0int)
        &&& self.history@.last() == (self.status, self.progress as int)
        &&& forall|i: int, j: int|
            0 <= i <= j < self.history@.len() ==> self.history@[i].1 <= self.history@[j].1
        &&& forall|i: int, j: int|
            0 <= i <= j < self.history@.len() ==> status_rank(self.history@[i].0) <= status_rank(
                self.history@[j].0,
            )
        &&& forall|i: int|
            0 <= i < self.history@.len() - 1 ==> !is_terminal(self.history@[i].0)
        &&& forall|i: int|
            0 <= i < self.history@.len() ==> 0 <= (#[trigger] self.history@[i]).1 <= 100
        &&& self.logs@.len() >= 1
        &&& (self.download_url is Some <==> self.status == BuildStatus::Completed)
        &&& (self.download_url matches Some(u) ==> u@.len() > 0)
        &&& (self.error is Some <==> self.status == BuildStatus::Failed)
        &&& (self.completed_at is Some <==> is_terminal(self.status))
    }
}

/// A response envelope used by the service's API surface.
#[derive(Clone, Debug)]
pub struct ApiResponse<T> {
    pub success: bool,
    pub data: Option<T>,
    pub error: Option<String>,
}

impl<T> ApiResponse<T> {
    /// Successful envelope around `data`.
    pub fn ok(data: T) -> (r: ApiResponse<T>)
        ensures
            r.success,
            r.data == Some(data),
            r.error is None,
    {
        ApiResponse { success: true, data: Some(data), error: None }
    }

    /// Failed envelope carrying `message`.
    pub fn failure(message: String) -> (r: ApiResponse<T>)
        ensures
            !r.success,
            r.data is None,
            r.error == Some(message),
    {
        ApiResponse { success: false, data: None, error: Some(message) }
    }
}

} // verus!
