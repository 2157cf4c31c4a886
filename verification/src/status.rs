//! The status bar: what the front end is doing, and what the connected
//! backend reports of itself.

use vstd::prelude::*;

verus! {

/// What the front end is busy with, as the status bar shows it.
#[derive(Clone, Copy, PartialEq, Eq, Structural, Debug)]
pub enum Activity {
    Loading,
    Decompiling,
    Ready,
    Idle,
}

/// Loading takes precedence over decompiling, which takes precedence over
/// having a binary loaded.
pub open spec fn activity_of(is_loading: bool, is_decompiling: bool, has_binary: bool) -> Activity {
    if is_loading {
        Activity::Loading
    } else if is_decompiling {
        Activity::Decompiling
    } else if has_binary {
        Activity::Ready
    } else {
        Activity::Idle
    }
}

/// The status bar shows loading whenever a load runs, decompiling whenever
/// a decompilation runs and no load, ready when only a binary is loaded, and
/// idle otherwise.
pub proof fn law_activity(is_loading: bool, is_decompiling: bool, has_binary: bool)
    ensures
        is_loading ==> activity_of(is_loading, is_decompiling, has_binary) == Activity::Loading,
        !is_loading && is_decompiling ==> activity_of(is_loading, is_decompiling, has_binary)
            == Activity::Decompiling,
        !is_loading && !is_decompiling && has_binary ==> activity_of(
            is_loading,
            is_decompiling,
            has_binary,
        ) == Activity::Ready,
        !is_loading && !is_decompiling && !has_binary ==> activity_of(
            is_loading,
            is_decompiling,
            has_binary,
        ) == Activity::Idle,
{
}

/// What the front end is busy with.
pub fn activity(is_loading: bool, is_decompiling: bool, has_binary: bool) -> (r: Activity)
    ensures
        r == activity_of(is_loading, is_decompiling, has_binary),
{
    if is_loading {
        Activity::Loading
    } else if is_decompiling {
        Activity::Decompiling
    } else if has_binary {
        Activity::Ready
    } else {
        Activity::Idle
    }
}

impl Activity {
    /// The style class of the indicator dot.
    pub fn indicator_class(self) -> (r: &'static str)
        ensures
            r@ == match self {
                Activity::Loading => "status-indicator busy"@,
                Activity::Decompiling => "status-indicator busy"@,
                Activity::Ready => "status-indicator ready"@,
                Activity::Idle => "status-indicator inactive"@,
            },
    {
        match self {
            Activity::Loading => "status-indicator busy",
            Activity::Decompiling => "status-indicator busy",
            Activity::Ready => "status-indicator ready",
            Activity::Idle => "status-indicator inactive",
        }
    }

    /// The text next to the indicator dot.
    pub fn label(self) -> (r: &'static str)
        ensures
            r@ == match self {
                Activity::Loading => "Loading"@,
                Activity::Decompiling => "Decompiling"@,
                Activity::Ready => "Ready"@,
                Activity::Idle => "Idle"@,
            },
    {
        match self {
            Activity::Loading => "Loading",
            Activity::Decompiling => "Decompiling",
            Activity::Ready => "Ready",
            Activity::Idle => "Idle",
        }
    }
}

/// Where the analysis backend runs.
#[derive(Clone, Copy, PartialEq, Eq, Structural, Debug)]
pub enum BackendKind {
    NativeProcess,
    LocalHttp,
    CloudHttp,
    BrowserWorker,
}

/// How the backend reaches its analysis resources.
#[derive(Clone, Copy, PartialEq, Eq, Structural, Debug)]
pub enum ResourceAccess {
    HostFilesystem,
    BrowserSelectedBundle,
    PackagedArtifacts,
}

/// What the backend reports of itself.
#[derive(Clone, Copy, PartialEq, Eq, Structural, Debug)]
pub struct BackendStatus {
    pub backend: BackendKind,
    pub resource_access: ResourceAccess,
    pub sleigh_artifacts: bool,
    pub signatures: bool,
}

/// The short name of a backend kind.
pub open spec fn backend_label_of(kind: BackendKind) -> Seq<char> {
    match kind {
        BackendKind::NativeProcess => "native"@,
        BackendKind::LocalHttp => "local"@,
        BackendKind::CloudHttp => "cloud"@,
        BackendKind::BrowserWorker => "browser worker"@,
    }
}

/// The name of the backend in the status bar: its kind's short name, or
/// `backend` while no status has been received.
pub fn backend_name(status: Option<BackendStatus>) -> (r: &'static str)
    ensures
        r@ == match status {
            Some(s) => backend_label_of(s.backend),
            None => "backend"@,
        },
{
    match status {
        Some(s) => match s.backend {
            BackendKind::NativeProcess => "native",
            BackendKind::LocalHttp => "local",
            BackendKind::CloudHttp => "cloud",
            BackendKind::BrowserWorker => "browser worker",
        },
        None => "backend",
    }
}

/// The description of where resources come from.
pub open spec fn access_label_of(access: ResourceAccess) -> Seq<char> {
    match access {
        ResourceAccess::HostFilesystem => "host filesystem"@,
        ResourceAccess::BrowserSelectedBundle => "selected browser bundle"@,
        ResourceAccess::PackagedArtifacts => "packaged artifacts"@,
    }
}

/// The resource summary of a backend status: where resources come from,
/// whether the SLEIGH artifacts are ready and whether signatures are,
/// separated by middle dots.
pub open spec fn resource_summary_of(s: BackendStatus) -> Seq<char> {
    access_label_of(s.resource_access) + " \u{b7} "@ + (if s.sleigh_artifacts {
        "SLEIGH ready"@
    } else {
        "SLEIGH missing"@
    }) + " \u{b7} "@ + (if s.signatures {
        "signatures ready"@
    } else {
        "signatures optional"@
    })
}

/// The resource hint of the status bar: the resource summary, or a notice
/// that no status has been received.
pub fn resource_hint(status: Option<BackendStatus>) -> (r: String)
    ensures
        r@ == match status {
            Some(s) => resource_summary_of(s),
            None => "resource status unavailable"@,
        },
{
    let mut r = String::new();
    match status {
        Some(s) => {
            let location = match s.resource_access {
                ResourceAccess::HostFilesystem => "host filesystem",
                ResourceAccess::BrowserSelectedBundle => "selected browser bundle",
                ResourceAccess::PackagedArtifacts => "packaged artifacts",
            };
            let sleigh = if s.sleigh_artifacts {
                "SLEIGH ready"
            } else {
                "SLEIGH missing"
            };
            let signatures = if s.signatures {
                "signatures ready"
            } else {
                "signatures optional"
            };
            r.append(location);
            r.append(" \u{b7} ");
            r.append(sleigh);
            r.append(" \u{b7} ");
            r.append(signatures);
        },
        None => {
            r.append("resource status unavailable");
        },
    }
    r
}

} // verus!
