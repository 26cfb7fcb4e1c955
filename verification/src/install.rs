//! The installer's ordering contract. Installing a package performs, in
//! this order: storage provisioning, the installed marker, the unit file,
//! a manager reload, and the unit start; uninstalling stops the unit and
//! waits for it to settle before any storage is destroyed, then removes
//! the marker, the unit file, and reloads. The plans below fix those
//! orders; the caller executes each step against the host.

use vstd::prelude::*;
use vstd::string::*;

use crate::package::CompiledPackage;
use crate::unit::SystemdUnit;
use crate::unit::charon_unit_text;

verus! {

/// One step of an installation.
#[derive(Debug, Clone, PartialEq, Eq)]
pub enum InstallStep {
    /// Create a dataset (with a quota, for mounted volumes) in the pool.
    CreateDataset { name: String, quota: Option<u64> },
    /// Create a block-device volume of the given size in the pool.
    CreateVolume { name: String, size: u64 },
    /// Create the `installed/<name>/<version>` marker, exclusively.
    CreateMarker,
    /// Write the unit file.
    WriteUnit { path: String, content: String },
    /// Reload the service manager.
    ReloadManager,
    /// Start the unit.
    StartUnit { name: String },
}

/// One step of an uninstallation.
#[derive(Debug, Clone, PartialEq, Eq)]
pub enum UninstallStep {
    /// Stop the unit.
    StopUnit { name: String },
    /// Poll until the unit has settled (dead, failed, or exited) or is
    /// gone.
    AwaitSettled { name: String },
    /// Destroy a dataset or volume in the pool.
    DestroyEntry { name: String },
    /// Remove the installed marker.
    RemoveMarker,
    /// Remove the unit file.
    RemoveUnitFile { path: String },
    /// Reload the service manager.
    ReloadManager,
}

/// Whether a step touches storage.
pub open spec fn is_storage_step(s: InstallStep) -> bool {
    s is CreateDataset || s is CreateVolume
}

impl CompiledPackage {
    /// The storage the package needs: one root dataset named after the
    /// package, then one dataset (with quota, mounted) or block volume
    /// per declared volume.
    pub fn provision(&self) -> (r: Vec<InstallStep>)
        ensures
            r@.len() == 1 + self.storage.volumes@.len(),
            r@[0] matches InstallStep::CreateDataset { name, quota } && name@ == self.title.name@
                && quota is None,
            forall|i: int|
                0 <= i < self.storage.volumes@.len() ==> match #[trigger] self.storage.volumes@[i].mountpoint {
                    Some(_) => r@[i + 1] matches InstallStep::CreateDataset { name, quota }
                        && name@ == self.title.name@ + "/"@ + self.storage.volumes@[i].name@
                        && quota == Some(self.storage.volumes@[i].size),
                    None => r@[i + 1] matches InstallStep::CreateVolume { name, size } && name@
                        == self.title.name@ + "/"@ + self.storage.volumes@[i].name@ && size
                        == self.storage.volumes@[i].size,
                },
            forall|i: int| 0 <= i < r@.len() ==> is_storage_step(#[trigger] r@[i]),
    {
        let mut r: Vec<InstallStep> = Vec::new();
        r.push(InstallStep::CreateDataset { name: self.title.name.clone(), quota: None });
        let ghost vols = self.storage.volumes@;
        let mut i: usize = 0;
        while i < self.storage.volumes.len()
            invariant
                i <= vols.len(),
                vols == self.storage.volumes@,
                r@.len() == 1 + i,
                r@[0] matches InstallStep::CreateDataset { name, quota } && name@
                    == self.title.name@ && quota is None,
                forall|j: int|
                    0 <= j < i ==> match #[trigger] vols[j].mountpoint {
                        Some(_) => r@[j + 1] matches InstallStep::CreateDataset { name, quota }
                            && name@ == self.title.name@ + "/"@ + vols[j].name@ && quota == Some(
                            vols[j].size,
                        ),
                        None => r@[j + 1] matches InstallStep::CreateVolume { name, size } && name@
                            == self.title.name@ + "/"@ + vols[j].name@ && size == vols[j].size,
                    },
                forall|j: int| 0 <= j < r@.len() ==> is_storage_step(#[trigger] r@[j]),
            decreases vols.len() - i,
        {
            let mut name = self.title.name.clone();
            name.append("/");
            name.append(self.storage.volumes[i].name.as_str());
            proof {
                assert(name@ =~= self.title.name@ + "/"@ + vols[i as int].name@);
            }
            let step = match &self.storage.volumes[i].mountpoint {
                Some(_) => InstallStep::CreateDataset {
                    name,
                    quota: Some(self.storage.volumes[i].size),
                },
                None => InstallStep::CreateVolume { name, size: self.storage.volumes[i].size },
            };
            r.push(step);
            i = i + 1;
        }
        r
    }

    /// The `installed/<name>/<version>` marker path under a registry
    /// root.
    pub fn installed_path(&self, registry_root: &str) -> (r: String)
        ensures
            r@ == registry_root@ + "/installed/"@ + self.title.name@ + "/"@ + self.title.version@,
    {
        let mut out = String::from_str(registry_root);
        out.append("/installed/");
        out.append(self.title.name.as_str());
        out.append("/");
        out.append(self.title.version.as_str());
        proof {
            assert(out@ =~= registry_root@ + "/installed/"@ + self.title.name@ + "/"@
                + self.title.version@);
        }
        out
    }
}

/// The full installation of a compiled package, in the one order the
/// pipeline allows: every storage entity exists before the installed
/// marker is created, and the marker before the unit is started.
pub fn install_plan(unit: &SystemdUnit, registry_path: &str, volume_root: &str) -> (r: Vec<
    InstallStep,
>)
    ensures
        ({
            let p = unit.package;
            let nvol = p.storage.volumes@.len() as int;
            &&& r@.len() == nvol + 5
            // storage first, exactly as provisioning lays it out
            &&& (forall|i: int| 0 <= i < nvol + 1 ==> is_storage_step(#[trigger] r@[i]))
            &&& r@[0] matches InstallStep::CreateDataset { name, quota } && name@
                == p.title.name@ && quota is None
            &&& (forall|i: int|
                0 <= i < nvol ==> match #[trigger] p.storage.volumes@[i].mountpoint {
                    Some(_) => r@[i + 1] matches InstallStep::CreateDataset { name, quota }
                        && name@ == p.title.name@ + "/"@ + p.storage.volumes@[i].name@ && quota
                        == Some(p.storage.volumes@[i].size),
                    None => r@[i + 1] matches InstallStep::CreateVolume { name, size } && name@
                        == p.title.name@ + "/"@ + p.storage.volumes@[i].name@ && size
                        == p.storage.volumes@[i].size,
                })
            // then the marker
            &&& r@[nvol + 1] is CreateMarker
            // then the unit file, with its exact content
            &&& r@[nvol + 2] matches InstallStep::WriteUnit { path, content } && path@ == (
            match unit.systemd_root {
                Some(root) => root@,
                None => "/etc/systemd/system"@,
            }) + "/"@ + p.title.name@ + "-"@ + p.title.version@ + ".service"@ && content@
                == charon_unit_text(
                p.title.name@,
                p.title.version@,
                match unit.charon_path {
                    Some(cp) => cp@,
                    None => "/usr/bin/charon"@,
                },
                unit.buckle_socket@,
                registry_path@,
                volume_root@,
            )
            // then the reload and the start
            &&& r@[nvol + 3] is ReloadManager
            &&& r@[nvol + 4] matches InstallStep::StartUnit { name } && name@ == p.title.name@
                + "-"@ + p.title.version@ + ".service"@
            // the ordering the pipeline guarantees
            &&& (forall|i: int|
                0 <= i < r@.len() && is_storage_step(#[trigger] r@[i]) ==> i < nvol + 1)
            &&& (forall|i: int| 0 <= i < r@.len() && (#[trigger] r@[i]) is CreateMarker ==> i == nvol + 1)
            &&& (forall|i: int|
                0 <= i < r@.len() && (#[trigger] r@[i]) is StartUnit ==> i == nvol + 4)
        }),
{
    let mut r = unit.package.provision();
    let ghost nvol = unit.package.storage.volumes@.len();
    r.push(InstallStep::CreateMarker);
    let path = unit.filename();
    let content = unit.unit(registry_path, volume_root);
    r.push(InstallStep::WriteUnit { path, content });
    r.push(InstallStep::ReloadManager);
    let name = unit.service_name();
    r.push(InstallStep::StartUnit { name });
    r
}

/// The full uninstallation of a compiled package: the unit is stopped and
/// confirmed settled before any storage is destroyed; the marker, the
/// unit file, and the manager reload come last.
pub fn uninstall_plan(unit: &SystemdUnit, purge: bool) -> (r: Vec<UninstallStep>)
    ensures
        ({
            let p = unit.package;
            let nvol = p.storage.volumes@.len() as int;
            let ndestroy: int = if purge {
                nvol + 1
            } else {
                0
            };
            let service = p.title.name@ + "-"@ + p.title.version@ + ".service"@;
            &&& r@.len() == ndestroy + 5
            &&& r@[0] matches UninstallStep::StopUnit { name } && name@ == service
            &&& r@[1] matches UninstallStep::AwaitSettled { name } && name@ == service
            // with purge, each volume is destroyed, then the root dataset
            &&& (purge ==> (forall|i: int|
                0 <= i < nvol ==> ((#[trigger] r@[i + 2]) matches UninstallStep::DestroyEntry {
                    name,
                } && name@ == p.title.name@ + "/"@ + p.storage.volumes@[i].name@)))
            &&& (purge ==> (r@[nvol + 2] matches UninstallStep::DestroyEntry { name } && name@
                == p.title.name@))
            &&& r@[ndestroy + 2] is RemoveMarker
            &&& r@[ndestroy + 3] matches UninstallStep::RemoveUnitFile { path } && path@ == (
            match unit.systemd_root {
                Some(root) => root@,
                None => "/etc/systemd/system"@,
            }) + "/"@ + service
            &&& r@[ndestroy + 4] is ReloadManager
            // storage is only ever touched after the stop and the wait
            &&& (forall|i: int|
                0 <= i < r@.len() && (#[trigger] r@[i]) is DestroyEntry ==> i >= 2)
        }),
{
    let p = &unit.package;
    let mut r: Vec<UninstallStep> = Vec::new();
    let service = unit.service_name();
    let service2 = unit.service_name();
    r.push(UninstallStep::StopUnit { name: service });
    r.push(UninstallStep::AwaitSettled { name: service2 });
    if purge {
        let ghost vols = p.storage.volumes@;
        let mut i: usize = 0;
        while i < unit.package.storage.volumes.len()
            invariant
                i <= vols.len(),
                vols == unit.package.storage.volumes@,
                r@.len() == i + 2,
                r@[0] matches UninstallStep::StopUnit { name } && name@
                    == unit.package.title.name@ + "-"@ + unit.package.title.version@ + ".service"@,
                r@[1] matches UninstallStep::AwaitSettled { name } && name@
                    == unit.package.title.name@ + "-"@ + unit.package.title.version@ + ".service"@,
                forall|j: int|
                    0 <= j < i ==> ((#[trigger] r@[j + 2]) matches UninstallStep::DestroyEntry {
                        name,
                    } && name@ == unit.package.title.name@ + "/"@ + vols[j].name@),
            decreases vols.len() - i,
        {
            let mut name = unit.package.title.name.clone();
            name.append("/");
            name.append(unit.package.storage.volumes[i].name.as_str());
            proof {
                assert(name@ =~= unit.package.title.name@ + "/"@ + vols[i as int].name@);
            }
            r.push(UninstallStep::DestroyEntry { name });
            i = i + 1;
        }
        r.push(UninstallStep::DestroyEntry { name: p.title.name.clone() });
    }
    r.push(UninstallStep::RemoveMarker);
    let path = unit.filename();
    r.push(UninstallStep::RemoveUnitFile { path });
    r.push(UninstallStep::ReloadManager);
    r
}

} // verus!
