use trunk_core::install::{install_plan, uninstall_plan, InstallStep, UninstallStep};
use trunk_core::package::{CompiledPackage, CompiledStorage, CompiledVolume, PackageTitle};
use trunk_core::unit::SystemdUnit;

fn test_unit() -> SystemdUnit {
    let package = CompiledPackage {
        title: PackageTitle {
            name: "plex".into(),
            version: "0.0.1".into(),
        },
        storage: CompiledStorage {
            volumes: vec![
                CompiledVolume {
                    name: "media".into(),
                    size: 1024,
                    mountpoint: Some("/media".into()),
                    recreate: false,
                    private: false,
                },
                CompiledVolume {
                    name: "scratch-disk".into(),
                    size: 2048,
                    mountpoint: None,
                    recreate: false,
                    private: false,
                },
            ],
        },
        ..Default::default()
    };
    SystemdUnit::new(
        "/run/buckle.sock".to_string(),
        package,
        Some("/etc/systemd/system".to_string()),
        Some("/usr/bin/charon".to_string()),
    )
}

// On install, every storage entity is created before the marker, and the
// marker before the unit is started.
#[test]
fn install_ordering() {
    let plan = install_plan(&test_unit(), "/trunk/charon/registry", "/volume-root");
    assert_eq!(plan.len(), 7);
    assert_eq!(
        plan[0],
        InstallStep::CreateDataset {
            name: "plex".into(),
            quota: None
        }
    );
    assert_eq!(
        plan[1],
        InstallStep::CreateDataset {
            name: "plex/media".into(),
            quota: Some(1024)
        }
    );
    assert_eq!(
        plan[2],
        InstallStep::CreateVolume {
            name: "plex/scratch-disk".into(),
            size: 2048
        }
    );
    assert_eq!(plan[3], InstallStep::CreateMarker);
    match &plan[4] {
        InstallStep::WriteUnit { path, content } => {
            assert_eq!(path, "/etc/systemd/system/plex-0.0.1.service");
            assert!(content.contains("ExecStart=/usr/bin/charon -b /run/buckle.sock -r /trunk/charon/registry launch plex 0.0.1 /volume-root"));
            assert!(content.contains("Restart=always"));
            assert!(content.contains("TimeoutSec=300"));
        }
        other => panic!("the unit file comes after the marker, found {:?}", other),
    }
    assert_eq!(plan[5], InstallStep::ReloadManager);
    assert_eq!(
        plan[6],
        InstallStep::StartUnit {
            name: "plex-0.0.1.service".into()
        }
    );

    let marker = plan
        .iter()
        .position(|s| matches!(s, InstallStep::CreateMarker))
        .unwrap();
    let start = plan
        .iter()
        .position(|s| matches!(s, InstallStep::StartUnit { .. }))
        .unwrap();
    for (i, step) in plan.iter().enumerate() {
        if matches!(
            step,
            InstallStep::CreateDataset { .. } | InstallStep::CreateVolume { .. }
        ) {
            assert!(i < marker);
        }
    }
    assert!(marker < start);
}

// On uninstall, the unit is stopped and confirmed settled before any
// storage is destroyed; the marker and the unit file go last.
#[test]
fn uninstall_ordering() {
    let plan = uninstall_plan(&test_unit(), true);
    assert_eq!(
        plan[0],
        UninstallStep::StopUnit {
            name: "plex-0.0.1.service".into()
        }
    );
    assert_eq!(
        plan[1],
        UninstallStep::AwaitSettled {
            name: "plex-0.0.1.service".into()
        }
    );
    assert_eq!(
        plan[2],
        UninstallStep::DestroyEntry {
            name: "plex/media".into()
        }
    );
    assert_eq!(
        plan[3],
        UninstallStep::DestroyEntry {
            name: "plex/scratch-disk".into()
        }
    );
    assert_eq!(plan[4], UninstallStep::DestroyEntry { name: "plex".into() });
    assert_eq!(plan[5], UninstallStep::RemoveMarker);
    assert_eq!(
        plan[6],
        UninstallStep::RemoveUnitFile {
            path: "/etc/systemd/system/plex-0.0.1.service".into()
        }
    );
    assert_eq!(plan[7], UninstallStep::ReloadManager);

    for (i, step) in plan.iter().enumerate() {
        if matches!(step, UninstallStep::DestroyEntry { .. }) {
            assert!(i >= 2);
        }
    }
}

// Without purge, storage is left alone entirely.
#[test]
fn uninstall_without_purge() {
    let plan = uninstall_plan(&test_unit(), false);
    assert_eq!(plan.len(), 5);
    assert!(plan
        .iter()
        .all(|s| !matches!(s, UninstallStep::DestroyEntry { .. })));
}
