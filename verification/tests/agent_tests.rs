use trunk_core::service::{
    log_message_from_entry, status_from_strings, EnabledState, LastRunState, LoadState,
    RuntimeState,
};
use trunk_core::zfs::{
    dataset_size, get_value, Dataset, ModifyDataset, ModifyVolume, Pool, Volume, ZFSGet,
    ZFSGetItem, ZFSKind, ZFSList, ZFSListItem, ZFSListItemProperties, ZFSOutputInfo, ZFSSource,
    ZFSValue,
};

#[test]
fn test_zfs_warning() {
    println!();
    println!("--- WARNING: PLEASE READ ---");
    println!();
    println!("The ZFS tests perform CRUD operations against zpools and ZFS datasets/volumes.");
    println!("You must have ZFS support on your host.");
    println!("Pools are created from empty files and datasets/volumes created within,");
    println!("but there is no guarantee the code is correct. Please be mindful of");
    println!("your personal filesystems when running this code.");
    println!();
    println!("It must be run as root, otherwise these tests will fail on permissions.");
    println!();
    println!("--- WARNING: PLEASE READ ---");
    println!();
}

fn args(cmd: &trunk_core::zfs::ZfsCommand) -> Vec<String> {
    cmd.args.clone()
}

fn sv(v: Vec<&str>) -> Vec<String> {
    v.iter().map(ToString::to_string).collect()
}

#[test]
fn zfs_command_lines() {
    let pool = Pool::new("trunk");

    let create = pool.create_dataset(&Dataset {
        name: "dataset".to_string(),
        quota: None,
    });
    assert_eq!(create.len(), 2);
    assert_eq!(args(&create[0]), sv(vec!["create", "trunk/dataset"]));
    assert_eq!(args(&create[1]), sv(vec!["mount", "-R", "trunk"]));

    let with_quota = pool.create_dataset(&Dataset {
        name: "dataset".to_string(),
        quota: Some(1024),
    });
    assert_eq!(
        args(&with_quota[0]),
        sv(vec!["create", "trunk/dataset", "-o", "quota=1024"])
    );

    let vol = pool.create_volume(&Volume {
        name: "volume".to_string(),
        size: 100 * 1024 * 1024,
    });
    assert_eq!(
        args(&vol[0]),
        sv(vec!["create", "-V", "104857600", "trunk/volume"])
    );

    let destroy = pool.destroy("volume");
    assert_eq!(args(&destroy[0]), sv(vec!["destroy", "-f", "trunk/volume"]));

    assert_eq!(args(&pool.list_command()), sv(vec!["list", "-j", "--json-int"]));

    // a property write names each pair, and an empty write runs nothing
    let set = pool.set_command(
        "dataset",
        &vec![
            ("quota".to_string(), "1024".to_string()),
            ("readonly".to_string(), "on".to_string()),
        ],
    );
    assert_eq!(set.len(), 1);
    assert_eq!(
        args(&set[0]),
        sv(vec!["set", "quota=1024", "readonly=on", "trunk/dataset"])
    );
    let noop = pool.set_command("dataset", &Vec::new());
    assert_eq!(noop.len(), 0);

    assert_eq!(
        args(&pool.get_command("volume", "volsize")),
        sv(vec!["get", "-j", "--json-int", "volsize", "trunk/volume"])
    );

    let rename = pool.modify_volume(&ModifyVolume {
        name: "volume".to_string(),
        modifications: Volume {
            name: "volume2".to_string(),
            size: 150 * 1024 * 1024,
        },
    });
    assert_eq!(rename.len(), 2);
    assert_eq!(
        args(&rename[0]),
        sv(vec!["set", "volsize=157286400", "trunk/volume"])
    );
    assert_eq!(
        args(&rename[1]),
        sv(vec!["rename", "-p", "trunk/volume", "trunk/volume2"])
    );

    let reshape = pool.modify_dataset(&ModifyDataset {
        name: "dataset".to_string(),
        modifications: Dataset {
            name: "dataset2".to_string(),
            quota: Some(5 * 1024 * 1024),
        },
    });
    assert_eq!(reshape.len(), 4);
    assert_eq!(
        args(&reshape[0]),
        sv(vec!["set", "quota=5242880", "trunk/dataset"])
    );
    assert_eq!(args(&reshape[1]), sv(vec!["unmount", "-f", "trunk/dataset"]));
    assert_eq!(
        args(&reshape[2]),
        sv(vec!["rename", "-p", "trunk/dataset", "trunk/dataset2"])
    );
    assert_eq!(args(&reshape[3]), sv(vec!["mount", "-R", "trunk"]));
}

fn value<T>(v: T) -> ZFSValue<T> {
    ZFSValue {
        value: v,
        source: ZFSSource {
            typ: "NONE".to_string(),
            data: "-".to_string(),
        },
    }
}

fn entry(name: &str, typ: &str, mountpoint: &str) -> ZFSListItem {
    ZFSListItem {
        name: name.to_string(),
        typ: typ.to_string(),
        pool: "trunk".to_string(),
        createtxg: 1,
        properties: ZFSListItemProperties {
            used: value(4096),
            available: value(1 << 30),
            referenced: value(2048),
            mountpoint: value(mountpoint.to_string()),
        },
    }
}

// A walk through the pool's life: the listing logic selects, names, and
// sizes entries exactly as the structured output dictates.
#[test]
fn zfs_listing_lifecycle() {
    let pool = Pool::new("trunk");
    let empty = ZFSList {
        output_version: ZFSOutputInfo {
            command: "zfs list".to_string(),
            vers_major: 0,
            vers_minor: 1,
        },
        datasets: vec![entry("trunk", "FILESYSTEM", "/trunk")],
    };
    // the pool's root entry is never reported
    let selected: Vec<_> = empty
        .datasets
        .iter()
        .filter(|i| pool.entry_selected(i, &None))
        .collect();
    assert_eq!(selected.len(), 0);

    let one = vec![
        entry("trunk", "FILESYSTEM", "/trunk"),
        entry("trunk/dataset", "FILESYSTEM", "/trunk/dataset"),
    ];
    let selected: Vec<_> = one.iter().filter(|i| pool.entry_selected(i, &None)).collect();
    assert_eq!(selected.len(), 1);

    let two = vec![
        entry("trunk", "FILESYSTEM", "/trunk"),
        entry("trunk/dataset", "FILESYSTEM", "/trunk/dataset"),
        entry("trunk/volume", "VOLUME", "-"),
    ];
    let selected: Vec<_> = two.iter().filter(|i| pool.entry_selected(i, &None)).collect();
    assert_eq!(selected.len(), 2);

    // filtering narrows to entries under pool/<filter>
    let filter = Some("volume".to_string());
    let selected: Vec<_> = two.iter().filter(|i| pool.entry_selected(i, &filter)).collect();
    assert_eq!(selected.len(), 1);
    let vol = selected[0];
    assert_eq!(pool.size_property(vol), "volsize");
    let stat = pool.stat_of(vol, 5 * 1024 * 1024);
    assert_eq!(stat.kind, ZFSKind::Volume);
    assert_eq!(stat.name, "volume");
    assert_eq!(stat.full_name, "trunk/volume");
    assert!(stat.size >= 4 * 1024 * 1024 && stat.size <= 6 * 1024 * 1024);
    assert_eq!(stat.mountpoint, None);

    let ds = &two[1];
    assert_eq!(pool.size_property(ds), "quota");
    // a dataset's size is its quota when set, its available space when not
    assert_eq!(dataset_size(5242880, 1 << 30), 5242880);
    assert_eq!(dataset_size(0, 1 << 30), 1 << 30);
    let stat = pool.stat_of(ds, dataset_size(0, 1 << 30));
    assert_eq!(stat.kind, ZFSKind::Dataset);
    assert_eq!(stat.name, "dataset");
    assert_eq!(stat.mountpoint, Some("/trunk/dataset".to_string()));
    assert_eq!(stat.used, 4096);
    assert_eq!(stat.refer, 2048);
}

#[test]
fn zfs_list_digest() {
    let pool = Pool::new("trunk");
    let entries = vec![
        entry("trunk", "FILESYSTEM", "/trunk"),
        entry("trunk/dataset", "FILESYSTEM", "/trunk/dataset"),
        entry("trunk/volume", "VOLUME", "-"),
    ];
    let sizes = vec![0, 1 << 30, 104857600];
    let stats = pool.list(&entries, &sizes, &None);
    assert_eq!(stats.len(), 2);
    let names: Vec<&str> = stats.iter().map(|s| s.name.as_str()).collect();
    assert!(names.contains(&"dataset"));
    assert!(names.contains(&"volume"));
    let vol = stats.iter().find(|s| s.name == "volume").unwrap();
    assert_eq!(vol.kind, ZFSKind::Volume);
    assert_eq!(vol.size, 104857600);
    assert_eq!(vol.mountpoint, None);

    let filtered = pool.list(&entries, &sizes, &Some("volume".to_string()));
    assert_eq!(filtered.len(), 1);
    assert_eq!(filtered[0].full_name, "trunk/volume");
}

#[test]
fn zfs_get_extraction() {
    let out = ZFSGet {
        output_version: ZFSOutputInfo {
            command: "zfs get".to_string(),
            vers_major: 0,
            vers_minor: 1,
        },
        datasets: vec![(
            "trunk/volume".to_string(),
            ZFSGetItem {
                name: "trunk/volume".to_string(),
                typ: "VOLUME".to_string(),
                pool: "trunk".to_string(),
                createtxg: 1,
                properties: vec![("volsize".to_string(), value(104857600u64))],
            },
        )],
    };
    assert_eq!(get_value(&out, "trunk/volume", "volsize"), Some(104857600));
    assert_eq!(get_value(&out, "trunk/volume", "quota"), None);
    assert_eq!(get_value(&out, "trunk/other", "volsize"), None);
}

#[test]
fn state_decoding() {
    assert_eq!(LoadState::from_str("loaded").unwrap(), LoadState::Loaded);
    assert_eq!(LoadState::from_str("auto-restart").unwrap(), LoadState::Loaded);
    assert_eq!(LoadState::from_str("not-found").unwrap(), LoadState::Unloaded);
    assert_eq!(LoadState::from_str("inactive").unwrap(), LoadState::Inactive);
    assert!(LoadState::from_str("gibberish").is_err());

    assert_eq!(RuntimeState::from_str("running").unwrap(), RuntimeState::Started);
    assert_eq!(RuntimeState::from_str("activating").unwrap(), RuntimeState::Started);
    assert_eq!(RuntimeState::from_str("dead").unwrap(), RuntimeState::Stopped);
    assert_eq!(
        RuntimeState::from_str("maintenance").unwrap(),
        RuntimeState::Stopped
    );
    assert_eq!(
        RuntimeState::from_str("restarted").unwrap(),
        RuntimeState::Restarted
    );
    assert_eq!(RuntimeState::from_str("reloaded").unwrap(), RuntimeState::Reloaded);
    assert!(RuntimeState::from_str("gibberish").is_err());

    assert_eq!(LastRunState::from_str("failed").unwrap(), LastRunState::Failed);
    assert_eq!(
        LastRunState::from_str("auto-restart-queued").unwrap(),
        LastRunState::Active
    );
    assert_eq!(LastRunState::from_str("exited").unwrap(), LastRunState::Exited);
    assert!(LastRunState::from_str("gibberish").is_err());
    assert!(LastRunState::Dead.is_settled());
    assert!(LastRunState::Failed.is_settled());
    assert!(LastRunState::Exited.is_settled());
    assert!(!LastRunState::Running.is_settled());

    assert_eq!(EnabledState::from_str("enabled").unwrap(), EnabledState::Enabled);
    assert_eq!(EnabledState::from_str("inactive").unwrap(), EnabledState::Disabled);
    assert_eq!(EnabledState::from_str("failed").unwrap(), EnabledState::Failed);

    let status = status_from_strings("loaded", "running", "running").unwrap();
    assert_eq!(status.load_state, LoadState::Loaded);
    assert_eq!(status.runtime_state, RuntimeState::Started);
    assert_eq!(status.last_run_state, LastRunState::Running);

    assert_eq!(LoadState::Unloaded.as_str(), "not-found");
    assert_eq!(RuntimeState::Stopped.as_str(), "stopped");
    assert_eq!(LastRunState::Plugged.as_str(), "plugged");
    assert_eq!(EnabledState::Disabled.as_str(), "disabled");
}

#[test]
fn journal_entry_reshaping() {
    let entry = vec![
        ("MESSAGE".to_string(), "hello".to_string()),
        ("_PID".to_string(), "42".to_string()),
        ("_SOURCE_REALTIME_TIMESTAMP".to_string(), "1700000000".to_string()),
        ("CURSOR".to_string(), "cursor-token".to_string()),
        ("_UNRELATED".to_string(), "ignored".to_string()),
    ];
    let msg = log_message_from_entry("sshd.service", &entry).unwrap();
    assert_eq!(msg.message, "hello");
    assert_eq!(msg.pid, 42);
    assert_eq!(msg.time, 1700000000);
    assert_eq!(msg.cursor, "cursor-token");
    assert_eq!(msg.service_name, "sshd.service");

    // a malformed entry is surfaced as an error, not a crash
    let missing = vec![("MESSAGE".to_string(), "hello".to_string())];
    assert!(log_message_from_entry("sshd.service", &missing).is_err());
    let bad_pid = vec![
        ("MESSAGE".to_string(), "hello".to_string()),
        ("_PID".to_string(), "not-a-pid".to_string()),
        ("_SOURCE_REALTIME_TIMESTAMP".to_string(), "1700000000".to_string()),
        ("CURSOR".to_string(), "c".to_string()),
    ];
    assert!(log_message_from_entry("sshd.service", &bad_pid).is_err());
}
