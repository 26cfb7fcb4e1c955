use trunk_core::input::TemplatedInput;
use trunk_core::launcher::{
    generate_command, qmp_response_ok, stop_package, vm_ping, vm_quit, vm_shutdown, StopAction,
};
use trunk_core::package::{
    CompiledPackage, CompiledResources, CompiledStorage, CompiledSource, CompiledSystem,
    CompiledVolume, PackageTitle, Source, SourcePackage,
};

fn string_vec(v: Vec<&str>) -> Vec<String> {
    v.iter().map(ToString::to_string).collect::<Vec<String>>()
}

fn title(name: &str, version: &str) -> PackageTitle {
    PackageTitle {
        name: name.to_string(),
        version: version.to_string(),
    }
}

fn volume(name: &str, mountpoint: Option<&str>) -> CompiledVolume {
    CompiledVolume {
        name: name.to_string(),
        size: 0,
        mountpoint: mountpoint.map(|m| m.to_string()),
        recreate: false,
        private: false,
    }
}

// Compiling and launching the container scenario produces exactly the
// documented argument list.
#[test]
fn podman_cli() {
    let plex = CompiledPackage {
        title: title("plex", "0.0.2"),
        ..Default::default()
    };
    assert_eq!(
        generate_command(&plex, "/volume-root").unwrap(),
        string_vec(vec!["podman", "run", "--rm", "--name", "plex-0.0.2", "scratch"])
    );

    let plex1 = CompiledPackage {
        title: title("plex", "0.0.1"),
        ..Default::default()
    };
    assert_eq!(
        generate_command(&plex1, "/volume-root").unwrap(),
        string_vec(vec!["podman", "run", "--rm", "--name", "plex-0.0.1", "scratch"])
    );

    let podman_test = CompiledPackage {
        title: title("podman-test", "0.0.1"),
        source: CompiledSource::Container("docker://debian".to_string()),
        storage: CompiledStorage {
            volumes: vec![
                volume("private", Some("/private-test")),
                volume("shared", Some("/shared-test")),
            ],
        },
        system: CompiledSystem {
            host_pid: true,
            host_net: true,
            capabilities: vec!["SYS_ADMIN".to_string()],
            privileged: true,
        },
        ..Default::default()
    };
    assert_eq!(
        generate_command(&podman_test, "/volume-root").unwrap(),
        string_vec(vec![
            "podman",
            "run",
            "--rm",
            "--name",
            "podman-test-0.0.1",
            "-v",
            "/volume-root/private:/private-test:rshared",
            "-v",
            "/volume-root/shared:/shared-test:rshared",
            "--pid",
            "host",
            "--network",
            "host",
            "--privileged",
            "--cap-add",
            "SYS_ADMIN",
            "docker://debian"
        ])
    );
}

// The VM scenario: memory, SMP shape, and the hostfwd rules come out
// exactly as documented.
#[test]
fn qemu_cli() {
    let mut nw = trunk_core::package::CompiledNetworking::default();
    nw.forward_ports = vec![(1234, 5678), (2345, 6789)];
    let plex_qemu = CompiledPackage {
        title: title("plex-qemu", "0.0.1"),
        source: CompiledSource::URL("https://example.com/image.img".to_string()),
        networking: nw,
        resources: CompiledResources {
            cpus: 8,
            memory: 4096,
        },
        ..Default::default()
    };
    assert_eq!(
        generate_command(&plex_qemu, "/volume-root").unwrap(),
        string_vec(vec![
            "qemu-system-x86_64",
            "-nodefaults",
            "-chardev",
            "socket,server=on,wait=off,id=char0,path=/volume-root/qemu-monitor",
            "-mon",
            "chardev=char0,mode=control,pretty=on",
            "-machine",
            "accel=kvm",
            "-vga",
            "none",
            "-m",
            "4096M",
            "-cpu",
            "max",
            "-smp",
            "cpus=8,cores=8,maxcpus=8",
            "-nic",
            "user,hostfwd=tcp:0.0.0.0:1234-:5678,hostfwd=tcp:0.0.0.0:2345-:6789",
            "-drive",
            "driver=raw,if=virtio,file=/volume-root/image,cache=none,media=disk,index=0"
        ]),
    );

    let with_volume = CompiledPackage {
        title: title("plex-qemu", "0.0.2"),
        source: CompiledSource::URL("https://example.com/image.img".to_string()),
        storage: CompiledStorage {
            volumes: vec![volume("test", None)],
        },
        resources: CompiledResources {
            cpus: 4,
            memory: 8192,
        },
        ..Default::default()
    };
    assert_eq!(
        generate_command(&with_volume, "/volume-root").unwrap(),
        string_vec(vec![
            "qemu-system-x86_64",
            "-nodefaults",
            "-chardev",
            "socket,server=on,wait=off,id=char0,path=/volume-root/qemu-monitor",
            "-mon",
            "chardev=char0,mode=control,pretty=on",
            "-machine",
            "accel=kvm",
            "-vga",
            "none",
            "-m",
            "8192M",
            "-cpu",
            "max",
            "-smp",
            "cpus=4,cores=4,maxcpus=4",
            "-nic",
            "user",
            "-drive",
            "driver=raw,if=virtio,file=/volume-root/image,cache=none,media=disk,index=0",
            "-drive",
            "driver=raw,if=virtio,file=/volume-root/test,cache=none,media=disk,index=1"
        ]),
    );
}

#[test]
fn reserved_vm_volume_names() {
    let bad = CompiledPackage {
        title: title("vm", "0.0.1"),
        source: CompiledSource::URL("https://example.com/image.img".to_string()),
        storage: CompiledStorage {
            volumes: vec![volume("image", None)],
        },
        ..Default::default()
    };
    assert!(generate_command(&bad, "/volume-root").is_err());

    let bad2 = CompiledPackage {
        title: title("vm", "0.0.1"),
        source: CompiledSource::URL("https://example.com/image.img".to_string()),
        storage: CompiledStorage {
            volumes: vec![volume("qemu-monitor", None)],
        },
        ..Default::default()
    };
    assert!(generate_command(&bad2, "/volume-root").is_err());
}

#[test]
fn stop_actions() {
    let container = CompiledPackage {
        title: title("podman-test", "0.0.1"),
        ..Default::default()
    };
    match stop_package(&container, "/volume-root") {
        StopAction::Container(argv) => {
            assert_eq!(argv, string_vec(vec!["podman", "rm", "-f", "podman-test-0.0.1"]));
        }
        StopAction::Vm(_) => panic!("a container stops through the runtime"),
    }

    let vm = CompiledPackage {
        title: title("plex-qemu", "0.0.1"),
        source: CompiledSource::URL("https://example.com/image.img".to_string()),
        ..Default::default()
    };
    match stop_package(&vm, "/volume-root") {
        StopAction::Vm(plan) => {
            assert_eq!(plan.socket, "/volume-root/qemu-monitor");
            assert_eq!(
                plan.commands,
                string_vec(vec![
                    "{\"execute\":\"qmp_capabilities\"}",
                    "{\"execute\":\"system_powerdown\"}"
                ])
            );
        }
        StopAction::Container(_) => panic!("a VM stops over its control socket"),
    }

    let ping = vm_ping(&vm, "/volume-root");
    assert_eq!(ping.commands, string_vec(vec!["{\"execute\":\"qmp_capabilities\"}"]));
    let down = vm_shutdown(&vm, "/volume-root");
    assert_eq!(down.commands.last().unwrap(), "{\"execute\":\"system_powerdown\"}");
    let quit = vm_quit(&vm, "/volume-root");
    assert_eq!(quit.commands.last().unwrap(), "{\"execute\":\"quit\"}");
}

// A source package whose templates fill in the container fields launches
// with the expanded values.
#[test]
fn launch_after_compile() {
    let package = SourcePackage {
        title: title("podman-test", "0.0.1"),
        source: Source::Container(TemplatedInput::new("docker://@distro@")),
        ..Default::default()
    };
    let globals = trunk_core::globals::Global {
        name: "podman-test".into(),
        variables: vec![("distro".to_string(), "debian".to_string())],
    };
    let compiled = package.compile(&globals, &Default::default()).unwrap();
    let argv = generate_command(&compiled, "/volume-root").unwrap();
    assert_eq!(argv.last().unwrap(), "docker://debian");
}

#[test]
fn qmp_response_classification() {
    assert!(qmp_response_ok(true, false));
    assert!(!qmp_response_ok(false, true));
    assert!(!qmp_response_ok(true, true));
    assert!(!qmp_response_ok(false, false));
}
