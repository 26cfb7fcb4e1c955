use trunk_core::package::{CompiledPackage, PackageTitle};
use trunk_core::unit::{SystemdServiceUnit, SystemdUnit};

fn test_unit() -> SystemdServiceUnit {
    let mut unit = SystemdServiceUnit {
        name: "test-unit".into(),
        ..Default::default()
    };
    unit.add_section(
        "Unit".into(),
        vec![
            ("Name".into(), "test-unit.service".into()),
            ("Description".into(), "a test service".into()),
        ],
    );
    unit.add_section(
        "Install".into(),
        vec![
            ("Alias".into(), "also-a-test-unit.service".into()),
            ("WantedBy".into(), "default.target".into()),
        ],
    );
    unit.add_section(
        "Service".into(),
        vec![
            ("Exec".into(), "/usr/games/fortune".into()),
            ("KillMode".into(), "pid".into()),
            ("Restart".into(), "always".into()),
        ],
    );
    unit
}

#[test]
fn systemd_unit_generate() {
    let unit = test_unit();
    assert_eq!(
        unit.generate().unwrap().trim(),
        r#"
[Install]
Alias=also-a-test-unit.service
WantedBy=default.target

[Service]
Exec=/usr/games/fortune
KillMode=pid
Restart=always

[Unit]
Description=a test service
Name=test-unit.service
      "#
        .trim(),
    )
}

#[test]
fn utils_systemd_unit_generate() {
    let unit = test_unit();
    assert_eq!(
        unit.generate().unwrap().trim(),
        r#"
[Install]
Alias=also-a-test-unit.service
WantedBy=default.target

[Service]
Exec=/usr/games/fortune
KillMode=pid
Restart=always

[Unit]
Description=a test service
Name=test-unit.service
      "#
        .trim(),
    )
}

#[test]
fn replacing_a_section() {
    let mut unit = SystemdServiceUnit {
        name: "test-unit".into(),
        ..Default::default()
    };
    unit.add_section("Unit".into(), vec![("Name".into(), "old".into())]);
    unit.add_section("Unit".into(), vec![("Name".into(), "new".into())]);
    assert_eq!(unit.generate().unwrap(), "[Unit]\nName=new\n\n");
}

fn podman_test_unit() -> SystemdUnit {
    let package = CompiledPackage {
        title: PackageTitle {
            name: "podman-test".into(),
            version: "0.0.2".into(),
        },
        ..Default::default()
    };
    SystemdUnit::new(
        "/run/buckle.sock".to_string(),
        package,
        Some("/etc/systemd/system".to_string()),
        Some("/usr/bin/charon".to_string()),
    )
}

#[test]
fn unit_names() {
    let unit = podman_test_unit();
    assert_eq!(unit.filename(), "/etc/systemd/system/podman-test-0.0.2.service");
    assert_eq!(unit.service_name(), "podman-test-0.0.2.service");
}

#[test]
fn unit_contents() {
    let unit = podman_test_unit();
    let text = unit.unit("testdata/registry", "/tmp/volroot");
    assert_eq!(
        text,
        r#"
[Unit]
Description=Charon launcher for podman-test, version 0.0.2

[Service]
ExecStart=/usr/bin/charon -b /run/buckle.sock -r testdata/registry launch podman-test 0.0.2 /tmp/volroot
ExecStop=/usr/bin/charon -b /run/buckle.sock -r testdata/registry stop podman-test 0.0.2 /tmp/volroot
Restart=always
TimeoutSec=300

[Install]
Alias=podman-test-0.0.2.service
"#,
    );
}
