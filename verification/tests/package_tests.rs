use trunk_core::globals::Global;
use trunk_core::input::TemplatedInput;
use trunk_core::package::{Resources, Source};
use trunk_core::package::{CompiledPackage, PackageTitle, SourcePackage};
use trunk_core::registry::{Registry, StoredPackage};

fn title(name: &str, version: &str) -> PackageTitle {
    PackageTitle {
        name: name.to_string(),
        version: version.to_string(),
    }
}

fn pkg(name: &str, version: &str, deps: Vec<(&str, &str)>) -> SourcePackage {
    SourcePackage {
        title: title(name, version),
        dependencies: if deps.is_empty() {
            None
        } else {
            Some(deps.iter().map(|(n, v)| title(n, v)).collect())
        },
        ..Default::default()
    }
}

fn set_globals(registry: &mut Registry, name: &str) {
    registry.globals.set(Global {
        name: name.to_string(),
        variables: vec![
            ("foo".to_string(), "bar".to_string()),
            ("baz".to_string(), "quux".to_string()),
        ],
    });
}

fn test_registry() -> Registry {
    let mut registry = Registry::new("testdata/registry".to_string());
    registry.write(pkg("plex", "0.0.1", vec![]));
    registry.write(pkg("plex", "0.0.2", vec![]));
    set_globals(&mut registry, "plex");

    registry.write(pkg("no-variables", "0.0.1", vec![]));

    registry.write(pkg("with-dependencies", "0.0.1", vec![("plex", "0.0.2")]));
    set_globals(&mut registry, "with-dependencies");

    // depends on a non-existent version of plex
    registry.write(pkg("bad-dependencies", "0.0.1", vec![("plex", "0.0.3")]));
    // depends on a non-existent package
    registry.write(pkg("bad-dependencies", "0.0.2", vec![("nonexistent", "0.0.1")]));
    // depends on a bad package
    registry.write(pkg("bad-dependencies", "0.0.3", vec![("no-variables", "0.0.1")]));
    set_globals(&mut registry, "bad-dependencies");

    // stored under one key, but the content claims another title
    registry.packages.push(StoredPackage {
        name: "bad-name-version".to_string(),
        version: "0.0.1".to_string(),
        package: pkg("wrong-name", "0.0.1", vec![]),
    });
    registry.packages.push(StoredPackage {
        name: "bad-name-version".to_string(),
        version: "0.0.2".to_string(),
        package: pkg("bad-name-version", "0.0.9", vec![]),
    });
    set_globals(&mut registry, "bad-name-version");

    registry
}

#[test]
fn dependencies() {
    let registry = test_registry();
    let binding = test_registry();
    let pkg = binding.load("with-dependencies", "0.0.1").unwrap();
    let plex = registry.load("plex", "0.0.2").unwrap();
    let deps = pkg.dependencies(&binding).unwrap();

    assert_eq!(deps.len(), 1);
    assert_eq!(*deps[0], *plex);
}

#[test]
fn validate() {
    let registry = test_registry();
    assert!(registry.validate("plex", "0.0.1").is_ok());
    assert!(registry.validate("plex", "0.0.2").is_ok());

    // doesn't exist
    assert!(registry.validate("plex", "0.0.3").is_err());
    // doesn't have a variables record
    assert!(registry.validate("no-variables", "0.0.1").is_err());

    assert!(registry.validate("with-dependencies", "0.0.1").is_ok());

    // depends on a non-existent version of plex
    assert!(registry.validate("bad-dependencies", "0.0.1").is_err());
    // depends on non-existent package
    assert!(registry.validate("bad-dependencies", "0.0.2").is_err());
    // depends on a bad package
    assert!(registry.validate("bad-dependencies", "0.0.3").is_err());
    // invalid name, valid version
    assert!(registry.validate("bad-name-version", "0.0.1").is_err());
    // invalid version, valid name
    assert!(registry.validate("bad-name-version", "0.0.2").is_err());
}

#[test]
fn package_io() {
    let table = &[SourcePackage {
        title: title("plex", "1.2.3"),
        ..Default::default()
    }];

    let mut pr = Registry::new("testdata/registry".to_string());

    for item in table {
        pr.write(item.clone());
        let cmp = pr.load(&item.title.name, &item.title.version).unwrap();
        assert_eq!(item.clone(), *cmp);
    }
}

#[test]
fn globals() {
    let mut pr = Registry::new("testdata/registry".to_string());
    let packages = &[SourcePackage {
        title: title("plex", "1.2.3"),
        ..Default::default()
    }];

    for item in packages {
        pr.write(item.clone());
    }

    let globals = &[Global {
        name: "plex".into(),
        variables: vec![
            ("foo".to_string(), "bar".to_string()),
            ("baz".to_string(), "quux".to_string()),
        ],
    }];

    for item in globals {
        pr.globals.set(item.duplicate());
    }

    assert_eq!(*pr.globals(&packages[0]).unwrap(), globals[0]);
}

#[test]
fn compile() {
    let package = SourcePackage {
        title: title("plex", "1.2.3"),
        ..Default::default()
    };

    let globals = Global {
        name: "plex".into(),
        variables: vec![
            ("foo".to_string(), "bar".to_string()),
            ("baz".to_string(), "quux".to_string()),
        ],
    };

    let out = package.compile(&globals, &Default::default()).unwrap();
    assert_eq!(
        out,
        CompiledPackage {
            title: title("plex", "1.2.3"),
            ..Default::default()
        }
    );
}

#[test]
fn compile_expands_fields() {

    let package = SourcePackage {
        title: title("svc", "1.0.0"),
        source: Source::Container(TemplatedInput::new("docker://@image@")),
        resources: Some(Resources {
            cpus: TemplatedInput::new("?cpus?"),
            memory: TemplatedInput::new("4096"),
        }),
        ..Default::default()
    };

    let globals = Global {
        name: "svc".into(),
        variables: vec![("image".to_string(), "debian".to_string())],
    };
    let responses = trunk_core::prompt::PromptResponses(vec![trunk_core::prompt::PromptResponse {
        template: "cpus".into(),
        input: trunk_core::input::Input::Integer(8),
    }]);

    let out = package.compile(&globals, &responses).unwrap();
    assert_eq!(
        out.source,
        trunk_core::package::CompiledSource::Container("docker://debian".to_string())
    );
    assert_eq!(out.resources.cpus, 8);
    assert_eq!(out.resources.memory, 4096);

    // a key with no match fails the whole compilation
    let broken = SourcePackage {
        title: title("svc", "1.0.0"),
        source: Source::Container(TemplatedInput::new("docker://@missing@")),
        ..Default::default()
    };
    assert!(broken.compile(&globals, &responses).is_err());

    // a field that does not coerce fails too
    let uncoercible = SourcePackage {
        title: title("svc", "1.0.0"),
        resources: Some(Resources {
            cpus: TemplatedInput::new("not-a-number"),
            memory: TemplatedInput::new("0"),
        }),
        ..Default::default()
    };
    assert!(uncoercible.compile(&globals, &responses).is_err());
}
