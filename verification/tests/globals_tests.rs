use trunk_core::globals::{Global, GlobalRegistry, Variables};

fn variables() -> Variables {
    vec![
        ("foo".to_string(), "bar".to_string()),
        ("baz".to_string(), "quux".to_string()),
    ]
}

#[test]
fn sort() {
    let mut table = vec![
        Global {
            name: "test".into(),
            variables: Default::default(),
        },
        Global {
            name: "first".into(),
            variables: Default::default(),
        },
    ];

    table.sort();

    let mut i = table.iter();
    assert_eq!(i.next().unwrap().name, "first");
    assert_eq!(i.next().unwrap().name, "test");
}

#[test]
fn globals_io() {
    let table = &[Global {
        name: "test".into(),
        variables: variables(),
    }];

    let mut registry = GlobalRegistry::new("/tmp/trunk-test-registry".to_string());

    for item in table {
        for (key, value) in &variables() {
            assert_eq!(item.var(key).unwrap(), *value);
        }
        assert_eq!(item.var("unset"), None);
        registry.set(item.duplicate());
        assert_eq!(*registry.get(&item.name).unwrap(), item.clone());
    }
}

#[test]
fn template() {
    let global = Global {
        name: "test".into(),
        variables: variables(),
    };

    assert!(global.template("@nonexistent@").is_err());
    assert_eq!(global.template("@foo@").unwrap(), "bar");
    assert_eq!(global.template("@foo@ @baz@").unwrap(), "bar quux");

    assert!(global.template("@foo").is_ok());
    assert_eq!(global.template("@foo").unwrap(), "@foo");
    assert!(global.template("@").is_ok());
    assert_eq!(global.template("@").unwrap(), "@");
    assert!(global.template("@@").is_ok());
    assert_eq!(global.template("@@").unwrap(), "@");
    assert_eq!(
        global.template("bgates@microsoft.com").unwrap(),
        "bgates@microsoft.com"
    );
    assert_eq!(
        global.template("bgates@@microsoft.com").unwrap(),
        "bgates@microsoft.com"
    );
}

#[test]
fn registry_remove_globals() {
    let mut registry = GlobalRegistry::new("/tmp/trunk-test-registry".to_string());
    registry.set(Global {
        name: "one".into(),
        variables: variables(),
    });
    registry.set(Global {
        name: "two".into(),
        variables: Default::default(),
    });
    assert!(registry.get("one").is_ok());
    registry.remove("one");
    assert!(registry.get("one").is_err());
    assert!(registry.get("two").is_ok());
}
