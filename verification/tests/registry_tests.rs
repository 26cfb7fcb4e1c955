use trunk_core::package::{PackageTitle, SourcePackage};
use trunk_core::registry::Registry;

fn pkg(name: &str, version: &str, description: &str) -> SourcePackage {
    SourcePackage {
        title: PackageTitle {
            name: name.to_string(),
            version: version.to_string(),
        },
        description: description.to_string(),
        ..Default::default()
    }
}

// Writing a package and loading it back yields an equal value.
#[test]
fn write_load_round_trip() {
    let mut registry = Registry::new("/trunk/charon/registry".to_string());
    let original = pkg("plex", "0.0.1", "media server");
    registry.write(original.clone());
    assert_eq!(*registry.load("plex", "0.0.1").unwrap(), original);

    // a second write of the same key replaces the record
    let replacement = pkg("plex", "0.0.1", "media server, rebuilt");
    registry.write(replacement.clone());
    assert_eq!(*registry.load("plex", "0.0.1").unwrap(), replacement);
}

// While a write is in progress, readers still see the prior committed
// value; the rename makes the new value visible all at once.
#[test]
fn atomic_write_visibility() {
    let mut registry = Registry::new("/trunk/charon/registry".to_string());
    let old_value = pkg("plex", "0.0.1", "before");
    registry.write(old_value.clone());

    let new_value = pkg("plex", "0.0.1", "after");
    registry.begin_write(new_value.clone());
    // the temporary sibling is never observed by readers
    assert_eq!(*registry.load("plex", "0.0.1").unwrap(), old_value);

    registry.commit_write();
    assert_eq!(*registry.load("plex", "0.0.1").unwrap(), new_value);
}

#[test]
fn remove_drops_every_version() {
    let mut registry = Registry::new("/trunk/charon/registry".to_string());
    registry.write(pkg("plex", "0.0.1", ""));
    registry.write(pkg("plex", "0.0.2", ""));
    registry.write(pkg("other", "0.0.1", ""));
    registry.remove("plex");
    assert!(registry.load("plex", "0.0.1").is_err());
    assert!(registry.load("plex", "0.0.2").is_err());
    assert!(registry.load("other", "0.0.1").is_ok());
}

// Listing is sorted by name ascending, then version descending, and
// carries the installed flag of each entry.
#[test]
fn list_sorted_with_flags() {
    let mut registry = Registry::new("/trunk/charon/registry".to_string());
    registry.write(pkg("plex", "0.0.1", ""));
    registry.write(pkg("plex", "0.0.2", ""));
    registry.write(pkg("alpha", "1.0.0", ""));
    registry
        .mark_installed(&PackageTitle {
            name: "plex".to_string(),
            version: "0.0.1".to_string(),
        })
        .unwrap();

    let list = registry.list();
    assert_eq!(list.len(), 3);
    assert_eq!(list[0].title.name, "alpha");
    assert_eq!(list[0].title.version, "1.0.0");
    assert!(!list[0].installed);
    assert_eq!(list[1].title.name, "plex");
    assert_eq!(list[1].title.version, "0.0.2");
    assert!(!list[1].installed);
    assert_eq!(list[2].title.name, "plex");
    assert_eq!(list[2].title.version, "0.0.1");
    assert!(list[2].installed);
}

// The installed marker is created exclusively and removed exactly once.
#[test]
fn installed_markers() {
    let mut registry = Registry::new("/trunk/charon/registry".to_string());
    let t = PackageTitle {
        name: "plex".to_string(),
        version: "0.0.1".to_string(),
    };
    assert!(!registry.is_installed("plex", "0.0.1"));
    assert!(registry.mark_installed(&t).is_ok());
    assert!(registry.is_installed("plex", "0.0.1"));
    // the exclusive create fails when the marker exists
    assert!(registry.mark_installed(&t).is_err());
    assert_eq!(registry.installed().len(), 1);
    assert!(registry.unmark_installed(&t).is_ok());
    assert!(!registry.is_installed("plex", "0.0.1"));
    assert!(registry.unmark_installed(&t).is_err());
}
