use analyzer::manifest::{resolve_target, ConfigError, Manifest, PackageTarget, TargetSection};

fn manifest(lib: Option<TargetSection>, bin: Option<TargetSection>) -> Manifest {
    Manifest {
        package_name: "my-package".to_string(),
        package_version: "1.2.3".to_string(),
        lib,
        bin,
    }
}

fn section(name: Option<&str>, path: Option<&str>) -> TargetSection {
    TargetSection { name: name.map(|s| s.to_string()), path: path.map(|s| s.to_string()) }
}

#[test]
fn library_with_defaults() {
    let t = resolve_target(&manifest(Some(section(None, None)), None)).unwrap();
    assert_eq!(
        t,
        PackageTarget {
            crate_name: "my-package".to_string(),
            version: "1.2.3".to_string(),
            entry: "src/lib.rs".to_string(),
        }
    );
}

#[test]
fn library_with_name_and_path() {
    let t = resolve_target(&manifest(Some(section(Some("my_crate"), Some("lib/root.rs"))), None))
        .unwrap();
    assert_eq!(t.crate_name, "my_crate");
    assert_eq!(t.entry, "lib/root.rs");
}

#[test]
fn binary_with_defaults() {
    let t = resolve_target(&manifest(None, Some(section(None, None)))).unwrap();
    assert_eq!(t.crate_name, "my-package");
    assert_eq!(t.entry, "src/main.rs");
}

#[test]
fn both_targets_are_refused() {
    let r = resolve_target(&manifest(Some(section(None, None)), Some(section(None, None))));
    assert_eq!(r, Err(ConfigError::BothLibAndBin));
}

#[test]
fn no_target_is_refused() {
    assert_eq!(resolve_target(&manifest(None, None)), Err(ConfigError::NoLibOrBin));
}

#[test]
fn entry_location_and_crate_record() {
    let t = resolve_target(&manifest(Some(section(Some("my_crate"), None)), None)).unwrap();
    let dir = vec!["".to_string(), "home".to_string(), "pkg".to_string()];
    assert_eq!(
        t.entry_location(&dir),
        vec!["".to_string(), "home".to_string(), "pkg".to_string(), "src".to_string(), "lib.rs".to_string()]
    );
    let c = t.to_crate();
    assert_eq!(c.name, "my_crate");
    assert_eq!(c.version, "1.2.3");
    assert_eq!(c.docstring, "");
    assert_eq!(c.path(), vec!["my_crate".to_string()]);
    assert_eq!(c.path_str(), "my_crate");
}
