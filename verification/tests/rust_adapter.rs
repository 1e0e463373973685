use depscan::project::rust::{get_deps_names, RustPackagesHandler, RustProject};
use depscan::project::{Project, ScanError};

#[test]
fn rust_get_deps_names_works() {
    let packages_handler = RustPackagesHandler {
        dependencies: vec![String::from("foo"), String::from("bar")],
    };

    assert_eq!(get_deps_names(packages_handler), vec!["bar", "foo"]);
}

#[test]
fn rust_parse_deps_works() {
    let mut project = RustProject::new();

    let file_content = "[dependencies]
        foo = \"2.1.0\"
        bar = { version = \"1.0.215\", features = [\"derive\"] }";

    assert_eq!(project.parse_deps(file_content), Ok(2));
    assert_eq!(project.deps().len(), 2);
    assert_eq!(*project.deps(), vec!["bar", "foo"]);
}

#[test]
fn rust_absent_table_means_no_dependencies() {
    let mut project = RustProject::new();
    assert_eq!(project.parse_deps("[package]\nname = \"foo\"\n"), Ok(0));
    assert_eq!(project.deps().len(), 0);
}

#[test]
fn rust_rejects_malformed_text() {
    let mut project = RustProject::new();
    assert_eq!(
        project.parse_deps("this = is = not = toml"),
        Err(ScanError::ManifestParse)
    );
    assert_eq!(
        project.parse_deps("dependencies = 3"),
        Err(ScanError::ManifestParse)
    );
}
