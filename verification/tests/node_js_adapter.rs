use depscan::project::node_js::{
    get_deps_names, is_used_in_package_scripts, NodePackagesHandler, NodeProject,
};
use depscan::project::{Project, ScanError};

#[test]
fn node_js_get_deps_names_works() {
    let packages_handler = NodePackagesHandler {
        dependencies: vec![
            (String::from("foo"), String::from("0.1.0")),
            (String::from("bar"), String::from("0.1.0")),
            (String::from("@types/foo"), String::from("0.1.0")),
        ],
        scripts: vec![],
    };

    assert_eq!(get_deps_names(packages_handler), vec!["bar", "foo"]);
}

#[test]
fn node_js_parse_deps_works() {
    let mut project = NodeProject::new();

    let file_content = "{
    \"name\": \"foo\",
    \"dependencies\": {
        \"foo\": \"0.1.0\",
        \"bar\": \"0.1.0\",
        \"bazz\": \"0.1.0\"
    },
    \"devDependencies\": {
        \"dev-foo\": \"0.1.0\",
        \"dev-bar\": \"0.1.0\",
        \"dev-bazz\": \"0.1.0\"
    },
    \"scripts\": {
        \"foo\": \"quix\"
    }
    }";

    assert_eq!(project.parse_deps(file_content), Ok(3));
    assert_eq!(project.deps().len(), 3);
    assert_eq!(*project.deps(), vec!["bar", "bazz", "foo"]);
}

#[test]
fn guess_if_package_scripts_use_deps() {
    let packages_handler = NodePackagesHandler {
        dependencies: vec![],
        scripts: vec![(String::from("foo"), String::from("foo bar baz"))],
    };

    assert_eq!(is_used_in_package_scripts(&packages_handler, "bar"), true);
    assert_eq!(is_used_in_package_scripts(&packages_handler, "qux"), false);
}

#[test]
fn node_js_absent_sections_mean_no_dependencies() {
    let mut project = NodeProject::new();
    assert_eq!(project.parse_deps("{ \"name\": \"foo\" }"), Ok(0));
    assert_eq!(project.deps().len(), 0);
}

#[test]
fn node_js_rejects_non_object_manifest() {
    let mut project = NodeProject::new();
    assert_eq!(project.parse_deps("[1, 2]"), Err(ScanError::ManifestParse));
    assert_eq!(
        project.parse_deps("not json at all"),
        Err(ScanError::ManifestParse)
    );
}

#[test]
fn node_js_rejects_non_string_dependency_versions() {
    let mut project = NodeProject::new();
    assert_eq!(
        project.parse_deps("{ \"dependencies\": { \"foo\": 1 } }"),
        Err(ScanError::ManifestParse)
    );
    assert_eq!(
        project.parse_deps("{ \"dependencies\": [\"foo\"] }"),
        Err(ScanError::ManifestParse)
    );
}
