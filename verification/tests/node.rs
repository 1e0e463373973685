use depscan::project::node::{NodeProject, PackageJson};
use depscan::project::ScanError;

#[test]
fn constructors() {
    let project = NodeProject::default();
    assert_eq!(
        project.allowed_extensions,
        vec![
            String::from("js"),
            String::from("jsx"),
            String::from("ts"),
            String::from("tsx")
        ]
    );
    let project = NodeProject::new(vec![String::from("foo")]);
    assert_eq!(project.allowed_extensions, vec![String::from("foo")]);
}

#[test]
fn is_deps_importer() {
    let project = NodeProject::default();
    assert_eq!(project.is_deps_importer("foo.js"), true);
    assert_eq!(project.is_deps_importer("foo.ts"), true);
    assert_eq!(project.is_deps_importer("foo.tsx"), true);
    assert_eq!(project.is_deps_importer("foo.jsx"), true);
    assert_eq!(project.is_deps_importer("foo.rs"), false);
    assert_eq!(project.is_deps_importer("foo.jssx"), false);

    // Making a project to only test .js files
    let project = NodeProject::new(vec![String::from("js")]);
    assert_eq!(project.is_deps_importer("foo.js"), true);
    assert_eq!(project.is_deps_importer("foo.ts"), false);
    assert_eq!(project.is_deps_importer("foo.jsx"), false);
}

#[test]
fn get_deps_names() {
    let project = NodeProject::default();
    let package_json = PackageJson {
        dependencies: vec![
            (String::from("foo"), String::from("0.1.0")),
            (String::from("bar"), String::from("0.1.0")),
        ],
    };

    assert_eq!(project.get_deps_names(package_json), vec!["bar", "foo"]);
}

#[test]
fn parse_deps() {
    let mut project = NodeProject::default();

    let file_content = "{
    \"name\": \"foo\",
    \"dependencies\": {
        \"foo\": \"0.1.0\",
        \"bar\": \"0.1.0\",
        \"bazz\": \"0.1.0\"
    },
    \"devDependencies\": {
        \"dev-foo\": \"0.1.0\",
        \"dev-bar\": \"0.1.0\",
        \"dev-bazz\": \"0.1.0\"
    }
    }";

    assert_eq!(project.parse_deps(file_content), Ok(3));
    assert_eq!(project.deps.len(), 3);
    assert_eq!(project.deps, vec!["bar", "bazz", "foo"]);
}

#[test]
fn parse_deps_rejects_malformed_text() {
    let mut project = NodeProject::default();
    assert_eq!(
        project.parse_deps("this is not json"),
        Err(ScanError::ManifestParse)
    );
    assert_eq!(project.deps.len(), 0);
}
