use depscan::project::node_js::NodeProject;
use depscan::project::rust::RustProject;
use depscan::project::{should_scan_file, ScanEngine, ScanError};

fn node_engine(manifest: &str) -> ScanEngine<NodeProject> {
    ScanEngine::new(NodeProject::new(), Ok(String::from(manifest))).unwrap()
}

#[test]
fn script_referenced_dependency_is_exempt() {
    // `bazz` appears in a script body, so it is exempted; `foo` and `bar`
    // remain candidates.
    let manifest = "{
    \"dependencies\": { \"foo\": \"1\", \"bar\": \"1\", \"bazz\": \"1\" },
    \"scripts\": { \"build\": \"bazz --watch\" }
    }";
    let engine = node_engine(manifest);
    assert_eq!(engine.declared_count(), 2);
    let result = engine.finish(0);
    assert_eq!(result.declared_count, 2);
    assert_eq!(result.unused_deps, vec!["bar", "foo"]);
}

#[test]
fn ambient_types_dependency_is_exempt() {
    let manifest = "{ \"dependencies\": { \"@types/foo\": \"1\", \"foo\": \"1\" } }";
    let engine = node_engine(manifest);
    assert_eq!(engine.declared_count(), 1);
    assert_eq!(engine.finish(0).unused_deps, vec!["foo"]);
}

#[test]
fn one_file_scan_reports_the_unseen_name() {
    let manifest = "{ \"dependencies\": { \"foo\": \"1\", \"bar\": \"1\" } }";
    let mut engine = node_engine(manifest);
    assert!(should_scan_file::<NodeProject>("index.js"));
    let found = engine.search_file("index.js", "import foo from 'foo'");
    assert_eq!(found, vec!["foo"]);
    let result = engine.finish(0);
    assert_eq!(result.scanned_file_count, 1);
    assert_eq!(result.unused_deps, vec!["bar"]);
}

#[test]
fn unreadable_manifest_aborts_before_any_file() {
    let r = ScanEngine::new(
        NodeProject::new(),
        Err(String::from("permission denied")),
    );
    match r {
        Err(ScanError::ManifestRead(msg)) => assert_eq!(msg, "permission denied"),
        _ => panic!("expected a manifest read failure"),
    }
}

#[test]
fn malformed_manifest_aborts_the_scan() {
    let r = ScanEngine::new(NodeProject::new(), Ok(String::from("not json")));
    match r {
        Err(e) => assert_eq!(e, ScanError::ManifestParse),
        Ok(_) => panic!("expected a manifest parse failure"),
    }
}

#[test]
fn empty_dependency_section_scans_to_empty_unused_set() {
    // With nothing declared, nothing can be unused, whatever is searched.
    let manifest = "{ \"dependencies\": {} }";
    let mut engine = node_engine(manifest);
    assert_eq!(engine.declared_count(), 0);
    engine.search_file("a.js", "some text");
    engine.search_file("b.js", "other text");
    let result = engine.finish(7);
    assert_eq!(result.declared_count, 0);
    assert_eq!(result.scanned_file_count, 2);
    assert_eq!(result.unused_deps, Vec::<String>::new());
    assert_eq!(result.elapsed_ms, 7);
}

#[test]
fn rust_engine_scans_sources() {
    let manifest = "[dependencies]\nfoo = \"2.1.0\"\nbar = { version = \"1.0.215\" }";
    let mut engine: ScanEngine<RustProject> =
        ScanEngine::new(RustProject::new(), Ok(String::from(manifest))).unwrap();
    assert_eq!(engine.declared_count(), 2);
    assert!(should_scan_file::<RustProject>("src/main.rs"));
    engine.search_file("src/main.rs", "use bar::prelude;");
    assert_eq!(engine.unused_count(), 1);
    let result = engine.finish(0);
    assert_eq!(result.unused_deps, vec!["foo"]);
}

#[test]
fn scanning_twice_gives_the_same_unused_set() {
    let manifest = "{ \"dependencies\": { \"foo\": \"1\", \"bar\": \"1\", \"baz\": \"1\" } }";
    let files = [("a.js", "let x = foo();"), ("b.js", "bar and more")];
    let mut results = Vec::new();
    for _ in 0..2 {
        let mut engine = node_engine(manifest);
        for (path, content) in files.iter() {
            if should_scan_file::<NodeProject>(path) {
                engine.search_file(path, content);
            }
        }
        results.push(engine.finish(0).unused_deps);
    }
    assert_eq!(results[0], vec!["baz"]);
    assert_eq!(results[0], results[1]);
}

#[test]
fn excluded_files_are_never_counted() {
    // The driving loop asks the policy first, so a file inside an
    // excluded directory never reaches the engine, whatever its
    // extension.
    let manifest = "{ \"dependencies\": { \"foo\": \"1\" } }";
    let mut engine = node_engine(manifest);
    let entries = [
        ("app.js", "nothing of note"),
        ("node_modules/foo/index.js", "foo everywhere"),
    ];
    for (path, content) in entries.iter() {
        if should_scan_file::<NodeProject>(path) {
            engine.search_file(path, content);
        }
    }
    let result = engine.finish(0);
    assert_eq!(result.scanned_file_count, 1);
    assert_eq!(result.unused_deps, vec!["foo"]);
}

#[test]
fn substring_names_are_satisfied_by_longer_names() {
    // `react` inside `react-dom` counts as seeing `react`: the matcher is
    // textual on purpose.
    let manifest = "{ \"dependencies\": { \"react\": \"1\", \"react-dom\": \"1\" } }";
    let mut engine = node_engine(manifest);
    engine.search_file("a.js", "import ReactDOM from 'react-dom';");
    let result = engine.finish(0);
    assert_eq!(result.unused_deps, Vec::<String>::new());
}

#[test]
fn already_found_names_are_not_reported_again() {
    let manifest = "{ \"dependencies\": { \"foo\": \"1\", \"bar\": \"1\" } }";
    let mut engine = node_engine(manifest);
    assert_eq!(engine.search_file("a.js", "foo"), vec!["foo"]);
    assert_eq!(engine.search_file("b.js", "foo bar"), vec!["bar"]);
    assert_eq!(engine.scanned_file_count(), 2);
    assert_eq!(engine.unused_count(), 0);
}
