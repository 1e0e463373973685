use depscan::project::node_js::NodeProject;
use depscan::project::rust::RustProject;
use depscan::project::should_scan_file;

#[test]
fn node_js_should_scan_file() {
    assert_eq!(should_scan_file::<NodeProject>("foo.js"), true);
    assert_eq!(should_scan_file::<NodeProject>("foo.ts"), true);
    assert_eq!(should_scan_file::<NodeProject>("foo.tsx"), true);
    assert_eq!(should_scan_file::<NodeProject>("foo.jsx"), true);
    assert_eq!(should_scan_file::<NodeProject>("foo.json"), true);
    assert_eq!(should_scan_file::<NodeProject>("foo.scss"), true);
    assert_eq!(should_scan_file::<NodeProject>("foo.sass"), true);
    assert_eq!(should_scan_file::<NodeProject>("foo.rs"), false);
    assert_eq!(should_scan_file::<NodeProject>("foo.jssx"), false);
    assert_eq!(should_scan_file::<NodeProject>("package.json"), false);
    assert_eq!(
        should_scan_file::<NodeProject>("foo/node_modules/foo.ts"),
        false
    );
}

#[test]
fn rust_should_scan_file() {
    assert_eq!(should_scan_file::<RustProject>("foo.rs"), true);
    assert_eq!(should_scan_file::<RustProject>("foo.rss"), false);
    assert_eq!(should_scan_file::<RustProject>("foo.js"), false);
    assert_eq!(should_scan_file::<RustProject>("Cargo.toml"), false);
    assert_eq!(should_scan_file::<RustProject>("Cargo.lock"), false);
    assert_eq!(should_scan_file::<RustProject>("foo.toml"), false);
}

#[test]
fn root_path_is_always_accepted() {
    assert_eq!(should_scan_file::<NodeProject>("."), true);
    assert_eq!(should_scan_file::<RustProject>("."), true);
}
