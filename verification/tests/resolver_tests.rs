use lsp_gateway::fsio::{MemFs, FileSystem};
use lsp_gateway::resolver::{find_project_root, is_project_root, marker_files, RootError};
use lsp_gateway::detect::{detect_language_from_file_extension, ext_language};
use lsp_gateway::paths::{parent_dir, join_path, uri_to_path, path_to_uri};

fn project_fs() -> MemFs {
    let mut fs = MemFs::new();
    fs.add_dir("/".to_string());
    fs.add_dir("/home".to_string());
    fs.add_dir("/home/dev".to_string());
    fs.add_dir("/home/dev/proj".to_string());
    fs.add_dir("/home/dev/proj/src".to_string());
    fs.add_file("/home/dev/proj/Cargo.toml".to_string());
    fs.add_file("/home/dev/proj/src/main.rs".to_string());
    fs
}

#[test]
fn root_found_in_ancestor_directory() {
    let fs = project_fs();
    let root = find_project_root(&fs, "rust", "/home/dev/proj/src/main.rs").expect("root");
    assert_eq!(root, "/home/dev/proj".to_string());
}

#[test]
fn root_for_directory_path_is_itself_when_marked() {
    let fs = project_fs();
    let root = find_project_root(&fs, "rust", "/home/dev/proj").expect("root");
    assert_eq!(root, "/home/dev/proj".to_string());
}

#[test]
fn resolution_is_case_insensitive_on_language() {
    let fs = project_fs();
    let root = find_project_root(&fs, "RuSt", "/home/dev/proj/src/main.rs").expect("root");
    assert_eq!(root, "/home/dev/proj".to_string());
}

#[test]
fn missing_path_fails_with_path_not_found() {
    let fs = project_fs();
    let r = find_project_root(&fs, "rust", "/no/such/path.rs");
    assert_eq!(r, Err(RootError::PathNotFound));
}

#[test]
fn unmarked_tree_falls_back_to_starting_directory() {
    let mut fs = MemFs::new();
    fs.add_dir("/a".to_string());
    fs.add_dir("/a/b".to_string());
    fs.add_file("/a/b/x.py".to_string());
    let root = find_project_root(&fs, "python", "/a/b/x.py").expect("root");
    assert_eq!(root, "/a/b".to_string());
}

#[test]
fn walk_is_bounded_to_ten_directories() {
    // A marker thirteen levels up is out of the walk's reach: the
    // starting directory itself plus nine ancestors are examined.
    let mut fs = MemFs::new();
    let mut path = String::new();
    for i in 0..13 {
        path.push_str(&format!("/d{}", i));
        fs.add_dir(path.clone());
    }
    fs.add_file("/d0/Cargo.toml".to_string());
    let start = path.clone();
    let root = find_project_root(&fs, "rust", &start).expect("root");
    assert_eq!(root, start);
    // Within reach it is found.
    let near = "/d0/d1/d2/d3/d4";
    let root2 = find_project_root(&fs, "rust", near).expect("root");
    assert_eq!(root2, "/d0".to_string());
}

#[test]
fn is_project_root_checks_one_directory_only() {
    let fs = project_fs();
    assert!(is_project_root(&fs, "rust", "/home/dev/proj"));
    assert!(!is_project_root(&fs, "rust", "/home/dev/proj/src"));
    assert!(!is_project_root(&fs, "rust", "/missing"));
    // A file is not a root even if it exists.
    assert!(!is_project_root(&fs, "rust", "/home/dev/proj/Cargo.toml"));
}

#[test]
fn marker_files_per_language() {
    let rust = marker_files("rust");
    assert_eq!(rust, vec!["Cargo.toml".to_string()]);
    let ts = marker_files("typescript");
    assert_eq!(ts, vec!["package.json".to_string(), "tsconfig.json".to_string()]);
    let py = marker_files("python");
    assert_eq!(
        py,
        vec![
            "pyproject.toml".to_string(),
            "setup.py".to_string(),
            "requirements.txt".to_string()
        ]
    );
    let unknown = marker_files("generic");
    assert_eq!(unknown.len(), 8);
    assert_eq!(unknown[0], "Cargo.toml".to_string());
}

#[test]
fn extension_detection_table() {
    assert_eq!(ext_language("rs"), Some("rust".to_string()));
    assert_eq!(ext_language("py"), Some("python".to_string()));
    assert_eq!(ext_language("ts"), Some("typescript".to_string()));
    assert_eq!(ext_language("kt"), Some("kotlin".to_string()));
    assert_eq!(ext_language("yml"), Some("yaml".to_string()));
    assert_eq!(ext_language("weird"), None);
}

#[test]
fn file_detection_uses_extension_and_strips_query() {
    let fs = project_fs();
    assert_eq!(
        detect_language_from_file_extension(&fs, "/home/dev/proj/src/main.rs"),
        Some("rust".to_string())
    );
    assert_eq!(
        detect_language_from_file_extension(&fs, "/home/dev/proj/src/main.rs?version=2"),
        Some("rust".to_string())
    );
    assert_eq!(detect_language_from_file_extension(&fs, "/plain"), None);
}

#[test]
fn directory_detection_prefers_manifests() {
    let fs = project_fs();
    assert_eq!(
        detect_language_from_file_extension(&fs, "/home/dev/proj"),
        Some("rust".to_string())
    );
    let mut tsfs = MemFs::new();
    tsfs.add_dir("/web".to_string());
    tsfs.add_file("/web/package.json".to_string());
    tsfs.add_file("/web/tsconfig.json".to_string());
    assert_eq!(detect_language_from_file_extension(&tsfs, "/web"), Some("typescript".to_string()));
    let mut jsfs = MemFs::new();
    jsfs.add_dir("/web".to_string());
    jsfs.add_file("/web/package.json".to_string());
    assert_eq!(detect_language_from_file_extension(&jsfs, "/web"), Some("javascript".to_string()));
}

#[test]
fn directory_detection_falls_back_to_entries() {
    let mut fs = MemFs::new();
    fs.add_dir("/code".to_string());
    fs.add_file("/code/lib.py".to_string());
    assert_eq!(detect_language_from_file_extension(&fs, "/code"), Some("python".to_string()));
    let mut empty = MemFs::new();
    empty.add_dir("/empty".to_string());
    assert_eq!(detect_language_from_file_extension(&empty, "/empty"), None);
}

#[test]
fn path_model_parent_and_join() {
    assert_eq!(parent_dir("/a/b/c"), Some("/a/b".to_string()));
    assert_eq!(parent_dir("/a"), Some("/".to_string()));
    assert_eq!(parent_dir("/"), None);
    assert_eq!(parent_dir("name"), None);
    assert_eq!(join_path("/a/b", "Cargo.toml"), "/a/b/Cargo.toml".to_string());
    assert_eq!(join_path("/", "etc"), "/etc".to_string());
}

#[test]
fn uri_conversion_round_trip() {
    assert_eq!(uri_to_path("file:///home/x"), "/home/x".to_string());
    assert_eq!(uri_to_path("/already/plain"), "/already/plain".to_string());
    assert_eq!(path_to_uri("/home/x"), "file:///home/x".to_string());
}
