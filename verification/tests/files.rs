use api_runtime::files::{
    cleanup_overlay_paths, is_overlay_name, is_overlay_temp_path, sent_mime, sent_name,
};
use api_runtime::request::edit_part;

fn sent_file_name(path: &str) -> String {
    edit_part(path, Ok(vec![])).unwrap().file_name
}

#[test]
fn overlay_files_are_known_by_name() {
    assert!(is_overlay_temp_path(".overlay-abc.png"));
    assert!(is_overlay_temp_path(".overlay-.png"));
    for path in [
        "",
        "overlay-abc.png",
        ".overlay-abc.jpg",
        ".overlay-abc",
        "x/.overlay-abc.png",
        ".overlay-a/b.png",
        ".overlay-/../../x.png",
        "/.overlay-abc.png",
        "../.overlay-abc.png",
        "./.overlay-abc.png",
    ] {
        assert!(!is_overlay_temp_path(path), "{path}");
    }
    assert!(!is_overlay_name(".overlay-abc.png", 2));
    assert!(is_overlay_name(".overlay-abc.png", 1));
}

#[test]
fn only_safe_overlays_are_removed() {
    let overlays = vec![".overlay-1.png".to_string(), "assets/one.png".to_string()];
    let plan = cleanup_overlay_paths(&overlays);
    assert_eq!(plan.len(), 2);
    assert_eq!((plan[0].path.as_str(), plan[0].remove), (".overlay-1.png", true));
    assert_eq!((plan[1].path.as_str(), plan[1].remove), ("assets/one.png", false));
}

#[test]
fn sent_files_have_names() {
    assert_eq!(sent_file_name("/boards/x/assets/one.png"), "one.png");
    assert_eq!(sent_file_name("one"), "one");
    for (path, name) in [
        ("", "image.png"),
        ("/", "image.png"),
        (".", "image.png"),
        ("./", "image.png"),
        ("/.", "image.png"),
        ("..", "image.png"),
        ("a/..", "image.png"),
        ("a/../", "image.png"),
        ("a/.", "a"),
        ("a/.//", "a"),
        ("a/", "a"),
        ("a/..b", "..b"),
        ("a/b.", "b."),
        ("a//b", "b"),
        ("././", "image.png"),
        ("//server/share/one.png", "one.png"),
    ] {
        assert_eq!(sent_file_name(path), name, "{path}");
    }
    assert_eq!(sent_name(None), "image.png");
    assert_eq!(sent_name(Some("a".to_string())), "a");
}

#[test]
fn sent_files_have_types() {
    assert_eq!(sent_mime("assets/one.png"), "image/png");
    assert_eq!(sent_mime("assets/one.JPEG"), "image/jpeg");
    assert_eq!(sent_mime("a.webp"), "image/webp");
    assert_eq!(sent_mime("no-extension"), "application/octet-stream");
    assert_eq!(sent_mime("odd.unheard-of"), "application/octet-stream");
    assert_eq!(sent_mime(".png"), "application/octet-stream");
    assert_eq!(sent_mime("a/.."), "application/octet-stream");
    assert_eq!(sent_mime("."), "application/octet-stream");
    assert_eq!(sent_mime("a.png/"), "image/png");
    assert_eq!(sent_mime("a..png"), "image/png");
    assert_eq!(sent_mime("a."), "application/octet-stream");
}

#[test]
fn the_type_goes_by_the_extension_on_every_platform() {
    assert_eq!(sent_mime("C:\\boards\\x\\one.png"), "image/png");
    assert_eq!(sent_mime("C:one.webp"), "image/webp");
    assert_eq!(sent_mime("\\\\server\\share\\one.gif"), "image/gif");
    assert_eq!(sent_mime("//server/share/assets/one.gif"), "image/gif");
    assert_eq!(sent_mime("C:\\boards.old\\assets/one.JPG"), "image/jpeg");
}

#[test]
fn names_are_the_end_of_their_path() {
    for path in ["C:\\boards\\x\\one.png", "C:one", "a:b/c\\d"] {
        let name = sent_file_name(path);
        assert!(path.ends_with(&name), "{path}: {name}");
        let before = &path[..path.len() - name.len()];
        assert!(before.is_empty() || before.ends_with(['/', '\\', ':']), "{path}: {name}");
    }
}
