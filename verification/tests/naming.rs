use gitpic::git::components::{extension_of, file_extension, file_stem, last_name};
use gitpic::git::environment::Platform;
use gitpic::git::naming::{safe_path_component, supported_extension, unique_destination};

/// The platform that the tests run on.
fn host() -> Platform {
    if std::path::MAIN_SEPARATOR == '\\' {
        Platform::Windows
    } else {
        Platform::Other
    }
}

fn candidates(filename: &str, count: usize) -> Vec<String> {
    candidates_on(Platform::Other, filename, count)
}

fn candidates_on(platform: Platform, filename: &str, count: usize) -> Vec<String> {
    let mut search = unique_destination(platform, filename);
    let mut names = vec![search.candidate()];
    while names.len() < count {
        search = search.next();
        names.push(search.candidate());
    }
    names
}

#[test]
fn creates_collision_safe_destinations() {
    let taken = ["photo.png"];
    let mut search = unique_destination(host(), "photo.png");
    while taken.contains(&search.candidate().as_str()) {
        search = search.next();
    }
    assert_eq!(search.candidate(), "photo-1.png");
}

#[test]
fn destinations_are_numbered_before_the_extension() {
    assert_eq!(candidates("photo.png", 3), vec!["photo.png", "photo-1.png", "photo-2.png"]);
    assert_eq!(candidates("a.tar.gz", 2), vec!["a.tar.gz", "a.tar-1.gz"]);
    assert_eq!(candidates("README", 2), vec!["README", "README-1"]);
    assert_eq!(candidates(".hidden", 2), vec![".hidden", ".hidden-1"]);
    assert_eq!(candidates("name.", 2), vec!["name.", "name-1."]);
    assert_eq!(candidates("x.png", 12)[11], "x-11.png");
}

#[test]
fn destinations_are_all_different_and_keep_the_extension() {
    let names = candidates("photo.png", 200);
    for (i, name) in names.iter().enumerate() {
        assert_eq!(file_extension(Platform::Other, name).as_deref(), Some("png"));
        assert!(!names[..i].contains(name));
    }
}

#[test]
fn names_are_divided_as_by_the_standard_library() {
    for name in [
        "photo.png", "a.b.c", ".hidden", ".hidden.txt", "name.", "..", ".", "", "x", "...", "a..b",
        "..a", "é.jpé", "a/b.png", "a.b/c", "/", "//", "a/", "a.png/", "a.png//", "a/.", "a.b/./.",
        "a/..", "a/../", "./", "./.", "/.", "/..", "./a.b", "../a.b", "a/.b", "a/.b.c", "a/b.",
        "a/./b.c", "a//b.c", "a/...", "/a.b", "/.a", "a/. ", "x/.y/", "x./", "x/y./.", ".a/.",
        "a\\b.c", "a\\.\\", "p:s.png", "C:\\x\\y.z", "C:", "C:a.b", "C:.", "\\\\s\\t\\u.v",
        "//s/t", "\\\\?\\C:\\a.b", "\\\\.\\COM1\\a.b",
    ] {
        let path = std::path::Path::new(name);
        assert_eq!(last_name(host(), name), path.file_name().and_then(|value| value.to_str()), "{name}");
        assert_eq!(
            file_extension(host(), name).as_deref(),
            path.extension().and_then(|value| value.to_str()),
            "{name}"
        );
        assert_eq!(
            file_stem(host(), name).as_deref(),
            path.file_stem().and_then(|value| value.to_str()),
            "{name}"
        );
    }
}

#[test]
fn paths_are_numbered_by_their_last_name() {
    assert_eq!(candidates("a/b.png", 3), vec!["a/b.png", "b-1.png", "b-2.png"]);
    assert_eq!(candidates("a.b/c", 2), vec!["a.b/c", "c-1"]);
    assert_eq!(candidates("a.png/", 2), vec!["a.png/", "a-1.png"]);
    assert_eq!(candidates("a/..", 2), vec!["a/..", "image-1"]);
    assert_eq!(candidates("/", 2), vec!["/", "image-1"]);
    assert_eq!(candidates("", 2), vec!["", "image-1"]);
    assert_eq!(candidates("..", 2), vec!["..", "image-1"]);
}

#[test]
fn windows_divides_paths_at_backslashes_and_drives() {
    let windows = Platform::Windows;
    for (path, name) in [
        ("a\\b.png", Some("b.png")),
        ("a/b.png", Some("b.png")),
        ("a\\b.png\\.\\", Some("b.png")),
        ("p:s.png", Some("s.png")),
        ("C:", None),
        ("C:\\", None),
        ("C:.", None),
        ("C:\\..", None),
        ("1:s.png", Some("1:s.png")),
        ("ab:c.png", Some("ab:c.png")),
        ("\\\\server\\share", None),
        ("\\\\server\\share\\x.y", Some("x.y")),
        ("//server/share/x.y", Some("x.y")),
        ("\\\\server", Some("server")),
        ("\\\\.\\COM1", None),
        ("\\\\.\\COM1\\x", Some("x")),
        ("\\\\?\\C:\\x\\y.z", Some("y.z")),
        ("\\\\?\\C:/x/y.z", Some("x/y.z")),
        ("\\\\?\\C:", None),
        ("\\\\?\\cat\\x/y.z", Some("x/y.z")),
        ("\\\\?\\cat\\x\\.", None),
        ("\\\\?\\UNC\\server\\share\\x.y", Some("x.y")),
        ("\\\\?\\UNC\\server\\share", None),
    ] {
        assert_eq!(last_name(windows, path), name, "{path}");
    }
    assert_eq!(last_name(Platform::Other, "a\\b.png"), Some("a\\b.png"));
    assert_eq!(last_name(Platform::Macos, "p:s.png"), Some("p:s.png"));
    assert_eq!(candidates_on(windows, "a\\b.png", 2), vec!["a\\b.png", "b-1.png"]);
    assert_eq!(candidates_on(windows, "p:s.png", 2), vec!["p:s.png", "s-1.png"]);
    assert_eq!(candidates("a\\b.png", 2), vec!["a\\b.png", "a\\b-1.png"]);
    assert_eq!(candidates("p:s.png", 2), vec!["p:s.png", "p:s-1.png"]);
    assert_eq!(extension_of("p:s.png").as_deref(), Some("png"));
}

#[test]
fn images_are_known_by_their_extension() {
    for extension in [
        "avif", "bmp", "gif", "heic", "heif", "jpeg", "jpg", "png", "svg", "tif", "tiff", "webp",
    ] {
        let name = format!("photo.{extension}");
        assert_eq!(supported_extension(&name).as_deref(), Some(extension));
        assert_eq!(supported_extension(&name.to_uppercase()).as_deref(), Some(extension));
    }
    assert_eq!(supported_extension("photo.txt"), None);
    assert_eq!(supported_extension("png"), None);
    assert_eq!(supported_extension(".png"), None);
    assert_eq!(supported_extension("photo.png.zip"), None);
    assert_eq!(supported_extension("a.b/photo.PNG").as_deref(), Some("png"));
    assert_eq!(supported_extension("photo.png/notes"), None);
}

#[test]
fn path_components_are_made_safe() {
    assert_eq!(safe_path_component("group/sub group"), "group_sub_group");
    assert_eq!(safe_path_component("octo-cat_1.x"), "octo-cat_1.x");
    assert_eq!(safe_path_component("ä\\:"), "___");
    assert_eq!(safe_path_component(""), "");
    let once = safe_path_component("a/b c");
    assert_eq!(safe_path_component(&once), once);
}
