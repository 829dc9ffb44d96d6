use freqfs::path::tmp_name;
use freqfs::FilePath;

fn path(text: &str) -> FilePath {
    let anchor = text.starts_with('/') as usize;
    let mut components = Vec::new();
    if anchor == 1 {
        components.push(b"/".to_vec());
    }
    for component in text.split('/').filter(|component| !component.is_empty()) {
        components.push(component.as_bytes().to_vec());
    }
    FilePath::new(anchor, components)
}

fn tmp(name: &[u8]) -> Vec<u8> {
    tmp_name(&name.to_vec())
}

#[test]
fn tmp_names_extend_the_extension() {
    assert_eq!(tmp(b"data.txt"), b"data.txt__freqfs");
    assert_eq!(tmp(b"a.tar.gz"), b"a.tar.gz__freqfs");
    assert_eq!(tmp(b"data."), b"data.__freqfs");
    assert_eq!(tmp(b"data"), b"data._freqfs");
    assert_eq!(tmp(b".hidden"), b".hidden._freqfs");
    assert_eq!(tmp(b".hidden.txt"), b".hidden.txt__freqfs");
}

#[test]
fn an_extension_which_is_not_text_is_replaced() {
    assert_eq!(tmp(b"data.\xff"), b"data._freqfs");
    assert_eq!(tmp(b"\xff.txt"), b"\xff.txt__freqfs");
    assert_eq!(tmp("data.\u{e9}".as_bytes()), "data.\u{e9}__freqfs".as_bytes());
}

#[test]
fn tmp_paths_stay_in_their_directory() {
    let expected = std::path::Path::new("/cache/dir/data.txt").with_extension("txt__freqfs");
    assert_eq!(path(expected.to_str().unwrap()).components, path("/cache/dir/data.txt").tmp_path().components);
    assert_eq!(path("/cache/..").tmp_path().components, path("/cache/..").components);
    assert_eq!(path("/").tmp_path().components, path("/").components);
}

#[test]
fn names_and_their_twins_agree_with_the_standard_library() {
    for name in ["a", "a.b", "a.b.c", ".a", ".a.b", "a.", "...a", "..a.b", "a..b", "a b.txt"] {
        let std_path = std::path::Path::new(name);
        let expected = match std_path.extension().and_then(|ext| ext.to_str()) {
            Some(ext) => std_path.with_extension(format!("{}_{}", ext, "_freqfs")),
            None => std_path.with_extension("_freqfs"),
        };
        assert_eq!(tmp(name.as_bytes()), expected.to_str().unwrap().as_bytes());
    }
}

#[test]
fn prefixes_are_whole_components() {
    assert!(path("/cache/dir").starts_with(&path("/cache")));
    assert!(path("/cache").starts_with(&path("/cache")));
    assert!(path("/cache").starts_with(&path("/")));
    assert!(!path("/cache").starts_with(&path("/cache/dir")));
    assert!(!path("/cached").starts_with(&path("/cache")));
}

#[test]
fn parents_stop_at_the_root() {
    let parent = path("/cache/dir").parent().unwrap();
    assert_eq!(parent.components, path("/cache").components);
    let root = parent.parent().unwrap();
    assert_eq!(root.components, path("/").components);
    assert!(root.parent().is_none());

    let relative = path("cache").parent().unwrap();
    assert!(relative.components.is_empty());
    assert!(relative.parent().is_none());
}

#[test]
fn twins_are_distinct() {
    let names: [&[u8]; 6] = [b"a", b"a.txt", b"b.txt", b"a.", b".a", b"a._freqfs"];
    for left in names {
        assert_ne!(tmp(left), left);
        for right in names {
            assert_eq!(tmp(left) == tmp(right), left == right);
        }
    }
    // what is not text is lost
    assert_eq!(tmp(b"a.\xff"), tmp(b"a.\xfe"));
}
