use felix::path::{extension, file_name, join, parent};
use std::path::Path;

fn samples() -> Vec<&'static str> {
    vec![
        "", "/", "//", ".", "..", "./", "../", "a", "a/", "a//", "a/.", "a/./", "a/b", "/a", "/a/b",
        "/a/b/", "/a/b/.", "/a/./b", "./a", "./a/b", "../a", "a/..", "/..", ".a", ".bashrc", "a.tar.gz",
        "dir/file.", "dir/.hidden", "dir/..x", "/home/user/report.md", "x/y.z/w", "///a///b///", "./.",
        "a/b/..", ".//a", "/.", "/./", "./..", "a.b/c", "é.txt", "dir/naïve.PDF",
    ]
}

#[test]
fn file_name_agrees_with_std() {
    for s in samples() {
        assert_eq!(file_name(s), Path::new(s).file_name().map(|n| n.to_str().unwrap().to_string()), "file_name of {:?}", s);
    }
}

#[test]
fn extension_agrees_with_std() {
    for s in samples() {
        assert_eq!(extension(s), Path::new(s).extension().map(|n| n.to_str().unwrap().to_string()), "extension of {:?}", s);
    }
}

#[test]
fn parent_agrees_with_std() {
    for s in samples() {
        let expected = Path::new(s).parent().map(|p| p.to_str().unwrap().to_string());
        assert_eq!(parent(s), expected, "parent of {:?}", s);
    }
}

#[test]
fn join_agrees_with_std() {
    let names = ["", "x", "x/y", "/abs", "./x", ".."];
    for base in samples() {
        for name in names {
            let expected = Path::new(base).join(name).to_str().unwrap().to_string();
            assert_eq!(join(base, name), expected, "join {:?} {:?}", base, name);
        }
    }
}

#[test]
fn concrete_paths() {
    assert_eq!(file_name("/home/user/notes.md"), Some("notes.md".to_string()));
    assert_eq!(extension("/home/user/notes.md"), Some("md".to_string()));
    assert_eq!(extension("/home/user/.bashrc"), None);
    assert_eq!(parent("/home/user"), Some("/home".to_string()));
    assert_eq!(parent("/"), None);
    assert_eq!(join("/home", "user"), "/home/user");
    assert_eq!(join("/home/", "user"), "/home/user");
    assert_eq!(join("/home", "/etc"), "/etc");
}
