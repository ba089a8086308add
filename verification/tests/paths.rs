use anna_rs::paths::{extension, file_name, file_stem, join_path, parent_dir};
use std::path::Path;

const PATHS: [&str; 48] = [
    "", "/", "//", ".", "..", "./", "../", "/.", "/..", "a", "a/", "a//", "a/.", "a/./", "a/..",
    "a/../", "/a", "/a/", "//a", "//a//", "./a", "./a/", ".//a", "./.", "././", "./..", "a/b",
    "a//b", "a/./b", "a/b/.", "a/b/./.", "/a/b.json", "/a/./b/", ".a", ".a/", "a.", "a./b", "...",
    "/a/../b", "a/ b ", "a.b.c", ".a.b", "a/.b/", "..a", "a..", "/a.b/c", "a.anna/.", ". ",
];

#[test]
fn parents_are_those_of_the_standard_library() {
    for path in PATHS {
        let expected = Path::new(path).parent().map(|p| p.to_string_lossy().to_string());
        assert_eq!(parent_dir(path), expected, "parent of {:?}", path);
    }
}

#[test]
fn file_names_are_those_of_the_standard_library() {
    for path in PATHS {
        let expected = Path::new(path).file_name().map(|p| p.to_string_lossy().to_string());
        assert_eq!(file_name(path), expected, "file name of {:?}", path);
    }
}

#[test]
fn joined_paths_are_those_of_the_standard_library() {
    for base in PATHS {
        for path in PATHS {
            let expected = Path::new(base).join(path).to_string_lossy().to_string();
            assert_eq!(join_path(base, path), expected, "{:?} joined with {:?}", base, path);
        }
    }
}

#[test]
fn extensions_are_those_of_the_standard_library() {
    for path in PATHS {
        let expected = Path::new(path).extension().map(|p| p.to_string_lossy().to_string());
        assert_eq!(extension(path), expected, "extension of {:?}", path);
        let expected = Path::new(path).file_stem().map(|p| p.to_string_lossy().to_string());
        assert_eq!(file_stem(path), expected, "stem of {:?}", path);
    }
}
