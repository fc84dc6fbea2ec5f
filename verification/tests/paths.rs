use forge_paint::asset_browser::{dedup_paths, holds_path};
use forge_paint::order::{list_by_stem, order_by_name, order_by_path};
use forge_paint::paths::{
    extension_of_path, file_name_of, file_stem_of, join_path, names_of, parent_of, path_lies_under,
    paths_equal, replace_extension, stem_of_or,
};
use std::path::{Path, PathBuf};

const SAMPLES: [&str; 22] = [
    "", "/", ".", "..", "a", "a/", "a/b", "a//b", "/a", "/a/", "/a/b.c", "a.b/c", ".hidden",
    "dir/.hidden.ext", "a/.", "a/./b", "./a", "a/..", "x.tar.gz", "a.", "//", "/./",
];

fn owned(s: Option<&std::path::Path>) -> Option<String> {
    s.map(|p| p.to_str().unwrap().to_string())
}

fn strings(list: &[&str]) -> Vec<String> {
    list.iter().map(|s| s.to_string()).collect()
}

#[test]
fn paths_are_taken_apart() {
    for s in SAMPLES {
        let p = Path::new(s);
        let name = p.file_name().map(|n| n.to_str().unwrap().to_string());
        assert_eq!(file_name_of(s), name, "file name of {s:?}");
        let stem = p.file_stem().map(|n| n.to_str().unwrap().to_string());
        assert_eq!(file_stem_of(s), stem, "stem of {s:?}");
        let ext = p.extension().map(|n| n.to_str().unwrap().to_string());
        assert_eq!(extension_of_path(s), ext, "extension of {s:?}");
        assert_eq!(
            parent_of(s).map(PathBuf::from),
            owned(p.parent()).map(PathBuf::from),
            "parent of {s:?}"
        );
    }
    assert_eq!(stem_of_or("dir/rock.hdr", "hdri"), "rock");
    assert_eq!(stem_of_or("..", "hdri"), "hdri");
}

#[test]
fn paths_are_put_together() {
    for a in SAMPLES {
        for b in ["", "x", "/x", "x/y.z", "."] {
            assert_eq!(join_path(a, b), Path::new(a).join(b).to_str().unwrap(), "{a:?} {b:?}");
        }
        for e in ["usda", ""] {
            assert_eq!(
                Path::new(&replace_extension(a, e)),
                Path::new(a).with_extension(e),
                "{a:?} {e:?}"
            );
        }
    }
}

#[test]
fn paths_are_compared() {
    for a in SAMPLES {
        for b in SAMPLES {
            assert_eq!(paths_equal(a, b), Path::new(a) == Path::new(b), "{a:?} {b:?}");
            assert_eq!(
                path_lies_under(a, b),
                Path::new(a).starts_with(Path::new(b)),
                "{a:?} {b:?}"
            );
        }
    }
    let names: Vec<String> = names_of("/a//b/.").iter().map(|c| c.iter().collect()).collect();
    assert_eq!(names, strings(&["a", "b"]));
}

#[test]
fn paths_are_sorted() {
    let list = strings(&["b/a", "a.b", "a/b", "a", "/a", "a//b", "a/a/c", "B"]);
    let order = order_by_path(&list);
    let mut expected: Vec<usize> = (0..list.len()).collect();
    expected.sort_by_key(|i| PathBuf::from(&list[*i]));
    assert_eq!(order, expected);

    let order = order_by_name(&list);
    let mut expected: Vec<usize> = (0..list.len()).collect();
    expected.sort_by_key(|i| list[*i].clone());
    assert_eq!(order, expected);
}

#[test]
fn files_are_listed_by_name() {
    let list = strings(&["d/b.hdr", "d/a.exr", "d/..", "e/b.exr"]);
    let listed = list_by_stem(&list, "hdri");
    let pairs: Vec<(&str, &str)> = listed.iter().map(|p| (p.0.as_str(), p.1.as_str())).collect();
    assert_eq!(
        pairs,
        vec![("a", "d/a.exr"), ("b", "d/b.hdr"), ("b", "e/b.exr"), ("hdri", "d/..")]
    );
}

#[test]
fn each_path_comes_once() {
    let list = strings(&["a", "b/", "a/", "b", "./a", "c"]);
    assert_eq!(dedup_paths(&list), strings(&["a", "b/", "./a", "c"]));
    assert!(holds_path(&list, "c/"));
    assert!(!holds_path(&list, "d"));
}

#[test]
fn drives_are_names() {
    for (a, b) in [("/a", "C:/b"), ("D:/s", "C:/t.png"), ("", "C:/b"), ("/s/", "c:")] {
        assert_eq!(join_path(a, b), Path::new(a).join(b).to_str().unwrap(), "{a:?} {b:?}");
    }
    assert!(paths_equal("C:/a//b", "C:/a/b"));
    assert!(!paths_equal("C:/a", "/C:/a"));
}
