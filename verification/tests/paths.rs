use pasture_panda::path::{
    extension, file_name, file_stem, join, names, parent, same_path,
};
use pasture_panda::text::{append_decimal, append_hexadecimal, same_text, to_lower, to_upper};
use std::path::Path;

const SAMPLES: [&str; 40] = [
    "", "/", "//", ".", "./", "/.", "..", "../", "/..", "a", "a/", "a//", "/a", "//a", "///a", "a/b",
    "a//b", "a/./b", "a/../b", "./a", "././a", "/./a", "a/.", "a/./", "a/..", "a/b/.", ".a", ".a.b",
    "a.b", "a.b.c", "a.", "a..", ".a.", "...", "a/.b/c.d", "/x y/ü.PNG", "a/ .", "..a", "a/..b.c",
    "/a/b/../c.tar.gz",
];

fn text(p: Option<&std::path::Path>) -> Option<String> {
    p.map(|d| d.to_str().unwrap().to_string())
}

#[test]
fn names_of_paths_are_those_of_std() {
    for s in SAMPLES {
        let p = Path::new(s);
        let name = p.file_name().map(|n| n.to_str().unwrap().to_string());
        let stem = p.file_stem().map(|n| n.to_str().unwrap().to_string());
        let ext = p.extension().map(|n| n.to_str().unwrap().to_string());
        assert_eq!(file_name(s), name, "file name of {:?}", s);
        assert_eq!(file_stem(s), stem, "stem of {:?}", s);
        assert_eq!(extension(s), ext, "extension of {:?}", s);
        assert_eq!(parent(s), text(p.parent()), "parent of {:?}", s);
    }
}

#[test]
fn joining_and_comparing_are_those_of_std() {
    for a in SAMPLES {
        for b in SAMPLES {
            let joined = Path::new(a).join(b);
            assert_eq!(join(a, b), joined.to_str().unwrap(), "{:?} and {:?}", a, b);
            assert_eq!(
                same_path(a, b),
                Path::new(a) == Path::new(b),
                "{:?} and {:?}",
                a,
                b
            );
        }
    }
}

#[test]
fn the_names_of_a_path_are_its_components() {
    assert_eq!(names("/a//./b/../c.d/"), vec!["a", "b", "..", "c.d"]);
    assert_eq!(names("./a"), vec![".", "a"]);
    assert!(names("/").is_empty());
}

#[test]
fn numerals_are_those_of_std() {
    for n in [0, 1, 9, 10, 99, 100, 16383, 65535, u64::MAX] {
        let mut decimal = String::new();
        append_decimal(&mut decimal, n);
        assert_eq!(decimal, n.to_string());
        let mut hex = "h".to_string();
        append_hexadecimal(&mut hex, n, 16);
        assert_eq!(hex, format!("h{:016x}", n));
    }
}

#[test]
fn letter_case_is_that_of_std() {
    for s in ["JPEG", "jPg", "", "ÄÖÜ", "İ", "straße", "a1-Z"] {
        assert_eq!(to_lower(s), s.to_lowercase());
        assert_eq!(to_upper(s), s.to_uppercase());
    }
    assert!(same_text("ab", "ab"));
    assert!(!same_text("ab", "aB"));
}
