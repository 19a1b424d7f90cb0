//! Paths, held against the standard library.

use mdya::order::Order;
use mdya::paths::{
    components, extension, file_name, join, path_order, relative_to, same_path, text_of_parts,
    Component, PathPart,
};
use mdya::ingest::rows::validate_relative_path;
use mdya::text::from_chars;
use std::path::Path;

const SAMPLES: [&str; 24] = [
    "", ".", "..", "/", "//", "a", "./a", "a/", "a//b", "a/./b", "/a/b.md", "a/../b", "a/.",
    "a/..", ".hidden", "a.tar.gz", "a.", "dir.d/file", "./.", "../x", "/..", "日本/語.MD", "a b",
    "...",
];

fn std_components(path: &str) -> Vec<Component> {
    Path::new(path)
        .components()
        .map(|c| match c {
            std::path::Component::RootDir => Component::RootDir,
            std::path::Component::CurDir => Component::CurDir,
            std::path::Component::ParentDir => Component::ParentDir,
            std::path::Component::Normal(n) => {
                Component::Normal(n.to_str().expect("utf-8").chars().collect())
            }
            std::path::Component::Prefix(_) => unreachable!("no prefixes here"),
        })
        .collect()
}

#[test]
fn components_agree_with_the_standard_library() {
    for s in SAMPLES {
        assert_eq!(components(s), std_components(s), "{s:?}");
    }
}

#[test]
fn names_and_extensions_agree_with_the_standard_library() {
    for s in SAMPLES {
        let name = file_name(s).map(|n| from_chars(&n));
        let expected = Path::new(s).file_name().map(|n| n.to_str().expect("utf-8").to_string());
        assert_eq!(name, expected, "{s:?}");
        let ext = extension(s).map(|e| from_chars(&e));
        let expected = Path::new(s).extension().map(|e| e.to_str().expect("utf-8").to_string());
        assert_eq!(ext, expected, "{s:?}");
    }
}

#[test]
fn joining_agrees_with_the_standard_library() {
    for a in SAMPLES {
        for b in SAMPLES {
            assert_eq!(
                join(a, b),
                Path::new(a).join(b).to_str().expect("utf-8"),
                "{a:?} {b:?}"
            );
        }
    }
}

#[test]
fn order_and_equality_agree_with_the_standard_library() {
    for a in SAMPLES {
        for b in SAMPLES {
            let (p, q) = (Path::new(a), Path::new(b));
            assert_eq!(same_path(a, b), p == q, "{a:?} {b:?}");
            let expected = if p == q {
                Order::Equal
            } else if p < q {
                Order::Less
            } else {
                Order::Greater
            };
            assert_eq!(path_order(a, b), expected, "{a:?} {b:?}");
        }
    }
}

#[test]
fn stripping_a_root_agrees_with_the_standard_library() {
    for a in SAMPLES {
        for b in SAMPLES {
            let expected = Path::new(b).strip_prefix(a).ok();
            let found = relative_to(a, b);
            assert_eq!(found.is_some(), expected.is_some(), "{a:?} {b:?}");
            if let (Some(f), Some(e)) = (found, expected) {
                assert_eq!(Path::new(&f), e, "{a:?} {b:?}");
            }
        }
    }
}

#[test]
fn stripping_undoes_joining() {
    for (root, rel) in [("/n", "a.md"), ("/n/", "sub/a.md"), ("n", "./x/y.pdf"), (".", "z.md")] {
        let whole = join(root, rel);
        let back = relative_to(root, &whole).expect("below the root");
        assert!(same_path(&join(root, &back), &whole));
    }
}

#[test]
fn a_path_is_made_of_the_parts_that_it_is_taken_apart_into() {
    for path in SAMPLES {
        let parts: Vec<PathPart> = Path::new(path)
            .components()
            .map(|c| match c {
                std::path::Component::Prefix(_) => PathPart::Prefix,
                std::path::Component::RootDir => PathPart::RootDir,
                std::path::Component::CurDir => PathPart::CurDir,
                std::path::Component::ParentDir => PathPart::ParentDir,
                std::path::Component::Normal(n) => {
                    PathPart::Normal(n.to_str().expect("utf-8").to_string())
                }
            })
            .collect();
        assert!(same_path(&text_of_parts(&parts), path), "{path}");
    }
}

#[test]
fn a_prefix_leads_to_a_root_and_is_refused() {
    let name = |n: &str| PathPart::Normal(n.to_string());
    let text = text_of_parts(&[PathPart::Prefix, PathPart::RootDir, name("a"), name("b.md")]);
    assert_eq!(text, "/a/b.md");
    assert_eq!(file_name(&text).map(|n| from_chars(&n)).as_deref(), Some("b.md"));
    assert_eq!(validate_relative_path(&text), None);
    let drive_alone = text_of_parts(&[PathPart::Prefix, name("x")]);
    assert_eq!(drive_alone, "/x");
    assert_eq!(validate_relative_path(&drive_alone), None);
    assert_eq!(file_name(&text_of_parts(&[PathPart::Prefix, PathPart::RootDir])), None);
    let up = text_of_parts(&[PathPart::ParentDir, name("x")]);
    assert_eq!((up.as_str(), validate_relative_path(&up)), ("../x", None));
    let below = text_of_parts(&[name("sub"), name("a.md")]);
    assert_eq!(validate_relative_path(&below).as_deref(), Some("sub/a.md"));
}
