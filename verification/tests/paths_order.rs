use voxora::order::{lex_less, sort_unique};
use voxora::paths::{components_lead, join_path, partial_path, path_components};

fn comps(p: &str) -> Vec<String> {
    path_components(p).into_iter().map(|c| c.into_iter().collect()).collect()
}

#[test]
fn components_follow_std_path() {
    for p in ["/a//b/./c/", "./x/y", "a/../b", ".", "/", "", "a/.", "//x", "../..", "a/b/.."] {
        let std: Vec<String> = std::path::Path::new(p)
            .components()
            .map(|c| match c {
                std::path::Component::RootDir => "/".to_string(),
                std::path::Component::CurDir => ".".to_string(),
                std::path::Component::ParentDir => "..".to_string(),
                std::path::Component::Normal(n) => n.to_string_lossy().into_owned(),
                std::path::Component::Prefix(_) => unreachable!(),
            })
            .collect();
        assert_eq!(comps(p), std, "components of {p:?}");
    }
}

#[test]
fn starts_with_is_component_wise() {
    assert!(components_lead(&path_components("/srv/models"), &path_components("/srv/models/x")));
    assert!(components_lead(&path_components("/srv/models/"), &path_components("/srv//models/x")));
    assert!(!components_lead(&path_components("/srv/models"), &path_components("/srv/models-evil/x")));
}

#[test]
fn join_follows_pathbuf_join() {
    assert_eq!(join_path("/a", "b"), "/a/b");
    assert_eq!(join_path("/a/", "b"), "/a/b");
    assert_eq!(join_path("/a", "/etc"), "/etc");
    assert_eq!(join_path("", "b"), "b");
}

#[test]
fn partial_path_matches_with_extension() {
    for (dest, unique) in [
        ("/d/model.safetensors", "1f-0"),
        ("/d/config.json", "a-3"),
        ("/d/README", "b-1"),
        ("/d/.hidden", "c-2"),
        ("/d/archive.tar.gz", "d-4"),
        ("/d/trail.bin/", "e-5"),
        ("/d/x.", "f-6"),
        ("/d/..", "g-7"),
        ("/", "h-8"),
    ] {
        let p = std::path::Path::new(dest);
        let ext = p.extension().and_then(|e| e.to_str()).unwrap_or("bin");
        let expected = p.with_extension(format!("{ext}.partial.{unique}"));
        assert_eq!(partial_path(dest, unique), expected.to_string_lossy(), "tmp path of {dest:?}");
    }
}

#[test]
fn lex_order_matches_str_ord() {
    let words = ["", "a", "ab", "b", "é", "Z", "model-1", "model.1", "model/1"];
    for x in words {
        for y in words {
            let xv: Vec<char> = x.chars().collect();
            let yv: Vec<char> = y.chars().collect();
            assert_eq!(lex_less(&xv, &yv), x < y, "{x:?} < {y:?}");
        }
    }
}

#[test]
fn sort_unique_sorts_and_drops_repeats() {
    let v: Vec<String> = ["b", "a", "b", "c", "a"].iter().map(|s| s.to_string()).collect();
    assert_eq!(sort_unique(&v), vec!["a".to_string(), "b".to_string(), "c".to_string()]);
    assert!(sort_unique(&vec![]).is_empty());
}
