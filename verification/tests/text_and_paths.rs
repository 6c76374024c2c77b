use pcw_backend::paths::{is_single_name_path, join_path, path_components, path_file_name, PathComponent};
use pcw_backend::text::{compare_text, replace_placeholder, TextOrder};

#[test]
fn compare_text_orders_by_characters() {
    assert_eq!(compare_text("a", "b"), TextOrder::Before);
    assert_eq!(compare_text("b", "a"), TextOrder::After);
    assert_eq!(compare_text("sing-box", "sing-box"), TextOrder::Same);
    assert_eq!(compare_text("", "a"), TextOrder::Before);
    assert_eq!(compare_text("ab", "a"), TextOrder::After);
    assert_eq!(compare_text("xray-core", "sing-box"), TextOrder::After);
    assert_eq!(compare_text("Z", "a"), TextOrder::Before);
}

#[test]
fn compare_text_agrees_with_str_order() {
    let words = ["", "a", "ab", "b", "é", "z", "Zz", "a/b", "a.b"];
    for x in words.iter() {
        for y in words.iter() {
            let expected = if x < y {
                TextOrder::Before
            } else if x == y {
                TextOrder::Same
            } else {
                TextOrder::After
            };
            assert_eq!(compare_text(x, y), expected);
        }
    }
}

#[test]
fn replace_placeholder_replaces_every_occurrence() {
    let (s, found) = replace_placeholder("%c", "/cfg/a.json");
    assert_eq!(s, "/cfg/a.json");
    assert!(found);
    let (s, found) = replace_placeholder("--config=%c,%c", "x");
    assert_eq!(s, "--config=x,x");
    assert!(found);
    let (s, found) = replace_placeholder("run", "x");
    assert_eq!(s, "run");
    assert!(!found);
    let (s, found) = replace_placeholder("%%cc", "Y");
    assert_eq!(s, "%Yc");
    assert!(found);
    let (s, found) = replace_placeholder("%", "Y");
    assert_eq!(s, "%");
    assert!(!found);
    let (s, found) = replace_placeholder("", "Y");
    assert_eq!(s, "");
    assert!(!found);
}

#[test]
fn join_path_follows_path_join() {
    assert_eq!(join_path("/var/configs", "a.json"), "/var/configs/a.json");
    assert_eq!(join_path("/var/configs/", "a.json"), "/var/configs/a.json");
    assert_eq!(join_path("/var/configs", "/etc/passwd"), "/etc/passwd");
    assert_eq!(join_path("", "a"), "a");
    for (d, p) in [("/x", "y"), ("/x/", "y/z"), ("rel", "../q"), ("/", "a"), ("a", "/")] {
        let expected = std::path::Path::new(d).join(p);
        assert_eq!(join_path(d, p), expected.to_str().unwrap());
    }
}

#[test]
fn path_components_normalize() {
    assert_eq!(path_components("a"), vec![PathComponent::Normal("a".to_string())]);
    assert_eq!(
        path_components("/a//b/./c/"),
        vec![
            PathComponent::RootDir,
            PathComponent::Normal("a".to_string()),
            PathComponent::Normal("b".to_string()),
            PathComponent::Normal("c".to_string()),
        ]
    );
    assert_eq!(
        path_components("./a/.."),
        vec![PathComponent::CurDir, PathComponent::Normal("a".to_string()), PathComponent::ParentDir]
    );
    assert_eq!(path_components(""), vec![]);
    assert_eq!(path_components("a/."), vec![PathComponent::Normal("a".to_string())]);
}

#[test]
fn path_components_agree_with_std() {
    let paths = ["a", "/a/b", "a//b", "./a", "a/./b/", "../x", "/", ".", "..", "", "a/..", ".a", "//x/"];
    for p in paths.iter() {
        let ours = path_components(p);
        let theirs: Vec<PathComponent> = std::path::Path::new(p)
            .components()
            .map(|c| match c {
                std::path::Component::RootDir => PathComponent::RootDir,
                std::path::Component::CurDir => PathComponent::CurDir,
                std::path::Component::ParentDir => PathComponent::ParentDir,
                std::path::Component::Normal(s) => PathComponent::Normal(s.to_str().unwrap().to_string()),
                std::path::Component::Prefix(_) => unreachable!(),
            })
            .collect();
        assert_eq!(ours, theirs, "components of {:?}", p);
    }
}

#[test]
fn file_name_is_last_normal_component() {
    assert_eq!(path_file_name("/dir/a.json"), Some("a.json".to_string()));
    assert_eq!(path_file_name("/dir/a.json/."), Some("a.json".to_string()));
    assert_eq!(path_file_name("/dir/.."), None);
    assert_eq!(path_file_name("/"), None);
    assert_eq!(path_file_name(""), None);
    for p in ["/x/y", "y/", "..", ".", "a/b/..", "foo.txt/.//"] {
        let expected = std::path::Path::new(p).file_name().map(|s| s.to_str().unwrap().to_string());
        assert_eq!(path_file_name(p), expected);
    }
}

#[test]
fn single_name_paths() {
    assert!(is_single_name_path("config.json"));
    assert!(is_single_name_path("a/"));
    assert!(!is_single_name_path(""));
    assert!(!is_single_name_path("."));
    assert!(!is_single_name_path(".."));
    assert!(!is_single_name_path("a/b"));
    assert!(!is_single_name_path("/a"));
    assert!(!is_single_name_path("./a"));
}

#[test]
fn file_name_of_joined_plain_name_is_the_name() {
    for dir in ["/var/lib/configs", "/var/lib/configs/", "", "rel"] {
        for name in ["a", "config.json", ".hidden", "..."] {
            let joined = join_path(dir, name);
            assert_eq!(path_file_name(&joined), Some(name.to_string()));
            assert!(is_single_name_path(name));
        }
    }
}
