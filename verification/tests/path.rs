//! Paths, by the places they name.

use vellum_app::path::{components_of, join, normal_of, same_path};

#[test]
fn a_place_has_one_plain_spelling() {
    for (spelt, plain) in [
        ("boards//notes.vellum", "boards/notes.vellum"),
        ("/boards/./notes/", "/boards/notes"),
        ("//a", "/a"),
        ("./a", "./a"),
        (".", "."),
        ("a/.", "a"),
        ("a/../b", "a/../b"),
        ("/", "/"),
        ("/.", "/"),
        ("", ""),
    ] {
        assert_eq!(normal_of(spelt), plain, "{spelt}");
        let path = std::path::Path::new(spelt);
        assert_eq!(path, std::path::Path::new(plain), "{spelt}");
        let parts: Vec<String> = path
            .components()
            .filter(|part| !matches!(part, std::path::Component::RootDir))
            .map(|part| part.as_os_str().to_string_lossy().into_owned())
            .collect();
        assert_eq!(components_of(spelt), parts, "{spelt}");
    }
    assert!(!same_path("./a", "a"));
    assert!(!same_path("/a", "a"));
    assert!(same_path("a/b/", "a//b"));
}

#[test]
fn joining_adds_one_slash_where_it_is_wanted() {
    assert_eq!(join("a", "b"), "a/b");
    assert_eq!(join("a/", "b"), "a/b");
    assert_eq!(join("", "b"), "b");
}
