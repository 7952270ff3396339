use aaoffline::paths::{
    collapse_slashes, extension_of, file_stem_of, is_file_name, join_path, path_to_relative,
    set_extension, trim,
};

#[test]
fn whitespace_is_trimmed_at_both_ends() {
    assert_eq!(trim("  a b \n"), "a b");
    assert_eq!(trim("a"), "a");
    assert_eq!(trim(" \t "), "");
    assert_eq!(trim(""), "");
    assert_eq!(trim("\u{a0}x\u{2003}"), "x");
}

#[test]
fn extension_is_what_follows_the_last_dot_of_the_name() {
    assert_eq!(extension_of("a/b/gavel.png"), Some("png".to_string()));
    assert_eq!(extension_of("archive.tar.gz"), Some("gz".to_string()));
    assert_eq!(extension_of("a.b/name"), None);
    assert_eq!(extension_of(".hidden"), None);
    assert_eq!(extension_of("name."), Some(String::new()));
    assert_eq!(extension_of("dir/"), None);
    assert_eq!(extension_of(".."), None);
    assert_eq!(extension_of(""), None);
}

#[test]
fn stem_is_the_name_without_its_extension() {
    assert_eq!(file_stem_of("a/b/gavel.png"), Some("gavel".to_string()));
    assert_eq!(file_stem_of("archive.tar.gz"), Some("archive.tar".to_string()));
    assert_eq!(file_stem_of(".hidden"), Some(".hidden".to_string()));
    assert_eq!(file_stem_of("name"), Some("name".to_string()));
    assert_eq!(file_stem_of("a/.."), None);
    assert_eq!(file_stem_of("a/"), None);
}

#[test]
fn file_names_are_told_apart() {
    assert!(is_file_name("a/b"));
    assert!(is_file_name("b.txt"));
    assert!(!is_file_name("a/"));
    assert!(!is_file_name("a/."));
    assert!(!is_file_name(".."));
    assert!(!is_file_name(""));
}

#[test]
fn extension_is_set() {
    assert_eq!(set_extension("out/case", "html"), "out/case.html");
    assert_eq!(set_extension("out/case.txt", "html"), "out/case.html");
    assert_eq!(set_extension("out.d/case", "html"), "out.d/case.html");
    assert_eq!(set_extension("case.html", ""), "case");
    assert_eq!(set_extension("dir/", "html"), "dir/");
    assert_eq!(set_extension(".hidden", "html"), ".hidden.html");
}

#[test]
fn paths_are_joined_with_one_slash() {
    assert_eq!(join_path("out", "assets"), "out/assets");
    assert_eq!(join_path("out/", "assets"), "out/assets");
    assert_eq!(join_path("", "assets"), "assets");
    assert_eq!(join_path(".", "index.html"), "./index.html");
}

#[test]
fn paths_are_made_relative() {
    assert_eq!(path_to_relative("out/assets/a.png", "out"), Some("assets/a.png".to_string()));
    assert_eq!(path_to_relative("out/assets/a.png", "out/"), Some("assets/a.png".to_string()));
    assert_eq!(path_to_relative("out", "out"), Some(String::new()));
    assert_eq!(path_to_relative("outer/a.png", "out"), None);
    assert_eq!(path_to_relative("other/a.png", "out"), None);
    assert_eq!(path_to_relative("a.png", ""), Some("a.png".to_string()));
}

#[test]
fn joined_path_is_relative_to_its_directory() {
    for dir in ["out", "out/", "a/b", ""] {
        for rel in ["assets/x.png", "index.html", ""] {
            assert_eq!(
                path_to_relative(&join_path(dir, rel), dir),
                Some(rel.to_string()),
                "{dir} {rel}"
            );
        }
    }
}

#[test]
fn runs_of_slashes_are_collapsed() {
    assert_eq!(
        collapse_slashes("https://aaonline.fr//uploads///a.png"),
        "https://aaonline.fr/uploads/a.png"
    );
    assert_eq!(collapse_slashes("a//b"), "a/b");
    assert_eq!(collapse_slashes("//a"), "//a");
    assert_eq!(collapse_slashes("a/b"), "a/b");
    assert_eq!(collapse_slashes("http://x"), "http://x");
    assert_eq!(collapse_slashes(""), "");
}
