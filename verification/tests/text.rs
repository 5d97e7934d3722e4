use sunmao_tools::paths::{output_parent, path_ext, path_file_name, path_stem, path_with_extension};
use sunmao_tools::text::{is_blank, str_eq_ignore_ascii_case, to_ascii_lowercase, trim_str};

#[test]
fn paths_split_like_the_standard_library() {
    for path in [
        "/out/Plugin",
        "/out/Plugin.vst3",
        "out/.hidden",
        "out/archive.tar.gz",
        "out/dir/",
        "out/dir/.",
        "out/..",
        "/",
        "",
        "a//b",
        "name.",
        "a/b/..",
        "./a",
        "../a",
        "/a/",
        ".a.b",
        "a..b",
        "..a",
        "a/./b/.",
        "//",
        ".",
        "..",
        "x.tar.",
        "dir.d/",
        "..a/",
        "a/..b",
        "a.\u{e9}/",
        "\u{e9}t\u{e9}.\u{e9}t\u{e9}",
    ] {
        let std_path = std::path::Path::new(path);
        assert_eq!(
            path_file_name(path),
            std_path.file_name().map(|n| n.to_str().unwrap().to_string()),
            "{path}"
        );
        assert_eq!(
            path_ext(path),
            std_path.extension().map(|n| n.to_str().unwrap().to_string()),
            "{path}"
        );
        assert_eq!(
            path_stem(path),
            std_path.file_stem().map(|n| n.to_str().unwrap().to_string()),
            "{path}"
        );
        for ext in ["vst3", ""] {
            assert_eq!(
                path_with_extension(path, ext),
                std_path.with_extension(ext).to_str().unwrap(),
                "{path} {ext}"
            );
        }
    }
}

#[test]
fn text_helpers_match_the_standard_library() {
    for text in ["  padded\t", "", " \u{3000} ", "x", "Mixed CASE \u{c9}"] {
        assert_eq!(trim_str(text), text.trim());
        assert_eq!(is_blank(text), text.trim().is_empty());
        assert_eq!(to_ascii_lowercase(text), text.to_ascii_lowercase());
    }
    assert!(str_eq_ignore_ascii_case("VsT3", "vst3"));
    assert!(!str_eq_ignore_ascii_case("vst", "vst3"));
    assert!(!str_eq_ignore_ascii_case("\u{c9}", "\u{e9}"));
}

#[test]
fn output_parents_follow_std_path_parent() {
    for s in [
        "", "/", "//", "/.", ".", "..", "a", "a/", "a/b", "a/b/", "a//b", "a/./b", "a/b/.", "./a",
        "./.", "/a", "//a", "/./a", "a/..", "a/b/..", "/out/Gain.vst3", "rel/My Plugin.app/",
        "x//y/./", "../a", "a/./", "./",
    ] {
        let expected = std::path::Path::new(s)
            .parent()
            .filter(|p| !p.as_os_str().is_empty())
            .unwrap_or_else(|| std::path::Path::new("."));
        assert_eq!(output_parent(s), expected.to_str().unwrap(), "{s:?}");
    }
}
