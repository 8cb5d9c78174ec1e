use esfuse::utils::{
    count_newlines, get_ext_from_mime, get_extension, get_mime_from_ext, interlace_vectors,
    is_binary_mime_type, to_slug,
};

#[test]
fn ext_from_mime_table() {
    assert_eq!(get_ext_from_mime("text/javascript"), ".js");
    assert_eq!(get_ext_from_mime("text/markdown"), ".mdx");
    assert_eq!(get_ext_from_mime("text/css"), ".css");
    assert_eq!(get_ext_from_mime("application/json"), ".json");
    assert_eq!(get_ext_from_mime("application/wasm"), ".wasm");
    assert_eq!(get_ext_from_mime("image/png"), ".png");
    assert_eq!(get_ext_from_mime("image/jpeg"), ".jpg");
    assert_eq!(get_ext_from_mime("image/svg+xml"), ".svg");
    assert_eq!(get_ext_from_mime("text/plain"), ".txt");
    assert_eq!(get_ext_from_mime(""), ".txt");
    assert_eq!(get_ext_from_mime("TEXT/CSS"), ".txt");
}

#[test]
fn mime_from_ext_table() {
    for ext in [".js", ".cjs", ".mjs", ".jsx", ".ts", ".cts", ".mts", ".tsx"] {
        assert_eq!(get_mime_from_ext(ext), "text/javascript");
    }
    assert_eq!(get_mime_from_ext(".mdx"), "text/markdown");
    assert_eq!(get_mime_from_ext(".css"), "text/css");
    assert_eq!(get_mime_from_ext(".json"), "application/json");
    assert_eq!(get_mime_from_ext(".wasm"), "application/wasm");
    assert_eq!(get_mime_from_ext(".png"), "image/png");
    assert_eq!(get_mime_from_ext(".jpg"), "image/jpeg");
    assert_eq!(get_mime_from_ext(".svg"), "image/svg+xml");
    assert_eq!(get_mime_from_ext(".txt"), "text/plain");
    assert_eq!(get_mime_from_ext("js"), "text/plain");
    assert_eq!(get_mime_from_ext(""), "text/plain");
}

#[test]
fn binary_mime_types() {
    assert!(!is_binary_mime_type("text/javascript"));
    assert!(!is_binary_mime_type("text/"));
    assert!(!is_binary_mime_type("application/json"));
    assert!(is_binary_mime_type("application/wasm"));
    assert!(is_binary_mime_type("image/png"));
    assert!(is_binary_mime_type("text"));
    assert!(is_binary_mime_type(""));
    assert!(is_binary_mime_type("application/json5"));
}

#[test]
fn extension_is_from_last_dot() {
    assert_eq!(get_extension("app/src/index.ts"), ".ts");
    assert_eq!(get_extension("a.module.css"), ".css");
    assert_eq!(get_extension("archive.tar.gz"), ".gz");
}

#[test]
fn extension_needs_a_name_before_the_dot() {
    assert_eq!(get_extension(".gitignore"), "");
    assert_eq!(get_extension("app/.gitignore"), "");
    assert_eq!(get_extension("app/.config.js"), ".js");
}

#[test]
fn extension_needs_something_after_the_dot() {
    assert_eq!(get_extension("file."), "");
    assert_eq!(get_extension("file"), "");
    assert_eq!(get_extension(""), "");
}

#[test]
fn extension_may_hold_a_slash() {
    assert_eq!(get_extension("a.b/c"), ".b/c");
}

#[test]
fn slug_lowers_and_dashes() {
    assert_eq!(to_slug("Hello, World!"), "hello-world-");
    assert_eq!(to_slug("  Getting   Started  "), "-getting-started-");
    assert_eq!(to_slug("abc123"), "abc123");
    assert_eq!(to_slug(""), "");
    assert_eq!(to_slug("---"), "-");
    assert_eq!(to_slug("ÉCOLE 42"), "-cole-42");
}

#[test]
fn interlace_equal_lengths() {
    assert_eq!(interlace_vectors(vec![1, 3, 5], vec![2, 4, 6]), vec![1, 2, 3, 4, 5, 6]);
}

#[test]
fn interlace_first_longer() {
    assert_eq!(
        interlace_vectors(vec!["a", "b", "c"], vec!["x", "y"]),
        vec!["a", "x", "b", "y", "c"]
    );
    assert_eq!(interlace_vectors(vec![1, 2, 3, 4], vec![9]), vec![1, 9, 2, 3, 4]);
}

#[test]
fn interlace_second_longer() {
    assert_eq!(interlace_vectors(vec![1], vec![7, 8, 9]), vec![1, 7, 8, 9]);
}

#[test]
fn interlace_with_empty() {
    assert_eq!(interlace_vectors(Vec::<u8>::new(), vec![1, 2]), vec![1, 2]);
    assert_eq!(interlace_vectors(vec![1, 2], Vec::<u8>::new()), vec![1, 2]);
    assert_eq!(interlace_vectors(Vec::<u8>::new(), Vec::<u8>::new()), Vec::<u8>::new());
}

#[test]
fn newlines_are_counted() {
    assert_eq!(count_newlines(""), 0);
    assert_eq!(count_newlines("a"), 0);
    assert_eq!(count_newlines("a\nb\n"), 2);
    assert_eq!(count_newlines("\n\n\n"), 3);
    assert_eq!(count_newlines("a\r\nb"), 1);
}
