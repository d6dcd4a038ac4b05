use image_resizer::classify::{extension_of, is_eligible_extension, is_eligible_file};

#[test]
fn eligible_extensions_lower_case() {
    for e in ["jpg", "jpeg", "png", "webp", "ico", "pgm"] {
        assert!(is_eligible_extension(e, false), "{e} should be eligible");
        assert!(is_eligible_extension(e, true), "{e} should be eligible");
    }
}

#[test]
fn eligible_extensions_case_insensitive() {
    for e in ["JPG", "Jpeg", "PNG", "WeBp", "ICO", "PgM"] {
        assert!(is_eligible_extension(e, false), "{e} should be eligible");
    }
}

#[test]
fn gif_only_when_allowed() {
    assert!(!is_eligible_extension("gif", false));
    assert!(!is_eligible_extension("GIF", false));
    assert!(is_eligible_extension("gif", true));
    assert!(is_eligible_extension("GiF", true));
}

#[test]
fn outside_set_never_eligible() {
    for e in ["txt", "jpgx", "jp", "", "bmp", "tiff", "png "] {
        assert!(!is_eligible_extension(e, true), "{e} should not be eligible");
    }
}

#[test]
fn non_ascii_extension_not_eligible() {
    assert!(!is_eligible_extension("jpé", true));
    assert!(!is_eligible_extension("ğif", true));
}

#[test]
fn extension_after_last_dot() {
    assert_eq!(extension_of("/a/b/c.PNG"), Some("PNG".to_string()));
    assert_eq!(extension_of("a.tar.gz"), Some("gz".to_string()));
    assert_eq!(extension_of("x."), Some("".to_string()));
}

#[test]
fn extension_absent() {
    assert_eq!(extension_of("noext"), None);
    assert_eq!(extension_of("/a/.gitignore"), None);
    assert_eq!(extension_of("dir.d/file"), None);
    assert_eq!(extension_of("a/.."), None);
    assert_eq!(extension_of(""), None);
}

#[test]
fn eligible_file_combines_both() {
    assert!(is_eligible_file("/photos/x.JPG", false));
    assert!(!is_eligible_file("/photos/x.gif", false));
    assert!(is_eligible_file("/photos/x.gif", true));
    assert!(!is_eligible_file("/photos/noext", true));
}
