use imatree::sanitize_name;

#[test]
fn sanitize_spaces_and_case() {
    assert_eq!(sanitize_name("My File 01"), "my_file_01.png");
}

#[test]
fn sanitize_trims_and_drops_specials() {
    assert_eq!(sanitize_name("  Hello, World!  "), "hello_world.png");
}

#[test]
fn sanitize_degenerate_inputs() {
    assert_eq!(sanitize_name(""), ".png");
    assert_eq!(sanitize_name("   "), ".png");
    assert_eq!(sanitize_name("!!!"), ".png");
}

#[test]
fn sanitize_removes_path_separators() {
    assert_eq!(sanitize_name("a/b\\c d"), "abc_d.png");
}

#[test]
fn sanitize_keeps_unicode_letters() {
    assert_eq!(sanitize_name("Café au Lait"), "café_au_lait.png");
}

#[test]
fn sanitize_output_is_safe() {
    let cases = ["  weird *&^% Name  ", "..", "/etc/passwd", "a b\tc"];
    for c in cases {
        let out = sanitize_name(c);
        assert!(out.ends_with(".png"));
        assert!(!out.contains(' '));
        assert!(!out.contains('/'));
        assert!(!out.contains('\\'));
        let body = &out[..out.len() - 4];
        for ch in body.chars() {
            assert!(ch.is_alphanumeric() || ch == '_');
            assert!(!ch.is_ascii_uppercase());
        }
    }
}

#[test]
fn sanitize_only_dot_is_the_extension() {
    assert_eq!(sanitize_name("v1.2.3"), "v123.png");
    assert_eq!(sanitize_name("..hidden"), "hidden.png");
}

#[test]
fn sanitize_lowercases_mixed_case() {
    assert_eq!(sanitize_name("MiXeD CaSe 42"), "mixed_case_42.png");
}
