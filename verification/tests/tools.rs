use django_cli::text::is_space_char;
use django_cli::tools::{
    django_supports, get_compatible_django_version, normalize_version, sanitize_project_name,
};

#[test]
fn sanitize_replaces_what_is_no_letter_or_digit() {
    assert_eq!(sanitize_project_name("My Project!"), "My_Project_");
    assert_eq!(sanitize_project_name("  my-site.v2  "), "my_site_v2");
    assert_eq!(sanitize_project_name("snake_case"), "snake_case");
}

#[test]
fn sanitize_puts_an_underscore_before_a_leading_digit() {
    assert_eq!(sanitize_project_name("2fast"), "_2fast");
    assert_eq!(sanitize_project_name(" 9"), "_9");
    assert_eq!(sanitize_project_name("\u{663}abc"), "\u{663}abc");
}

#[test]
fn sanitize_keeps_letters_of_any_script() {
    assert_eq!(sanitize_project_name("caf\u{e9} \u{4e2d}\u{6587}"), "caf\u{e9}_\u{4e2d}\u{6587}");
    assert_eq!(sanitize_project_name("a\u{1F600}b"), "a_b");
}

#[test]
fn white_space_is_what_std_calls_white_space() {
    let mut u: u32 = 0;
    while u <= 0x10FFFF {
        if let Some(c) = char::from_u32(u) {
            assert_eq!(is_space_char(c), c.is_whitespace(), "U+{:04X}", u);
        }
        u += 1;
    }
}

#[test]
fn version_is_cut_at_the_second_dot() {
    assert_eq!(normalize_version("3.10.4"), "3.10");
    assert_eq!(normalize_version("3.10"), "3.10");
    assert_eq!(normalize_version("3"), "3");
    assert_eq!(normalize_version(""), "");
    assert_eq!(normalize_version("3..1"), "3.");
    assert_eq!(normalize_version(".5.6"), ".5");
    assert_eq!(normalize_version("3.12.0.rc1"), "3.12");
}

#[test]
fn newest_django_for_each_python() {
    assert_eq!(get_compatible_django_version("3.12.1"), Some("5.0"));
    assert_eq!(get_compatible_django_version("3.11"), Some("5.0"));
    assert_eq!(get_compatible_django_version("3.10.0"), Some("5.0"));
    assert_eq!(get_compatible_django_version("3.9"), Some("4.2"));
    assert_eq!(get_compatible_django_version("3.8.18"), Some("4.2"));
    assert_eq!(get_compatible_django_version("3.7.3"), Some("3.2"));
    assert_eq!(get_compatible_django_version("3.6"), Some("3.2"));
}

#[test]
fn no_django_for_unknown_pythons() {
    assert_eq!(get_compatible_django_version("3.13.0"), None);
    assert_eq!(get_compatible_django_version("2.7.18"), None);
    assert_eq!(get_compatible_django_version("3"), None);
    assert_eq!(get_compatible_django_version(""), None);
    assert_eq!(get_compatible_django_version("Unknown"), None);
    assert_eq!(get_compatible_django_version("3.1"), None);
}

#[test]
fn support_table() {
    assert!(django_supports("5.0", "3.12"));
    assert!(!django_supports("5.0", "3.9"));
    assert!(django_supports("4.2", "3.8"));
    assert!(django_supports("4.1", "3.11"));
    assert!(!django_supports("4.1", "3.12"));
    assert!(django_supports("4.0", "3.10"));
    assert!(!django_supports("4.0", "3.11"));
    assert!(django_supports("3.2", "3.6"));
    assert!(!django_supports("3.2", "3.11"));
    assert!(!django_supports("6.0", "3.12"));
}
