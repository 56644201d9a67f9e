use django_cli::errors::ProjectError;
use django_cli::python::{
    compatible_django_versions, django_release_for, is_installed_compatible, parse_number,
    parse_python_version, pick_option, pip_command, python_command, supported_django_versions,
    version_from_output,
};

fn chars(s: &str) -> Vec<char> {
    s.chars().collect()
}

#[test]
fn numbers_in_base_ten() {
    assert_eq!(parse_number(&chars("0"), 10), Some(0));
    assert_eq!(parse_number(&chars("007"), 10), Some(7));
    assert_eq!(parse_number(&chars("+12"), 100), Some(12));
    assert_eq!(parse_number(&chars("4294967295"), 4294967295), Some(4294967295));
    assert_eq!(parse_number(&chars("18446744073709551615"), u64::MAX), Some(u64::MAX));
}

#[test]
fn what_is_no_number() {
    assert_eq!(parse_number(&chars(""), 10), None);
    assert_eq!(parse_number(&chars("+"), 10), None);
    assert_eq!(parse_number(&chars("-1"), 10), None);
    assert_eq!(parse_number(&chars("++1"), 10), None);
    assert_eq!(parse_number(&chars("1a"), 10), None);
    assert_eq!(parse_number(&chars(" 1"), 10), None);
    assert_eq!(parse_number(&chars("11"), 10), None);
    assert_eq!(parse_number(&chars("4294967296"), 4294967295), None);
    assert_eq!(parse_number(&chars("18446744073709551616"), u64::MAX), None);
    assert_eq!(parse_number(&chars("\u{663}"), 10), None);
}

#[test]
fn numbers_agree_with_std() {
    for s in ["0", "+5", "12", "4294967295", "4294967296", "", "+", "-0", "0x1", "1_0", "๓"] {
        let expected = s.parse::<u32>().ok().map(|n| n as u64);
        assert_eq!(parse_number(&chars(s), u32::MAX as u64), expected, "{:?}", s);
    }
}

#[test]
fn version_reported_by_the_interpreter() {
    assert_eq!(parse_python_version("Python 3.12.1\n"), Some((3, 12)));
    assert_eq!(parse_python_version("Python 3.9"), Some((3, 9)));
    assert_eq!(parse_python_version("  Python\t2.7.18  rest"), Some((2, 7)));
    assert_eq!(parse_python_version("Python +3.08.x"), Some((3, 8)));
}

#[test]
fn version_that_cannot_be_read() {
    assert_eq!(parse_python_version(""), None);
    assert_eq!(parse_python_version("Python"), None);
    assert_eq!(parse_python_version("Python 3"), None);
    assert_eq!(parse_python_version("Python three.nine"), None);
    assert_eq!(parse_python_version("Python 3.x"), None);
    assert_eq!(parse_python_version("Python .9"), None);
    assert_eq!(parse_python_version("Python 3..9"), None);
    assert_eq!(parse_python_version("3.9.1"), None);
    assert_eq!(parse_python_version("Python 4294967296.1"), None);
}

#[test]
fn version_is_the_last_word() {
    assert_eq!(version_from_output("Python 3.11.4\n"), "3.11.4");
    assert_eq!(version_from_output("3.8"), "3.8");
    assert_eq!(version_from_output("  a  b\u{a0}c \t"), "c");
    assert_eq!(version_from_output(""), "Unknown");
    assert_eq!(version_from_output(" \n\t"), "Unknown");
}

#[test]
fn commands_for_a_version() {
    assert_eq!(pip_command("3.11.4"), "pip3");
    assert_eq!(pip_command("2.7"), "pip");
    assert_eq!(pip_command(""), "pip");
    assert_eq!(pip_command("Unknown"), "pip");
    assert_eq!(python_command("3"), "python3");
    assert_eq!(python_command("13.0"), "python");
}

#[test]
fn all_compatible_releases() {
    assert_eq!(compatible_django_versions("3.10.2"), vec!["5.0", "4.2", "4.1", "4.0", "3.2"]);
    assert_eq!(compatible_django_versions("3.12"), vec!["5.0", "4.2"]);
    assert_eq!(compatible_django_versions("3.11.0"), vec!["5.0", "4.2", "4.1"]);
    assert_eq!(compatible_django_versions("3.8"), vec!["4.2", "4.1", "4.0", "3.2"]);
    assert_eq!(compatible_django_versions("3.6.9"), vec!["3.2"]);
    assert!(compatible_django_versions("3.13").is_empty());
    assert!(compatible_django_versions("").is_empty());
}

#[test]
fn installed_release_among_compatible_ones() {
    let releases = vec!["5.0", "4.2"];
    assert!(is_installed_compatible("4.2.8", &releases));
    assert!(is_installed_compatible("5.0", &releases));
    assert!(!is_installed_compatible("4.1.3", &releases));
    assert!(!is_installed_compatible("", &releases));
    assert!(!is_installed_compatible("4.2", &vec![]));
}

#[test]
fn release_to_install() {
    assert_eq!(django_release_for(3, 6), Some("3.2"));
    assert_eq!(django_release_for(3, 7), Some("3.2"));
    assert_eq!(django_release_for(3, 8), Some("4.2.8"));
    assert_eq!(django_release_for(3, 12), Some("4.2.8"));
    assert_eq!(django_release_for(3, 13), None);
    assert_eq!(django_release_for(3, 5), None);
    assert_eq!(django_release_for(2, 7), None);
    assert_eq!(django_release_for(4, 8), None);
}

#[test]
fn picking_a_numbered_option() {
    assert_eq!(pick_option("1\n", 3), Some(0));
    assert_eq!(pick_option("  3 ", 3), Some(2));
    assert_eq!(pick_option("+2", 3), Some(1));
    assert_eq!(pick_option("0", 3), None);
    assert_eq!(pick_option("4", 3), None);
    assert_eq!(pick_option("", 3), None);
    assert_eq!(pick_option("two", 3), None);
    assert_eq!(pick_option("-1", 3), None);
    assert_eq!(pick_option("1", 0), None);
    assert_eq!(pick_option("99999999999999999999999", 3), None);
}

#[test]
fn supported_releases_or_a_failure() {
    assert_eq!(supported_django_versions("3.12.4").unwrap(), vec!["5.0", "4.2"]);
    match supported_django_versions("2.7.18") {
        Err(ProjectError::UnsupportedFramework(m)) => {
            assert_eq!(m, "Python 2.7.18 runs none of the supported releases of Django.")
        }
        other => panic!("unexpected {:?}", other),
    }
}
