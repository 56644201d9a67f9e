use django_cli::errors::ProjectError;
use django_cli::settings::{
    assignment_text, modify_settings, set_variable_at, variable_pattern_text,
    SettingsModification, SettingsModifier,
};

fn pair(k: &str, v: &str) -> (String, String) {
    (k.to_string(), v.to_string())
}

fn patched(content: &str, modifications: &[SettingsModification]) -> String {
    match modify_settings(content.to_string(), modifications) {
        Ok(s) => s,
        Err(e) => panic!("unexpected failure: {:?}", e),
    }
}

#[test]
fn format_value_quotes_bare_words() {
    let m = SettingsModifier::new(String::new());
    assert_eq!(m.format_value("foo"), "'foo'");
    assert_eq!(m.format_value("42"), "'42'");
    assert_eq!(m.format_value(""), "''");
    assert_eq!(m.format_value("a'b"), "'a'b'");
}

#[test]
fn format_value_keeps_lists_and_quoted_strings() {
    let m = SettingsModifier::new(String::new());
    assert_eq!(m.format_value("['a','b']"), "['a','b']");
    assert_eq!(m.format_value("'already'"), "'already'");
    assert_eq!(m.format_value("'"), "'");
    assert_eq!(m.format_value("[]"), "[]");
    assert_eq!(m.format_value("[x"), "'[x'");
    assert_eq!(m.format_value("('JWT',)"), "'('JWT',)'");
}

#[test]
fn parse_dict_entry_splits_on_first_colon() {
    let m = SettingsModifier::new(String::new());
    assert_eq!(
        m.parse_dict_entry("    'ENGINE': 'django.db.backends.sqlite3',"),
        Some(("ENGINE".to_string(), "'django.db.backends.sqlite3'".to_string()))
    );
    assert_eq!(
        m.parse_dict_entry("'URL': 'http://host:80',"),
        Some(("URL".to_string(), "'http://host:80'".to_string()))
    );
    assert_eq!(m.parse_dict_entry("  A  :  1  "), Some(("A".to_string(), "1".to_string())));
    assert_eq!(m.parse_dict_entry(":"), Some((String::new(), String::new())));
    assert_eq!(m.parse_dict_entry("''k'' : ,,v,,"), Some(("k".to_string(), "v".to_string())));
}

#[test]
fn parse_dict_entry_without_colon_is_none() {
    let m = SettingsModifier::new(String::new());
    assert_eq!(m.parse_dict_entry("# a comment"), None);
    assert_eq!(m.parse_dict_entry(""), None);
    assert_eq!(m.parse_dict_entry("}"), None);
}

#[test]
fn new_and_finalize_round_trip() {
    let text = "DEBUG = True\r\n# caf\u{e9}\n\n";
    assert_eq!(SettingsModifier::new(text.to_string()).finalize(), text);
}

#[test]
fn append_inserts_after_opening_line() {
    let mut m = SettingsModifier::new("INSTALLED_APPS = [\n    'app1',\n]".to_string());
    m.add_to_installed_apps("app2");
    assert_eq!(m.finalize(), "INSTALLED_APPS = [\n    'app2',\n    'app1',\n]");
}

#[test]
fn append_of_present_entry_changes_nothing() {
    let text = "INSTALLED_APPS = [\n    'app1',\n]";
    let mut m = SettingsModifier::new(text.to_string());
    m.add_to_installed_apps("app1");
    assert_eq!(m.finalize(), text);
}

#[test]
fn append_twice_does_not_duplicate() {
    let mut m = SettingsModifier::new("INSTALLED_APPS = [\n]\n".to_string());
    m.add_to_installed_apps("rest_framework");
    let once = m.finalize();
    assert_eq!(once, "INSTALLED_APPS = [\n    'rest_framework',\n]\n");
    let mut m = SettingsModifier::new(once.clone());
    m.add_to_installed_apps("rest_framework");
    assert_eq!(m.finalize(), once);
}

#[test]
fn append_without_declaration_changes_nothing() {
    let text = "DEBUG = True\nAPPS = [\n]\n";
    let mut m = SettingsModifier::new(text.to_string());
    m.add_to_installed_apps("app1");
    assert_eq!(m.finalize(), text);
}

#[test]
fn append_is_blocked_by_the_literal_anywhere() {
    let text = "NAME = 'app1'\nINSTALLED_APPS = [\n]\n";
    let mut m = SettingsModifier::new(text.to_string());
    m.add_to_installed_apps("app1");
    assert_eq!(m.finalize(), text);
}

#[test]
fn append_to_named_list() {
    let mut m = SettingsModifier::new("MIDDLEWARE = [\n]\n".to_string());
    m.append_to_list("MIDDLEWARE", "cors");
    assert_eq!(m.finalize(), "MIDDLEWARE = [\n    'cors',\n]\n");
}

#[test]
fn append_reaches_every_opening() {
    let mut m = SettingsModifier::new("X = [\n]\nX = [\n]\n".to_string());
    m.append_to_list("X", "a");
    assert_eq!(m.finalize(), "X = [\n    'a',\n]\nX = [\n    'a',\n]\n");
}

#[test]
fn set_variable_formats_the_value() {
    assert_eq!(
        patched("X = 1\n", &[SettingsModification::AddOrUpdateVariable("X".into(), "foo".into())]),
        "X = 'foo'\n"
    );
    assert_eq!(
        patched(
            "X = 1\n",
            &[SettingsModification::AddOrUpdateVariable("X".into(), "['a','b']".into())]
        ),
        "X = ['a','b']\n"
    );
    assert_eq!(
        patched(
            "X = 1\n",
            &[SettingsModification::AddOrUpdateVariable("X".into(), "'already'".into())]
        ),
        "X = 'already'\n"
    );
}

#[test]
fn set_variable_replaces_only_the_first_matching_line() {
    let mut m = SettingsModifier::new("A = 1\nX=2 # two\nB = 3\nX = 4\n".to_string());
    assert!(m.add_or_update_variable("X", "9").is_ok());
    assert_eq!(m.finalize(), "A = 1\nX = '9'\nB = 3\nX = 4\n");
}

#[test]
fn set_variable_accepts_leading_spaces() {
    let mut m = SettingsModifier::new("A = 1\n\n  \tX   = 2\nB = 3\n".to_string());
    assert!(m.add_or_update_variable("X", "9").is_ok());
    assert_eq!(m.finalize(), "A = 1\n\nX = '9'\nB = 3\n");
}

#[test]
fn set_variable_appends_when_absent() {
    let mut m = SettingsModifier::new("A = 1\n".to_string());
    assert!(m.add_or_update_variable("X", "foo").is_ok());
    assert_eq!(m.finalize(), "A = 1\n\nX = 'foo'\n");
}

#[test]
fn set_variable_does_not_match_a_longer_name() {
    let mut m = SettingsModifier::new("XY = 1\nMAX = 2\n".to_string());
    assert!(m.add_or_update_variable("X", "foo").is_ok());
    assert_eq!(m.finalize(), "XY = 1\nMAX = 2\n\nX = 'foo'\n");
}

#[test]
fn set_variable_takes_the_name_literally() {
    let mut m = SettingsModifier::new("AB = 1\nA.B = 2\n".to_string());
    assert!(m.add_or_update_variable("A.B", "x").is_ok());
    assert_eq!(m.finalize(), "AB = 1\nA.B = 'x'\n");
}

#[test]
fn set_variable_keeps_text_around_wide_characters() {
    let mut m = SettingsModifier::new("# caf\u{e9} \u{1F600}\nX = 1\n# \u{4e2d}\u{6587}\n".to_string());
    assert!(m.add_or_update_variable("X", "\u{e9}").is_ok());
    assert_eq!(m.finalize(), "# caf\u{e9} \u{1F600}\nX = '\u{e9}'\n# \u{4e2d}\u{6587}\n");
}

#[test]
fn set_variable_writes_dollar_signs_as_they_are() {
    let mut m = SettingsModifier::new("X = 1\n".to_string());
    assert!(m.add_or_update_variable("X", "$1 and ${name}").is_ok());
    assert_eq!(m.finalize(), "X = '$1 and ${name}'\n");
}

#[test]
fn variable_pattern_escapes_the_name() {
    assert_eq!(variable_pattern_text("X"), "(?m)^[ \\t]*X\\s*=.*$");
    assert_eq!(variable_pattern_text("a.b[0]"), "(?m)^[ \\t]*a\\.b\\[0\\]\\s*=.*$");
    assert_eq!(
        variable_pattern_text("\\.+*?()|[]{}^$#&-~"),
        "(?m)^[ \\t]*\\\\\\.\\+\\*\\?\\(\\)\\|\\[\\]\\{\\}\\^\\$\\#\\&\\-\\~\\s*=.*$"
    );
    assert_eq!(variable_pattern_text("a b_%/!\"e"), "(?m)^[ \\t]*a b_%/!\"e\\s*=.*$");
}

#[test]
fn assignment_text_joins_name_and_value() {
    assert_eq!(assignment_text("DEBUG", "True"), "DEBUG = 'True'");
    assert_eq!(assignment_text("L", "[1, 2]"), "L = [1, 2]");
}

#[test]
fn set_variable_at_splices_or_appends() {
    assert_eq!(set_variable_at("A = 1\nX = 2\nB\n", "X", "v", Some((6, 11))), "A = 1\nX = 'v'\nB\n");
    assert_eq!(set_variable_at("abc", "X", "v", Some((0, 3))), "X = 'v'");
    assert_eq!(set_variable_at("abc", "X", "v", Some((3, 3))), "abcX = 'v'");
    assert_eq!(set_variable_at("abc", "X", "v", None), "abc\nX = 'v'\n");
    assert_eq!(set_variable_at("\u{e9}\u{e9}", "X", "v", Some((2, 4))), "\u{e9}X = 'v'");
}

#[test]
fn merge_preserves_untouched_keys() {
    let mut m = SettingsModifier::new("D = {\n    'A': '1',\n    'B': '2',\n}\n".to_string());
    assert!(m.add_or_update_dict("D", &[pair("B", "3"), pair("C", "4")]).is_ok());
    assert_eq!(m.finalize(), "D = {\n    'A': '1',\n    'B': '3',\n    'C': '4',\n}\n");
}

#[test]
fn merge_keeps_text_before_and_after() {
    let text = "# top\r\nA = 1\nD = {\n    'K': 1,  \n    # note\n    }  # end\nB = 2\r\nlast";
    let mut m = SettingsModifier::new(text.to_string());
    assert!(m.add_or_update_dict("D", &[pair("L", "[1]")]).is_ok());
    assert_eq!(
        m.finalize(),
        "# top\r\nA = 1\nD = {\n    'K': '1',\n    'L': [1],\n}\nB = 2\r\nlast"
    );
}

#[test]
fn merge_appends_block_when_absent() {
    let mut m = SettingsModifier::new("A = 1\n".to_string());
    assert!(m
        .add_or_update_dict("DATABASES", &[pair("ENGINE", "django.db.backends.mysql"), pair("PORT", "3306")])
        .is_ok());
    assert_eq!(
        m.finalize(),
        "A = 1\n\nDATABASES = {\n    'ENGINE': 'django.db.backends.mysql',\n    'PORT': '3306',\n}\n"
    );
}

#[test]
fn merge_into_empty_text() {
    let mut m = SettingsModifier::new(String::new());
    assert!(m.add_or_update_dict("D", &[]).is_ok());
    assert_eq!(m.finalize(), "\nD = {\n}\n");
}

#[test]
fn merge_twice_gives_the_same_text() {
    let entries = [pair("B", "3"), pair("C", "['x']")];
    let mut m = SettingsModifier::new("D = {\n    'A': 1,\n    'B': '2',\n}\nE = 5\n".to_string());
    assert!(m.add_or_update_dict("D", &entries).is_ok());
    let once = m.finalize();
    assert_eq!(once, "D = {\n    'A': '1',\n    'B': '3',\n    'C': ['x'],\n}\nE = 5\n");
    let mut m = SettingsModifier::new(once.clone());
    assert!(m.add_or_update_dict("D", &entries).is_ok());
    assert_eq!(m.finalize(), once);
}

#[test]
fn merge_twice_after_append_gives_the_same_text() {
    let entries = [pair("A", "1"), pair("B", "'two'")];
    let mut m = SettingsModifier::new("X = 1".to_string());
    assert!(m.add_or_update_dict("D", &entries).is_ok());
    let once = m.finalize();
    assert_eq!(once, "X = 1\nD = {\n    'A': '1',\n    'B': 'two',\n}\n");
    let mut m = SettingsModifier::new(once.clone());
    assert!(m.add_or_update_dict("D", &entries).is_ok());
    assert_eq!(m.finalize(), once);
}

#[test]
fn merge_without_closing_line_replaces_to_the_end() {
    let mut m = SettingsModifier::new("A = 1\nD = {\n    'K': 'v',\n    'K': 'w',\nB = 2".to_string());
    assert!(m.add_or_update_dict("D", &[pair("Z", "0")]).is_ok());
    assert_eq!(m.finalize(), "A = 1\nD = {\n    'K': 'w',\n    'Z': '0',\n}\n");
}

#[test]
fn merge_takes_the_first_declaration_only() {
    let mut m = SettingsModifier::new("  D = {\n}\nD = {\n    'A': 1,\n}\n".to_string());
    assert!(m.add_or_update_dict("D", &[pair("B", "2")]).is_ok());
    assert_eq!(m.finalize(), "D = {\n    'B': '2',\n}\nD = {\n    'A': 1,\n}\n");
}

#[test]
fn merge_later_entry_wins() {
    let mut m = SettingsModifier::new("D = {\n}\n".to_string());
    assert!(m.add_or_update_dict("D", &[pair("A", "1"), pair("B", "2"), pair("A", "3")]).is_ok());
    assert_eq!(m.finalize(), "D = {\n    'A': '3',\n    'B': '2',\n}\n");
}

#[test]
fn modifications_apply_in_order() {
    let mods = vec![
        SettingsModification::AddToInstalledApps("rest_framework".to_string()),
        SettingsModification::AddOrUpdateVariable("DEBUG".to_string(), "False".to_string()),
        SettingsModification::AddOrUpdateDict(
            "REST_FRAMEWORK".to_string(),
            vec![pair("PAGE_SIZE", "10")],
        ),
        SettingsModification::AddOrUpdateVariable("REST_FRAMEWORK".to_string(), "[]".to_string()),
    ];
    assert_eq!(
        patched("DEBUG = True\nINSTALLED_APPS = [\n]\n", &mods),
        "DEBUG = 'False'\nINSTALLED_APPS = [\n    'rest_framework',\n]\n\nREST_FRAMEWORK = []\n    'PAGE_SIZE': '10',\n}\n"
    );
}

#[test]
fn no_modifications_leave_the_text() {
    assert_eq!(patched("a\r\nb", &[]), "a\r\nb");
}

#[test]
fn apply_dispatches_on_the_kind() {
    let mut m = SettingsModifier::new("INSTALLED_APPS = [\n]\n".to_string());
    assert!(m.apply(&SettingsModification::AddToInstalledApps("a".to_string())).is_ok());
    assert!(m
        .apply(&SettingsModification::AddOrUpdateVariable("V".to_string(), "1".to_string()))
        .is_ok());
    assert!(m.apply(&SettingsModification::AddOrUpdateDict("D".to_string(), vec![])).is_ok());
    assert_eq!(m.finalize(), "INSTALLED_APPS = [\n    'a',\n]\n\nV = '1'\n\nD = {\n}\n");
}

#[test]
fn a_huge_name_fails_with_a_regex_error() {
    let name = "x".repeat(400_000);
    let mut m = SettingsModifier::new("A = 1\n".to_string());
    match m.add_or_update_variable(&name, "v") {
        Err(ProjectError::CommandFailed(msg)) => assert!(msg.starts_with("Regex error: ")),
        other => panic!("expected a regex error, got {:?}", other),
    }
    assert_eq!(m.finalize(), "A = 1\n");
}
