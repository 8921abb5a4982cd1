use blightmud::ui::help_handler::{
    fill_placeholders, help_file, help_source, invalid_plugin_help, missing_help, rendered_help,
    replace_all, show_help_events, HelpEvent, HelpSource,
};

/// What the client is shown for `file`, markdown rendering aside.
fn parse_helpfile(file: &str, plugin_readme_exists: bool) -> Option<HelpEvent> {
    match help_source(file, plugin_readme_exists) {
        HelpSource::Missing => Some(missing_help()),
        _ => None,
    }
}

#[test]
fn file_not_present() {
    assert_eq!(
        parse_helpfile("nothing", false),
        Some(HelpEvent::Info("No such help file found".to_string()))
    );
}

#[test]
fn builtin_help_wins_over_a_plugin_readme() {
    assert_eq!(help_source("help", true), HelpSource::Builtin("help.md"));
    assert_eq!(help_source("alias", false), HelpSource::Builtin("lua_aliases.md"));
    assert_eq!(help_source("my_plugin", true), HelpSource::Plugin);
    assert_eq!(help_file("nothing"), None);
}

#[test]
fn placeholders_are_filled() {
    let text = "Blightmud $VERSION logs to $LOGDIR, data in $DATADIR, config in $CONFIGDIR";
    assert_eq!(
        fill_placeholders(text, "v5.0", "/d/logs", "/d", "/c"),
        "Blightmud v5.0 logs to /d/logs, data in /d, config in /c"
    );
}

#[test]
fn replace_all_matches_str_replace() {
    for (s, p, r) in [("aaa", "aa", "b"), ("abcabc", "bc", "X"), ("", "x", "y"), ("xyz", "q", "-")] {
        assert_eq!(replace_all(s, p, r), s.replace(p, r));
    }
    assert_eq!(replace_all("aaa", "aa", "b"), "ba");
}

#[test]
fn help_answers() {
    assert_eq!(
        rendered_help(Some("# Title".to_string())),
        HelpEvent::Output("\n\n# Title".to_string())
    );
    assert_eq!(rendered_help(None), HelpEvent::Info("Error parsing help file".to_string()));
    assert_eq!(
        invalid_plugin_help("x"),
        HelpEvent::Info("Invalid helpfile for plugin: x".to_string())
    );
    assert_eq!(
        show_help_events(true, missing_help()),
        vec![
            HelpEvent::ScrollLock(true),
            HelpEvent::Info("No such help file found".to_string()),
            HelpEvent::ScrollLock(false)
        ]
    );
}
