use xdg_desktop_entry::DesktopEntry;
use xdg_desktop_entry::DesktopEntryError;
use xdg_desktop_entry::DesktopEntryType;
use xdg_desktop_entry::IconString;
use xdg_desktop_entry::Locale;
use xdg_desktop_entry::LocalizedString;
use xdg_desktop_entry::LocalizedStringList;

#[test]
fn test_parse_type_and_name_only() {
    let content = "[Desktop Entry]\nType=Application\nName=X\n";
    let entry = DesktopEntry::parse(content).unwrap();
    assert_eq!(entry.entry_type, DesktopEntryType::Application);
    assert_eq!(entry.name.default, "X");
}

#[test]
fn test_categories_split() {
    let content =
        "[Desktop Entry]\nType=Application\nName=C\nExec=c\nCategories=Utility;TextEditor;\n";
    let entry = DesktopEntry::parse(content).unwrap();
    assert_eq!(
        entry.categories,
        Some(vec!["Utility".to_string(), "TextEditor".to_string()])
    );
}

#[test]
fn test_categories_only_empty_segments_left_unset() {
    let content = "[Desktop Entry]\nType=Application\nName=C\nExec=c\nCategories=;;\n";
    let entry = DesktopEntry::parse(content).unwrap();
    assert_eq!(entry.categories, None);
}

#[test]
fn test_bad_boolean_left_unset() {
    let content = "[Desktop Entry]\nType=Application\nName=B\nExec=b\nTerminal=maybe\n";
    let entry = DesktopEntry::parse(content).unwrap();
    assert_eq!(entry.terminal, None);
}

#[test]
fn test_duplicate_scalar_first_wins() {
    let content = "[Desktop Entry]\nType=Application\nName=D\nExec=first\nExec=second\n";
    let entry = DesktopEntry::parse(content).unwrap();
    assert_eq!(entry.exec_cmd, Some("first".to_string()));
}

#[test]
fn test_localized_later_entry_overwrites() {
    let content =
        "[Desktop Entry]\nType=Application\nName=L\nName[fr]=Premier\nName[fr]=Second\nExec=l\n";
    let entry = DesktopEntry::parse(content).unwrap();
    assert_eq!(entry.name.get(&Locale::from_string("fr")), "Second");
}

#[test]
fn test_unknown_keys_round_trip() {
    let content = "[Desktop Entry]\nType=Application\nName=U\nExec=u\nX-Custom-Flag=on\n";
    let entry = DesktopEntry::parse(content).unwrap();
    assert_eq!(entry.unknown_keys.len(), 1);
    assert_eq!(entry.unknown_keys[0].0, "X-Custom-Flag");
    assert_eq!(entry.unknown_keys[0].1[0].value, "on");

    let reparsed = DesktopEntry::parse(&entry.serialize()).unwrap();
    assert_eq!(reparsed.unknown_keys.len(), 1);
    assert_eq!(reparsed.unknown_keys[0].0, "X-Custom-Flag");
    assert_eq!(reparsed.unknown_keys[0].1[0].value, "on");
}

#[test]
fn test_locale_repr_round_trip() {
    let token = "sr_YU.UTF-8@Latn";
    let locale = Locale::from_string(token);
    assert_eq!(locale.to_string_repr(), token);
    let again = Locale::from_string(&locale.to_string_repr());
    assert_eq!(again.lang, locale.lang);
    assert_eq!(again.country, locale.country);
    assert_eq!(again.encoding, locale.encoding);
    assert_eq!(again.modifier, locale.modifier);
}

#[test]
fn test_leading_comments_kept_inner_dropped() {
    let content = "# leading comment\n\n[Desktop Entry]\n# inner comment\nType=Application\nName=K\nExec=k\n";
    let entry = DesktopEntry::parse(content).unwrap();
    assert_eq!(entry.comments.len(), 2);
    assert_eq!(entry.comments[0].content, " leading comment");
    assert!(!entry.comments[0].is_blank);
    assert!(entry.comments[1].is_blank);
    // the comment inside the group is not represented
    let serialized = entry.serialize();
    assert!(!serialized.contains("inner comment"));
}

#[test]
fn test_serialize_minimal_exact() {
    let mut entry = DesktopEntry::new(
        DesktopEntryType::Application,
        LocalizedString::new("My App"),
    );
    entry.exec_cmd = Some("my-app".to_string());
    assert_eq!(
        entry.serialize(),
        "[Desktop Entry]\nType=Application\nName=My App\nExec=my-app\n"
    );
}

#[test]
fn test_serialize_contains_required_lines() {
    let mut entry = DesktopEntry::new(
        DesktopEntryType::Application,
        LocalizedString::new("My App"),
    );
    entry.exec_cmd = Some("my-app".to_string());
    let serialized = entry.serialize();
    assert!(serialized.contains("[Desktop Entry]"));
    assert!(serialized.contains("Type=Application"));
}

#[test]
fn test_type_names() {
    assert_eq!(DesktopEntryType::from_str("Application"), Some(DesktopEntryType::Application));
    assert_eq!(DesktopEntryType::from_str("Link"), Some(DesktopEntryType::Link));
    assert_eq!(DesktopEntryType::from_str("Directory"), Some(DesktopEntryType::Directory));
    assert_eq!(DesktopEntryType::from_str("Other"), None);
    assert_eq!(DesktopEntryType::Application.as_str(), "Application");
    assert_eq!(DesktopEntryType::Link.as_str(), "Link");
    assert_eq!(DesktopEntryType::Directory.as_str(), "Directory");
}

#[test]
fn test_icon_localized_lookup() {
    let mut icon = IconString::new("app-icon");
    icon.add_localized(Locale::from_string("fr"), "icone-app".to_string());
    assert_eq!(icon.get(&Locale::from_string("fr")), "icone-app");
    assert_eq!(icon.get(&Locale::from_string("de")), "app-icon");
}

#[test]
fn test_localized_list_lookup() {
    let mut kw = LocalizedStringList::new(vec!["tool".to_string()]);
    kw.add_localized(
        Locale::from_string("fr"),
        vec!["outil".to_string(), "utilitaire".to_string()],
    );
    assert_eq!(
        kw.get(&Locale::from_string("fr")),
        vec!["outil".to_string(), "utilitaire".to_string()]
    );
    assert_eq!(kw.get(&Locale::from_string("en")), vec!["tool".to_string()]);
}

#[test]
fn test_locale_matching_encoding_not_stripped() {
    // the encoding takes part in the exact lookup key; a near match with a
    // different encoding falls through to the coarser rules
    let mut name = LocalizedString::new("Default");
    name.add_localized(Locale::from_string("en_US.ISO-8859-1"), "Encoded".to_string());
    name.add_localized(Locale::from_string("en"), "Plain".to_string());
    assert_eq!(name.get(&Locale::from_string("en_US.UTF-8")), "Plain");
    assert_eq!(name.get(&Locale::from_string("en_US.ISO-8859-1")), "Encoded");
}

#[test]
fn test_keyvalue_outside_group_is_invalid_line() {
    let content = "Type=Application\n[Desktop Entry]\nName=X\n";
    let result = DesktopEntry::parse(content);
    match result {
        Err(DesktopEntryError::InvalidLine(line, text)) => {
            assert_eq!(line, 1);
            assert_eq!(text, "Type=Application");
        }
        _ => panic!("Expected InvalidLine error"),
    }
}

#[test]
fn test_unclosed_locale_bracket_is_invalid_line() {
    let content = "[Desktop Entry]\nType=Application\nName=X\nName[fr=oops\n";
    let result = DesktopEntry::parse(content);
    match result {
        Err(DesktopEntryError::InvalidLine(line, _)) => assert_eq!(line, 4),
        _ => panic!("Expected InvalidLine error"),
    }
}

#[test]
fn test_validation_error_messages() {
    let link = DesktopEntry::new(DesktopEntryType::Link, LocalizedString::new("L"));
    match link.validate() {
        Err(DesktopEntryError::ValidationError(msg)) => {
            assert_eq!(msg, "URL is required for Link type entries");
        }
        _ => panic!("Expected ValidationError"),
    }
    let app = DesktopEntry::new(DesktopEntryType::Application, LocalizedString::new("A"));
    match app.validate() {
        Err(DesktopEntryError::ValidationError(msg)) => {
            assert_eq!(
                msg,
                "Either Exec key or DBusActivatable=true is required for Application type"
            );
        }
        _ => panic!("Expected ValidationError"),
    }
}

#[test]
fn test_directory_needs_no_validation() {
    let entry = DesktopEntry::new(DesktopEntryType::Directory, LocalizedString::new("Dir"));
    assert!(entry.validate().is_ok());
}

#[test]
fn test_crlf_lines_accepted() {
    let content = "[Desktop Entry]\r\nType=Application\r\nName=Windows Line Endings\r\nExec=crlf\r\n";
    let entry = DesktopEntry::parse(content).unwrap();
    assert_eq!(entry.name.default, "Windows Line Endings");
    assert_eq!(entry.exec_cmd, Some("crlf".to_string()));
}

#[test]
fn test_full_round_trip_preserves_groups_and_locales() {
    let content = "# header comment\n\
[Desktop Entry]\n\
Type=Application\n\
Name=Round Trip\n\
Name[fr]=Aller-retour\n\
Exec=round-trip\n\
Keywords=a;b;\n\
X-Extra=kept\n\
\n\
[Desktop Action go]\n\
Name=Go\n\
Exec=round-trip --go\n";
    let first = DesktopEntry::parse(content).unwrap();
    let second = DesktopEntry::parse(&first.serialize()).unwrap();

    assert_eq!(second.entry_type, first.entry_type);
    assert_eq!(second.name.default, first.name.default);
    assert_eq!(second.exec_cmd, first.exec_cmd);
    assert_eq!(second.name.get(&Locale::from_string("fr")), "Aller-retour");
    assert_eq!(
        second.keywords.as_ref().unwrap().default,
        vec!["a".to_string(), "b".to_string()]
    );
    assert_eq!(second.unknown_keys.len(), 1);
    assert!(second.additional_groups.iter().any(|g| g.name == "Desktop Action go"));
    // serialization is deterministic: a second pass reproduces the text
    assert_eq!(second.serialize(), first.serialize());
}
