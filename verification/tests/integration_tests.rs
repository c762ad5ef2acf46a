use xdg_desktop_entry::DesktopEntry;
use xdg_desktop_entry::DesktopEntryError;
use xdg_desktop_entry::DesktopEntryType;
use xdg_desktop_entry::Locale;
use xdg_desktop_entry::LocalizedString;

#[test]
fn test_parse_minimal() {
    let content = "[Desktop Entry]\nType=Application\nName=Minimal App\nExec=minimal-app\n";
    let entry = DesktopEntry::parse(content).unwrap();

    assert_eq!(entry.entry_type, DesktopEntryType::Application);
    assert_eq!(entry.name.default, "Minimal App");
    assert!(entry.exec_cmd.is_some());
    assert_eq!(entry.exec_cmd.as_ref().unwrap(), "minimal-app");
}

#[test]
fn test_parse_full_entry() {
    let content = "[Desktop Entry]\n\
Type=Application\n\
Version=1.0\n\
Name=Full Featured Application\n\
Name[es]=Aplicación Completa\n\
Name[fr]=Application Complète\n\
GenericName=Text Editor\n\
Comment=Edit text files\n\
Icon=text-editor\n\
Exec=full-app %F\n\
Path=/usr/share/full-app\n\
Terminal=false\n\
Categories=Utility;TextEditor;\n\
MimeType=text/plain;\n\
Keywords=text;editor;\n\
StartupNotify=true\n\
StartupWMClass=FullApp\n\
Actions=new-window;preferences;\n\
\n\
[Desktop Action new-window]\n\
Name=New Window\n\
Exec=full-app --new-window\n\
\n\
[Desktop Action preferences]\n\
Name=Preferences\n\
Exec=full-app --preferences\n";
    let entry = DesktopEntry::parse(content).unwrap();

    assert_eq!(entry.entry_type, DesktopEntryType::Application);
    assert_eq!(entry.name.default, "Full Featured Application");
    assert_eq!(entry.version, Some("1.0".to_string()));

    // Check localized names
    assert_eq!(entry.name.get(&Locale::from_string("es")), "Aplicación Completa");
    assert_eq!(entry.name.get(&Locale::from_string("fr")), "Application Complète");

    // Check generic name
    assert!(entry.generic_name.is_some());
    assert_eq!(entry.generic_name.as_ref().unwrap().default, "Text Editor");

    // Check comment
    assert!(entry.comment.is_some());

    // Check icon
    assert!(entry.icon.is_some());
    assert_eq!(entry.icon.as_ref().unwrap().default, "text-editor");

    // Check exec
    assert_eq!(entry.exec_cmd, Some("full-app %F".to_string()));

    // Check path
    assert_eq!(entry.path, Some("/usr/share/full-app".to_string()));

    // Check terminal
    assert_eq!(entry.terminal, Some(false));

    // Check categories
    assert!(entry.categories.is_some());
    let categories = entry.categories.as_ref().unwrap();
    assert!(categories.contains(&"Utility".to_string()));
    assert!(categories.contains(&"TextEditor".to_string()));

    // Check MIME types
    assert!(entry.mime_type.is_some());
    let mime_types = entry.mime_type.as_ref().unwrap();
    assert!(mime_types.contains(&"text/plain".to_string()));

    // Check keywords
    assert!(entry.keywords.is_some());

    // Check startup notify
    assert_eq!(entry.startup_notify, Some(true));

    // Check startup WM class
    assert_eq!(entry.startup_wm_class, Some("FullApp".to_string()));

    // Check actions
    assert!(entry.actions.is_some());
    let actions = entry.actions.as_ref().unwrap();
    assert!(actions.contains(&"new-window".to_string()));
    assert!(actions.contains(&"preferences".to_string()));

    // Check additional groups (actions)
    assert!(entry
        .additional_groups
        .iter()
        .any(|g| g.name == "Desktop Action new-window"));
    assert!(entry
        .additional_groups
        .iter()
        .any(|g| g.name == "Desktop Action preferences"));
}

#[test]
fn test_parse_with_comments() {
    let content = "# A desktop entry with comments\n\
# Second comment line\n\
\n\
[Desktop Entry]\n\
Type=Application\n\
Name=App with Comments\n\
Exec=commented-app\n\
\n\
[X-Custom Extension]\n\
X-Value=custom\n";
    let entry = DesktopEntry::parse(content).unwrap();

    assert_eq!(entry.entry_type, DesktopEntryType::Application);
    assert_eq!(entry.name.default, "App with Comments");

    // Check that comments were preserved
    assert!(!entry.comments.is_empty());

    // Check custom extension group
    assert!(entry.additional_groups.iter().any(|g| g.name == "X-Custom Extension"));
}

#[test]
fn test_parse_spec_example() {
    let content = "[Desktop Entry]\n\
Version=1.0\n\
Type=Application\n\
Name=Foo Viewer\n\
Comment=The best viewer for Foo objects available!\n\
TryExec=fooview\n\
Exec=fooview %F\n\
Icon=fooview\n\
MimeType=image/x-foo;\n\
Actions=Gallery;Create;\n\
\n\
[Desktop Action Gallery]\n\
Exec=fooview --gallery\n\
Name=Browse Gallery\n\
\n\
[Desktop Action Create]\n\
Exec=fooview --create-new\n\
Name=Create a new Foo!\n\
Icon=fooview-new\n";
    let entry = DesktopEntry::parse(content).unwrap();

    assert_eq!(entry.entry_type, DesktopEntryType::Application);
    assert_eq!(entry.name.default, "Foo Viewer");
    assert_eq!(entry.version, Some("1.0".to_string()));
    assert!(entry.try_exec.is_some());

    // Check actions
    assert!(entry.actions.is_some());
    let actions = entry.actions.as_ref().unwrap();
    assert_eq!(actions.len(), 2);

    // Validate
    assert!(entry.validate().is_ok());
}

#[test]
fn test_missing_desktop_entry_group() {
    let content = "[Some Other Group]\nType=Application\nName=No Main Group\n";
    let result = DesktopEntry::parse(content);

    assert!(result.is_err());
    match result {
        Err(DesktopEntryError::MissingDesktopEntryGroup) => {}
        _ => panic!("Expected MissingDesktopEntryGroup error"),
    }
}

#[test]
fn test_duplicate_groups() {
    let content = "[Desktop Entry]\n\
Type=Application\n\
Name=Duplicated\n\
Exec=dup\n\
\n\
[Foo]\n\
A=1\n\
\n\
[Foo]\n\
B=2\n";
    let result = DesktopEntry::parse(content);

    assert!(result.is_err());
    match result {
        Err(DesktopEntryError::DuplicateGroup(name)) => assert_eq!(name, "Foo"),
        _ => panic!("Expected DuplicateGroup error"),
    }
}

#[test]
fn test_invalid_key_name() {
    let content = "[Desktop Entry]\nType=Application\nName=Bad Key\nMy.Key=value\n";
    let result = DesktopEntry::parse(content);

    assert!(result.is_err());
    match result {
        Err(DesktopEntryError::InvalidKeyName(_, key)) => assert_eq!(key, "My.Key"),
        _ => panic!("Expected InvalidKeyName error"),
    }
}

#[test]
fn test_locale_parsing() {
    // Just language
    let locale = Locale::from_string("en");
    assert_eq!(locale.lang, "en");
    assert_eq!(locale.country, None);
    assert_eq!(locale.encoding, None);
    assert_eq!(locale.modifier, None);

    // Language and country
    let locale = Locale::from_string("en_US");
    assert_eq!(locale.lang, "en");
    assert_eq!(locale.country, Some("US".to_string()));

    // Language, country, and encoding
    let locale = Locale::from_string("en_US.UTF-8");
    assert_eq!(locale.lang, "en");
    assert_eq!(locale.country, Some("US".to_string()));
    assert_eq!(locale.encoding, Some("UTF-8".to_string()));

    // Language, country, and modifier
    let locale = Locale::from_string("sr_YU@Latn");
    assert_eq!(locale.lang, "sr");
    assert_eq!(locale.country, Some("YU".to_string()));
    assert_eq!(locale.modifier, Some("Latn".to_string()));

    // All components
    let locale = Locale::from_string("en_US.UTF-8@euro");
    assert_eq!(locale.lang, "en");
    assert_eq!(locale.country, Some("US".to_string()));
    assert_eq!(locale.encoding, Some("UTF-8".to_string()));
    assert_eq!(locale.modifier, Some("euro".to_string()));
}

#[test]
fn test_locale_matching() {
    let mut name = LocalizedString::new("Default");
    name.add_localized(Locale::from_string("en"), "English".to_string());
    name.add_localized(Locale::from_string("en_US"), "American English".to_string());
    name.add_localized(Locale::from_string("fr"), "Français".to_string());

    // Exact match
    assert_eq!(name.get(&Locale::from_string("en_US")), "American English");

    // Fall back to language only
    assert_eq!(name.get(&Locale::from_string("en_GB")), "English");

    // Fall back to default
    assert_eq!(name.get(&Locale::from_string("de")), "Default");
}

#[test]
fn test_serialization_roundtrip() {
    let content = "[Desktop Entry]\nType=Application\nName=Minimal App\nExec=minimal-app\n";
    let original = DesktopEntry::parse(content).unwrap();

    // Serialize it
    let serialized = original.serialize();

    // Parse it again
    let reparsed = DesktopEntry::parse(&serialized).unwrap();

    // Check that key fields match
    assert_eq!(reparsed.entry_type, original.entry_type);
    assert_eq!(reparsed.name.default, original.name.default);
    assert_eq!(reparsed.exec_cmd, original.exec_cmd);
}

#[test]
fn test_validation_link_without_url() {
    let entry = DesktopEntry::new(DesktopEntryType::Link, LocalizedString::new("Test Link"));

    assert!(entry.validate().is_err());
}

#[test]
fn test_validation_link_with_url() {
    let mut entry = DesktopEntry::new(DesktopEntryType::Link, LocalizedString::new("Test Link"));
    entry.url = Some("https://example.com".to_string());

    assert!(entry.validate().is_ok());
}

#[test]
fn test_validation_application_without_exec() {
    let entry = DesktopEntry::new(
        DesktopEntryType::Application,
        LocalizedString::new("Test App"),
    );

    assert!(entry.validate().is_err());
}

#[test]
fn test_validation_application_with_exec() {
    let mut entry = DesktopEntry::new(
        DesktopEntryType::Application,
        LocalizedString::new("Test App"),
    );
    entry.exec_cmd = Some("test-app".to_string());

    assert!(entry.validate().is_ok());
}

#[test]
fn test_validation_application_with_dbus() {
    let mut entry = DesktopEntry::new(
        DesktopEntryType::Application,
        LocalizedString::new("Test App"),
    );
    entry.dbus_activatable = Some(true);

    assert!(entry.validate().is_ok());
}

// ============================================================================
// Additional invalid input tests
// ============================================================================

#[test]
fn test_invalid_type() {
    let content = "[Desktop Entry]\nType=Bogus\nName=Wrong Type\n";
    let result = DesktopEntry::parse(content);
    assert!(result.is_err());
    match result {
        Err(DesktopEntryError::InvalidValue(key, value)) => {
            assert_eq!(key, "Type");
            assert_eq!(value, "Bogus");
        }
        _ => panic!("Expected InvalidValue error"),
    }
}

#[test]
fn test_missing_type() {
    let content = "[Desktop Entry]\nName=No Type Here\n";
    let result = DesktopEntry::parse(content);
    assert!(result.is_err());
    match result {
        Err(DesktopEntryError::MissingRequiredKey(key)) => assert_eq!(key, "Type"),
        _ => panic!("Expected MissingRequiredKey error"),
    }
}

#[test]
fn test_missing_name() {
    let content = "[Desktop Entry]\nType=Application\nExec=nameless\n";
    let result = DesktopEntry::parse(content);
    assert!(result.is_err());
    match result {
        Err(DesktopEntryError::MissingRequiredKey(key)) => assert_eq!(key, "Name"),
        _ => panic!("Expected MissingRequiredKey error"),
    }
}

#[test]
fn test_link_validation_failure() {
    let content = "[Desktop Entry]\nType=Link\nName=Link Without URL\n";
    let entry = DesktopEntry::parse(content).unwrap();
    assert!(entry.validate().is_err());
}

#[test]
fn test_app_validation_failure() {
    let content = "[Desktop Entry]\nType=Application\nName=App Without Exec\n";
    let entry = DesktopEntry::parse(content).unwrap();
    assert!(entry.validate().is_err());
}

#[test]
fn test_invalid_group_header() {
    let content = "[Desktop Entry]\nType=Application\nName=Bad Header\n\n[Foo\nA=1\n";
    let result = DesktopEntry::parse(content);
    assert!(result.is_err());
    match result {
        Err(DesktopEntryError::InvalidGroupHeader(_, _)) => {}
        _ => panic!("Expected InvalidGroupHeader error"),
    }
}

#[test]
fn test_invalid_line_format() {
    let content = "[Desktop Entry]\nType=Application\nName=Bad Line\ngarbage\n";
    let result = DesktopEntry::parse(content);
    assert!(result.is_err());
    match result {
        Err(DesktopEntryError::InvalidLine(_, _)) => {}
        _ => panic!("Expected InvalidLine error"),
    }
}

// ============================================================================
// Additional valid input tests
// ============================================================================

#[test]
fn test_parse_link_entry() {
    let content =
        "[Desktop Entry]\nType=Link\nName=Example Website Link\nURL=https://www.example.com\n";
    let entry = DesktopEntry::parse(content).unwrap();

    assert_eq!(entry.entry_type, DesktopEntryType::Link);
    assert_eq!(entry.name.default, "Example Website Link");
    assert_eq!(entry.url, Some("https://www.example.com".to_string()));
    assert!(entry.validate().is_ok());
}

#[test]
fn test_parse_directory_entry() {
    let content = "[Desktop Entry]\nType=Directory\nName=Custom Directory\nIcon=folder\n";
    let entry = DesktopEntry::parse(content).unwrap();

    assert_eq!(entry.entry_type, DesktopEntryType::Directory);
    assert_eq!(entry.name.default, "Custom Directory");
    assert!(entry.icon.is_some());
}

#[test]
fn test_parse_terminal_app() {
    let content = "[Desktop Entry]\nType=Application\nName=Terminal App\nExec=term-app\nTerminal=true\n";
    let entry = DesktopEntry::parse(content).unwrap();

    assert_eq!(entry.entry_type, DesktopEntryType::Application);
    assert_eq!(entry.terminal, Some(true));
    assert!(entry.validate().is_ok());
}

#[test]
fn test_parse_dbus_app() {
    let content = "[Desktop Entry]\nType=Application\nName=DBus App\nDBusActivatable=true\n";
    let entry = DesktopEntry::parse(content).unwrap();

    assert_eq!(entry.entry_type, DesktopEntryType::Application);
    assert_eq!(entry.dbus_activatable, Some(true));
    assert!(entry.validate().is_ok());
}

#[test]
fn test_parse_hidden_app() {
    let content = "[Desktop Entry]\nType=Application\nName=Hidden App\nExec=hidden-app\nHidden=true\nNoDisplay=true\n";
    let entry = DesktopEntry::parse(content).unwrap();

    assert_eq!(entry.hidden, Some(true));
    assert_eq!(entry.no_display, Some(true));
}

#[test]
fn test_parse_feature_rich() {
    let content = "[Desktop Entry]\n\
Type=Application\n\
Version=1.5\n\
Name=Feature Rich\n\
Name[de]=Funktionsreich\n\
Name[ja]=多機能\n\
Exec=feature-rich\n\
Keywords=feature;rich;many;\n\
OnlyShowIn=GNOME;KDE;\n\
StartupNotify=true\n\
Actions=edit;view;\n\
\n\
[Desktop Action edit]\n\
Name=Edit\n\
Exec=feature-rich --edit\n\
\n\
[Desktop Action view]\n\
Name=View\n\
Exec=feature-rich --view\n";
    let entry = DesktopEntry::parse(content).unwrap();

    assert_eq!(entry.version, Some("1.5".to_string()));
    assert_eq!(entry.startup_notify, Some(true));

    // Check multiple localizations
    assert_eq!(entry.name.get(&Locale::from_string("de")), "Funktionsreich");
    assert_eq!(entry.name.get(&Locale::from_string("ja")), "多機能");

    // Check keywords
    assert!(entry.keywords.is_some());
    let keywords = entry.keywords.as_ref().unwrap();
    assert!(keywords.default.contains(&"feature".to_string()));

    // Check OnlyShowIn
    assert!(entry.only_show_in.is_some());

    // Check actions
    assert!(entry.actions.is_some());
    assert!(entry.additional_groups.iter().any(|g| g.name == "Desktop Action edit"));
    assert!(entry.additional_groups.iter().any(|g| g.name == "Desktop Action view"));

    assert!(entry.validate().is_ok());
}
