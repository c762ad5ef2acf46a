//! The typed document model: entry types, raw entries and groups, comments,
//! and the complete desktop entry with its semantic validation.

use vstd::prelude::*;

use crate::chars::str_eq;
use crate::errors::DesktopEntryError;
use crate::errors::ErrView;
use crate::locale::Locale;
use crate::locale::LocaleView;
use crate::locale::view_opt;
use crate::values::IconString;
use crate::values::LocListView;
use crate::values::LocStrView;
use crate::values::LocalizedString;
use crate::values::LocalizedStringList;
use crate::values::strs_view;

verus! {

/// The type of a desktop entry.
#[derive(Debug, Clone, Copy, PartialEq, Eq, Structural)]
pub enum DesktopEntryType {
    /// An application that can be launched.
    Application,
    /// A link to a URL.
    Link,
    /// A directory.
    Directory,
}

/// The entry type named by `s`, if `s` is one of the three recognized
/// type names.
pub open spec fn spec_type_from_chars(s: Seq<char>) -> Option<DesktopEntryType> {
    if s == "Application"@ {
        Some(DesktopEntryType::Application)
    } else if s == "Link"@ {
        Some(DesktopEntryType::Link)
    } else if s == "Directory"@ {
        Some(DesktopEntryType::Directory)
    } else {
        None
    }
}

/// The name of an entry type.
pub open spec fn spec_type_chars(t: DesktopEntryType) -> Seq<char> {
    match t {
        DesktopEntryType::Application => "Application"@,
        DesktopEntryType::Link => "Link"@,
        DesktopEntryType::Directory => "Directory"@,
    }
}

impl DesktopEntryType {
    /// Reads a type name.
    pub fn from_str(s: &str) -> (r: Option<Self>)
        ensures
            r == spec_type_from_chars(s@),
    {
        if str_eq(s, "Application") {
            Some(DesktopEntryType::Application)
        } else if str_eq(s, "Link") {
            Some(DesktopEntryType::Link)
        } else if str_eq(s, "Directory") {
            Some(DesktopEntryType::Directory)
        } else {
            None
        }
    }

    /// Writes the type name.
    pub fn as_str(&self) -> (r: &str)
        ensures
            r@ == spec_type_chars(*self),
    {
        match self {
            DesktopEntryType::Application => "Application",
            DesktopEntryType::Link => "Link",
            DesktopEntryType::Directory => "Directory",
        }
    }
}

/// A comment or blank line kept from before the first group header.
pub struct Comment {
    /// Line number in the original file, counted from one.
    pub line_number: usize,
    /// The comment text without its `#`; empty for a blank line.
    pub content: String,
    /// Whether this was a blank line rather than a comment.
    pub is_blank: bool,
}

/// The mathematical value of a [`Comment`].
#[verifier::ext_equal]
pub struct CommentView {
    /// Line number, counted from one.
    pub line_number: int,
    /// The comment text.
    pub content: Seq<char>,
    /// Whether this was a blank line.
    pub is_blank: bool,
}

impl View for Comment {
    type V = CommentView;

    open spec fn view(&self) -> CommentView {
        CommentView {
            line_number: self.line_number as int,
            content: self.content@,
            is_blank: self.is_blank,
        }
    }
}

/// One physical key-value line: the bare key, its locale tag if any, and
/// the raw value.
pub struct Entry {
    /// The key name, without any locale suffix.
    pub key: String,
    /// The decomposed locale tag, when the key carried one.
    pub locale: Option<Locale>,
    /// The raw value, everything after the first `=`.
    pub value: String,
}

/// The mathematical value of an [`Entry`].
#[verifier::ext_equal]
pub struct EntryView {
    /// The key name.
    pub key: Seq<char>,
    /// The locale tag, when present.
    pub locale: Option<LocaleView>,
    /// The raw value.
    pub value: Seq<char>,
}

impl View for Entry {
    type V = EntryView;

    open spec fn view(&self) -> EntryView {
        EntryView {
            key: self.key@,
            locale: match &self.locale {
                Some(l) => Some(l@),
                None => None,
            },
            value: self.value@,
        }
    }
}

/// The views of a sequence of entries.
pub open spec fn entries_view(v: Seq<Entry>) -> Seq<EntryView> {
    v.map_values(|e: Entry| e@)
}

/// The mathematical value of the entries of a group: buckets of entries
/// keyed by key name, in order of first appearance.
pub open spec fn buckets_view(v: Seq<(String, Vec<Entry>)>) -> Seq<(Seq<char>, Seq<EntryView>)> {
    v.map_values(|p: (String, Vec<Entry>)| (p.0@, entries_view(p.1@)))
}

/// A group other than the main one, kept wholesale: every physical line
/// for a key is preserved, in file order.
pub struct Group {
    /// Name of the group, without the brackets.
    pub name: String,
    /// The entries, bucketed by key in order of first appearance.
    pub entries: Vec<(String, Vec<Entry>)>,
}

/// The mathematical value of a [`Group`].
#[verifier::ext_equal]
pub struct GroupView {
    /// Name of the group.
    pub name: Seq<char>,
    /// The entries, bucketed by key in order of first appearance.
    pub entries: Seq<(Seq<char>, Seq<EntryView>)>,
}

impl View for Group {
    type V = GroupView;

    open spec fn view(&self) -> GroupView {
        GroupView { name: self.name@, entries: buckets_view(self.entries@) }
    }
}

/// The views of a sequence of groups.
pub open spec fn groups_view(v: Seq<Group>) -> Seq<GroupView> {
    v.map_values(|g: Group| g@)
}

/// The views of a sequence of comments.
pub open spec fn comments_view(v: Seq<Comment>) -> Seq<CommentView> {
    v.map_values(|c: Comment| c@)
}

/// The view of an optional localized string.
pub open spec fn view_opt_loc(o: Option<LocalizedString>) -> Option<LocStrView> {
    match o {
        Some(v) => Some(v@),
        None => None,
    }
}

/// The view of an optional icon value.
pub open spec fn view_opt_icon(o: Option<IconString>) -> Option<LocStrView> {
    match o {
        Some(v) => Some(v@),
        None => None,
    }
}

/// The view of an optional localized list.
pub open spec fn view_opt_loc_list(o: Option<LocalizedStringList>) -> Option<LocListView> {
    match o {
        Some(v) => Some(v@),
        None => None,
    }
}

/// The view of an optional list of strings.
pub open spec fn view_opt_strs(o: Option<Vec<String>>) -> Option<Seq<Seq<char>>> {
    match o {
        Some(v) => Some(strs_view(v@)),
        None => None,
    }
}

/// A complete desktop entry: the typed fields of the main group, every
/// other group, the unrecognized keys of the main group, and the leading
/// comments.
pub struct DesktopEntry {
    /// Type of the entry. Required.
    pub entry_type: DesktopEntryType,
    /// Specific name of the entry. Required.
    pub name: LocalizedString,
    /// URL to open; required when the type is `Link`.
    pub url: Option<String>,
    /// Version of the format the file follows.
    pub version: Option<String>,
    /// Generic name, such as `Web Browser`.
    pub generic_name: Option<LocalizedString>,
    /// Whether to keep the entry out of menus.
    pub no_display: Option<bool>,
    /// Tooltip text for the entry.
    pub comment: Option<LocalizedString>,
    /// Icon name or path.
    pub icon: Option<IconString>,
    /// Whether the user has deleted the entry.
    pub hidden: Option<bool>,
    /// Environments that should show the entry.
    pub only_show_in: Option<Vec<String>>,
    /// Environments that should not show the entry.
    pub not_show_in: Option<Vec<String>>,
    /// Whether D-Bus activation is supported.
    pub dbus_activatable: Option<bool>,
    /// Path checked to decide whether the program is installed.
    pub try_exec: Option<String>,
    /// Command line to execute.
    pub exec_cmd: Option<String>,
    /// Working directory for the program.
    pub path: Option<String>,
    /// Whether the program runs in a terminal.
    pub terminal: Option<bool>,
    /// Names of the additional application actions.
    pub actions: Option<Vec<String>>,
    /// MIME types the application supports.
    pub mime_type: Option<Vec<String>>,
    /// Menu categories for the entry.
    pub categories: Option<Vec<String>>,
    /// Interfaces the application implements.
    pub implements: Option<Vec<String>>,
    /// Search keywords, localizable.
    pub keywords: Option<LocalizedStringList>,
    /// Whether the application sends startup notifications.
    pub startup_notify: Option<bool>,
    /// Window manager class hint for startup notification.
    pub startup_wm_class: Option<String>,
    /// Whether the application prefers a discrete GPU.
    pub prefers_non_default_gpu: Option<bool>,
    /// Whether the application keeps a single main window.
    pub single_main_window: Option<bool>,
    /// Every group other than the main one, in file order.
    pub additional_groups: Vec<Group>,
    /// Unrecognized keys of the main group, bucketed by key in order of
    /// first appearance.
    pub unknown_keys: Vec<(String, Vec<Entry>)>,
    /// Comments and blank lines from before the first group header.
    pub comments: Vec<Comment>,
}

/// The mathematical value of a [`DesktopEntry`].
#[verifier::ext_equal]
pub struct DesktopEntryView {
    /// Type of the entry.
    pub entry_type: DesktopEntryType,
    /// Name of the entry.
    pub name: LocStrView,
    /// URL to open.
    pub url: Option<Seq<char>>,
    /// Format version.
    pub version: Option<Seq<char>>,
    /// Generic name.
    pub generic_name: Option<LocStrView>,
    /// Menu suppression flag.
    pub no_display: Option<bool>,
    /// Tooltip text.
    pub comment: Option<LocStrView>,
    /// Icon value.
    pub icon: Option<LocStrView>,
    /// Deletion flag.
    pub hidden: Option<bool>,
    /// Environments that should show the entry.
    pub only_show_in: Option<Seq<Seq<char>>>,
    /// Environments that should not show the entry.
    pub not_show_in: Option<Seq<Seq<char>>>,
    /// D-Bus activation flag.
    pub dbus_activatable: Option<bool>,
    /// Installation test path.
    pub try_exec: Option<Seq<char>>,
    /// Command line.
    pub exec_cmd: Option<Seq<char>>,
    /// Working directory.
    pub path: Option<Seq<char>>,
    /// Terminal flag.
    pub terminal: Option<bool>,
    /// Action names.
    pub actions: Option<Seq<Seq<char>>>,
    /// MIME types.
    pub mime_type: Option<Seq<Seq<char>>>,
    /// Menu categories.
    pub categories: Option<Seq<Seq<char>>>,
    /// Implemented interfaces.
    pub implements: Option<Seq<Seq<char>>>,
    /// Search keywords.
    pub keywords: Option<LocListView>,
    /// Startup notification flag.
    pub startup_notify: Option<bool>,
    /// Window manager class hint.
    pub startup_wm_class: Option<Seq<char>>,
    /// Discrete GPU preference flag.
    pub prefers_non_default_gpu: Option<bool>,
    /// Single main window flag.
    pub single_main_window: Option<bool>,
    /// Every group other than the main one.
    pub additional_groups: Seq<GroupView>,
    /// Unrecognized keys of the main group.
    pub unknown_keys: Seq<(Seq<char>, Seq<EntryView>)>,
    /// Leading comments and blank lines.
    pub comments: Seq<CommentView>,
}

impl View for DesktopEntry {
    type V = DesktopEntryView;

    open spec fn view(&self) -> DesktopEntryView {
        DesktopEntryView {
            entry_type: self.entry_type,
            name: self.name@,
            url: view_opt(self.url),
            version: view_opt(self.version),
            generic_name: view_opt_loc(self.generic_name),
            no_display: self.no_display,
            comment: view_opt_loc(self.comment),
            icon: view_opt_icon(self.icon),
            hidden: self.hidden,
            only_show_in: view_opt_strs(self.only_show_in),
            not_show_in: view_opt_strs(self.not_show_in),
            dbus_activatable: self.dbus_activatable,
            try_exec: view_opt(self.try_exec),
            exec_cmd: view_opt(self.exec_cmd),
            path: view_opt(self.path),
            terminal: self.terminal,
            actions: view_opt_strs(self.actions),
            mime_type: view_opt_strs(self.mime_type),
            categories: view_opt_strs(self.categories),
            implements: view_opt_strs(self.implements),
            keywords: view_opt_loc_list(self.keywords),
            startup_notify: self.startup_notify,
            startup_wm_class: view_opt(self.startup_wm_class),
            prefers_non_default_gpu: self.prefers_non_default_gpu,
            single_main_window: self.single_main_window,
            additional_groups: groups_view(self.additional_groups@),
            unknown_keys: buckets_view(self.unknown_keys@),
            comments: comments_view(self.comments@),
        }
    }
}

/// The view of a fresh entry of the given type and name: every optional
/// field unset and every collection empty.
pub open spec fn spec_new_entry(entry_type: DesktopEntryType, name: LocStrView) -> DesktopEntryView {
    DesktopEntryView {
        entry_type,
        name,
        url: None,
        version: None,
        generic_name: None,
        no_display: None,
        comment: None,
        icon: None,
        hidden: None,
        only_show_in: None,
        not_show_in: None,
        dbus_activatable: None,
        try_exec: None,
        exec_cmd: None,
        path: None,
        terminal: None,
        actions: None,
        mime_type: None,
        categories: None,
        implements: None,
        keywords: None,
        startup_notify: None,
        startup_wm_class: None,
        prefers_non_default_gpu: None,
        single_main_window: None,
        additional_groups: Seq::empty(),
        unknown_keys: Seq::empty(),
        comments: Seq::empty(),
    }
}

/// Whether the type-dependent required fields are missing: a `Link`
/// without a URL, or an `Application` with neither a command line nor
/// D-Bus activation.
pub open spec fn link_url_missing(d: DesktopEntryView) -> bool {
    d.entry_type == DesktopEntryType::Link && d.url is None
}

/// See [`link_url_missing`].
pub open spec fn app_exec_missing(d: DesktopEntryView) -> bool {
    d.entry_type == DesktopEntryType::Application && d.exec_cmd is None && d.dbus_activatable != Some(
        true,
    )
}

impl DesktopEntry {
    /// A minimal entry of the given type and name, with every optional
    /// field unset.
    pub fn new(entry_type: DesktopEntryType, name: LocalizedString) -> (r: Self)
        ensures
            r@ == spec_new_entry(entry_type, name@),
    {
        let r = DesktopEntry {
            entry_type,
            name,
            url: None,
            version: None,
            generic_name: None,
            no_display: None,
            comment: None,
            icon: None,
            hidden: None,
            only_show_in: None,
            not_show_in: None,
            dbus_activatable: None,
            try_exec: None,
            exec_cmd: None,
            path: None,
            terminal: None,
            actions: None,
            mime_type: None,
            categories: None,
            implements: None,
            keywords: None,
            startup_notify: None,
            startup_wm_class: None,
            prefers_non_default_gpu: None,
            single_main_window: None,
            additional_groups: Vec::new(),
            unknown_keys: Vec::new(),
            comments: Vec::new(),
        };
        proof {
            assert(groups_view(r.additional_groups@) =~= Seq::<GroupView>::empty());
            assert(buckets_view(r.unknown_keys@) =~= Seq::<(Seq<char>, Seq<EntryView>)>::empty());
            assert(comments_view(r.comments@) =~= Seq::<CommentView>::empty());
            assert(r@ =~= spec_new_entry(r.entry_type, r.name@));
        }
        r
    }

    /// Checks the type-dependent required fields: a `Link` must carry a
    /// URL, and an `Application` must carry a command line or declare
    /// D-Bus activation. The first failing rule decides the error.
    pub fn validate(&self) -> (r: Result<(), DesktopEntryError>)
        ensures
            match r {
                Ok(_) => !link_url_missing(self@) && !app_exec_missing(self@),
                Err(e) => (link_url_missing(self@) && e@ == ErrView::ValidationError(
                    "URL is required for Link type entries"@,
                )) || (!link_url_missing(self@) && app_exec_missing(self@) && e@
                    == ErrView::ValidationError(
                    "Either Exec key or DBusActivatable=true is required for Application type"@,
                )),
            },
    {
        if self.entry_type == DesktopEntryType::Link && self.url.is_none() {
            return Err(
                DesktopEntryError::ValidationError(
                    "URL is required for Link type entries".to_owned(),
                ),
            );
        }
        if self.entry_type == DesktopEntryType::Application {
            let has_exec = self.exec_cmd.is_some();
            let is_dbus = match self.dbus_activatable {
                Some(b) => b,
                None => false,
            };
            if !has_exec && !is_dbus {
                return Err(
                    DesktopEntryError::ValidationError(
                        "Either Exec key or DBusActivatable=true is required for Application type".to_owned(),
                    ),
                );
            }
        }
        Ok(())
    }
}

} // verus!
