//! The line-oriented grammar: classification of physical lines, grouping
//! with duplicate detection, and the construction of the typed document.
//! The first structural violation aborts the parse; no partial document is
//! ever returned.

use vstd::prelude::*;
use vstd::string::StrSliceExecFns;

use crate::assoc::al_lookup;
use crate::assoc::lemma_mm_add_absent;
use crate::assoc::lemma_mm_add_at;
use crate::assoc::mm_add;
use crate::chars::find_char;
use crate::chars::check_key_chars;
use crate::chars::is_valid_key;
use crate::chars::spec_lines;
use crate::chars::split_lines;
use crate::chars::str_eq;
use crate::chars::trim;
use crate::chars::trim_str;
use crate::errors::DesktopEntryError;
use crate::errors::ErrView;
use crate::fields::build_localized;
use crate::fields::extract_group;
use crate::fields::find_group;
use crate::fields::first_entry_value;
use crate::fields::get_bool_field;
use crate::fields::get_icon_field;
use crate::fields::get_list_field;
use crate::fields::get_loc_field;
use crate::fields::get_loc_list_field;
use crate::fields::get_string_field;
use crate::fields::loc_default;
use crate::fields::loc_map;
use crate::fields::lookup_bucket;
use crate::fields::opt_bool_field;
use crate::fields::opt_list_field;
use crate::fields::opt_loc_field;
use crate::fields::opt_loc_list_field;
use crate::fields::opt_string_field;
use crate::fields::remove_group;
use crate::fields::take_unknown;
use crate::fields::unknown_of;
use crate::locale::Locale;
use crate::locale::LocaleView;
use crate::locale::spec_locale_from_chars;
use crate::model::Comment;
use crate::model::CommentView;
use crate::model::DesktopEntry;
use crate::model::DesktopEntryType;
use crate::model::DesktopEntryView;
use crate::model::Entry;
use crate::model::EntryView;
use crate::model::Group;
use crate::model::GroupView;
use crate::model::buckets_view;
use crate::model::comments_view;
use crate::model::entries_view;
use crate::model::groups_view;
use crate::model::spec_type_from_chars;
use crate::values::LocStrView;

verus! {

/// What one physical line is: blank, comment, group header, key-value
/// entry, or one of the malformed shapes.
pub enum LineClass {
    /// Only blanks.
    Blank,
    /// A comment; carries the text after the `#`.
    CommentLine(Seq<char>),
    /// A well-formed group header; carries the name between the brackets.
    Header(Seq<char>),
    /// Starts with `[` but does not end with `]`.
    BadHeader,
    /// A well-formed key-value line.
    KeyVal(EntryView),
    /// A key-value line whose bare key is empty or holds a forbidden
    /// character; carries the key.
    BadKey(Seq<char>),
    /// Anything else: no `=`, or a locale bracket never closed.
    Malformed,
}

/// Classifies the key part and value of a key-value line: an optional
/// locale suffix `[token]` is split off the key, and the bare key must be
/// nonempty over `A-Za-z0-9-`.
pub open spec fn spec_classify_kv(key_part: Seq<char>, value: Seq<char>) -> LineClass {
    match key_part.index_of_first('[') {
        None => spec_check_key(trim(key_part), None, value),
        Some(bs) => {
            let after = key_part.subrange(bs + 1, key_part.len() as int);
            match after.index_of_first(']') {
                None => LineClass::Malformed,
                Some(j) => spec_check_key(
                    trim(key_part.subrange(0, bs)),
                    Some(spec_locale_from_chars(after.subrange(0, j))),
                    value,
                ),
            }
        },
    }
}

/// See [`spec_classify_kv`].
pub open spec fn spec_check_key(
    key: Seq<char>,
    loc: Option<LocaleView>,
    value: Seq<char>,
) -> LineClass {
    if is_valid_key(key) {
        LineClass::KeyVal(EntryView { key, locale: loc, value })
    } else {
        LineClass::BadKey(key)
    }
}

/// Classification of one physical line. Blank, comment, and header are
/// judged on the trimmed line; a key-value line splits the raw line at its
/// first `=`.
pub open spec fn spec_classify(line: Seq<char>) -> LineClass {
    let t = trim(line);
    if t.len() == 0 {
        LineClass::Blank
    } else if t[0] == '#' {
        LineClass::CommentLine(t.subrange(1, t.len() as int))
    } else if t[0] == '[' {
        if t.len() >= 2 && t.last() == ']' {
            LineClass::Header(t.subrange(1, t.len() as int - 1))
        } else {
            LineClass::BadHeader
        }
    } else {
        match line.index_of_first('=') {
            None => LineClass::Malformed,
            Some(eq) => spec_classify_kv(
                line.subrange(0, eq),
                line.subrange(eq + 1, line.len() as int),
            ),
        }
    }
}

/// The running state of the scan: the groups seen so far (the current one
/// last) and the comments collected before the first header.
#[verifier::ext_equal]
pub struct ScanState {
    /// The groups, in file order; entries go to the last one.
    pub groups: Seq<GroupView>,
    /// Comments and blanks seen before the first header.
    pub comments: Seq<CommentView>,
}

/// The outcome of scanning: the collected state, or the first structural
/// error.
pub enum ScanOut {
    /// No violation so far.
    Good(ScanState),
    /// The first structural violation.
    Fail(ErrView),
}

/// Whether a group of this name was already opened.
pub open spec fn has_group(gs: Seq<GroupView>, name: Seq<char>) -> bool {
    exists|i: int| 0 <= i < gs.len() && gs[i].name == name
}

/// One step of the scan: how the line numbered `lineno` changes the state,
/// or which error it raises.
pub open spec fn spec_scan_line(st: ScanState, lineno: int, line: Seq<char>) -> ScanOut {
    match spec_classify(line) {
        LineClass::Blank => if st.groups.len() == 0 {
            ScanOut::Good(
                ScanState {
                    groups: st.groups,
                    comments: st.comments.push(
                        CommentView { line_number: lineno, content: Seq::empty(), is_blank: true },
                    ),
                },
            )
        } else {
            ScanOut::Good(st)
        },
        LineClass::CommentLine(c) => if st.groups.len() == 0 {
            ScanOut::Good(
                ScanState {
                    groups: st.groups,
                    comments: st.comments.push(
                        CommentView { line_number: lineno, content: c, is_blank: false },
                    ),
                },
            )
        } else {
            ScanOut::Good(st)
        },
        LineClass::Header(name) => if has_group(st.groups, name) {
            ScanOut::Fail(ErrView::DuplicateGroup(name))
        } else {
            ScanOut::Good(
                ScanState {
                    groups: st.groups.push(GroupView { name, entries: Seq::empty() }),
                    comments: st.comments,
                },
            )
        },
        LineClass::BadHeader => ScanOut::Fail(ErrView::InvalidGroupHeader(lineno, line)),
        LineClass::KeyVal(e) => if st.groups.len() == 0 {
            ScanOut::Fail(ErrView::InvalidLine(lineno, line))
        } else {
            let gi = st.groups.len() - 1;
            let g = st.groups[gi];
            ScanOut::Good(
                ScanState {
                    groups: st.groups.update(
                        gi,
                        GroupView { name: g.name, entries: mm_add(g.entries, e.key, e) },
                    ),
                    comments: st.comments,
                },
            )
        },
        LineClass::BadKey(k) => ScanOut::Fail(ErrView::InvalidKeyName(lineno, k)),
        LineClass::Malformed => ScanOut::Fail(ErrView::InvalidLine(lineno, line)),
    }
}

/// The scan of all lines from index `i` on, starting in state `st`.
pub open spec fn spec_scan(lines: Seq<Seq<char>>, i: int, st: ScanState) -> ScanOut
    decreases lines.len() - i,
{
    if i < 0 || i >= lines.len() {
        ScanOut::Good(st)
    } else {
        match spec_scan_line(st, i + 1, lines[i]) {
            ScanOut::Good(st2) => spec_scan(lines, i + 1, st2),
            ScanOut::Fail(e) => ScanOut::Fail(e),
        }
    }
}

/// The outcome of a parse: the document, or the first error.
pub enum ParseOut {
    /// The complete typed document.
    Done(DesktopEntryView),
    /// The first error.
    Fail(ErrView),
}

/// The typed document built from a completed scan, once the main group,
/// its `Type`, and its `Name` are known to exist.
pub open spec fn build_doc(
    ty: DesktopEntryType,
    nes: Seq<EntryView>,
    mm: Seq<(Seq<char>, Seq<EntryView>)>,
    st: ScanState,
) -> DesktopEntryView {
    DesktopEntryView {
        entry_type: ty,
        name: LocStrView { default: loc_default(nes), localized: loc_map(nes) },
        url: opt_string_field(mm, "URL"@),
        version: opt_string_field(mm, "Version"@),
        generic_name: opt_loc_field(mm, "GenericName"@),
        no_display: opt_bool_field(mm, "NoDisplay"@),
        comment: opt_loc_field(mm, "Comment"@),
        icon: opt_loc_field(mm, "Icon"@),
        hidden: opt_bool_field(mm, "Hidden"@),
        only_show_in: opt_list_field(mm, "OnlyShowIn"@),
        not_show_in: opt_list_field(mm, "NotShowIn"@),
        dbus_activatable: opt_bool_field(mm, "DBusActivatable"@),
        try_exec: opt_string_field(mm, "TryExec"@),
        exec_cmd: opt_string_field(mm, "Exec"@),
        path: opt_string_field(mm, "Path"@),
        terminal: opt_bool_field(mm, "Terminal"@),
        actions: opt_list_field(mm, "Actions"@),
        mime_type: opt_list_field(mm, "MimeType"@),
        categories: opt_list_field(mm, "Categories"@),
        implements: opt_list_field(mm, "Implements"@),
        keywords: opt_loc_list_field(mm, "Keywords"@),
        startup_notify: opt_bool_field(mm, "StartupNotify"@),
        startup_wm_class: opt_string_field(mm, "StartupWMClass"@),
        prefers_non_default_gpu: opt_bool_field(mm, "PrefersNonDefaultGPU"@),
        single_main_window: opt_bool_field(mm, "SingleMainWindow"@),
        additional_groups: remove_group(st.groups, "Desktop Entry"@),
        unknown_keys: unknown_of(mm),
        comments: st.comments,
    }
}

/// The document extracted from a completed scan: the main group must
/// exist and carry a `Type` naming one of the three entry types and a
/// `Name`; everything else is optional.
pub open spec fn spec_extract(st: ScanState) -> ParseOut {
    match find_group(st.groups, "Desktop Entry"@) {
        None => ParseOut::Fail(ErrView::MissingDesktopEntryGroup),
        Some(main) => {
            let mm = main.entries;
            match al_lookup(mm, "Type"@) {
                None => ParseOut::Fail(ErrView::MissingRequiredKey("Type"@)),
                Some(tes) => if tes.len() == 0 {
                    ParseOut::Fail(ErrView::MissingRequiredKey("Type"@))
                } else {
                    match spec_type_from_chars(tes[0].value) {
                        None => ParseOut::Fail(ErrView::InvalidValue("Type"@, tes[0].value)),
                        Some(ty) => match al_lookup(mm, "Name"@) {
                            None => ParseOut::Fail(ErrView::MissingRequiredKey("Name"@)),
                            Some(nes) => ParseOut::Done(build_doc(ty, nes, mm, st)),
                        },
                    }
                },
            }
        },
    }
}

/// What parsing a text yields: scan every line in order, stopping at the
/// first violation, then extract the typed document.
pub open spec fn spec_parse(s: Seq<char>) -> ParseOut {
    match spec_scan(spec_lines(s), 0, ScanState { groups: Seq::empty(), comments: Seq::empty() }) {
        ScanOut::Fail(e) => ParseOut::Fail(e),
        ScanOut::Good(st) => spec_extract(st),
    }
}

enum LineKind {
    Blank,
    CommentLine(String),
    Header(String),
    BadHeader,
    KeyVal(Entry),
    BadKey(String),
    Malformed,
}

spec fn kind_view(r: LineKind) -> LineClass {
    match r {
        LineKind::Blank => LineClass::Blank,
        LineKind::CommentLine(s) => LineClass::CommentLine(s@),
        LineKind::Header(s) => LineClass::Header(s@),
        LineKind::BadHeader => LineClass::BadHeader,
        LineKind::KeyVal(e) => LineClass::KeyVal(e@),
        LineKind::BadKey(s) => LineClass::BadKey(s@),
        LineKind::Malformed => LineClass::Malformed,
    }
}

fn classify_line(line: &str) -> (r: LineKind)
    ensures
        kind_view(r) == spec_classify(line@),
{
    let t = trim_str(line);
    let tn = t.unicode_len();
    if tn == 0 {
        return LineKind::Blank;
    }
    let c0 = t.get_char(0);
    if c0 == '#' {
        return LineKind::CommentLine(t.substring_char(1, tn).to_owned());
    }
    if c0 == '[' {
        if tn >= 2 && t.get_char(tn - 1) == ']' {
            return LineKind::Header(t.substring_char(1, tn - 1).to_owned());
        }
        return LineKind::BadHeader;
    }
    let n = line.unicode_len();
    match find_char(line, '=') {
        None => LineKind::Malformed,
        Some(eq) => {
            proof {
                line@.index_of_first_ensures('=');
            }
            let key_part = line.substring_char(0, eq);
            let value = line.substring_char(eq + 1, n);
            let kn = key_part.unicode_len();
            match find_char(key_part, '[') {
                None => {
                    let key = trim_str(key_part);
                    if check_key_chars(key) {
                        LineKind::KeyVal(
                            Entry { key: key.to_owned(), locale: None, value: value.to_owned() },
                        )
                    } else {
                        LineKind::BadKey(key.to_owned())
                    }
                },
                Some(bs) => {
                    proof {
                        key_part@.index_of_first_ensures('[');
                    }
                    let after = key_part.substring_char(bs + 1, kn);
                    match find_char(after, ']') {
                        None => LineKind::Malformed,
                        Some(j) => {
                            proof {
                                after@.index_of_first_ensures(']');
                            }
                            let loc_str = after.substring_char(0, j);
                            let key = trim_str(key_part.substring_char(0, bs));
                            if check_key_chars(key) {
                                LineKind::KeyVal(
                                    Entry {
                                        key: key.to_owned(),
                                        locale: Some(Locale::from_string(loc_str)),
                                        value: value.to_owned(),
                                    },
                                )
                            } else {
                                LineKind::BadKey(key.to_owned())
                            }
                        },
                    }
                },
            }
        },
    }
}

fn has_group_exec(groups: &Vec<Group>, name: &str) -> (r: bool)
    ensures
        r == has_group(groups_view(groups@), name@),
{
    let n = groups.len();
    let mut i: usize = 0;
    while i < n
        invariant
            n == groups@.len(),
            i <= n,
            forall|j: int| 0 <= j < i ==> (#[trigger] groups_view(groups@)[j]).name != name@,
        decreases n - i,
    {
        proof {
            assert(groups_view(groups@)[i as int] == groups@[i as int]@);
        }
        if str_eq(groups[i].name.as_str(), name) {
            return true;
        }
        i = i + 1;
    }
    false
}

fn bucket_add(m: &mut Vec<(String, Vec<Entry>)>, e: Entry)
    ensures
        buckets_view(final(m)@) == mm_add(buckets_view(old(m)@), e@.key, e@),
{
    let n = m.len();
    let mut i: usize = 0;
    while i < n
        invariant
            *m == *old(m),
            n == m@.len(),
            i <= n,
            forall|j: int| 0 <= j < i ==> (#[trigger] buckets_view(m@)[j]).0 != e@.key,
        decreases n - i,
    {
        proof {
            assert(buckets_view(m@)[i as int] == (m@[i as int].0@, entries_view(m@[i as int].1@)));
        }
        if str_eq(m[i].0.as_str(), e.key.as_str()) {
            proof {
                lemma_mm_add_at(buckets_view(m@), e@.key, e@, i as int);
            }
            let mut pair = m.remove(i);
            pair.1.push(e);
            m.insert(i, pair);
            proof {
                assert(entries_view(m@[i as int].1@) =~= entries_view(
                    old(m)@[i as int].1@,
                ).push(e@));
                assert(m@ =~= old(m)@.update(i as int, m@[i as int]));
                assert(buckets_view(m@) =~= buckets_view(old(m)@).update(
                    i as int,
                    (buckets_view(old(m)@)[i as int].0, buckets_view(old(m)@)[i as int].1.push(e@)),
                ));
            }
            return ;
        }
        i = i + 1;
    }
    proof {
        lemma_mm_add_absent(buckets_view(m@), e@.key, e@);
    }
    let key = e.key.clone();
    let mut bucket: Vec<Entry> = Vec::new();
    bucket.push(e);
    m.push((key, bucket));
    proof {
        assert(entries_view(bucket@) =~= seq![e@]);
        assert(buckets_view(m@) =~= buckets_view(old(m)@).push((e@.key, seq![e@])));
    }
}

impl DesktopEntry {
    /// Parses a desktop entry from its text, as [`spec_parse`] describes:
    /// the first structural violation is the error, and on success the
    /// document holds exactly the typed fields, unknown keys, additional
    /// groups, and leading comments of the text.
    pub fn parse(content: &str) -> (r: Result<Self, DesktopEntryError>)
        ensures
            match r {
                Ok(d) => spec_parse(content@) == ParseOut::Done(d@),
                Err(e) => spec_parse(content@) == ParseOut::Fail(e@),
            },
    {
        let ghost ls = spec_lines(content@);
        let ghost st0 = ScanState { groups: Seq::empty(), comments: Seq::empty() };
        let lines = split_lines(content);
        let mut groups: Vec<Group> = Vec::new();
        let mut comments: Vec<Comment> = Vec::new();
        proof {
            assert(groups_view(groups@) =~= Seq::<GroupView>::empty());
            assert(comments_view(comments@) =~= Seq::<CommentView>::empty());
            assert(ScanState {
                groups: groups_view(groups@),
                comments: comments_view(comments@),
            } =~= st0);
        }
        let n = lines.len();
        let mut i: usize = 0;
        while i < n
            invariant
                n == lines@.len(),
                lines@.len() == ls.len(),
                forall|k: int| 0 <= k < ls.len() ==> #[trigger] lines@[k]@ == ls[k],
                i <= n,
                ls == spec_lines(content@),
                st0 == (ScanState {
                    groups: Seq::<GroupView>::empty(),
                    comments: Seq::<CommentView>::empty(),
                }),
                spec_scan(ls, 0, st0) == spec_scan(
                    ls,
                    i as int,
                    ScanState { groups: groups_view(groups@), comments: comments_view(comments@) },
                ),
            decreases n - i,
        {
            let ghost st_cur = ScanState {
                groups: groups_view(groups@),
                comments: comments_view(comments@),
            };
            let kind = classify_line(lines[i].as_str());
            match kind {
                LineKind::Blank => {
                    if groups.len() == 0 {
                        comments.push(
                            Comment { line_number: i + 1, content: String::new(), is_blank: true },
                        );
                        proof {
                            assert(comments_view(comments@) =~= st_cur.comments.push(
                                CommentView {
                                    line_number: i as int + 1,
                                    content: Seq::empty(),
                                    is_blank: true,
                                },
                            ));
                        }
                    }
                    proof {
                        let st_next = ScanState {
                            groups: groups_view(groups@),
                            comments: comments_view(comments@),
                        };
                        assert(spec_scan_line(st_cur, i as int + 1, ls[i as int])
                            == ScanOut::Good(st_next));
                    }
                },
                LineKind::CommentLine(c) => {
                    if groups.len() == 0 {
                        let ghost cv = c@;
                        comments.push(
                            Comment { line_number: i + 1, content: c, is_blank: false },
                        );
                        proof {
                            assert(comments_view(comments@) =~= st_cur.comments.push(
                                CommentView {
                                    line_number: i as int + 1,
                                    content: cv,
                                    is_blank: false,
                                },
                            ));
                        }
                    }
                    proof {
                        let st_next = ScanState {
                            groups: groups_view(groups@),
                            comments: comments_view(comments@),
                        };
                        assert(spec_scan_line(st_cur, i as int + 1, ls[i as int])
                            == ScanOut::Good(st_next));
                    }
                },
                LineKind::Header(name) => {
                    if has_group_exec(&groups, name.as_str()) {
                        proof {
                            assert(spec_scan_line(st_cur, i as int + 1, ls[i as int])
                                == ScanOut::Fail(ErrView::DuplicateGroup(name@)));
                        }
                        return Err(DesktopEntryError::DuplicateGroup(name));
                    }
                    let ghost nv = name@;
                    groups.push(Group { name, entries: Vec::new() });
                    proof {
                        assert(entries_view(Seq::<Entry>::empty()) =~= Seq::<EntryView>::empty());
                        assert(buckets_view(groups@[groups@.len() - 1].entries@) =~= Seq::<
                            (Seq<char>, Seq<EntryView>),
                        >::empty());
                        assert(groups_view(groups@) =~= st_cur.groups.push(
                            GroupView { name: nv, entries: Seq::empty() },
                        ));
                        let st_next = ScanState {
                            groups: groups_view(groups@),
                            comments: comments_view(comments@),
                        };
                        assert(spec_scan_line(st_cur, i as int + 1, ls[i as int])
                            == ScanOut::Good(st_next));
                    }
                },
                LineKind::KeyVal(e) => {
                    if groups.len() == 0 {
                        proof {
                            assert(spec_scan_line(st_cur, i as int + 1, ls[i as int])
                                == ScanOut::Fail(
                                ErrView::InvalidLine(i as int + 1, ls[i as int]),
                            ));
                        }
                        return Err(DesktopEntryError::InvalidLine(i + 1, lines[i].clone()));
                    }
                    let ghost ev = e@;
                    let mut g = match groups.pop() {
                        Some(g) => g,
                        None => {
                            proof {
                                assert(false);
                            }
                            return Err(DesktopEntryError::MissingDesktopEntryGroup);
                        },
                    };
                    let ghost gv = g@;
                    bucket_add(&mut g.entries, e);
                    let ghost gv2 = GroupView { name: gv.name, entries: mm_add(gv.entries, ev.key, ev) };
                    proof {
                        assert(g@ =~= gv2);
                    }
                    groups.push(g);
                    proof {
                        let gi = st_cur.groups.len() - 1;
                        assert(st_cur.groups[gi] == gv);
                        assert(groups_view(groups@) =~= st_cur.groups.update(gi, gv2));
                        let st_next = ScanState {
                            groups: groups_view(groups@),
                            comments: comments_view(comments@),
                        };
                        assert(spec_scan_line(st_cur, i as int + 1, ls[i as int])
                            == ScanOut::Good(st_next));
                    }
                },
                LineKind::BadHeader => {
                    proof {
                        assert(spec_scan_line(st_cur, i as int + 1, ls[i as int])
                            == ScanOut::Fail(
                            ErrView::InvalidGroupHeader(i as int + 1, ls[i as int]),
                        ));
                    }
                    return Err(DesktopEntryError::InvalidGroupHeader(i + 1, lines[i].clone()));
                },
                LineKind::BadKey(k) => {
                    proof {
                        assert(spec_scan_line(st_cur, i as int + 1, ls[i as int])
                            == ScanOut::Fail(ErrView::InvalidKeyName(i as int + 1, k@)));
                    }
                    return Err(DesktopEntryError::InvalidKeyName(i + 1, k));
                },
                LineKind::Malformed => {
                    proof {
                        assert(spec_scan_line(st_cur, i as int + 1, ls[i as int])
                            == ScanOut::Fail(ErrView::InvalidLine(i as int + 1, ls[i as int])));
                    }
                    return Err(DesktopEntryError::InvalidLine(i + 1, lines[i].clone()));
                },
            }
            i = i + 1;
        }
        let ghost st_final = ScanState {
            groups: groups_view(groups@),
            comments: comments_view(comments@),
        };
        proof {
            assert(spec_scan(ls, 0, st0) == ScanOut::Good(st_final));
        }
        extract_document(groups, comments)
    }
}

/// Builds the typed document from a completed scan, as [`spec_extract`]
/// describes.
#[verifier::rlimit(60)]
fn extract_document(mut groups: Vec<Group>, comments: Vec<Comment>) -> (r: Result<
    DesktopEntry,
    DesktopEntryError,
>)
    ensures
        ({
            let st = ScanState {
                groups: groups_view(groups@),
                comments: comments_view(comments@),
            };
            match r {
                Ok(d) => spec_extract(st) == ParseOut::Done(d@),
                Err(e) => spec_extract(st) == ParseOut::Fail(e@),
            }
        }),
{
    let ghost st_final = ScanState {
        groups: groups_view(groups@),
        comments: comments_view(comments@),
    };
    let main = match extract_group(&mut groups, "Desktop Entry") {
            Some(g) => g,
            None => {
                return Err(DesktopEntryError::MissingDesktopEntryGroup);
            },
        };
        let ghost mm = main@.entries;
        let main_entries = main.entries;
        proof {
            assert(buckets_view(main_entries@) == mm);
        }
        let type_val = match first_entry_value(&main_entries, "Type") {
            Some(v) => v,
            None => {
                return Err(DesktopEntryError::MissingRequiredKey("Type".to_owned()));
            },
        };
        let ty = match DesktopEntryType::from_str(type_val.as_str()) {
            Some(t) => t,
            None => {
                return Err(
                    DesktopEntryError::InvalidValue("Type".to_owned(), type_val),
                );
            },
        };
        let name = match lookup_bucket(&main_entries, "Name") {
            Some(es) => build_localized(es),
            None => {
                return Err(DesktopEntryError::MissingRequiredKey("Name".to_owned()));
            },
        };
        let d = DesktopEntry {
            entry_type: ty,
            name,
            url: get_string_field(&main_entries, "URL"),
            version: get_string_field(&main_entries, "Version"),
            generic_name: get_loc_field(&main_entries, "GenericName"),
            no_display: get_bool_field(&main_entries, "NoDisplay"),
            comment: get_loc_field(&main_entries, "Comment"),
            icon: get_icon_field(&main_entries, "Icon"),
            hidden: get_bool_field(&main_entries, "Hidden"),
            only_show_in: get_list_field(&main_entries, "OnlyShowIn"),
            not_show_in: get_list_field(&main_entries, "NotShowIn"),
            dbus_activatable: get_bool_field(&main_entries, "DBusActivatable"),
            try_exec: get_string_field(&main_entries, "TryExec"),
            exec_cmd: get_string_field(&main_entries, "Exec"),
            path: get_string_field(&main_entries, "Path"),
            terminal: get_bool_field(&main_entries, "Terminal"),
            actions: get_list_field(&main_entries, "Actions"),
            mime_type: get_list_field(&main_entries, "MimeType"),
            categories: get_list_field(&main_entries, "Categories"),
            implements: get_list_field(&main_entries, "Implements"),
            keywords: get_loc_list_field(&main_entries, "Keywords"),
            startup_notify: get_bool_field(&main_entries, "StartupNotify"),
            startup_wm_class: get_string_field(&main_entries, "StartupWMClass"),
            prefers_non_default_gpu: get_bool_field(&main_entries, "PrefersNonDefaultGPU"),
            single_main_window: get_bool_field(&main_entries, "SingleMainWindow"),
            additional_groups: groups,
            unknown_keys: take_unknown(main_entries),
            comments,
        };
        proof {
            assert(d@ =~= build_doc(
                ty,
                al_lookup(mm, "Name"@).unwrap(),
                mm,
                st_final,
            ));
        }
        Ok(d)
}

} // verus!
