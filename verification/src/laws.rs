//! The round-trip law: serializing a well-formed document and parsing the
//! text back yields a document again, with the entry type, the default
//! name, and the command line preserved exactly.

use vstd::prelude::*;

use crate::chars::is_key_char;
use crate::chars::is_valid_key;
use crate::chars::is_ws;
use crate::chars::lemma_index_of_first_concat;
use crate::chars::lemma_index_of_first_none;
use crate::chars::spec_lines;
use crate::chars::strip_tail_cr;
use crate::chars::trim;
use crate::chars::trim_end;
use crate::chars::trim_start;
use crate::locale::LocaleView;
use crate::locale::lemma_not_contains_concat;
use crate::locale::lemma_opt_part_not_contains;
use crate::locale::opt_contains;
use crate::locale::opt_part;
use crate::locale::spec_locale_from_chars;
use crate::locale::spec_locale_repr;
use crate::assoc::al_lookup;
use crate::assoc::al_set;
use crate::assoc::mm_add;
use crate::model::CommentView;
use crate::model::EntryView;
use crate::model::GroupView;
use crate::parse::LineClass;
use crate::parse::ScanOut;
use crate::parse::ScanState;
use crate::parse::has_group;
use crate::parse::spec_classify;
use crate::parse::spec_scan;
use crate::parse::ParseOut;
use crate::parse::build_doc;
use crate::parse::spec_extract;
use crate::parse::spec_parse;
use crate::parse::spec_scan_line;
use crate::fields::find_group;
use crate::fields::first_untagged;
use crate::fields::loc_default;
use crate::fields::loc_map;
use crate::fields::remove_group;
use crate::fields::unknown_of;
use crate::fields::opt_string_field;
use crate::model::DesktopEntryType;
use crate::model::spec_type_from_chars;
use crate::model::DesktopEntryView;
use crate::model::spec_type_chars;
use crate::serialize::bool_chars;
use crate::serialize::join_semi;
use crate::serialize::ser_bucket;
use crate::serialize::ser_buckets;
use crate::serialize::ser_comment;
use crate::serialize::ser_comments;
use crate::serialize::ser_entry;
use crate::serialize::ser_group;
use crate::serialize::ser_groups;
use crate::serialize::ser_kv;
use crate::serialize::ser_kv_loc;
use crate::serialize::ser_loc_str;
use crate::serialize::ser_loc_variants;
use crate::serialize::ser_loc_list_variants;
use crate::serialize::ser_opt_bool;
use crate::serialize::ser_opt_list;
use crate::serialize::ser_opt_loc_list;
use crate::serialize::ser_opt_loc_str;
use crate::serialize::ser_opt_str;
use crate::serialize::ser_main_a;
use crate::serialize::ser_main_b;
use crate::serialize::ser_main_c;
use crate::serialize::spec_serialize;
use crate::values::LocListView;
use crate::values::LocStrView;

verus! {

/// Text fit for the inside of one physical line: free of line breaks.
pub open spec fn clean(s: Seq<char>) -> bool {
    !s.contains('\n') && !s.contains('\r')
}

/// The text made of the given lines, each followed by one newline.
pub open spec fn unlines(ls: Seq<Seq<char>>) -> Seq<char>
    decreases ls.len(),
{
    if ls.len() == 0 {
        Seq::empty()
    } else {
        ls[0] + seq!['\n'] + unlines(ls.drop_first())
    }
}

pub(crate) proof fn lemma_unlines_append(a: Seq<Seq<char>>, b: Seq<Seq<char>>)
    ensures
        unlines(a + b) == unlines(a) + unlines(b),
    decreases a.len(),
{
    if a.len() == 0 {
        assert(a + b =~= b);
        assert(unlines(a) + unlines(b) =~= unlines(b));
    } else {
        lemma_unlines_append(a.drop_first(), b);
        assert((a + b).drop_first() =~= a.drop_first() + b);
        assert((a + b)[0] == a[0]);
        assert(a[0] + seq!['\n'] + (unlines(a.drop_first()) + unlines(b)) =~= (a[0] + seq!['\n']
            + unlines(a.drop_first())) + unlines(b));
    }
}

pub(crate) proof fn lemma_lines_unfold(line: Seq<char>, rest: Seq<char>)
    requires
        !line.contains('\n'),
    ensures
        spec_lines(line + seq!['\n'] + rest) == seq![strip_tail_cr(line)] + spec_lines(rest),
{
    let s = line + seq!['\n'] + rest;
    lemma_index_of_first_concat(line, rest, '\n');
    assert(s.subrange(0, line.len() as int) =~= line);
    assert(s.subrange(line.len() as int + 1, s.len() as int) =~= rest);
}

/// Splitting the text made of clean lines gives those lines back.
pub(crate) proof fn lemma_spec_lines_unlines(ls: Seq<Seq<char>>)
    requires
        forall|k: int| 0 <= k < ls.len() ==> clean(#[trigger] ls[k]),
    ensures
        spec_lines(unlines(ls)) == ls,
    decreases ls.len(),
{
    if ls.len() == 0 {
        assert(spec_lines(unlines(ls)) =~= ls);
    } else {
        assert(clean(ls[0]));
        lemma_lines_unfold(ls[0], unlines(ls.drop_first()));
        if ls[0].len() > 0 {
            assert(ls[0][ls[0].len() - 1] != '\r');
        }
        assert(strip_tail_cr(ls[0]) == ls[0]);
        lemma_spec_lines_unlines(ls.drop_first());
        assert(seq![ls[0]] + ls.drop_first() =~= ls);
    }
}

pub(crate) proof fn lemma_key_char_facts(c: char)
    requires
        is_key_char(c),
    ensures
        c != '=',
        c != '[',
        c != ']',
        c != '#',
        c != '\n',
        c != '\r',
        !is_ws(c),
{
}

pub(crate) proof fn lemma_valid_key_facts(key: Seq<char>)
    requires
        is_valid_key(key),
    ensures
        !key.contains('='),
        !key.contains('['),
        clean(key),
        key.len() > 0,
        !is_ws(key[0]),
        !is_ws(key[key.len() - 1]),
        key[0] != '#',
        key[0] != '[',
{
    assert forall|i: int| 0 <= i < key.len() implies key[i] != '=' && key[i] != '[' && key[i]
        != '\n' && key[i] != '\r' by {
        lemma_key_char_facts(key[i]);
    }
    lemma_key_char_facts(key[0]);
    lemma_key_char_facts(key[key.len() - 1]);
}

pub(crate) proof fn lemma_trim_start_nonws(s: Seq<char>)
    requires
        s.len() > 0,
        !is_ws(s[0]),
    ensures
        trim_start(s) == s,
{
}

pub(crate) proof fn lemma_trim_end_nonws_last(s: Seq<char>)
    requires
        s.len() > 0,
        !is_ws(s.last()),
    ensures
        trim_end(s) == s,
{
}

pub(crate) proof fn lemma_trim_end_head(s: Seq<char>)
    requires
        s.len() > 0,
        !is_ws(s[0]),
    ensures
        trim_end(s).len() > 0,
        trim_end(s)[0] == s[0],
    decreases s.len(),
{
    if s.len() > 1 && is_ws(s.last()) {
        assert(s.drop_last()[0] == s[0]);
        lemma_trim_end_head(s.drop_last());
    }
}

/// A line that is one `key=value`, with a well-formed key and a clean
/// value, classifies as exactly that entry.
pub(crate) proof fn lemma_classify_kv(key: Seq<char>, value: Seq<char>)
    requires
        is_valid_key(key),
        clean(value),
    ensures
        spec_classify(key + seq!['='] + value) == LineClass::KeyVal(
            EntryView { key, locale: None, value },
        ),
{
    let line = key + seq!['='] + value;
    lemma_valid_key_facts(key);
    assert(line[0] == key[0]);
    lemma_trim_start_nonws(line);
    lemma_trim_end_head(line);
    let t = trim(line);
    assert(t[0] == key[0]);
    lemma_index_of_first_concat(key, value, '=');
    assert(line.subrange(0, key.len() as int) =~= key);
    assert(line.subrange(key.len() as int + 1, line.len() as int) =~= value);
    lemma_index_of_first_none(key, '[');
    lemma_trim_start_nonws(key);
    lemma_trim_end_nonws_last(key);
}

/// A component fit for a bracketed locale tag: clean and free of the two
/// characters that would end the tag or the key part early.
pub open spec fn part_ok(s: Seq<char>) -> bool {
    clean(s) && !s.contains('=') && !s.contains(']')
}

/// See [`part_ok`]; the condition on each present component of a locale.
pub open spec fn locale_ok(l: LocaleView) -> bool {
    &&& part_ok(l.lang)
    &&& (l.country matches Some(c) ==> part_ok(c))
    &&& (l.encoding matches Some(e) ==> part_ok(e))
    &&& (l.modifier matches Some(m) ==> part_ok(m))
}

pub(crate) proof fn lemma_opt_part_ok(sep: char, o: Option<Seq<char>>, c: char)
    requires
        c != sep,
        match o {
            Some(s) => !s.contains(c),
            None => true,
        },
    ensures
        !opt_part(sep, o).contains(c),
{
    lemma_opt_part_not_contains(sep, o, c);
}

pub(crate) proof fn lemma_locale_repr_ok(l: LocaleView)
    requires
        locale_ok(l),
    ensures
        part_ok(spec_locale_repr(l)),
{
    let b2 = l.lang + opt_part('_', l.country);
    let b1 = b2 + opt_part('.', l.encoding);
    let cs = seq!['\n', '\r', '=', ']'];
    assert forall|k: int| 0 <= k < cs.len() implies !spec_locale_repr(l).contains(
        #[trigger] cs[k],
    ) by {
        let c = cs[k];
        lemma_opt_part_ok('_', l.country, c);
        lemma_opt_part_ok('.', l.encoding, c);
        lemma_opt_part_ok('@', l.modifier, c);
        lemma_not_contains_concat(l.lang, opt_part('_', l.country), c);
        lemma_not_contains_concat(b2, opt_part('.', l.encoding), c);
        lemma_not_contains_concat(b1, opt_part('@', l.modifier), c);
    }
    assert(!spec_locale_repr(l).contains(cs[0]));
    assert(!spec_locale_repr(l).contains(cs[1]));
    assert(!spec_locale_repr(l).contains(cs[2]));
    assert(!spec_locale_repr(l).contains(cs[3]));
}

/// A line that is one `key[locale]=value`, with a well-formed key, a
/// well-formed locale tag, and a clean value, classifies as that tagged
/// entry, carrying the decomposition of the recomposed tag.
pub(crate) proof fn lemma_classify_kv_loc(key: Seq<char>, l: LocaleView, value: Seq<char>)
    requires
        is_valid_key(key),
        locale_ok(l),
        clean(value),
    ensures
        spec_classify(key + seq!['['] + spec_locale_repr(l) + seq![']'] + seq!['='] + value)
            == LineClass::KeyVal(
            EntryView {
                key,
                locale: Some(spec_locale_from_chars(spec_locale_repr(l))),
                value,
            },
        ),
{
    let repr = spec_locale_repr(l);
    let kp = key + seq!['['] + repr + seq![']'];
    let line = key + seq!['['] + repr + seq![']'] + seq!['='] + value;
    lemma_valid_key_facts(key);
    lemma_locale_repr_ok(l);
    assert(line[0] == key[0]);
    lemma_trim_start_nonws(line);
    lemma_trim_end_head(line);
    let t = trim(line);
    assert(t[0] == key[0]);
    // the first '=' of the line ends the key part
    lemma_not_contains_concat(key, seq!['['], '=');
    lemma_not_contains_concat(key + seq!['['], repr, '=');
    lemma_not_contains_concat(key + seq!['['] + repr, seq![']'], '=');
    assert(line =~= kp + seq!['='] + value);
    lemma_index_of_first_concat(kp, value, '=');
    assert(line.subrange(0, kp.len() as int) =~= kp);
    assert(line.subrange(kp.len() as int + 1, line.len() as int) =~= value);
    // the first '[' of the key part opens the tag
    assert(kp =~= key + seq!['['] + (repr + seq![']']));
    lemma_index_of_first_concat(key, repr + seq![']'], '[');
    let after = kp.subrange(key.len() as int + 1, kp.len() as int);
    assert(after =~= repr + seq![']']);
    // the first ']' after it closes the tag
    assert(after =~= repr + seq![']'] + Seq::<char>::empty());
    lemma_index_of_first_concat(repr, Seq::empty(), ']');
    assert(after.subrange(0, repr.len() as int) =~= repr);
    // the bare key is already trimmed
    assert(kp.subrange(0, key.len() as int) =~= key);
    lemma_trim_start_nonws(key);
    lemma_trim_end_nonws_last(key);
}

/// A line that is one bracketed header classifies as that header.
pub(crate) proof fn lemma_classify_header(name: Seq<char>)
    requires
        clean(name),
    ensures
        spec_classify(seq!['['] + name + seq![']']) == LineClass::Header(name),
{
    let line = seq!['['] + name + seq![']'];
    assert(line[0] == '[');
    assert(line.last() == ']');
    lemma_trim_start_nonws(line);
    lemma_trim_end_nonws_last(line);
    assert(line.subrange(1, line.len() as int - 1) =~= name);
}

/// The empty line classifies as blank.
pub(crate) proof fn lemma_classify_empty()
    ensures
        spec_classify(Seq::<char>::empty()) == LineClass::Blank,
{
    assert(trim(Seq::<char>::empty()).len() == 0);
}

/// A line that starts with `#` classifies as a comment.
pub(crate) proof fn lemma_classify_comment(content: Seq<char>)
    requires
        clean(content),
    ensures
        spec_classify(seq!['#'] + content) matches LineClass::CommentLine(_),
{
    let line = seq!['#'] + content;
    assert(line[0] == '#');
    lemma_trim_start_nonws(line);
    lemma_trim_end_head(line);
    let t = trim(line);
    assert(t[0] == '#');
}

pub(crate) proof fn lemma_scan_step(lines: Seq<Seq<char>>, i: int, st: ScanState)
    requires
        0 <= i < lines.len(),
    ensures
        spec_scan(lines, i, st) == (match spec_scan_line(st, i + 1, lines[i]) {
            ScanOut::Good(st2) => spec_scan(lines, i + 1, st2),
            ScanOut::Fail(e) => ScanOut::Fail(e),
        }),
{
}

/// Blank and comment lines seen before any group header only collect
/// comments: the groups stay untouched.
pub(crate) proof fn lemma_scan_skip_comments(lines: Seq<Seq<char>>, i: int, k: int, st: ScanState)
    requires
        0 <= i,
        0 <= k,
        i + k <= lines.len(),
        st.groups.len() == 0,
        forall|j: int|
            i <= j < i + k ==> (spec_classify(#[trigger] lines[j]) is Blank || spec_classify(
                lines[j],
            ) is CommentLine),
    ensures
        exists|cm: Seq<CommentView>|
            spec_scan(lines, i, st) == spec_scan(
                lines,
                i + k,
                ScanState { groups: st.groups, comments: cm },
            ),
    decreases k,
{
    if k == 0 {
        assert(st =~= ScanState { groups: st.groups, comments: st.comments });
        assert(spec_scan(lines, i, st) == spec_scan(
            lines,
            i + 0,
            ScanState { groups: st.groups, comments: st.comments },
        ));
    } else {
        lemma_scan_step(lines, i, st);
        assert(spec_classify(lines[i]) is Blank || spec_classify(lines[i]) is CommentLine);
        match spec_classify(lines[i]) {
            LineClass::Blank => {
                let st2 = ScanState {
                    groups: st.groups,
                    comments: st.comments.push(
                        CommentView { line_number: i + 1, content: Seq::empty(), is_blank: true },
                    ),
                };
                assert(spec_scan_line(st, i + 1, lines[i]) == ScanOut::Good(st2));
                lemma_scan_skip_comments(lines, i + 1, k - 1, st2);
                let cm = choose|cm: Seq<CommentView>|
                    spec_scan(lines, i + 1, st2) == spec_scan(
                        lines,
                        i + k,
                        ScanState { groups: st2.groups, comments: cm },
                    );
                assert(spec_scan(lines, i, st) == spec_scan(
                    lines,
                    i + k,
                    ScanState { groups: st.groups, comments: cm },
                ));
            },
            LineClass::CommentLine(c) => {
                let st2 = ScanState {
                    groups: st.groups,
                    comments: st.comments.push(
                        CommentView { line_number: i + 1, content: c, is_blank: false },
                    ),
                };
                assert(spec_scan_line(st, i + 1, lines[i]) == ScanOut::Good(st2));
                lemma_scan_skip_comments(lines, i + 1, k - 1, st2);
                let cm = choose|cm: Seq<CommentView>|
                    spec_scan(lines, i + 1, st2) == spec_scan(
                        lines,
                        i + k,
                        ScanState { groups: st2.groups, comments: cm },
                    );
                assert(spec_scan(lines, i, st) == spec_scan(
                    lines,
                    i + k,
                    ScanState { groups: st.groups, comments: cm },
                ));
            },
            _ => {
                assert(false);
            },
        }
    }
}

/// The group contents after a run of entries, added one at a time.
pub open spec fn mm_adds(
    mm: Seq<(Seq<char>, Seq<EntryView>)>,
    es: Seq<EntryView>,
) -> Seq<(Seq<char>, Seq<EntryView>)>
    decreases es.len(),
{
    if es.len() == 0 {
        mm
    } else {
        mm_adds(mm_add(mm, es[0].key, es[0]), es.drop_first())
    }
}

/// A run of key-value lines fills the last group, entry by entry, and
/// touches nothing else.
pub(crate) proof fn lemma_scan_entries(
    lines: Seq<Seq<char>>,
    i: int,
    st: ScanState,
    es: Seq<EntryView>,
)
    requires
        0 <= i,
        i + es.len() <= lines.len(),
        st.groups.len() > 0,
        forall|j: int|
            0 <= j < es.len() ==> spec_classify(lines[i + j]) == LineClass::KeyVal(
                #[trigger] es[j],
            ),
    ensures
        spec_scan(lines, i, st) == spec_scan(
            lines,
            i + es.len(),
            ScanState {
                groups: st.groups.update(
                    st.groups.len() - 1,
                    GroupView {
                        name: st.groups.last().name,
                        entries: mm_adds(st.groups.last().entries, es),
                    },
                ),
                comments: st.comments,
            },
        ),
    decreases es.len(),
{
    let gi = st.groups.len() - 1;
    let g = st.groups[gi];
    if es.len() == 0 {
        assert(GroupView { name: g.name, entries: mm_adds(g.entries, es) } == g);
        assert(st.groups.update(gi, g) =~= st.groups);
        assert(ScanState {
            groups: st.groups.update(gi, GroupView { name: g.name, entries: mm_adds(g.entries, es) }),
            comments: st.comments,
        } =~= st);
    } else {
        assert(spec_classify(lines[i + 0]) == LineClass::KeyVal(es[0]));
        lemma_scan_step(lines, i, st);
        let g2 = GroupView { name: g.name, entries: mm_add(g.entries, es[0].key, es[0]) };
        let st2 = ScanState { groups: st.groups.update(gi, g2), comments: st.comments };
        assert(spec_scan_line(st, i + 1, lines[i]) == ScanOut::Good(st2));
        assert forall|j: int| 0 <= j < es.drop_first().len() implies spec_classify(lines[i + 1 + j])
            == LineClass::KeyVal(#[trigger] es.drop_first()[j]) by {
            assert(es.drop_first()[j] == es[j + 1]);
            assert(lines[i + 1 + j] == lines[i + (j + 1)]);
            assert(spec_classify(lines[i + (j + 1)]) == LineClass::KeyVal(es[j + 1]));
        }
        lemma_scan_entries(lines, i + 1, st2, es.drop_first());
        assert(st2.groups.len() == st.groups.len());
        assert(st2.groups[gi] == g2);
        assert(st2.groups.last() == g2);
        assert(mm_adds(g.entries, es) == mm_adds(g2.entries, es.drop_first()));
        assert(st2.groups.update(
            gi,
            GroupView { name: g2.name, entries: mm_adds(g2.entries, es.drop_first()) },
        ) =~= st.groups.update(
            gi,
            GroupView { name: g.name, entries: mm_adds(g.entries, es) },
        ));
    }
}


/// The text of one `key=value` line, without its newline.
pub open spec fn kv_line(key: Seq<char>, value: Seq<char>) -> Seq<char> {
    key + seq!['='] + value
}

/// The text of one `key[locale]=value` line, without its newline.
pub open spec fn kv_loc_line(key: Seq<char>, l: LocaleView, value: Seq<char>) -> Seq<char> {
    key + seq!['['] + spec_locale_repr(l) + seq![']'] + seq!['='] + value
}

/// The text of one leading comment or blank line, without its newline.
pub open spec fn comment_line(c: CommentView) -> Seq<char> {
    if c.is_blank {
        Seq::empty()
    } else {
        seq!['#'] + c.content
    }
}

/// The lines the leading comments occupy.
pub open spec fn comment_lines(cs: Seq<CommentView>) -> Seq<Seq<char>> {
    cs.map_values(|c: CommentView| comment_line(c))
}

/// The locale a recomposed tag decomposes back to.
pub open spec fn reparsed_loc(l: LocaleView) -> LocaleView {
    spec_locale_from_chars(spec_locale_repr(l))
}

/// The lines of an optional scalar string field.
pub open spec fn opt_str_lines(key: Seq<char>, v: Option<Seq<char>>) -> Seq<Seq<char>> {
    match v {
        Some(s) => seq![kv_line(key, s)],
        None => seq![],
    }
}

/// The entries those lines classify to.
pub open spec fn opt_str_entries(key: Seq<char>, v: Option<Seq<char>>) -> Seq<EntryView> {
    match v {
        Some(s) => seq![EntryView { key, locale: None, value: s }],
        None => seq![],
    }
}

/// The lines of an optional boolean field.
pub open spec fn opt_bool_lines(key: Seq<char>, v: Option<bool>) -> Seq<Seq<char>> {
    match v {
        Some(b) => seq![kv_line(key, bool_chars(b))],
        None => seq![],
    }
}

/// The entries those lines classify to.
pub open spec fn opt_bool_entries(key: Seq<char>, v: Option<bool>) -> Seq<EntryView> {
    match v {
        Some(b) => seq![EntryView { key, locale: None, value: bool_chars(b) }],
        None => seq![],
    }
}

/// The lines of an optional list field.
pub open spec fn opt_list_lines(key: Seq<char>, v: Option<Seq<Seq<char>>>) -> Seq<Seq<char>> {
    match v {
        Some(l) => seq![kv_line(key, join_semi(l))],
        None => seq![],
    }
}

/// The entries those lines classify to.
pub open spec fn opt_list_entries(key: Seq<char>, v: Option<Seq<Seq<char>>>) -> Seq<EntryView> {
    match v {
        Some(l) => seq![EntryView { key, locale: None, value: join_semi(l) }],
        None => seq![],
    }
}

/// The lines of the locale-tagged variants of a localized string.
pub open spec fn variant_lines(key: Seq<char>, m: Seq<(LocaleView, Seq<char>)>) -> Seq<Seq<char>> {
    m.map_values(|p: (LocaleView, Seq<char>)| kv_loc_line(key, p.0, p.1))
}

/// The entries those lines classify to.
pub open spec fn variant_entries(key: Seq<char>, m: Seq<(LocaleView, Seq<char>)>) -> Seq<
    EntryView,
> {
    m.map_values(
        |p: (LocaleView, Seq<char>)|
            EntryView { key, locale: Some(reparsed_loc(p.0)), value: p.1 },
    )
}

/// The lines of a localized string field: the default, then each variant.
pub open spec fn loc_str_lines(key: Seq<char>, v: LocStrView) -> Seq<Seq<char>> {
    seq![kv_line(key, v.default)] + variant_lines(key, v.localized)
}

/// The entries those lines classify to.
pub open spec fn loc_str_entries(key: Seq<char>, v: LocStrView) -> Seq<EntryView> {
    seq![EntryView { key, locale: None, value: v.default }] + variant_entries(key, v.localized)
}

/// The lines of an optional localized string field.
pub open spec fn opt_loc_str_lines(key: Seq<char>, v: Option<LocStrView>) -> Seq<Seq<char>> {
    match v {
        Some(x) => loc_str_lines(key, x),
        None => seq![],
    }
}

/// The entries those lines classify to.
pub open spec fn opt_loc_str_entries(key: Seq<char>, v: Option<LocStrView>) -> Seq<EntryView> {
    match v {
        Some(x) => loc_str_entries(key, x),
        None => seq![],
    }
}

/// The lines of the locale-tagged variants of a localized list.
pub open spec fn list_variant_lines(key: Seq<char>, m: Seq<(LocaleView, Seq<Seq<char>>)>) -> Seq<
    Seq<char>,
> {
    m.map_values(|p: (LocaleView, Seq<Seq<char>>)| kv_loc_line(key, p.0, join_semi(p.1)))
}

/// The entries those lines classify to.
pub open spec fn list_variant_entries(key: Seq<char>, m: Seq<(LocaleView, Seq<Seq<char>>)>) -> Seq<
    EntryView,
> {
    m.map_values(
        |p: (LocaleView, Seq<Seq<char>>)|
            EntryView { key, locale: Some(reparsed_loc(p.0)), value: join_semi(p.1) },
    )
}

/// The lines of an optional localized list field.
pub open spec fn opt_loc_list_lines(key: Seq<char>, v: Option<LocListView>) -> Seq<Seq<char>> {
    match v {
        Some(x) => seq![kv_line(key, join_semi(x.default))] + list_variant_lines(key, x.localized),
        None => seq![],
    }
}

/// The entries those lines classify to.
pub open spec fn opt_loc_list_entries(key: Seq<char>, v: Option<LocListView>) -> Seq<EntryView> {
    match v {
        Some(x) => seq![EntryView { key, locale: None, value: join_semi(x.default) }]
            + list_variant_entries(key, x.localized),
        None => seq![],
    }
}

/// The text of one raw entry line of a bucket, without its newline.
pub open spec fn entry_line(key: Seq<char>, e: EntryView) -> Seq<char> {
    match e.locale {
        Some(l) => kv_loc_line(key, l, e.value),
        None => kv_line(key, e.value),
    }
}

/// The entry such a line classifies to: the bucket key, the reparsed tag,
/// and the value as written.
pub open spec fn reparsed_entry(key: Seq<char>, e: EntryView) -> EntryView {
    EntryView {
        key,
        locale: match e.locale {
            Some(l) => Some(reparsed_loc(l)),
            None => None,
        },
        value: e.value,
    }
}

/// The lines of one bucket.
pub open spec fn bucket_chunk_lines(key: Seq<char>, es: Seq<EntryView>) -> Seq<Seq<char>> {
    es.map_values(|e: EntryView| entry_line(key, e))
}

/// The entries those lines classify to.
pub open spec fn bucket_chunk_entries(key: Seq<char>, es: Seq<EntryView>) -> Seq<EntryView> {
    es.map_values(|e: EntryView| reparsed_entry(key, e))
}

/// The lines of a sequence of buckets.
pub open spec fn buckets_chunk_lines(mm: Seq<(Seq<char>, Seq<EntryView>)>) -> Seq<Seq<char>>
    decreases mm.len(),
{
    if mm.len() == 0 {
        seq![]
    } else {
        bucket_chunk_lines(mm[0].0, mm[0].1) + buckets_chunk_lines(mm.drop_first())
    }
}

/// The entries those lines classify to.
pub open spec fn buckets_chunk_entries(mm: Seq<(Seq<char>, Seq<EntryView>)>) -> Seq<EntryView>
    decreases mm.len(),
{
    if mm.len() == 0 {
        seq![]
    } else {
        bucket_chunk_entries(mm[0].0, mm[0].1) + buckets_chunk_entries(mm.drop_first())
    }
}

/// The lines of one additional group: its blank separator, its header,
/// then its entries.
pub open spec fn group_chunk_lines(g: GroupView) -> Seq<Seq<char>> {
    seq![Seq::<char>::empty(), seq!['['] + g.name + seq![']']] + buckets_chunk_lines(g.entries)
}

/// The lines of the additional groups.
pub open spec fn groups_chunk_lines(gs: Seq<GroupView>) -> Seq<Seq<char>>
    decreases gs.len(),
{
    if gs.len() == 0 {
        seq![]
    } else {
        group_chunk_lines(gs[0]) + groups_chunk_lines(gs.drop_first())
    }
}

/// The lines of the first third of the main group body.
pub open spec fn main_lines_a(d: DesktopEntryView) -> Seq<Seq<char>> {
    seq![kv_line("Type"@, spec_type_chars(d.entry_type))] + opt_str_lines("Version"@, d.version)
        + loc_str_lines("Name"@, d.name) + opt_loc_str_lines("GenericName"@, d.generic_name)
        + opt_bool_lines("NoDisplay"@, d.no_display) + opt_loc_str_lines("Comment"@, d.comment)
        + opt_loc_str_lines("Icon"@, d.icon) + opt_bool_lines("Hidden"@, d.hidden)
        + opt_list_lines("OnlyShowIn"@, d.only_show_in)
}

/// The lines of the second third of the main group body.
pub open spec fn main_lines_b(d: DesktopEntryView) -> Seq<Seq<char>> {
    opt_list_lines("NotShowIn"@, d.not_show_in) + opt_bool_lines(
        "DBusActivatable"@,
        d.dbus_activatable,
    ) + opt_str_lines("TryExec"@, d.try_exec) + opt_str_lines("Exec"@, d.exec_cmd)
        + opt_str_lines("Path"@, d.path) + opt_bool_lines("Terminal"@, d.terminal)
        + opt_list_lines("Actions"@, d.actions) + opt_list_lines("MimeType"@, d.mime_type)
        + opt_list_lines("Categories"@, d.categories)
}

/// The lines of the last third of the main group body.
pub open spec fn main_lines_c(d: DesktopEntryView) -> Seq<Seq<char>> {
    opt_list_lines("Implements"@, d.implements) + opt_loc_list_lines("Keywords"@, d.keywords)
        + opt_bool_lines("StartupNotify"@, d.startup_notify) + opt_str_lines(
        "StartupWMClass"@,
        d.startup_wm_class,
    ) + opt_str_lines("URL"@, d.url) + opt_bool_lines(
        "PrefersNonDefaultGPU"@,
        d.prefers_non_default_gpu,
    ) + opt_bool_lines("SingleMainWindow"@, d.single_main_window) + buckets_chunk_lines(
        d.unknown_keys,
    )
}

/// The lines of the main group body, in the serializer's schema order.
pub open spec fn main_field_lines(d: DesktopEntryView) -> Seq<Seq<char>> {
    main_lines_a(d) + main_lines_b(d) + main_lines_c(d)
}

/// The entries the first third classifies to.
pub open spec fn main_entries_a(d: DesktopEntryView) -> Seq<EntryView> {
    seq![EntryView { key: "Type"@, locale: None, value: spec_type_chars(d.entry_type) }]
        + opt_str_entries("Version"@, d.version) + loc_str_entries("Name"@, d.name)
        + opt_loc_str_entries("GenericName"@, d.generic_name)
        + opt_bool_entries("NoDisplay"@, d.no_display) + opt_loc_str_entries("Comment"@, d.comment)
        + opt_loc_str_entries("Icon"@, d.icon) + opt_bool_entries("Hidden"@, d.hidden)
        + opt_list_entries("OnlyShowIn"@, d.only_show_in)
}

/// The entries the second third classifies to.
pub open spec fn main_entries_b(d: DesktopEntryView) -> Seq<EntryView> {
    opt_list_entries("NotShowIn"@, d.not_show_in) + opt_bool_entries(
        "DBusActivatable"@,
        d.dbus_activatable,
    ) + opt_str_entries("TryExec"@, d.try_exec) + opt_str_entries("Exec"@, d.exec_cmd)
        + opt_str_entries("Path"@, d.path) + opt_bool_entries("Terminal"@, d.terminal)
        + opt_list_entries("Actions"@, d.actions) + opt_list_entries("MimeType"@, d.mime_type)
        + opt_list_entries("Categories"@, d.categories)
}

/// The entries the last third classifies to.
pub open spec fn main_entries_c(d: DesktopEntryView) -> Seq<EntryView> {
    opt_list_entries("Implements"@, d.implements) + opt_loc_list_entries("Keywords"@, d.keywords)
        + opt_bool_entries("StartupNotify"@, d.startup_notify) + opt_str_entries(
        "StartupWMClass"@,
        d.startup_wm_class,
    ) + opt_str_entries("URL"@, d.url) + opt_bool_entries(
        "PrefersNonDefaultGPU"@,
        d.prefers_non_default_gpu,
    ) + opt_bool_entries("SingleMainWindow"@, d.single_main_window) + buckets_chunk_entries(
        d.unknown_keys,
    )
}

/// The entries the main group body classifies to, in the same order.
pub open spec fn main_field_entries(d: DesktopEntryView) -> Seq<EntryView> {
    main_entries_a(d) + main_entries_b(d) + main_entries_c(d)
}

/// Every line of the serialized document, in order.
pub open spec fn doc_lines(d: DesktopEntryView) -> Seq<Seq<char>> {
    comment_lines(d.comments) + seq![seq!['['] + "Desktop Entry"@ + seq![']']]
        + main_field_lines(d) + groups_chunk_lines(d.additional_groups)
}


pub(crate) proof fn lemma_unlines_single(x: Seq<char>)
    ensures
        unlines(seq![x]) == x + seq!['\n'],
{
    assert(seq![x].drop_first() =~= Seq::<Seq<char>>::empty());
    assert(x + seq!['\n'] + unlines(Seq::<Seq<char>>::empty()) =~= x + seq!['\n']);
}

pub(crate) proof fn lemma_unlines_comments(cs: Seq<CommentView>)
    ensures
        unlines(comment_lines(cs)) == ser_comments(cs),
    decreases cs.len(),
{
    if cs.len() == 0 {
        assert(comment_lines(cs) =~= Seq::<Seq<char>>::empty());
    } else {
        lemma_unlines_comments(cs.drop_first());
        assert(comment_lines(cs)[0] == comment_line(cs[0]));
        assert(comment_lines(cs).drop_first() =~= comment_lines(cs.drop_first()));
        assert(ser_comment(cs[0]) =~= comment_line(cs[0]) + seq!['\n']);
        assert(unlines(comment_lines(cs)) =~= ser_comments(cs));
    }
}

pub(crate) proof fn lemma_unlines_variants(key: Seq<char>, m: Seq<(LocaleView, Seq<char>)>)
    ensures
        unlines(variant_lines(key, m)) == ser_loc_variants(key, m),
    decreases m.len(),
{
    if m.len() == 0 {
        assert(variant_lines(key, m) =~= Seq::<Seq<char>>::empty());
    } else {
        lemma_unlines_variants(key, m.drop_first());
        assert(variant_lines(key, m)[0] == kv_loc_line(key, m[0].0, m[0].1));
        assert(variant_lines(key, m).drop_first() =~= variant_lines(key, m.drop_first()));
        assert(unlines(variant_lines(key, m)) =~= ser_loc_variants(key, m));
    }
}

pub(crate) proof fn lemma_unlines_list_variants(
    key: Seq<char>,
    m: Seq<(LocaleView, Seq<Seq<char>>)>,
)
    ensures
        unlines(list_variant_lines(key, m)) == ser_loc_list_variants(key, m),
    decreases m.len(),
{
    if m.len() == 0 {
        assert(list_variant_lines(key, m) =~= Seq::<Seq<char>>::empty());
    } else {
        lemma_unlines_list_variants(key, m.drop_first());
        assert(list_variant_lines(key, m)[0] == kv_loc_line(key, m[0].0, join_semi(m[0].1)));
        assert(list_variant_lines(key, m).drop_first() =~= list_variant_lines(
            key,
            m.drop_first(),
        ));
        assert(unlines(list_variant_lines(key, m)) =~= ser_loc_list_variants(key, m));
    }
}

pub(crate) proof fn lemma_unlines_bucket(key: Seq<char>, es: Seq<EntryView>)
    ensures
        unlines(bucket_chunk_lines(key, es)) == ser_bucket(key, es),
    decreases es.len(),
{
    if es.len() == 0 {
        assert(bucket_chunk_lines(key, es) =~= Seq::<Seq<char>>::empty());
    } else {
        lemma_unlines_bucket(key, es.drop_first());
        assert(bucket_chunk_lines(key, es)[0] == entry_line(key, es[0]));
        assert(bucket_chunk_lines(key, es).drop_first() =~= bucket_chunk_lines(
            key,
            es.drop_first(),
        ));
        assert(ser_entry(key, es[0]) =~= entry_line(key, es[0]) + seq!['\n']);
        assert(unlines(bucket_chunk_lines(key, es)) =~= ser_bucket(key, es));
    }
}

pub(crate) proof fn lemma_unlines_buckets(mm: Seq<(Seq<char>, Seq<EntryView>)>)
    ensures
        unlines(buckets_chunk_lines(mm)) == ser_buckets(mm),
    decreases mm.len(),
{
    if mm.len() == 0 {
        assert(buckets_chunk_lines(mm) =~= Seq::<Seq<char>>::empty());
    } else {
        lemma_unlines_append(
            bucket_chunk_lines(mm[0].0, mm[0].1),
            buckets_chunk_lines(mm.drop_first()),
        );
        lemma_unlines_bucket(mm[0].0, mm[0].1);
        lemma_unlines_buckets(mm.drop_first());
    }
}

pub(crate) proof fn lemma_unlines_group(g: GroupView)
    ensures
        unlines(group_chunk_lines(g)) == ser_group(g),
{
    let hdr = seq!['['] + g.name + seq![']'];
    lemma_unlines_append(
        seq![Seq::<char>::empty(), hdr],
        buckets_chunk_lines(g.entries),
    );
    lemma_unlines_buckets(g.entries);
    assert(seq![Seq::<char>::empty(), hdr].drop_first() =~= seq![hdr]);
    lemma_unlines_single(hdr);
    assert(unlines(seq![Seq::<char>::empty(), hdr]) =~= seq!['\n'] + seq!['['] + g.name
        + seq![']'] + seq!['\n']);
    assert(unlines(group_chunk_lines(g)) =~= ser_group(g));
}

pub(crate) proof fn lemma_unlines_groups(gs: Seq<GroupView>)
    ensures
        unlines(groups_chunk_lines(gs)) == ser_groups(gs),
    decreases gs.len(),
{
    if gs.len() == 0 {
        assert(groups_chunk_lines(gs) =~= Seq::<Seq<char>>::empty());
    } else {
        lemma_unlines_append(group_chunk_lines(gs[0]), groups_chunk_lines(gs.drop_first()));
        lemma_unlines_group(gs[0]);
        lemma_unlines_groups(gs.drop_first());
    }
}

pub(crate) proof fn lemma_unlines_opt_str(key: Seq<char>, v: Option<Seq<char>>)
    ensures
        unlines(opt_str_lines(key, v)) == ser_opt_str(key, v),
{
    match v {
        Some(s) => {
            lemma_unlines_single(kv_line(key, s));
            assert(kv_line(key, s) + seq!['\n'] =~= ser_kv(key, s));
        },
        None => {
            assert(opt_str_lines(key, v) =~= Seq::<Seq<char>>::empty());
        },
    }
}

pub(crate) proof fn lemma_unlines_opt_bool(key: Seq<char>, v: Option<bool>)
    ensures
        unlines(opt_bool_lines(key, v)) == ser_opt_bool(key, v),
{
    match v {
        Some(b) => {
            lemma_unlines_single(kv_line(key, bool_chars(b)));
            assert(kv_line(key, bool_chars(b)) + seq!['\n'] =~= ser_kv(key, bool_chars(b)));
        },
        None => {
            assert(opt_bool_lines(key, v) =~= Seq::<Seq<char>>::empty());
        },
    }
}

pub(crate) proof fn lemma_unlines_opt_list(key: Seq<char>, v: Option<Seq<Seq<char>>>)
    ensures
        unlines(opt_list_lines(key, v)) == ser_opt_list(key, v),
{
    match v {
        Some(l) => {
            lemma_unlines_single(kv_line(key, join_semi(l)));
            assert(kv_line(key, join_semi(l)) + seq!['\n'] =~= ser_kv(key, join_semi(l)));
        },
        None => {
            assert(opt_list_lines(key, v) =~= Seq::<Seq<char>>::empty());
        },
    }
}

pub(crate) proof fn lemma_unlines_loc_str(key: Seq<char>, v: LocStrView)
    ensures
        unlines(loc_str_lines(key, v)) == ser_loc_str(key, v),
{
    lemma_unlines_append(seq![kv_line(key, v.default)], variant_lines(key, v.localized));
    lemma_unlines_single(kv_line(key, v.default));
    lemma_unlines_variants(key, v.localized);
    assert(kv_line(key, v.default) + seq!['\n'] =~= ser_kv(key, v.default));
}

pub(crate) proof fn lemma_unlines_opt_loc_str(key: Seq<char>, v: Option<LocStrView>)
    ensures
        unlines(opt_loc_str_lines(key, v)) == ser_opt_loc_str(key, v),
{
    match v {
        Some(x) => {
            lemma_unlines_loc_str(key, x);
        },
        None => {
            assert(opt_loc_str_lines(key, v) =~= Seq::<Seq<char>>::empty());
        },
    }
}

pub(crate) proof fn lemma_unlines_opt_loc_list(key: Seq<char>, v: Option<LocListView>)
    ensures
        unlines(opt_loc_list_lines(key, v)) == ser_opt_loc_list(key, v),
{
    match v {
        Some(x) => {
            lemma_unlines_append(
                seq![kv_line(key, join_semi(x.default))],
                list_variant_lines(key, x.localized),
            );
            lemma_unlines_single(kv_line(key, join_semi(x.default)));
            lemma_unlines_list_variants(key, x.localized);
            assert(kv_line(key, join_semi(x.default)) + seq!['\n'] =~= ser_kv(
                key,
                join_semi(x.default),
            ));
        },
        None => {
            assert(opt_loc_list_lines(key, v) =~= Seq::<Seq<char>>::empty());
        },
    }
}

pub(crate) proof fn lemma_unlines_main_a(d: DesktopEntryView)
    ensures
        unlines(main_lines_a(d)) == ser_main_a(d),
{
    let m1 = seq![kv_line("Type"@, spec_type_chars(d.entry_type))];
    let m2 = opt_str_lines("Version"@, d.version);
    let m3 = loc_str_lines("Name"@, d.name);
    let m4 = opt_loc_str_lines("GenericName"@, d.generic_name);
    let m5 = opt_bool_lines("NoDisplay"@, d.no_display);
    let m6 = opt_loc_str_lines("Comment"@, d.comment);
    let m7 = opt_loc_str_lines("Icon"@, d.icon);
    let m8 = opt_bool_lines("Hidden"@, d.hidden);
    let m9 = opt_list_lines("OnlyShowIn"@, d.only_show_in);
    lemma_unlines_append(m1, m2);
    lemma_unlines_append(m1 + m2, m3);
    lemma_unlines_append(m1 + m2 + m3, m4);
    lemma_unlines_append(m1 + m2 + m3 + m4, m5);
    lemma_unlines_append(m1 + m2 + m3 + m4 + m5, m6);
    lemma_unlines_append(m1 + m2 + m3 + m4 + m5 + m6, m7);
    lemma_unlines_append(m1 + m2 + m3 + m4 + m5 + m6 + m7, m8);
    lemma_unlines_append(m1 + m2 + m3 + m4 + m5 + m6 + m7 + m8, m9);
    lemma_unlines_single(kv_line("Type"@, spec_type_chars(d.entry_type)));
    assert(kv_line("Type"@, spec_type_chars(d.entry_type)) + seq!['\n'] =~= ser_kv(
        "Type"@,
        spec_type_chars(d.entry_type),
    ));
    lemma_unlines_opt_str("Version"@, d.version);
    lemma_unlines_loc_str("Name"@, d.name);
    lemma_unlines_opt_loc_str("GenericName"@, d.generic_name);
    lemma_unlines_opt_bool("NoDisplay"@, d.no_display);
    lemma_unlines_opt_loc_str("Comment"@, d.comment);
    lemma_unlines_opt_loc_str("Icon"@, d.icon);
    lemma_unlines_opt_bool("Hidden"@, d.hidden);
    lemma_unlines_opt_list("OnlyShowIn"@, d.only_show_in);
}

pub(crate) proof fn lemma_unlines_main_b(d: DesktopEntryView)
    ensures
        unlines(main_lines_b(d)) == ser_main_b(d),
{
    let m1 = opt_list_lines("NotShowIn"@, d.not_show_in);
    let m2 = opt_bool_lines("DBusActivatable"@, d.dbus_activatable);
    let m3 = opt_str_lines("TryExec"@, d.try_exec);
    let m4 = opt_str_lines("Exec"@, d.exec_cmd);
    let m5 = opt_str_lines("Path"@, d.path);
    let m6 = opt_bool_lines("Terminal"@, d.terminal);
    let m7 = opt_list_lines("Actions"@, d.actions);
    let m8 = opt_list_lines("MimeType"@, d.mime_type);
    let m9 = opt_list_lines("Categories"@, d.categories);
    lemma_unlines_append(m1, m2);
    lemma_unlines_append(m1 + m2, m3);
    lemma_unlines_append(m1 + m2 + m3, m4);
    lemma_unlines_append(m1 + m2 + m3 + m4, m5);
    lemma_unlines_append(m1 + m2 + m3 + m4 + m5, m6);
    lemma_unlines_append(m1 + m2 + m3 + m4 + m5 + m6, m7);
    lemma_unlines_append(m1 + m2 + m3 + m4 + m5 + m6 + m7, m8);
    lemma_unlines_append(m1 + m2 + m3 + m4 + m5 + m6 + m7 + m8, m9);
    lemma_unlines_opt_list("NotShowIn"@, d.not_show_in);
    lemma_unlines_opt_bool("DBusActivatable"@, d.dbus_activatable);
    lemma_unlines_opt_str("TryExec"@, d.try_exec);
    lemma_unlines_opt_str("Exec"@, d.exec_cmd);
    lemma_unlines_opt_str("Path"@, d.path);
    lemma_unlines_opt_bool("Terminal"@, d.terminal);
    lemma_unlines_opt_list("Actions"@, d.actions);
    lemma_unlines_opt_list("MimeType"@, d.mime_type);
    lemma_unlines_opt_list("Categories"@, d.categories);
}

pub(crate) proof fn lemma_unlines_main_c(d: DesktopEntryView)
    ensures
        unlines(main_lines_c(d)) == ser_main_c(d),
{
    let m1 = opt_list_lines("Implements"@, d.implements);
    let m2 = opt_loc_list_lines("Keywords"@, d.keywords);
    let m3 = opt_bool_lines("StartupNotify"@, d.startup_notify);
    let m4 = opt_str_lines("StartupWMClass"@, d.startup_wm_class);
    let m5 = opt_str_lines("URL"@, d.url);
    let m6 = opt_bool_lines("PrefersNonDefaultGPU"@, d.prefers_non_default_gpu);
    let m7 = opt_bool_lines("SingleMainWindow"@, d.single_main_window);
    let m8 = buckets_chunk_lines(d.unknown_keys);
    lemma_unlines_append(m1, m2);
    lemma_unlines_append(m1 + m2, m3);
    lemma_unlines_append(m1 + m2 + m3, m4);
    lemma_unlines_append(m1 + m2 + m3 + m4, m5);
    lemma_unlines_append(m1 + m2 + m3 + m4 + m5, m6);
    lemma_unlines_append(m1 + m2 + m3 + m4 + m5 + m6, m7);
    lemma_unlines_append(m1 + m2 + m3 + m4 + m5 + m6 + m7, m8);
    lemma_unlines_opt_list("Implements"@, d.implements);
    lemma_unlines_opt_loc_list("Keywords"@, d.keywords);
    lemma_unlines_opt_bool("StartupNotify"@, d.startup_notify);
    lemma_unlines_opt_str("StartupWMClass"@, d.startup_wm_class);
    lemma_unlines_opt_str("URL"@, d.url);
    lemma_unlines_opt_bool("PrefersNonDefaultGPU"@, d.prefers_non_default_gpu);
    lemma_unlines_opt_bool("SingleMainWindow"@, d.single_main_window);
    lemma_unlines_buckets(d.unknown_keys);
}

pub(crate) proof fn lemma_unlines_main(d: DesktopEntryView)
    ensures
        unlines(main_field_lines(d)) == ser_main_a(d) + ser_main_b(d) + ser_main_c(d),
{
    lemma_unlines_append(main_lines_a(d), main_lines_b(d));
    lemma_unlines_append(main_lines_a(d) + main_lines_b(d), main_lines_c(d));
    lemma_unlines_main_a(d);
    lemma_unlines_main_b(d);
    lemma_unlines_main_c(d);
}

/// The serialized text is exactly the document's lines, each closed by a
/// newline.
pub(crate) proof fn lemma_serialize_is_unlines(d: DesktopEntryView)
    ensures
        spec_serialize(d) == unlines(doc_lines(d)),
{
    let hdr = seq!['['] + "Desktop Entry"@ + seq![']'];
    let la = comment_lines(d.comments);
    let l2 = la + seq![hdr];
    let l3 = l2 + main_field_lines(d);
    lemma_unlines_append(la, seq![hdr]);
    lemma_unlines_append(l2, main_field_lines(d));
    lemma_unlines_append(l3, groups_chunk_lines(d.additional_groups));
    lemma_unlines_comments(d.comments);
    lemma_unlines_single(hdr);
    lemma_unlines_main(d);
    lemma_unlines_groups(d.additional_groups);
    assert(doc_lines(d) == l3 + groups_chunk_lines(d.additional_groups));
    assert(spec_serialize(d) =~= unlines(doc_lines(d)));
}

pub(crate) proof fn lemma_key_type()
    ensures
        is_valid_key("Type"@),
{
    reveal_strlit("Type");
    assert("Type"@ =~= seq!['T', 'y', 'p', 'e']);
    assert(is_valid_key(seq!['T', 'y', 'p', 'e']));
}

pub(crate) proof fn lemma_key_name()
    ensures
        is_valid_key("Name"@),
{
    reveal_strlit("Name");
    assert("Name"@ =~= seq!['N', 'a', 'm', 'e']);
    assert(is_valid_key(seq!['N', 'a', 'm', 'e']));
}

pub(crate) proof fn lemma_key_version()
    ensures
        is_valid_key("Version"@),
{
    reveal_strlit("Version");
    assert("Version"@ =~= seq!['V', 'e', 'r', 's', 'i', 'o', 'n']);
    assert(is_valid_key(seq!['V', 'e', 'r', 's', 'i', 'o', 'n']));
}

pub(crate) proof fn lemma_key_genericname()
    ensures
        is_valid_key("GenericName"@),
{
    reveal_strlit("GenericName");
    assert("GenericName"@ =~= seq!['G', 'e', 'n', 'e', 'r', 'i', 'c', 'N', 'a', 'm', 'e']);
    assert(is_valid_key(seq!['G', 'e', 'n', 'e', 'r', 'i', 'c', 'N', 'a', 'm', 'e']));
}

pub(crate) proof fn lemma_key_nodisplay()
    ensures
        is_valid_key("NoDisplay"@),
{
    reveal_strlit("NoDisplay");
    assert("NoDisplay"@ =~= seq!['N', 'o', 'D', 'i', 's', 'p', 'l', 'a', 'y']);
    assert(is_valid_key(seq!['N', 'o', 'D', 'i', 's', 'p', 'l', 'a', 'y']));
}

pub(crate) proof fn lemma_key_comment()
    ensures
        is_valid_key("Comment"@),
{
    reveal_strlit("Comment");
    assert("Comment"@ =~= seq!['C', 'o', 'm', 'm', 'e', 'n', 't']);
    assert(is_valid_key(seq!['C', 'o', 'm', 'm', 'e', 'n', 't']));
}

pub(crate) proof fn lemma_key_icon()
    ensures
        is_valid_key("Icon"@),
{
    reveal_strlit("Icon");
    assert("Icon"@ =~= seq!['I', 'c', 'o', 'n']);
    assert(is_valid_key(seq!['I', 'c', 'o', 'n']));
}

pub(crate) proof fn lemma_key_hidden()
    ensures
        is_valid_key("Hidden"@),
{
    reveal_strlit("Hidden");
    assert("Hidden"@ =~= seq!['H', 'i', 'd', 'd', 'e', 'n']);
    assert(is_valid_key(seq!['H', 'i', 'd', 'd', 'e', 'n']));
}

pub(crate) proof fn lemma_key_onlyshowin()
    ensures
        is_valid_key("OnlyShowIn"@),
{
    reveal_strlit("OnlyShowIn");
    assert("OnlyShowIn"@ =~= seq!['O', 'n', 'l', 'y', 'S', 'h', 'o', 'w', 'I', 'n']);
    assert(is_valid_key(seq!['O', 'n', 'l', 'y', 'S', 'h', 'o', 'w', 'I', 'n']));
}

pub(crate) proof fn lemma_key_notshowin()
    ensures
        is_valid_key("NotShowIn"@),
{
    reveal_strlit("NotShowIn");
    assert("NotShowIn"@ =~= seq!['N', 'o', 't', 'S', 'h', 'o', 'w', 'I', 'n']);
    assert(is_valid_key(seq!['N', 'o', 't', 'S', 'h', 'o', 'w', 'I', 'n']));
}

pub(crate) proof fn lemma_key_dbusactivatable()
    ensures
        is_valid_key("DBusActivatable"@),
{
    reveal_strlit("DBusActivatable");
    assert("DBusActivatable"@ =~= seq!['D', 'B', 'u', 's', 'A', 'c', 't', 'i', 'v', 'a', 't', 'a', 'b', 'l', 'e']);
    assert(is_valid_key(seq!['D', 'B', 'u', 's', 'A', 'c', 't', 'i', 'v', 'a', 't', 'a', 'b', 'l', 'e']));
}

pub(crate) proof fn lemma_key_tryexec()
    ensures
        is_valid_key("TryExec"@),
{
    reveal_strlit("TryExec");
    assert("TryExec"@ =~= seq!['T', 'r', 'y', 'E', 'x', 'e', 'c']);
    assert(is_valid_key(seq!['T', 'r', 'y', 'E', 'x', 'e', 'c']));
}

pub(crate) proof fn lemma_key_exec()
    ensures
        is_valid_key("Exec"@),
{
    reveal_strlit("Exec");
    assert("Exec"@ =~= seq!['E', 'x', 'e', 'c']);
    assert(is_valid_key(seq!['E', 'x', 'e', 'c']));
}

pub(crate) proof fn lemma_key_path()
    ensures
        is_valid_key("Path"@),
{
    reveal_strlit("Path");
    assert("Path"@ =~= seq!['P', 'a', 't', 'h']);
    assert(is_valid_key(seq!['P', 'a', 't', 'h']));
}

pub(crate) proof fn lemma_key_terminal()
    ensures
        is_valid_key("Terminal"@),
{
    reveal_strlit("Terminal");
    assert("Terminal"@ =~= seq!['T', 'e', 'r', 'm', 'i', 'n', 'a', 'l']);
    assert(is_valid_key(seq!['T', 'e', 'r', 'm', 'i', 'n', 'a', 'l']));
}

pub(crate) proof fn lemma_key_actions()
    ensures
        is_valid_key("Actions"@),
{
    reveal_strlit("Actions");
    assert("Actions"@ =~= seq!['A', 'c', 't', 'i', 'o', 'n', 's']);
    assert(is_valid_key(seq!['A', 'c', 't', 'i', 'o', 'n', 's']));
}

pub(crate) proof fn lemma_key_mimetype()
    ensures
        is_valid_key("MimeType"@),
{
    reveal_strlit("MimeType");
    assert("MimeType"@ =~= seq!['M', 'i', 'm', 'e', 'T', 'y', 'p', 'e']);
    assert(is_valid_key(seq!['M', 'i', 'm', 'e', 'T', 'y', 'p', 'e']));
}

pub(crate) proof fn lemma_key_categories()
    ensures
        is_valid_key("Categories"@),
{
    reveal_strlit("Categories");
    assert("Categories"@ =~= seq!['C', 'a', 't', 'e', 'g', 'o', 'r', 'i', 'e', 's']);
    assert(is_valid_key(seq!['C', 'a', 't', 'e', 'g', 'o', 'r', 'i', 'e', 's']));
}

pub(crate) proof fn lemma_key_implements()
    ensures
        is_valid_key("Implements"@),
{
    reveal_strlit("Implements");
    assert("Implements"@ =~= seq!['I', 'm', 'p', 'l', 'e', 'm', 'e', 'n', 't', 's']);
    assert(is_valid_key(seq!['I', 'm', 'p', 'l', 'e', 'm', 'e', 'n', 't', 's']));
}

pub(crate) proof fn lemma_key_keywords()
    ensures
        is_valid_key("Keywords"@),
{
    reveal_strlit("Keywords");
    assert("Keywords"@ =~= seq!['K', 'e', 'y', 'w', 'o', 'r', 'd', 's']);
    assert(is_valid_key(seq!['K', 'e', 'y', 'w', 'o', 'r', 'd', 's']));
}

pub(crate) proof fn lemma_key_startupnotify()
    ensures
        is_valid_key("StartupNotify"@),
{
    reveal_strlit("StartupNotify");
    assert("StartupNotify"@ =~= seq!['S', 't', 'a', 'r', 't', 'u', 'p', 'N', 'o', 't', 'i', 'f', 'y']);
    assert(is_valid_key(seq!['S', 't', 'a', 'r', 't', 'u', 'p', 'N', 'o', 't', 'i', 'f', 'y']));
}

pub(crate) proof fn lemma_key_startupwmclass()
    ensures
        is_valid_key("StartupWMClass"@),
{
    reveal_strlit("StartupWMClass");
    assert("StartupWMClass"@ =~= seq!['S', 't', 'a', 'r', 't', 'u', 'p', 'W', 'M', 'C', 'l', 'a', 's', 's']);
    assert(is_valid_key(seq!['S', 't', 'a', 'r', 't', 'u', 'p', 'W', 'M', 'C', 'l', 'a', 's', 's']));
}

pub(crate) proof fn lemma_key_url()
    ensures
        is_valid_key("URL"@),
{
    reveal_strlit("URL");
    assert("URL"@ =~= seq!['U', 'R', 'L']);
    assert(is_valid_key(seq!['U', 'R', 'L']));
}

pub(crate) proof fn lemma_key_prefersnondefaultgpu()
    ensures
        is_valid_key("PrefersNonDefaultGPU"@),
{
    reveal_strlit("PrefersNonDefaultGPU");
    assert("PrefersNonDefaultGPU"@ =~= seq!['P', 'r', 'e', 'f', 'e', 'r', 's', 'N', 'o', 'n', 'D', 'e', 'f', 'a', 'u', 'l', 't', 'G', 'P', 'U']);
    assert(is_valid_key(seq!['P', 'r', 'e', 'f', 'e', 'r', 's', 'N', 'o', 'n', 'D', 'e', 'f', 'a', 'u', 'l', 't', 'G', 'P', 'U']));
}

pub(crate) proof fn lemma_key_singlemainwindow()
    ensures
        is_valid_key("SingleMainWindow"@),
{
    reveal_strlit("SingleMainWindow");
    assert("SingleMainWindow"@ =~= seq!['S', 'i', 'n', 'g', 'l', 'e', 'M', 'a', 'i', 'n', 'W', 'i', 'n', 'd', 'o', 'w']);
    assert(is_valid_key(seq!['S', 'i', 'n', 'g', 'l', 'e', 'M', 'a', 'i', 'n', 'W', 'i', 'n', 'd', 'o', 'w']));
}

pub(crate) proof fn lemma_lit_desktop_entry_clean()
    ensures
        clean("Desktop Entry"@),
{
    reveal_strlit("Desktop Entry");
    assert("Desktop Entry"@ =~= seq!['D', 'e', 's', 'k', 't', 'o', 'p', ' ', 'E', 'n', 't', 'r', 'y']);
    assert(!seq!['D', 'e', 's', 'k', 't', 'o', 'p', ' ', 'E', 'n', 't', 'r', 'y'].contains('\n'));
    assert(!seq!['D', 'e', 's', 'k', 't', 'o', 'p', ' ', 'E', 'n', 't', 'r', 'y'].contains('\r'));
}

pub(crate) proof fn lemma_lit_application_clean()
    ensures
        clean("Application"@),
{
    reveal_strlit("Application");
    assert("Application"@ =~= seq!['A', 'p', 'p', 'l', 'i', 'c', 'a', 't', 'i', 'o', 'n']);
    assert(!seq!['A', 'p', 'p', 'l', 'i', 'c', 'a', 't', 'i', 'o', 'n'].contains('\n'));
    assert(!seq!['A', 'p', 'p', 'l', 'i', 'c', 'a', 't', 'i', 'o', 'n'].contains('\r'));
}

pub(crate) proof fn lemma_lit_link_clean()
    ensures
        clean("Link"@),
{
    reveal_strlit("Link");
    assert("Link"@ =~= seq!['L', 'i', 'n', 'k']);
    assert(!seq!['L', 'i', 'n', 'k'].contains('\n'));
    assert(!seq!['L', 'i', 'n', 'k'].contains('\r'));
}

pub(crate) proof fn lemma_lit_directory_clean()
    ensures
        clean("Directory"@),
{
    reveal_strlit("Directory");
    assert("Directory"@ =~= seq!['D', 'i', 'r', 'e', 'c', 't', 'o', 'r', 'y']);
    assert(!seq!['D', 'i', 'r', 'e', 'c', 't', 'o', 'r', 'y'].contains('\n'));
    assert(!seq!['D', 'i', 'r', 'e', 'c', 't', 'o', 'r', 'y'].contains('\r'));
}

pub(crate) proof fn lemma_lit_true_clean()
    ensures
        clean("true"@),
{
    reveal_strlit("true");
    assert("true"@ =~= seq!['t', 'r', 'u', 'e']);
    assert(!seq!['t', 'r', 'u', 'e'].contains('\n'));
    assert(!seq!['t', 'r', 'u', 'e'].contains('\r'));
}

pub(crate) proof fn lemma_lit_false_clean()
    ensures
        clean("false"@),
{
    reveal_strlit("false");
    assert("false"@ =~= seq!['f', 'a', 'l', 's', 'e']);
    assert(!seq!['f', 'a', 'l', 's', 'e'].contains('\n'));
    assert(!seq!['f', 'a', 'l', 's', 'e'].contains('\r'));
}

/// Every line of the list is clean.
pub open spec fn all_clean(ls: Seq<Seq<char>>) -> bool {
    forall|k: int| 0 <= k < ls.len() ==> clean(#[trigger] ls[k])
}

pub(crate) proof fn lemma_all_clean_append(a: Seq<Seq<char>>, b: Seq<Seq<char>>)
    requires
        all_clean(a),
        all_clean(b),
    ensures
        all_clean(a + b),
{
    assert forall|k: int| 0 <= k < (a + b).len() implies clean(#[trigger] (a + b)[k]) by {
        if k < a.len() {
            assert((a + b)[k] == a[k]);
        } else {
            assert((a + b)[k] == b[k - a.len()]);
        }
    }
}

pub(crate) proof fn lemma_clean_concat(a: Seq<char>, b: Seq<char>)
    requires
        clean(a),
        clean(b),
    ensures
        clean(a + b),
{
    lemma_not_contains_concat(a, b, '\n');
    lemma_not_contains_concat(a, b, '\r');
}

pub(crate) proof fn lemma_clean_single(c: char)
    requires
        c != '\n',
        c != '\r',
    ensures
        clean(seq![c]),
{
    assert(forall|i: int| 0 <= i < 1 ==> #[trigger] seq![c][i] == c);
}

pub(crate) proof fn lemma_kv_line_clean(key: Seq<char>, value: Seq<char>)
    requires
        clean(key),
        clean(value),
    ensures
        clean(kv_line(key, value)),
{
    lemma_clean_single('=');
    lemma_clean_concat(key, seq!['=']);
    lemma_clean_concat(key + seq!['='], value);
}

pub(crate) proof fn lemma_kv_loc_line_clean(key: Seq<char>, l: LocaleView, value: Seq<char>)
    requires
        clean(key),
        locale_ok(l),
        clean(value),
    ensures
        clean(kv_loc_line(key, l, value)),
{
    lemma_locale_repr_ok(l);
    lemma_clean_single('[');
    lemma_clean_single(']');
    lemma_clean_single('=');
    lemma_clean_concat(key, seq!['[']);
    lemma_clean_concat(key + seq!['['], spec_locale_repr(l));
    lemma_clean_concat(key + seq!['['] + spec_locale_repr(l), seq![']']);
    lemma_clean_concat(key + seq!['['] + spec_locale_repr(l) + seq![']'], seq!['=']);
    lemma_clean_concat(key + seq!['['] + spec_locale_repr(l) + seq![']'] + seq!['='], value);
}

/// Every item of the list is clean.
pub open spec fn list_clean(l: Seq<Seq<char>>) -> bool {
    forall|j: int| 0 <= j < l.len() ==> clean(#[trigger] l[j])
}

pub(crate) proof fn lemma_join_semi_clean(l: Seq<Seq<char>>)
    requires
        list_clean(l),
    ensures
        clean(join_semi(l)),
    decreases l.len(),
{
    if l.len() == 0 {
        assert(!join_semi(l).contains('\n'));
        assert(!join_semi(l).contains('\r'));
    } else if l.len() == 1 {
        assert(clean(l[0]));
    } else {
        assert(clean(l[0]));
        assert forall|j: int| 0 <= j < l.drop_first().len() implies clean(
            #[trigger] l.drop_first()[j],
        ) by {
            assert(l.drop_first()[j] == l[j + 1]);
        }
        lemma_join_semi_clean(l.drop_first());
        lemma_clean_single(';');
        lemma_clean_concat(l[0], seq![';']);
        lemma_clean_concat(l[0] + seq![';'], join_semi(l.drop_first()));
    }
}

/// The locale-tagged variants of a string field are fit for emission.
pub open spec fn variants_wf(m: Seq<(LocaleView, Seq<char>)>) -> bool {
    forall|j: int| 0 <= j < m.len() ==> locale_ok((#[trigger] m[j]).0) && clean(m[j].1)
}

/// The locale-tagged variants of a list field are fit for emission.
pub open spec fn list_variants_wf(m: Seq<(LocaleView, Seq<Seq<char>>)>) -> bool {
    forall|j: int| 0 <= j < m.len() ==> locale_ok((#[trigger] m[j]).0) && list_clean(m[j].1)
}

/// An optional scalar value fit for one line.
pub open spec fn opt_clean(v: Option<Seq<char>>) -> bool {
    v matches Some(s) ==> clean(s)
}

/// An optional list value fit for one line.
pub open spec fn opt_list_clean(v: Option<Seq<Seq<char>>>) -> bool {
    v matches Some(l) ==> list_clean(l)
}

/// An optional localized string fit for emission.
pub open spec fn opt_loc_wf(v: Option<LocStrView>) -> bool {
    v matches Some(x) ==> clean(x.default) && variants_wf(x.localized)
}

/// An optional localized list fit for emission.
pub open spec fn opt_loc_list_wf(v: Option<LocListView>) -> bool {
    v matches Some(x) ==> list_clean(x.default) && list_variants_wf(x.localized)
}

/// A raw entry fit for emission under its bucket key.
pub open spec fn entry_emit_wf(e: EntryView) -> bool {
    clean(e.value) && (e.locale matches Some(l) ==> locale_ok(l))
}

/// A bucket fit for emission: a well-formed key and well-formed entries.
pub open spec fn bucket_emit_wf(b: (Seq<char>, Seq<EntryView>)) -> bool {
    is_valid_key(b.0) && forall|j: int| 0 <= j < b.1.len() ==> entry_emit_wf(#[trigger] b.1[j])
}

/// Buckets fit for emission.
pub open spec fn buckets_emit_wf(mm: Seq<(Seq<char>, Seq<EntryView>)>) -> bool {
    forall|j: int| 0 <= j < mm.len() ==> bucket_emit_wf(#[trigger] mm[j])
}

/// A group fit for emission.
pub open spec fn group_emit_wf(g: GroupView) -> bool {
    clean(g.name) && buckets_emit_wf(g.entries)
}

/// The well-formed documents: every value, key, locale component, group
/// name, and comment fits on its line, unknown keys stay off the typed
/// keys, and group names are unique and distinct from the main group.
/// Every document parsed from text without carriage returns is of this
/// kind.
pub open spec fn doc_wf(d: DesktopEntryView) -> bool {
    &&& forall|j: int|
        0 <= j < d.comments.len() ==> clean((#[trigger] d.comments[j]).content)
    &&& clean(d.name.default)
    &&& variants_wf(d.name.localized)
    &&& opt_clean(d.url)
    &&& opt_clean(d.version)
    &&& opt_clean(d.try_exec)
    &&& opt_clean(d.exec_cmd)
    &&& opt_clean(d.path)
    &&& opt_clean(d.startup_wm_class)
    &&& opt_loc_wf(d.generic_name)
    &&& opt_loc_wf(d.comment)
    &&& opt_loc_wf(d.icon)
    &&& opt_list_clean(d.only_show_in)
    &&& opt_list_clean(d.not_show_in)
    &&& opt_list_clean(d.actions)
    &&& opt_list_clean(d.mime_type)
    &&& opt_list_clean(d.categories)
    &&& opt_list_clean(d.implements)
    &&& opt_loc_list_wf(d.keywords)
    &&& forall|j: int|
        0 <= j < d.unknown_keys.len() ==> bucket_emit_wf(#[trigger] d.unknown_keys[j])
            && !crate::fields::is_known_key(d.unknown_keys[j].0)
    &&& forall|j: int|
        0 <= j < d.additional_groups.len() ==> group_emit_wf(#[trigger] d.additional_groups[j])
            && d.additional_groups[j].name != "Desktop Entry"@
    &&& forall|j: int, k: int|
        0 <= j < k < d.additional_groups.len() ==> (#[trigger] d.additional_groups[j]).name != (
        #[trigger] d.additional_groups[k]).name
}


/// The lines classify, one to one, to the given key-value entries.
pub open spec fn classifies_to(ls: Seq<Seq<char>>, es: Seq<EntryView>) -> bool {
    &&& ls.len() == es.len()
    &&& forall|j: int|
        0 <= j < ls.len() ==> spec_classify(#[trigger] ls[j]) == LineClass::KeyVal(es[j])
}

pub(crate) proof fn lemma_classifies_append(
    al: Seq<Seq<char>>,
    ae: Seq<EntryView>,
    bl: Seq<Seq<char>>,
    be: Seq<EntryView>,
)
    requires
        classifies_to(al, ae),
        classifies_to(bl, be),
    ensures
        classifies_to(al + bl, ae + be),
{
    assert forall|j: int| 0 <= j < (al + bl).len() implies spec_classify(#[trigger] (al + bl)[j])
        == LineClass::KeyVal((ae + be)[j]) by {
        if j < al.len() {
            assert((al + bl)[j] == al[j]);
            assert((ae + be)[j] == ae[j]);
        } else {
            assert((al + bl)[j] == bl[j - al.len()]);
            assert((ae + be)[j] == be[j - al.len()]);
        }
    }
}

pub(crate) proof fn lemma_chunk_opt_str(key: Seq<char>, v: Option<Seq<char>>)
    requires
        is_valid_key(key),
        opt_clean(v),
    ensures
        all_clean(opt_str_lines(key, v)),
        classifies_to(opt_str_lines(key, v), opt_str_entries(key, v)),
{
    match v {
        Some(s) => {
            lemma_valid_key_facts(key);
            lemma_classify_kv(key, s);
            lemma_kv_line_clean(key, s);
            assert(opt_str_lines(key, v)[0] == kv_line(key, s));
            assert(opt_str_entries(key, v)[0] == EntryView { key, locale: None, value: s });
        },
        None => {},
    }
}

pub(crate) proof fn lemma_chunk_opt_bool(key: Seq<char>, v: Option<bool>)
    requires
        is_valid_key(key),
    ensures
        all_clean(opt_bool_lines(key, v)),
        classifies_to(opt_bool_lines(key, v), opt_bool_entries(key, v)),
{
    match v {
        Some(b) => {
            lemma_lit_true_clean();
            lemma_lit_false_clean();
            lemma_valid_key_facts(key);
            lemma_classify_kv(key, bool_chars(b));
            lemma_kv_line_clean(key, bool_chars(b));
            assert(opt_bool_lines(key, v)[0] == kv_line(key, bool_chars(b)));
            assert(opt_bool_entries(key, v)[0] == EntryView {
                key,
                locale: None,
                value: bool_chars(b),
            });
        },
        None => {},
    }
}

pub(crate) proof fn lemma_chunk_opt_list(key: Seq<char>, v: Option<Seq<Seq<char>>>)
    requires
        is_valid_key(key),
        opt_list_clean(v),
    ensures
        all_clean(opt_list_lines(key, v)),
        classifies_to(opt_list_lines(key, v), opt_list_entries(key, v)),
{
    match v {
        Some(l) => {
            lemma_join_semi_clean(l);
            lemma_valid_key_facts(key);
            lemma_classify_kv(key, join_semi(l));
            lemma_kv_line_clean(key, join_semi(l));
            assert(opt_list_lines(key, v)[0] == kv_line(key, join_semi(l)));
            assert(opt_list_entries(key, v)[0] == EntryView {
                key,
                locale: None,
                value: join_semi(l),
            });
        },
        None => {},
    }
}

pub(crate) proof fn lemma_chunk_variants(key: Seq<char>, m: Seq<(LocaleView, Seq<char>)>)
    requires
        is_valid_key(key),
        variants_wf(m),
    ensures
        all_clean(variant_lines(key, m)),
        classifies_to(variant_lines(key, m), variant_entries(key, m)),
{
    lemma_valid_key_facts(key);
    assert forall|j: int| 0 <= j < variant_lines(key, m).len() implies clean(
        #[trigger] variant_lines(key, m)[j],
    ) && spec_classify(variant_lines(key, m)[j]) == LineClass::KeyVal(
        variant_entries(key, m)[j],
    ) by {
        assert(variant_lines(key, m)[j] == kv_loc_line(key, m[j].0, m[j].1));
        assert(variant_entries(key, m)[j] == EntryView {
            key,
            locale: Some(reparsed_loc(m[j].0)),
            value: m[j].1,
        });
        assert(locale_ok(m[j].0) && clean(m[j].1));
        lemma_classify_kv_loc(key, m[j].0, m[j].1);
        lemma_kv_loc_line_clean(key, m[j].0, m[j].1);
    }
}

pub(crate) proof fn lemma_chunk_loc_str(key: Seq<char>, v: LocStrView)
    requires
        is_valid_key(key),
        clean(v.default),
        variants_wf(v.localized),
    ensures
        all_clean(loc_str_lines(key, v)),
        classifies_to(loc_str_lines(key, v), loc_str_entries(key, v)),
{
    lemma_valid_key_facts(key);
    lemma_classify_kv(key, v.default);
    lemma_kv_line_clean(key, v.default);
    lemma_chunk_variants(key, v.localized);
    assert(all_clean(seq![kv_line(key, v.default)]));
    assert(classifies_to(
        seq![kv_line(key, v.default)],
        seq![EntryView { key, locale: None, value: v.default }],
    ));
    lemma_all_clean_append(seq![kv_line(key, v.default)], variant_lines(key, v.localized));
    lemma_classifies_append(
        seq![kv_line(key, v.default)],
        seq![EntryView { key, locale: None, value: v.default }],
        variant_lines(key, v.localized),
        variant_entries(key, v.localized),
    );
}

pub(crate) proof fn lemma_chunk_opt_loc_str(key: Seq<char>, v: Option<LocStrView>)
    requires
        is_valid_key(key),
        opt_loc_wf(v),
    ensures
        all_clean(opt_loc_str_lines(key, v)),
        classifies_to(opt_loc_str_lines(key, v), opt_loc_str_entries(key, v)),
{
    match v {
        Some(x) => {
            lemma_chunk_loc_str(key, x);
        },
        None => {},
    }
}

pub(crate) proof fn lemma_chunk_list_variants(key: Seq<char>, m: Seq<(LocaleView, Seq<Seq<char>>)>)
    requires
        is_valid_key(key),
        list_variants_wf(m),
    ensures
        all_clean(list_variant_lines(key, m)),
        classifies_to(list_variant_lines(key, m), list_variant_entries(key, m)),
{
    lemma_valid_key_facts(key);
    assert forall|j: int| 0 <= j < list_variant_lines(key, m).len() implies clean(
        #[trigger] list_variant_lines(key, m)[j],
    ) && spec_classify(list_variant_lines(key, m)[j]) == LineClass::KeyVal(
        list_variant_entries(key, m)[j],
    ) by {
        assert(list_variant_lines(key, m)[j] == kv_loc_line(key, m[j].0, join_semi(m[j].1)));
        assert(list_variant_entries(key, m)[j] == EntryView {
            key,
            locale: Some(reparsed_loc(m[j].0)),
            value: join_semi(m[j].1),
        });
        assert(locale_ok(m[j].0) && list_clean(m[j].1));
        lemma_join_semi_clean(m[j].1);
        lemma_classify_kv_loc(key, m[j].0, join_semi(m[j].1));
        lemma_kv_loc_line_clean(key, m[j].0, join_semi(m[j].1));
    }
}

pub(crate) proof fn lemma_chunk_opt_loc_list(key: Seq<char>, v: Option<LocListView>)
    requires
        is_valid_key(key),
        opt_loc_list_wf(v),
    ensures
        all_clean(opt_loc_list_lines(key, v)),
        classifies_to(opt_loc_list_lines(key, v), opt_loc_list_entries(key, v)),
{
    match v {
        Some(x) => {
            lemma_valid_key_facts(key);
            lemma_join_semi_clean(x.default);
            lemma_classify_kv(key, join_semi(x.default));
            lemma_kv_line_clean(key, join_semi(x.default));
            lemma_chunk_list_variants(key, x.localized);
            assert(all_clean(seq![kv_line(key, join_semi(x.default))]));
            assert(classifies_to(
                seq![kv_line(key, join_semi(x.default))],
                seq![EntryView { key, locale: None, value: join_semi(x.default) }],
            ));
            lemma_all_clean_append(
                seq![kv_line(key, join_semi(x.default))],
                list_variant_lines(key, x.localized),
            );
            lemma_classifies_append(
                seq![kv_line(key, join_semi(x.default))],
                seq![EntryView { key, locale: None, value: join_semi(x.default) }],
                list_variant_lines(key, x.localized),
                list_variant_entries(key, x.localized),
            );
        },
        None => {},
    }
}

pub(crate) proof fn lemma_chunk_bucket(key: Seq<char>, es: Seq<EntryView>)
    requires
        is_valid_key(key),
        forall|j: int| 0 <= j < es.len() ==> entry_emit_wf(#[trigger] es[j]),
    ensures
        all_clean(bucket_chunk_lines(key, es)),
        classifies_to(bucket_chunk_lines(key, es), bucket_chunk_entries(key, es)),
{
    lemma_valid_key_facts(key);
    assert forall|j: int| 0 <= j < bucket_chunk_lines(key, es).len() implies clean(
        #[trigger] bucket_chunk_lines(key, es)[j],
    ) && spec_classify(bucket_chunk_lines(key, es)[j]) == LineClass::KeyVal(
        bucket_chunk_entries(key, es)[j],
    ) by {
        assert(bucket_chunk_lines(key, es)[j] == entry_line(key, es[j]));
        assert(bucket_chunk_entries(key, es)[j] == reparsed_entry(key, es[j]));
        assert(entry_emit_wf(es[j]));
        match es[j].locale {
            Some(l) => {
                lemma_classify_kv_loc(key, l, es[j].value);
                lemma_kv_loc_line_clean(key, l, es[j].value);
            },
            None => {
                lemma_classify_kv(key, es[j].value);
                lemma_kv_line_clean(key, es[j].value);
            },
        }
    }
}

pub(crate) proof fn lemma_chunk_buckets(mm: Seq<(Seq<char>, Seq<EntryView>)>)
    requires
        buckets_emit_wf(mm),
    ensures
        all_clean(buckets_chunk_lines(mm)),
        classifies_to(buckets_chunk_lines(mm), buckets_chunk_entries(mm)),
    decreases mm.len(),
{
    if mm.len() > 0 {
        assert(bucket_emit_wf(mm[0]));
        lemma_chunk_bucket(mm[0].0, mm[0].1);
        assert forall|j: int| 0 <= j < mm.drop_first().len() implies bucket_emit_wf(
            #[trigger] mm.drop_first()[j],
        ) by {
            assert(mm.drop_first()[j] == mm[j + 1]);
        }
        lemma_chunk_buckets(mm.drop_first());
        lemma_all_clean_append(
            bucket_chunk_lines(mm[0].0, mm[0].1),
            buckets_chunk_lines(mm.drop_first()),
        );
        lemma_classifies_append(
            bucket_chunk_lines(mm[0].0, mm[0].1),
            bucket_chunk_entries(mm[0].0, mm[0].1),
            buckets_chunk_lines(mm.drop_first()),
            buckets_chunk_entries(mm.drop_first()),
        );
    }
}


pub(crate) proof fn lemma_chunk_comments(cs: Seq<CommentView>)
    requires
        forall|j: int| 0 <= j < cs.len() ==> clean((#[trigger] cs[j]).content),
    ensures
        all_clean(comment_lines(cs)),
        forall|j: int|
            0 <= j < comment_lines(cs).len() ==> (spec_classify(
                #[trigger] comment_lines(cs)[j],
            ) is Blank || spec_classify(comment_lines(cs)[j]) is CommentLine),
{
    assert forall|j: int| 0 <= j < comment_lines(cs).len() implies clean(
        #[trigger] comment_lines(cs)[j],
    ) && (spec_classify(comment_lines(cs)[j]) is Blank || spec_classify(
        comment_lines(cs)[j],
    ) is CommentLine) by {
        assert(comment_lines(cs)[j] == comment_line(cs[j]));
        assert(clean(cs[j].content));
        if cs[j].is_blank {
            lemma_classify_empty();
            assert(!Seq::<char>::empty().contains('\n'));
            assert(!Seq::<char>::empty().contains('\r'));
        } else {
            lemma_classify_comment(cs[j].content);
            lemma_clean_single('#');
            lemma_clean_concat(seq!['#'], cs[j].content);
        }
    }
}

pub(crate) proof fn lemma_header_line_clean(name: Seq<char>)
    requires
        clean(name),
    ensures
        clean(seq!['['] + name + seq![']']),
{
    lemma_clean_single('[');
    lemma_clean_single(']');
    lemma_clean_concat(seq!['['], name);
    lemma_clean_concat(seq!['['] + name, seq![']']);
}

pub(crate) proof fn lemma_groups_lines_clean(gs: Seq<GroupView>)
    requires
        forall|j: int| 0 <= j < gs.len() ==> group_emit_wf(#[trigger] gs[j]),
    ensures
        all_clean(groups_chunk_lines(gs)),
    decreases gs.len(),
{
    if gs.len() > 0 {
        assert(group_emit_wf(gs[0]));
        lemma_header_line_clean(gs[0].name);
        lemma_chunk_buckets(gs[0].entries);
        assert(!Seq::<char>::empty().contains('\n'));
        assert(!Seq::<char>::empty().contains('\r'));
        assert(all_clean(seq![Seq::<char>::empty(), seq!['['] + gs[0].name + seq![']']]));
        lemma_all_clean_append(
            seq![Seq::<char>::empty(), seq!['['] + gs[0].name + seq![']']],
            buckets_chunk_lines(gs[0].entries),
        );
        assert forall|j: int| 0 <= j < gs.drop_first().len() implies group_emit_wf(
            #[trigger] gs.drop_first()[j],
        ) by {
            assert(gs.drop_first()[j] == gs[j + 1]);
        }
        lemma_groups_lines_clean(gs.drop_first());
        lemma_all_clean_append(group_chunk_lines(gs[0]), groups_chunk_lines(gs.drop_first()));
    }
}

pub(crate) proof fn lemma_type_value_clean(t: DesktopEntryType)
    ensures
        clean(spec_type_chars(t)),
{
    lemma_lit_application_clean();
    lemma_lit_link_clean();
    lemma_lit_directory_clean();
}

pub(crate) proof fn lemma_chunk_main_a(d: DesktopEntryView)
    requires
        doc_wf(d),
    ensures
        all_clean(main_lines_a(d)),
        classifies_to(main_lines_a(d), main_entries_a(d)),
{
    lemma_key_type();
    lemma_key_version();
    lemma_key_name();
    lemma_key_genericname();
    lemma_key_nodisplay();
    lemma_key_comment();
    lemma_key_icon();
    lemma_key_hidden();
    lemma_key_onlyshowin();
    lemma_type_value_clean(d.entry_type);
    lemma_valid_key_facts("Type"@);
    lemma_classify_kv("Type"@, spec_type_chars(d.entry_type));
    lemma_kv_line_clean("Type"@, spec_type_chars(d.entry_type));
    let l1 = seq![kv_line("Type"@, spec_type_chars(d.entry_type))];
    let e1 = seq![EntryView { key: "Type"@, locale: None, value: spec_type_chars(d.entry_type) }];
    assert(all_clean(l1));
    assert(classifies_to(l1, e1));
    lemma_chunk_opt_str("Version"@, d.version);
    lemma_chunk_loc_str("Name"@, d.name);
    lemma_chunk_opt_loc_str("GenericName"@, d.generic_name);
    lemma_chunk_opt_bool("NoDisplay"@, d.no_display);
    lemma_chunk_opt_loc_str("Comment"@, d.comment);
    lemma_chunk_opt_loc_str("Icon"@, d.icon);
    lemma_chunk_opt_bool("Hidden"@, d.hidden);
    lemma_chunk_opt_list("OnlyShowIn"@, d.only_show_in);
    let l2 = opt_str_lines("Version"@, d.version);
    let e2 = opt_str_entries("Version"@, d.version);
    let l3 = loc_str_lines("Name"@, d.name);
    let e3 = loc_str_entries("Name"@, d.name);
    let l4 = opt_loc_str_lines("GenericName"@, d.generic_name);
    let e4 = opt_loc_str_entries("GenericName"@, d.generic_name);
    let l5 = opt_bool_lines("NoDisplay"@, d.no_display);
    let e5 = opt_bool_entries("NoDisplay"@, d.no_display);
    let l6 = opt_loc_str_lines("Comment"@, d.comment);
    let e6 = opt_loc_str_entries("Comment"@, d.comment);
    let l7 = opt_loc_str_lines("Icon"@, d.icon);
    let e7 = opt_loc_str_entries("Icon"@, d.icon);
    let l8 = opt_bool_lines("Hidden"@, d.hidden);
    let e8 = opt_bool_entries("Hidden"@, d.hidden);
    let l9 = opt_list_lines("OnlyShowIn"@, d.only_show_in);
    let e9 = opt_list_entries("OnlyShowIn"@, d.only_show_in);
    lemma_all_clean_append(l1, l2);
    lemma_classifies_append(l1, e1, l2, e2);
    lemma_all_clean_append(l1 + l2, l3);
    lemma_classifies_append(l1 + l2, e1 + e2, l3, e3);
    lemma_all_clean_append(l1 + l2 + l3, l4);
    lemma_classifies_append(l1 + l2 + l3, e1 + e2 + e3, l4, e4);
    lemma_all_clean_append(l1 + l2 + l3 + l4, l5);
    lemma_classifies_append(l1 + l2 + l3 + l4, e1 + e2 + e3 + e4, l5, e5);
    lemma_all_clean_append(l1 + l2 + l3 + l4 + l5, l6);
    lemma_classifies_append(l1 + l2 + l3 + l4 + l5, e1 + e2 + e3 + e4 + e5, l6, e6);
    lemma_all_clean_append(l1 + l2 + l3 + l4 + l5 + l6, l7);
    lemma_classifies_append(l1 + l2 + l3 + l4 + l5 + l6, e1 + e2 + e3 + e4 + e5 + e6, l7, e7);
    lemma_all_clean_append(l1 + l2 + l3 + l4 + l5 + l6 + l7, l8);
    lemma_classifies_append(
        l1 + l2 + l3 + l4 + l5 + l6 + l7,
        e1 + e2 + e3 + e4 + e5 + e6 + e7,
        l8,
        e8,
    );
    lemma_all_clean_append(l1 + l2 + l3 + l4 + l5 + l6 + l7 + l8, l9);
    lemma_classifies_append(
        l1 + l2 + l3 + l4 + l5 + l6 + l7 + l8,
        e1 + e2 + e3 + e4 + e5 + e6 + e7 + e8,
        l9,
        e9,
    );
}

pub(crate) proof fn lemma_chunk_main_b(d: DesktopEntryView)
    requires
        doc_wf(d),
    ensures
        all_clean(main_lines_b(d)),
        classifies_to(main_lines_b(d), main_entries_b(d)),
{
    lemma_key_notshowin();
    lemma_key_dbusactivatable();
    lemma_key_tryexec();
    lemma_key_exec();
    lemma_key_path();
    lemma_key_terminal();
    lemma_key_actions();
    lemma_key_mimetype();
    lemma_key_categories();
    lemma_chunk_opt_list("NotShowIn"@, d.not_show_in);
    lemma_chunk_opt_bool("DBusActivatable"@, d.dbus_activatable);
    lemma_chunk_opt_str("TryExec"@, d.try_exec);
    lemma_chunk_opt_str("Exec"@, d.exec_cmd);
    lemma_chunk_opt_str("Path"@, d.path);
    lemma_chunk_opt_bool("Terminal"@, d.terminal);
    lemma_chunk_opt_list("Actions"@, d.actions);
    lemma_chunk_opt_list("MimeType"@, d.mime_type);
    lemma_chunk_opt_list("Categories"@, d.categories);
    let l1 = opt_list_lines("NotShowIn"@, d.not_show_in);
    let e1 = opt_list_entries("NotShowIn"@, d.not_show_in);
    let l2 = opt_bool_lines("DBusActivatable"@, d.dbus_activatable);
    let e2 = opt_bool_entries("DBusActivatable"@, d.dbus_activatable);
    let l3 = opt_str_lines("TryExec"@, d.try_exec);
    let e3 = opt_str_entries("TryExec"@, d.try_exec);
    let l4 = opt_str_lines("Exec"@, d.exec_cmd);
    let e4 = opt_str_entries("Exec"@, d.exec_cmd);
    let l5 = opt_str_lines("Path"@, d.path);
    let e5 = opt_str_entries("Path"@, d.path);
    let l6 = opt_bool_lines("Terminal"@, d.terminal);
    let e6 = opt_bool_entries("Terminal"@, d.terminal);
    let l7 = opt_list_lines("Actions"@, d.actions);
    let e7 = opt_list_entries("Actions"@, d.actions);
    let l8 = opt_list_lines("MimeType"@, d.mime_type);
    let e8 = opt_list_entries("MimeType"@, d.mime_type);
    let l9 = opt_list_lines("Categories"@, d.categories);
    let e9 = opt_list_entries("Categories"@, d.categories);
    lemma_all_clean_append(l1, l2);
    lemma_classifies_append(l1, e1, l2, e2);
    lemma_all_clean_append(l1 + l2, l3);
    lemma_classifies_append(l1 + l2, e1 + e2, l3, e3);
    lemma_all_clean_append(l1 + l2 + l3, l4);
    lemma_classifies_append(l1 + l2 + l3, e1 + e2 + e3, l4, e4);
    lemma_all_clean_append(l1 + l2 + l3 + l4, l5);
    lemma_classifies_append(l1 + l2 + l3 + l4, e1 + e2 + e3 + e4, l5, e5);
    lemma_all_clean_append(l1 + l2 + l3 + l4 + l5, l6);
    lemma_classifies_append(l1 + l2 + l3 + l4 + l5, e1 + e2 + e3 + e4 + e5, l6, e6);
    lemma_all_clean_append(l1 + l2 + l3 + l4 + l5 + l6, l7);
    lemma_classifies_append(l1 + l2 + l3 + l4 + l5 + l6, e1 + e2 + e3 + e4 + e5 + e6, l7, e7);
    lemma_all_clean_append(l1 + l2 + l3 + l4 + l5 + l6 + l7, l8);
    lemma_classifies_append(
        l1 + l2 + l3 + l4 + l5 + l6 + l7,
        e1 + e2 + e3 + e4 + e5 + e6 + e7,
        l8,
        e8,
    );
    lemma_all_clean_append(l1 + l2 + l3 + l4 + l5 + l6 + l7 + l8, l9);
    lemma_classifies_append(
        l1 + l2 + l3 + l4 + l5 + l6 + l7 + l8,
        e1 + e2 + e3 + e4 + e5 + e6 + e7 + e8,
        l9,
        e9,
    );
}

pub(crate) proof fn lemma_chunk_main_c(d: DesktopEntryView)
    requires
        doc_wf(d),
    ensures
        all_clean(main_lines_c(d)),
        classifies_to(main_lines_c(d), main_entries_c(d)),
{
    lemma_key_implements();
    lemma_key_keywords();
    lemma_key_startupnotify();
    lemma_key_startupwmclass();
    lemma_key_url();
    lemma_key_prefersnondefaultgpu();
    lemma_key_singlemainwindow();
    lemma_chunk_opt_list("Implements"@, d.implements);
    lemma_chunk_opt_loc_list("Keywords"@, d.keywords);
    lemma_chunk_opt_bool("StartupNotify"@, d.startup_notify);
    lemma_chunk_opt_str("StartupWMClass"@, d.startup_wm_class);
    lemma_chunk_opt_str("URL"@, d.url);
    lemma_chunk_opt_bool("PrefersNonDefaultGPU"@, d.prefers_non_default_gpu);
    lemma_chunk_opt_bool("SingleMainWindow"@, d.single_main_window);
    lemma_chunk_buckets(d.unknown_keys);
    let l1 = opt_list_lines("Implements"@, d.implements);
    let e1 = opt_list_entries("Implements"@, d.implements);
    let l2 = opt_loc_list_lines("Keywords"@, d.keywords);
    let e2 = opt_loc_list_entries("Keywords"@, d.keywords);
    let l3 = opt_bool_lines("StartupNotify"@, d.startup_notify);
    let e3 = opt_bool_entries("StartupNotify"@, d.startup_notify);
    let l4 = opt_str_lines("StartupWMClass"@, d.startup_wm_class);
    let e4 = opt_str_entries("StartupWMClass"@, d.startup_wm_class);
    let l5 = opt_str_lines("URL"@, d.url);
    let e5 = opt_str_entries("URL"@, d.url);
    let l6 = opt_bool_lines("PrefersNonDefaultGPU"@, d.prefers_non_default_gpu);
    let e6 = opt_bool_entries("PrefersNonDefaultGPU"@, d.prefers_non_default_gpu);
    let l7 = opt_bool_lines("SingleMainWindow"@, d.single_main_window);
    let e7 = opt_bool_entries("SingleMainWindow"@, d.single_main_window);
    let l8 = buckets_chunk_lines(d.unknown_keys);
    let e8 = buckets_chunk_entries(d.unknown_keys);
    lemma_all_clean_append(l1, l2);
    lemma_classifies_append(l1, e1, l2, e2);
    lemma_all_clean_append(l1 + l2, l3);
    lemma_classifies_append(l1 + l2, e1 + e2, l3, e3);
    lemma_all_clean_append(l1 + l2 + l3, l4);
    lemma_classifies_append(l1 + l2 + l3, e1 + e2 + e3, l4, e4);
    lemma_all_clean_append(l1 + l2 + l3 + l4, l5);
    lemma_classifies_append(l1 + l2 + l3 + l4, e1 + e2 + e3 + e4, l5, e5);
    lemma_all_clean_append(l1 + l2 + l3 + l4 + l5, l6);
    lemma_classifies_append(l1 + l2 + l3 + l4 + l5, e1 + e2 + e3 + e4 + e5, l6, e6);
    lemma_all_clean_append(l1 + l2 + l3 + l4 + l5 + l6, l7);
    lemma_classifies_append(l1 + l2 + l3 + l4 + l5 + l6, e1 + e2 + e3 + e4 + e5 + e6, l7, e7);
    lemma_all_clean_append(l1 + l2 + l3 + l4 + l5 + l6 + l7, l8);
    lemma_classifies_append(
        l1 + l2 + l3 + l4 + l5 + l6 + l7,
        e1 + e2 + e3 + e4 + e5 + e6 + e7,
        l8,
        e8,
    );
}

pub(crate) proof fn lemma_chunk_main(d: DesktopEntryView)
    requires
        doc_wf(d),
    ensures
        all_clean(main_field_lines(d)),
        classifies_to(main_field_lines(d), main_field_entries(d)),
{
    lemma_chunk_main_a(d);
    lemma_chunk_main_b(d);
    lemma_chunk_main_c(d);
    lemma_all_clean_append(main_lines_a(d), main_lines_b(d));
    lemma_classifies_append(main_lines_a(d), main_entries_a(d), main_lines_b(d), main_entries_b(d));
    lemma_all_clean_append(main_lines_a(d) + main_lines_b(d), main_lines_c(d));
    lemma_classifies_append(
        main_lines_a(d) + main_lines_b(d),
        main_entries_a(d) + main_entries_b(d),
        main_lines_c(d),
        main_entries_c(d),
    );
}


/// A group as it reads back: the same name, its entries re-bucketed from
/// its emitted lines.
pub open spec fn reparsed_group(g: GroupView) -> GroupView {
    GroupView { name: g.name, entries: mm_adds(Seq::empty(), buckets_chunk_entries(g.entries)) }
}

/// See [`reparsed_group`].
pub open spec fn reparsed_groups(gs: Seq<GroupView>) -> Seq<GroupView> {
    gs.map_values(|g: GroupView| reparsed_group(g))
}

/// Scanning the emitted lines of the additional groups appends each group,
/// re-bucketed, after the groups already open.
pub(crate) proof fn lemma_scan_groups(
    lines: Seq<Seq<char>>,
    i: int,
    st: ScanState,
    gs: Seq<GroupView>,
)
    requires
        0 <= i,
        i + groups_chunk_lines(gs).len() <= lines.len(),
        lines.subrange(i, i + groups_chunk_lines(gs).len()) == groups_chunk_lines(gs),
        st.groups.len() > 0,
        forall|j: int| 0 <= j < gs.len() ==> group_emit_wf(#[trigger] gs[j]),
        forall|j: int| 0 <= j < gs.len() ==> !has_group(st.groups, (#[trigger] gs[j]).name),
        forall|j: int, k: int|
            0 <= j < k < gs.len() ==> (#[trigger] gs[j]).name != (#[trigger] gs[k]).name,
    ensures
        spec_scan(lines, i, st) == spec_scan(
            lines,
            i + groups_chunk_lines(gs).len(),
            ScanState { groups: st.groups + reparsed_groups(gs), comments: st.comments },
        ),
    decreases gs.len(),
{
    let total = groups_chunk_lines(gs).len() as int;
    if gs.len() == 0 {
        assert(reparsed_groups(gs) =~= Seq::<GroupView>::empty());
        assert(st.groups + reparsed_groups(gs) =~= st.groups);
        assert(ScanState { groups: st.groups + reparsed_groups(gs), comments: st.comments }
            =~= st);
    } else {
        let g = gs[0];
        let gl = group_chunk_lines(g);
        let rest_lines = groups_chunk_lines(gs.drop_first());
        assert(groups_chunk_lines(gs) == gl + rest_lines);
        assert(group_emit_wf(g));
        lemma_chunk_buckets(g.entries);
        let bl = buckets_chunk_lines(g.entries);
        let be = buckets_chunk_entries(g.entries);
        assert(gl.len() == 2 + bl.len());
        assert(bl.len() == be.len());
        // the blank separator line
        assert(lines[i] == lines.subrange(i, i + total)[0]);
        assert((gl + rest_lines)[0] == gl[0]);
        assert(gl[0] == Seq::<char>::empty());
        lemma_classify_empty();
        lemma_scan_step(lines, i, st);
        assert(spec_scan_line(st, i + 1, lines[i]) == ScanOut::Good(st));
        // the header line
        let hdr = seq!['['] + g.name + seq![']'];
        assert(lines[i + 1] == lines.subrange(i, i + total)[1]);
        assert((gl + rest_lines)[1] == gl[1]);
        assert(gl[1] == hdr);
        lemma_classify_header(g.name);
        lemma_scan_step(lines, i + 1, st);
        assert(!has_group(st.groups, g.name));
        let g0 = GroupView { name: g.name, entries: Seq::empty() };
        let st2 = ScanState { groups: st.groups.push(g0), comments: st.comments };
        assert(spec_scan_line(st, i + 2, lines[i + 1]) == ScanOut::Good(st2));
        // the entry lines fill the just-opened group
        assert forall|j: int| 0 <= j < be.len() implies spec_classify(lines[i + 2 + j])
            == LineClass::KeyVal(#[trigger] be[j]) by {
            assert(lines[i + 2 + j] == lines.subrange(i, i + total)[2 + j]);
            assert((gl + rest_lines)[2 + j] == gl[2 + j]);
            assert(gl[2 + j] == bl[j]);
            assert(spec_classify(bl[j]) == LineClass::KeyVal(be[j]));
        }
        lemma_scan_entries(lines, i + 2, st2, be);
        let g2 = GroupView { name: g.name, entries: mm_adds(Seq::empty(), be) };
        let st3 = ScanState { groups: st.groups.push(g2), comments: st.comments };
        assert(st2.groups.last() == g0);
        assert(st2.groups.update(
            st2.groups.len() - 1,
            GroupView { name: g0.name, entries: mm_adds(g0.entries, be) },
        ) =~= st3.groups);
        assert(ScanState {
            groups: st2.groups.update(
                st2.groups.len() - 1,
                GroupView {
                    name: st2.groups.last().name,
                    entries: mm_adds(st2.groups.last().entries, be),
                },
            ),
            comments: st2.comments,
        } =~= st3);
        // the remaining groups
        let i2 = i + 2 + be.len();
        assert forall|k: int|
            0 <= k < rest_lines.len() implies lines.subrange(i2, i2 + rest_lines.len())[k]
            == rest_lines[k] by {
            assert(lines.subrange(i2, i2 + rest_lines.len())[k] == lines[i2 + k]);
            assert(lines[i2 + k] == lines.subrange(i, i + total)[gl.len() + k]);
            assert((gl + rest_lines)[gl.len() + k] == rest_lines[k]);
        }
        assert(lines.subrange(i2, i2 + rest_lines.len()) =~= rest_lines);
        assert forall|j: int| 0 <= j < gs.drop_first().len() implies group_emit_wf(
            #[trigger] gs.drop_first()[j],
        ) by {
            assert(gs.drop_first()[j] == gs[j + 1]);
        }
        assert forall|j: int| 0 <= j < gs.drop_first().len() implies !has_group(
            st3.groups,
            (#[trigger] gs.drop_first()[j]).name,
        ) by {
            assert(gs.drop_first()[j] == gs[j + 1]);
            assert(!has_group(st.groups, gs[j + 1].name));
            assert(gs[0].name != gs[j + 1].name);
            assert forall|x: int| 0 <= x < st3.groups.len() implies (#[trigger] st3.groups[x]).name
                != gs[j + 1].name by {
                if x < st.groups.len() {
                    assert(st3.groups[x] == st.groups[x]);
                } else {
                    assert(st3.groups[x] == g2);
                }
            }
        }
        assert forall|j: int, k: int|
            0 <= j < k < gs.drop_first().len() implies (#[trigger] gs.drop_first()[j]).name != (
        #[trigger] gs.drop_first()[k]).name by {
            assert(gs.drop_first()[j] == gs[j + 1]);
            assert(gs.drop_first()[k] == gs[k + 1]);
        }
        lemma_scan_groups(lines, i2, st3, gs.drop_first());
        assert(i2 + rest_lines.len() == i + total);
        assert forall|k: int|
            0 <= k < (st.groups + reparsed_groups(gs)).len() implies (st3.groups
            + reparsed_groups(gs.drop_first()))[k] == (st.groups + reparsed_groups(gs))[k] by {
            if k < st.groups.len() {
            } else if k == st.groups.len() {
                assert((st3.groups + reparsed_groups(gs.drop_first()))[k] == g2);
                assert(reparsed_groups(gs)[0] == reparsed_group(gs[0]));
            } else {
                assert((st3.groups + reparsed_groups(gs.drop_first()))[k] == reparsed_groups(
                    gs.drop_first(),
                )[k - st.groups.len() - 1]);
                assert(reparsed_groups(gs.drop_first())[k - st.groups.len() - 1]
                    == reparsed_group(gs.drop_first()[k - st.groups.len() - 1]));
                assert(gs.drop_first()[k - st.groups.len() - 1] == gs[k - st.groups.len()]);
                assert(reparsed_groups(gs)[k - st.groups.len()] == reparsed_group(
                    gs[k - st.groups.len()],
                ));
            }
        }
        assert(st3.groups + reparsed_groups(gs.drop_first()) =~= st.groups + reparsed_groups(gs));
    }
}


/// The entries of `es` keyed `k`, in order.
pub open spec fn filter_key(es: Seq<EntryView>, k: Seq<char>) -> Seq<EntryView>
    decreases es.len(),
{
    if es.len() == 0 {
        seq![]
    } else if es[0].key == k {
        seq![es[0]] + filter_key(es.drop_first(), k)
    } else {
        filter_key(es.drop_first(), k)
    }
}

pub(crate) proof fn lemma_lookup_mm_add(
    mm: Seq<(Seq<char>, Seq<EntryView>)>,
    k0: Seq<char>,
    e: EntryView,
    k: Seq<char>,
)
    ensures
        al_lookup(mm_add(mm, k0, e), k) == (if k == k0 {
            match al_lookup(mm, k0) {
                Some(b) => Some(b.push(e)),
                None => Some(seq![e]),
            }
        } else {
            al_lookup(mm, k)
        }),
    decreases mm.len(),
{
    if mm.len() == 0 {
        assert(mm_add(mm, k0, e)[0] == (k0, seq![e]));
        assert(mm_add(mm, k0, e).drop_first() =~= Seq::<(Seq<char>, Seq<EntryView>)>::empty());
        assert(al_lookup(Seq::<(Seq<char>, Seq<EntryView>)>::empty(), k) is None);
        if k == k0 {
            assert(al_lookup(mm_add(mm, k0, e), k) == Some(seq![e]));
        }
    } else if mm[0].0 == k0 {
        let r = seq![(mm[0].0, mm[0].1.push(e))] + mm.drop_first();
        assert(mm_add(mm, k0, e) == r);
        assert(r[0] == (mm[0].0, mm[0].1.push(e)));
        assert(r.drop_first() =~= mm.drop_first());
    } else {
        let r = seq![mm[0]] + mm_add(mm.drop_first(), k0, e);
        assert(mm_add(mm, k0, e) == r);
        assert(r[0] == mm[0]);
        assert(r.drop_first() =~= mm_add(mm.drop_first(), k0, e));
        lemma_lookup_mm_add(mm.drop_first(), k0, e, k);
    }
}

pub(crate) proof fn lemma_lookup_mm_adds(
    mm: Seq<(Seq<char>, Seq<EntryView>)>,
    es: Seq<EntryView>,
    k: Seq<char>,
)
    ensures
        al_lookup(mm_adds(mm, es), k) == (match al_lookup(mm, k) {
            Some(b) => Some(b + filter_key(es, k)),
            None => if filter_key(es, k).len() > 0 {
                Some(filter_key(es, k))
            } else {
                None::<Seq<EntryView>>
            },
        }),
    decreases es.len(),
{
    if es.len() == 0 {
        match al_lookup(mm, k) {
            Some(b) => {
                assert(b + filter_key(es, k) =~= b);
            },
            None => {},
        }
    } else {
        lemma_lookup_mm_add(mm, es[0].key, es[0], k);
        lemma_lookup_mm_adds(mm_add(mm, es[0].key, es[0]), es.drop_first(), k);
        if es[0].key == k {
            match al_lookup(mm, k) {
                Some(b) => {
                    assert(b.push(es[0]) + filter_key(es.drop_first(), k) =~= b + (seq![es[0]]
                        + filter_key(es.drop_first(), k)));
                },
                None => {
                    assert(seq![es[0]].push(es[0]).len() > 0);
                    assert(seq![es[0]] + filter_key(es.drop_first(), k) == filter_key(es, k));
                    assert(seq![es[0]] + filter_key(es.drop_first(), k) =~= seq![es[0]]
                        + filter_key(es.drop_first(), k));
                    assert(filter_key(es, k).len() > 0);
                },
            }
        }
    }
}

/// Every entry of `es` is keyed `k`.
pub open spec fn all_keys(es: Seq<EntryView>, k: Seq<char>) -> bool {
    forall|j: int| 0 <= j < es.len() ==> (#[trigger] es[j]).key == k
}

pub(crate) proof fn lemma_filter_key_of_all(es: Seq<EntryView>, k: Seq<char>, k2: Seq<char>)
    requires
        all_keys(es, k2),
    ensures
        filter_key(es, k) == (if k == k2 {
            es
        } else {
            Seq::<EntryView>::empty()
        }),
    decreases es.len(),
{
    if es.len() == 0 {
        assert(filter_key(es, k) =~= Seq::<EntryView>::empty());
    } else {
        assert(es[0].key == k2);
        assert forall|j: int| 0 <= j < es.drop_first().len() implies (#[trigger] es.drop_first()[j]).key
            == k2 by {
            assert(es.drop_first()[j] == es[j + 1]);
        }
        lemma_filter_key_of_all(es.drop_first(), k, k2);
        if k == k2 {
            assert(seq![es[0]] + es.drop_first() =~= es);
        }
    }
}

pub(crate) proof fn lemma_filter_key_append(a: Seq<EntryView>, b: Seq<EntryView>, k: Seq<char>)
    ensures
        filter_key(a + b, k) == filter_key(a, k) + filter_key(b, k),
    decreases a.len(),
{
    if a.len() == 0 {
        assert(a + b =~= b);
        assert(filter_key(a, k) + filter_key(b, k) =~= filter_key(b, k));
    } else {
        assert((a + b)[0] == a[0]);
        assert((a + b).drop_first() =~= a.drop_first() + b);
        lemma_filter_key_append(a.drop_first(), b, k);
        if a[0].key == k {
            assert(seq![a[0]] + (filter_key(a.drop_first(), k) + filter_key(b, k)) =~= (seq![a[0]]
                + filter_key(a.drop_first(), k)) + filter_key(b, k));
        }
    }
}

pub(crate) proof fn lemma_buckets_entries_unknown(mm: Seq<(Seq<char>, Seq<EntryView>)>, k: Seq<char>)
    requires
        crate::fields::is_known_key(k),
        forall|j: int| 0 <= j < mm.len() ==> !crate::fields::is_known_key((#[trigger] mm[j]).0),
    ensures
        filter_key(buckets_chunk_entries(mm), k) == Seq::<EntryView>::empty(),
    decreases mm.len(),
{
    if mm.len() == 0 {
        assert(filter_key(buckets_chunk_entries(mm), k) =~= Seq::<EntryView>::empty());
    } else {
        assert(!crate::fields::is_known_key(mm[0].0));
        assert forall|j: int|
            0 <= j < bucket_chunk_entries(mm[0].0, mm[0].1).len() implies (#[trigger] bucket_chunk_entries(
            mm[0].0,
            mm[0].1,
        )[j]).key == mm[0].0 by {
            assert(bucket_chunk_entries(mm[0].0, mm[0].1)[j] == reparsed_entry(mm[0].0, mm[0].1[j]));
        }
        assert(all_keys(bucket_chunk_entries(mm[0].0, mm[0].1), mm[0].0));
        assert(k != mm[0].0);
        lemma_filter_key_of_all(bucket_chunk_entries(mm[0].0, mm[0].1), k, mm[0].0);
        assert forall|j: int| 0 <= j < mm.drop_first().len() implies !crate::fields::is_known_key(
            (#[trigger] mm.drop_first()[j]).0,
        ) by {
            assert(mm.drop_first()[j] == mm[j + 1]);
        }
        lemma_buckets_entries_unknown(mm.drop_first(), k);
        lemma_filter_key_append(
            bucket_chunk_entries(mm[0].0, mm[0].1),
            buckets_chunk_entries(mm.drop_first()),
            k,
        );
        assert(Seq::<EntryView>::empty() + Seq::<EntryView>::empty() =~= Seq::<
            EntryView,
        >::empty());
    }
}

pub(crate) proof fn lemma_opt_str_keys(key: Seq<char>, v: Option<Seq<char>>)
    ensures
        all_keys(opt_str_entries(key, v), key),
{
}

pub(crate) proof fn lemma_opt_bool_keys(key: Seq<char>, v: Option<bool>)
    ensures
        all_keys(opt_bool_entries(key, v), key),
{
}

pub(crate) proof fn lemma_opt_list_keys(key: Seq<char>, v: Option<Seq<Seq<char>>>)
    ensures
        all_keys(opt_list_entries(key, v), key),
{
}

pub(crate) proof fn lemma_loc_str_keys(key: Seq<char>, v: LocStrView)
    ensures
        all_keys(loc_str_entries(key, v), key),
{
    assert forall|j: int| 0 <= j < loc_str_entries(key, v).len() implies (#[trigger] loc_str_entries(
        key,
        v,
    )[j]).key == key by {
        if j > 0 {
            assert(loc_str_entries(key, v)[j] == variant_entries(key, v.localized)[j - 1]);
        }
    }
}

pub(crate) proof fn lemma_opt_loc_str_keys(key: Seq<char>, v: Option<LocStrView>)
    ensures
        all_keys(opt_loc_str_entries(key, v), key),
{
    match v {
        Some(x) => {
            lemma_loc_str_keys(key, x);
        },
        None => {},
    }
}

pub(crate) proof fn lemma_opt_loc_list_keys(key: Seq<char>, v: Option<LocListView>)
    ensures
        all_keys(opt_loc_list_entries(key, v), key),
{
    match v {
        Some(x) => {
            assert forall|j: int|
                0 <= j < opt_loc_list_entries(key, v).len() implies (#[trigger] opt_loc_list_entries(
                key,
                v,
            )[j]).key == key by {
                if j > 0 {
                    assert(opt_loc_list_entries(key, v)[j] == list_variant_entries(
                        key,
                        x.localized,
                    )[j - 1]);
                }
            }
        },
        None => {},
    }
}

pub(crate) proof fn lemma_variant_entries_tagged(key: Seq<char>, m: Seq<(LocaleView, Seq<char>)>)
    ensures
        forall|j: int|
            0 <= j < variant_entries(key, m).len() ==> (#[trigger] variant_entries(key, m)[j]).locale is Some,
{
}

pub(crate) proof fn lemma_loc_default_single_untagged(head: EntryView, vs: Seq<EntryView>)
    requires
        head.locale is None,
        forall|j: int| 0 <= j < vs.len() ==> (#[trigger] vs[j]).locale is Some,
    ensures
        loc_default(seq![head] + vs) == head.value,
    decreases vs.len(),
{
    let s = seq![head] + vs;
    if vs.len() == 0 {
        assert(s.last() == head);
    } else {
        assert(s.last() == vs.last());
        assert(vs[vs.len() - 1].locale is Some);
        assert(s.drop_last() =~= seq![head] + vs.drop_last());
        assert forall|j: int| 0 <= j < vs.drop_last().len() implies (#[trigger] vs.drop_last()[j]).locale is Some by {
            assert(vs.drop_last()[j] == vs[j]);
        }
        lemma_loc_default_single_untagged(head, vs.drop_last());
    }
}

pub(crate) proof fn lemma_type_chars_round(t: DesktopEntryType)
    ensures
        spec_type_from_chars(spec_type_chars(t)) == Some(t),
{
    reveal_strlit("Application");
    reveal_strlit("Link");
    reveal_strlit("Directory");
    assert("Application"@.len() == 11);
    assert("Link"@.len() == 4);
    assert("Directory"@.len() == 9);
}

#[verifier::rlimit(60)]
pub(crate) proof fn lemma_keys_ne_type()
    ensures
        "Name"@ != "Type"@,
        "Version"@ != "Type"@,
        "GenericName"@ != "Type"@,
        "NoDisplay"@ != "Type"@,
        "Comment"@ != "Type"@,
        "Icon"@ != "Type"@,
        "Hidden"@ != "Type"@,
        "OnlyShowIn"@ != "Type"@,
        "NotShowIn"@ != "Type"@,
        "DBusActivatable"@ != "Type"@,
        "TryExec"@ != "Type"@,
        "Exec"@ != "Type"@,
        "Path"@ != "Type"@,
        "Terminal"@ != "Type"@,
        "Actions"@ != "Type"@,
        "MimeType"@ != "Type"@,
        "Categories"@ != "Type"@,
        "Implements"@ != "Type"@,
        "Keywords"@ != "Type"@,
        "StartupNotify"@ != "Type"@,
        "StartupWMClass"@ != "Type"@,
        "URL"@ != "Type"@,
        "PrefersNonDefaultGPU"@ != "Type"@,
        "SingleMainWindow"@ != "Type"@,
{
    reveal_strlit("Type");
    reveal_strlit("Name");
    reveal_strlit("Version");
    reveal_strlit("GenericName");
    reveal_strlit("NoDisplay");
    reveal_strlit("Comment");
    reveal_strlit("Icon");
    reveal_strlit("Hidden");
    reveal_strlit("OnlyShowIn");
    reveal_strlit("NotShowIn");
    reveal_strlit("DBusActivatable");
    reveal_strlit("TryExec");
    reveal_strlit("Exec");
    reveal_strlit("Path");
    reveal_strlit("Terminal");
    reveal_strlit("Actions");
    reveal_strlit("MimeType");
    reveal_strlit("Categories");
    reveal_strlit("Implements");
    reveal_strlit("Keywords");
    reveal_strlit("StartupNotify");
    reveal_strlit("StartupWMClass");
    reveal_strlit("URL");
    reveal_strlit("PrefersNonDefaultGPU");
    reveal_strlit("SingleMainWindow");
    assert("Type"@ =~= seq!['T', 'y', 'p', 'e']);
    assert("Name"@ =~= seq!['N', 'a', 'm', 'e']);
    assert("Icon"@ =~= seq!['I', 'c', 'o', 'n']);
    assert("Exec"@ =~= seq!['E', 'x', 'e', 'c']);
    assert("Path"@ =~= seq!['P', 'a', 't', 'h']);
}

#[verifier::rlimit(60)]
pub(crate) proof fn lemma_keys_ne_name()
    ensures
        "Type"@ != "Name"@,
        "Version"@ != "Name"@,
        "GenericName"@ != "Name"@,
        "NoDisplay"@ != "Name"@,
        "Comment"@ != "Name"@,
        "Icon"@ != "Name"@,
        "Hidden"@ != "Name"@,
        "OnlyShowIn"@ != "Name"@,
        "NotShowIn"@ != "Name"@,
        "DBusActivatable"@ != "Name"@,
        "TryExec"@ != "Name"@,
        "Exec"@ != "Name"@,
        "Path"@ != "Name"@,
        "Terminal"@ != "Name"@,
        "Actions"@ != "Name"@,
        "MimeType"@ != "Name"@,
        "Categories"@ != "Name"@,
        "Implements"@ != "Name"@,
        "Keywords"@ != "Name"@,
        "StartupNotify"@ != "Name"@,
        "StartupWMClass"@ != "Name"@,
        "URL"@ != "Name"@,
        "PrefersNonDefaultGPU"@ != "Name"@,
        "SingleMainWindow"@ != "Name"@,
{
    reveal_strlit("Type");
    reveal_strlit("Name");
    reveal_strlit("Version");
    reveal_strlit("GenericName");
    reveal_strlit("NoDisplay");
    reveal_strlit("Comment");
    reveal_strlit("Icon");
    reveal_strlit("Hidden");
    reveal_strlit("OnlyShowIn");
    reveal_strlit("NotShowIn");
    reveal_strlit("DBusActivatable");
    reveal_strlit("TryExec");
    reveal_strlit("Exec");
    reveal_strlit("Path");
    reveal_strlit("Terminal");
    reveal_strlit("Actions");
    reveal_strlit("MimeType");
    reveal_strlit("Categories");
    reveal_strlit("Implements");
    reveal_strlit("Keywords");
    reveal_strlit("StartupNotify");
    reveal_strlit("StartupWMClass");
    reveal_strlit("URL");
    reveal_strlit("PrefersNonDefaultGPU");
    reveal_strlit("SingleMainWindow");
    assert("Type"@ =~= seq!['T', 'y', 'p', 'e']);
    assert("Name"@ =~= seq!['N', 'a', 'm', 'e']);
    assert("Icon"@ =~= seq!['I', 'c', 'o', 'n']);
    assert("Exec"@ =~= seq!['E', 'x', 'e', 'c']);
    assert("Path"@ =~= seq!['P', 'a', 't', 'h']);
}

#[verifier::rlimit(60)]
pub(crate) proof fn lemma_keys_ne_exec()
    ensures
        "Type"@ != "Exec"@,
        "Name"@ != "Exec"@,
        "Version"@ != "Exec"@,
        "GenericName"@ != "Exec"@,
        "NoDisplay"@ != "Exec"@,
        "Comment"@ != "Exec"@,
        "Icon"@ != "Exec"@,
        "Hidden"@ != "Exec"@,
        "OnlyShowIn"@ != "Exec"@,
        "NotShowIn"@ != "Exec"@,
        "DBusActivatable"@ != "Exec"@,
        "TryExec"@ != "Exec"@,
        "Path"@ != "Exec"@,
        "Terminal"@ != "Exec"@,
        "Actions"@ != "Exec"@,
        "MimeType"@ != "Exec"@,
        "Categories"@ != "Exec"@,
        "Implements"@ != "Exec"@,
        "Keywords"@ != "Exec"@,
        "StartupNotify"@ != "Exec"@,
        "StartupWMClass"@ != "Exec"@,
        "URL"@ != "Exec"@,
        "PrefersNonDefaultGPU"@ != "Exec"@,
        "SingleMainWindow"@ != "Exec"@,
{
    reveal_strlit("Type");
    reveal_strlit("Name");
    reveal_strlit("Version");
    reveal_strlit("GenericName");
    reveal_strlit("NoDisplay");
    reveal_strlit("Comment");
    reveal_strlit("Icon");
    reveal_strlit("Hidden");
    reveal_strlit("OnlyShowIn");
    reveal_strlit("NotShowIn");
    reveal_strlit("DBusActivatable");
    reveal_strlit("TryExec");
    reveal_strlit("Exec");
    reveal_strlit("Path");
    reveal_strlit("Terminal");
    reveal_strlit("Actions");
    reveal_strlit("MimeType");
    reveal_strlit("Categories");
    reveal_strlit("Implements");
    reveal_strlit("Keywords");
    reveal_strlit("StartupNotify");
    reveal_strlit("StartupWMClass");
    reveal_strlit("URL");
    reveal_strlit("PrefersNonDefaultGPU");
    reveal_strlit("SingleMainWindow");
    assert("Type"@ =~= seq!['T', 'y', 'p', 'e']);
    assert("Name"@ =~= seq!['N', 'a', 'm', 'e']);
    assert("Icon"@ =~= seq!['I', 'c', 'o', 'n']);
    assert("Exec"@ =~= seq!['E', 'x', 'e', 'c']);
    assert("Path"@ =~= seq!['P', 'a', 't', 'h']);
}


pub(crate) proof fn lemma_filter_a_absent(d: DesktopEntryView, k: Seq<char>)
    requires
        k != "Type"@,
        k != "Version"@,
        k != "Name"@,
        k != "GenericName"@,
        k != "NoDisplay"@,
        k != "Comment"@,
        k != "Icon"@,
        k != "Hidden"@,
        k != "OnlyShowIn"@,
    ensures
        filter_key(main_entries_a(d), k) == Seq::<EntryView>::empty(),
{
    let e1 = seq![EntryView { key: "Type"@, locale: None, value: spec_type_chars(d.entry_type) }];
    let e2 = opt_str_entries("Version"@, d.version);
    let e3 = loc_str_entries("Name"@, d.name);
    let e4 = opt_loc_str_entries("GenericName"@, d.generic_name);
    let e5 = opt_bool_entries("NoDisplay"@, d.no_display);
    let e6 = opt_loc_str_entries("Comment"@, d.comment);
    let e7 = opt_loc_str_entries("Icon"@, d.icon);
    let e8 = opt_bool_entries("Hidden"@, d.hidden);
    let e9 = opt_list_entries("OnlyShowIn"@, d.only_show_in);
    assert(all_keys(e1, "Type"@));
    lemma_opt_str_keys("Version"@, d.version);
    lemma_loc_str_keys("Name"@, d.name);
    lemma_opt_loc_str_keys("GenericName"@, d.generic_name);
    lemma_opt_bool_keys("NoDisplay"@, d.no_display);
    lemma_opt_loc_str_keys("Comment"@, d.comment);
    lemma_opt_loc_str_keys("Icon"@, d.icon);
    lemma_opt_bool_keys("Hidden"@, d.hidden);
    lemma_opt_list_keys("OnlyShowIn"@, d.only_show_in);
    lemma_filter_key_of_all(e1, k, "Type"@);
    lemma_filter_key_of_all(e2, k, "Version"@);
    lemma_filter_key_of_all(e3, k, "Name"@);
    lemma_filter_key_of_all(e4, k, "GenericName"@);
    lemma_filter_key_of_all(e5, k, "NoDisplay"@);
    lemma_filter_key_of_all(e6, k, "Comment"@);
    lemma_filter_key_of_all(e7, k, "Icon"@);
    lemma_filter_key_of_all(e8, k, "Hidden"@);
    lemma_filter_key_of_all(e9, k, "OnlyShowIn"@);
    lemma_filter_key_append(e1, e2, k);
    lemma_filter_key_append(e1 + e2, e3, k);
    lemma_filter_key_append(e1 + e2 + e3, e4, k);
    lemma_filter_key_append(e1 + e2 + e3 + e4, e5, k);
    lemma_filter_key_append(e1 + e2 + e3 + e4 + e5, e6, k);
    lemma_filter_key_append(e1 + e2 + e3 + e4 + e5 + e6, e7, k);
    lemma_filter_key_append(e1 + e2 + e3 + e4 + e5 + e6 + e7, e8, k);
    lemma_filter_key_append(e1 + e2 + e3 + e4 + e5 + e6 + e7 + e8, e9, k);
    assert(filter_key(main_entries_a(d), k) =~= Seq::<EntryView>::empty());
}

pub(crate) proof fn lemma_filter_a_type(d: DesktopEntryView)
    ensures
        filter_key(main_entries_a(d), "Type"@) == seq![
            EntryView { key: "Type"@, locale: None, value: spec_type_chars(d.entry_type) },
        ],
{
    lemma_keys_ne_type();
    let e1 = seq![EntryView { key: "Type"@, locale: None, value: spec_type_chars(d.entry_type) }];
    let e2 = opt_str_entries("Version"@, d.version);
    let e3 = loc_str_entries("Name"@, d.name);
    let e4 = opt_loc_str_entries("GenericName"@, d.generic_name);
    let e5 = opt_bool_entries("NoDisplay"@, d.no_display);
    let e6 = opt_loc_str_entries("Comment"@, d.comment);
    let e7 = opt_loc_str_entries("Icon"@, d.icon);
    let e8 = opt_bool_entries("Hidden"@, d.hidden);
    let e9 = opt_list_entries("OnlyShowIn"@, d.only_show_in);
    assert(all_keys(e1, "Type"@));
    lemma_opt_str_keys("Version"@, d.version);
    lemma_loc_str_keys("Name"@, d.name);
    lemma_opt_loc_str_keys("GenericName"@, d.generic_name);
    lemma_opt_bool_keys("NoDisplay"@, d.no_display);
    lemma_opt_loc_str_keys("Comment"@, d.comment);
    lemma_opt_loc_str_keys("Icon"@, d.icon);
    lemma_opt_bool_keys("Hidden"@, d.hidden);
    lemma_opt_list_keys("OnlyShowIn"@, d.only_show_in);
    lemma_filter_key_of_all(e1, "Type"@, "Type"@);
    lemma_filter_key_of_all(e2, "Type"@, "Version"@);
    lemma_filter_key_of_all(e3, "Type"@, "Name"@);
    lemma_filter_key_of_all(e4, "Type"@, "GenericName"@);
    lemma_filter_key_of_all(e5, "Type"@, "NoDisplay"@);
    lemma_filter_key_of_all(e6, "Type"@, "Comment"@);
    lemma_filter_key_of_all(e7, "Type"@, "Icon"@);
    lemma_filter_key_of_all(e8, "Type"@, "Hidden"@);
    lemma_filter_key_of_all(e9, "Type"@, "OnlyShowIn"@);
    lemma_filter_key_append(e1, e2, "Type"@);
    lemma_filter_key_append(e1 + e2, e3, "Type"@);
    lemma_filter_key_append(e1 + e2 + e3, e4, "Type"@);
    lemma_filter_key_append(e1 + e2 + e3 + e4, e5, "Type"@);
    lemma_filter_key_append(e1 + e2 + e3 + e4 + e5, e6, "Type"@);
    lemma_filter_key_append(e1 + e2 + e3 + e4 + e5 + e6, e7, "Type"@);
    lemma_filter_key_append(e1 + e2 + e3 + e4 + e5 + e6 + e7, e8, "Type"@);
    lemma_filter_key_append(e1 + e2 + e3 + e4 + e5 + e6 + e7 + e8, e9, "Type"@);
    assert(filter_key(main_entries_a(d), "Type"@) =~= e1);
}

pub(crate) proof fn lemma_filter_a_name(d: DesktopEntryView)
    ensures
        filter_key(main_entries_a(d), "Name"@) == loc_str_entries("Name"@, d.name),
{
    lemma_keys_ne_name();
    let e1 = seq![EntryView { key: "Type"@, locale: None, value: spec_type_chars(d.entry_type) }];
    let e2 = opt_str_entries("Version"@, d.version);
    let e3 = loc_str_entries("Name"@, d.name);
    let e4 = opt_loc_str_entries("GenericName"@, d.generic_name);
    let e5 = opt_bool_entries("NoDisplay"@, d.no_display);
    let e6 = opt_loc_str_entries("Comment"@, d.comment);
    let e7 = opt_loc_str_entries("Icon"@, d.icon);
    let e8 = opt_bool_entries("Hidden"@, d.hidden);
    let e9 = opt_list_entries("OnlyShowIn"@, d.only_show_in);
    assert(all_keys(e1, "Type"@));
    lemma_opt_str_keys("Version"@, d.version);
    lemma_loc_str_keys("Name"@, d.name);
    lemma_opt_loc_str_keys("GenericName"@, d.generic_name);
    lemma_opt_bool_keys("NoDisplay"@, d.no_display);
    lemma_opt_loc_str_keys("Comment"@, d.comment);
    lemma_opt_loc_str_keys("Icon"@, d.icon);
    lemma_opt_bool_keys("Hidden"@, d.hidden);
    lemma_opt_list_keys("OnlyShowIn"@, d.only_show_in);
    lemma_filter_key_of_all(e1, "Name"@, "Type"@);
    lemma_filter_key_of_all(e2, "Name"@, "Version"@);
    lemma_filter_key_of_all(e3, "Name"@, "Name"@);
    lemma_filter_key_of_all(e4, "Name"@, "GenericName"@);
    lemma_filter_key_of_all(e5, "Name"@, "NoDisplay"@);
    lemma_filter_key_of_all(e6, "Name"@, "Comment"@);
    lemma_filter_key_of_all(e7, "Name"@, "Icon"@);
    lemma_filter_key_of_all(e8, "Name"@, "Hidden"@);
    lemma_filter_key_of_all(e9, "Name"@, "OnlyShowIn"@);
    lemma_filter_key_append(e1, e2, "Name"@);
    lemma_filter_key_append(e1 + e2, e3, "Name"@);
    lemma_filter_key_append(e1 + e2 + e3, e4, "Name"@);
    lemma_filter_key_append(e1 + e2 + e3 + e4, e5, "Name"@);
    lemma_filter_key_append(e1 + e2 + e3 + e4 + e5, e6, "Name"@);
    lemma_filter_key_append(e1 + e2 + e3 + e4 + e5 + e6, e7, "Name"@);
    lemma_filter_key_append(e1 + e2 + e3 + e4 + e5 + e6 + e7, e8, "Name"@);
    lemma_filter_key_append(e1 + e2 + e3 + e4 + e5 + e6 + e7 + e8, e9, "Name"@);
    assert(filter_key(main_entries_a(d), "Name"@) =~= e3);
}

pub(crate) proof fn lemma_filter_b_absent(d: DesktopEntryView, k: Seq<char>)
    requires
        k != "NotShowIn"@,
        k != "DBusActivatable"@,
        k != "TryExec"@,
        k != "Exec"@,
        k != "Path"@,
        k != "Terminal"@,
        k != "Actions"@,
        k != "MimeType"@,
        k != "Categories"@,
    ensures
        filter_key(main_entries_b(d), k) == Seq::<EntryView>::empty(),
{
    let e1 = opt_list_entries("NotShowIn"@, d.not_show_in);
    let e2 = opt_bool_entries("DBusActivatable"@, d.dbus_activatable);
    let e3 = opt_str_entries("TryExec"@, d.try_exec);
    let e4 = opt_str_entries("Exec"@, d.exec_cmd);
    let e5 = opt_str_entries("Path"@, d.path);
    let e6 = opt_bool_entries("Terminal"@, d.terminal);
    let e7 = opt_list_entries("Actions"@, d.actions);
    let e8 = opt_list_entries("MimeType"@, d.mime_type);
    let e9 = opt_list_entries("Categories"@, d.categories);
    lemma_opt_list_keys("NotShowIn"@, d.not_show_in);
    lemma_opt_bool_keys("DBusActivatable"@, d.dbus_activatable);
    lemma_opt_str_keys("TryExec"@, d.try_exec);
    lemma_opt_str_keys("Exec"@, d.exec_cmd);
    lemma_opt_str_keys("Path"@, d.path);
    lemma_opt_bool_keys("Terminal"@, d.terminal);
    lemma_opt_list_keys("Actions"@, d.actions);
    lemma_opt_list_keys("MimeType"@, d.mime_type);
    lemma_opt_list_keys("Categories"@, d.categories);
    lemma_filter_key_of_all(e1, k, "NotShowIn"@);
    lemma_filter_key_of_all(e2, k, "DBusActivatable"@);
    lemma_filter_key_of_all(e3, k, "TryExec"@);
    lemma_filter_key_of_all(e4, k, "Exec"@);
    lemma_filter_key_of_all(e5, k, "Path"@);
    lemma_filter_key_of_all(e6, k, "Terminal"@);
    lemma_filter_key_of_all(e7, k, "Actions"@);
    lemma_filter_key_of_all(e8, k, "MimeType"@);
    lemma_filter_key_of_all(e9, k, "Categories"@);
    lemma_filter_key_append(e1, e2, k);
    lemma_filter_key_append(e1 + e2, e3, k);
    lemma_filter_key_append(e1 + e2 + e3, e4, k);
    lemma_filter_key_append(e1 + e2 + e3 + e4, e5, k);
    lemma_filter_key_append(e1 + e2 + e3 + e4 + e5, e6, k);
    lemma_filter_key_append(e1 + e2 + e3 + e4 + e5 + e6, e7, k);
    lemma_filter_key_append(e1 + e2 + e3 + e4 + e5 + e6 + e7, e8, k);
    lemma_filter_key_append(e1 + e2 + e3 + e4 + e5 + e6 + e7 + e8, e9, k);
    assert(filter_key(main_entries_b(d), k) =~= Seq::<EntryView>::empty());
}

pub(crate) proof fn lemma_filter_b_exec(d: DesktopEntryView)
    ensures
        filter_key(main_entries_b(d), "Exec"@) == opt_str_entries("Exec"@, d.exec_cmd),
{
    lemma_keys_ne_exec();
    let e1 = opt_list_entries("NotShowIn"@, d.not_show_in);
    let e2 = opt_bool_entries("DBusActivatable"@, d.dbus_activatable);
    let e3 = opt_str_entries("TryExec"@, d.try_exec);
    let e4 = opt_str_entries("Exec"@, d.exec_cmd);
    let e5 = opt_str_entries("Path"@, d.path);
    let e6 = opt_bool_entries("Terminal"@, d.terminal);
    let e7 = opt_list_entries("Actions"@, d.actions);
    let e8 = opt_list_entries("MimeType"@, d.mime_type);
    let e9 = opt_list_entries("Categories"@, d.categories);
    lemma_opt_list_keys("NotShowIn"@, d.not_show_in);
    lemma_opt_bool_keys("DBusActivatable"@, d.dbus_activatable);
    lemma_opt_str_keys("TryExec"@, d.try_exec);
    lemma_opt_str_keys("Exec"@, d.exec_cmd);
    lemma_opt_str_keys("Path"@, d.path);
    lemma_opt_bool_keys("Terminal"@, d.terminal);
    lemma_opt_list_keys("Actions"@, d.actions);
    lemma_opt_list_keys("MimeType"@, d.mime_type);
    lemma_opt_list_keys("Categories"@, d.categories);
    lemma_filter_key_of_all(e1, "Exec"@, "NotShowIn"@);
    lemma_filter_key_of_all(e2, "Exec"@, "DBusActivatable"@);
    lemma_filter_key_of_all(e3, "Exec"@, "TryExec"@);
    lemma_filter_key_of_all(e4, "Exec"@, "Exec"@);
    lemma_filter_key_of_all(e5, "Exec"@, "Path"@);
    lemma_filter_key_of_all(e6, "Exec"@, "Terminal"@);
    lemma_filter_key_of_all(e7, "Exec"@, "Actions"@);
    lemma_filter_key_of_all(e8, "Exec"@, "MimeType"@);
    lemma_filter_key_of_all(e9, "Exec"@, "Categories"@);
    lemma_filter_key_append(e1, e2, "Exec"@);
    lemma_filter_key_append(e1 + e2, e3, "Exec"@);
    lemma_filter_key_append(e1 + e2 + e3, e4, "Exec"@);
    lemma_filter_key_append(e1 + e2 + e3 + e4, e5, "Exec"@);
    lemma_filter_key_append(e1 + e2 + e3 + e4 + e5, e6, "Exec"@);
    lemma_filter_key_append(e1 + e2 + e3 + e4 + e5 + e6, e7, "Exec"@);
    lemma_filter_key_append(e1 + e2 + e3 + e4 + e5 + e6 + e7, e8, "Exec"@);
    lemma_filter_key_append(e1 + e2 + e3 + e4 + e5 + e6 + e7 + e8, e9, "Exec"@);
    assert(filter_key(main_entries_b(d), "Exec"@) =~= e4);
}

pub(crate) proof fn lemma_filter_c_absent(d: DesktopEntryView, k: Seq<char>)
    requires
        k != "Implements"@,
        k != "Keywords"@,
        k != "StartupNotify"@,
        k != "StartupWMClass"@,
        k != "URL"@,
        k != "PrefersNonDefaultGPU"@,
        k != "SingleMainWindow"@,
        crate::fields::is_known_key(k),
        forall|j: int|
            0 <= j < d.unknown_keys.len() ==> !crate::fields::is_known_key(
                (#[trigger] d.unknown_keys[j]).0,
            ),
    ensures
        filter_key(main_entries_c(d), k) == Seq::<EntryView>::empty(),
{
    let e1 = opt_list_entries("Implements"@, d.implements);
    let e2 = opt_loc_list_entries("Keywords"@, d.keywords);
    let e3 = opt_bool_entries("StartupNotify"@, d.startup_notify);
    let e4 = opt_str_entries("StartupWMClass"@, d.startup_wm_class);
    let e5 = opt_str_entries("URL"@, d.url);
    let e6 = opt_bool_entries("PrefersNonDefaultGPU"@, d.prefers_non_default_gpu);
    let e7 = opt_bool_entries("SingleMainWindow"@, d.single_main_window);
    let e8 = buckets_chunk_entries(d.unknown_keys);
    lemma_opt_list_keys("Implements"@, d.implements);
    lemma_opt_loc_list_keys("Keywords"@, d.keywords);
    lemma_opt_bool_keys("StartupNotify"@, d.startup_notify);
    lemma_opt_str_keys("StartupWMClass"@, d.startup_wm_class);
    lemma_opt_str_keys("URL"@, d.url);
    lemma_opt_bool_keys("PrefersNonDefaultGPU"@, d.prefers_non_default_gpu);
    lemma_opt_bool_keys("SingleMainWindow"@, d.single_main_window);
    lemma_filter_key_of_all(e1, k, "Implements"@);
    lemma_filter_key_of_all(e2, k, "Keywords"@);
    lemma_filter_key_of_all(e3, k, "StartupNotify"@);
    lemma_filter_key_of_all(e4, k, "StartupWMClass"@);
    lemma_filter_key_of_all(e5, k, "URL"@);
    lemma_filter_key_of_all(e6, k, "PrefersNonDefaultGPU"@);
    lemma_filter_key_of_all(e7, k, "SingleMainWindow"@);
    lemma_buckets_entries_unknown(d.unknown_keys, k);
    lemma_filter_key_append(e1, e2, k);
    lemma_filter_key_append(e1 + e2, e3, k);
    lemma_filter_key_append(e1 + e2 + e3, e4, k);
    lemma_filter_key_append(e1 + e2 + e3 + e4, e5, k);
    lemma_filter_key_append(e1 + e2 + e3 + e4 + e5, e6, k);
    lemma_filter_key_append(e1 + e2 + e3 + e4 + e5 + e6, e7, k);
    lemma_filter_key_append(e1 + e2 + e3 + e4 + e5 + e6 + e7, e8, k);
    assert(filter_key(main_entries_c(d), k) =~= Seq::<EntryView>::empty());
}

pub(crate) proof fn lemma_is_known_tne()
    ensures
        crate::fields::is_known_key("Type"@),
        crate::fields::is_known_key("Name"@),
        crate::fields::is_known_key("Exec"@),
{
}

pub(crate) proof fn lemma_main_filter_type(d: DesktopEntryView)
    requires
        doc_wf(d),
    ensures
        filter_key(main_field_entries(d), "Type"@) == seq![
            EntryView { key: "Type"@, locale: None, value: spec_type_chars(d.entry_type) },
        ],
{
    lemma_keys_ne_type();
    lemma_is_known_tne();
    lemma_filter_key_append(main_entries_a(d), main_entries_b(d), "Type"@);
    lemma_filter_key_append(main_entries_a(d) + main_entries_b(d), main_entries_c(d), "Type"@);
    lemma_filter_a_type(d);
    lemma_filter_b_absent(d, "Type"@);
    lemma_filter_c_absent(d, "Type"@);
    assert(filter_key(main_field_entries(d), "Type"@) =~= seq![
        EntryView { key: "Type"@, locale: None, value: spec_type_chars(d.entry_type) },
    ]);
}

pub(crate) proof fn lemma_main_filter_name(d: DesktopEntryView)
    requires
        doc_wf(d),
    ensures
        filter_key(main_field_entries(d), "Name"@) == loc_str_entries("Name"@, d.name),
{
    lemma_keys_ne_name();
    lemma_is_known_tne();
    lemma_filter_key_append(main_entries_a(d), main_entries_b(d), "Name"@);
    lemma_filter_key_append(main_entries_a(d) + main_entries_b(d), main_entries_c(d), "Name"@);
    lemma_filter_a_name(d);
    lemma_filter_b_absent(d, "Name"@);
    lemma_filter_c_absent(d, "Name"@);
    assert(filter_key(main_field_entries(d), "Name"@) =~= loc_str_entries("Name"@, d.name));
}

pub(crate) proof fn lemma_main_filter_exec(d: DesktopEntryView)
    requires
        doc_wf(d),
    ensures
        filter_key(main_field_entries(d), "Exec"@) == opt_str_entries("Exec"@, d.exec_cmd),
{
    lemma_keys_ne_exec();
    lemma_is_known_tne();
    lemma_filter_key_append(main_entries_a(d), main_entries_b(d), "Exec"@);
    lemma_filter_key_append(main_entries_a(d) + main_entries_b(d), main_entries_c(d), "Exec"@);
    lemma_filter_a_absent(d, "Exec"@);
    lemma_filter_b_exec(d);
    lemma_filter_c_absent(d, "Exec"@);
    assert(filter_key(main_field_entries(d), "Exec"@) =~= opt_str_entries("Exec"@, d.exec_cmd));
}


/// The main group as the reparse collects it.
pub open spec fn main_group(d: DesktopEntryView) -> GroupView {
    GroupView { name: "Desktop Entry"@, entries: mm_adds(Seq::empty(), main_field_entries(d)) }
}

pub(crate) proof fn lemma_doc_lines_clean(d: DesktopEntryView)
    requires
        doc_wf(d),
    ensures
        all_clean(doc_lines(d)),
{
    lemma_chunk_comments(d.comments);
    lemma_lit_desktop_entry_clean();
    lemma_header_line_clean("Desktop Entry"@);
    lemma_chunk_main(d);
    lemma_groups_lines_clean(d.additional_groups);
    let hdr = seq!['['] + "Desktop Entry"@ + seq![']'];
    assert(all_clean(seq![hdr]));
    lemma_all_clean_append(comment_lines(d.comments), seq![hdr]);
    lemma_all_clean_append(comment_lines(d.comments) + seq![hdr], main_field_lines(d));
    lemma_all_clean_append(
        comment_lines(d.comments) + seq![hdr] + main_field_lines(d),
        groups_chunk_lines(d.additional_groups),
    );
}

/// Scanning the lines of a well-formed document succeeds: the main group
/// collects the emitted entries, and each additional group follows,
/// re-bucketed, in order.
#[verifier::rlimit(100)]
pub(crate) proof fn lemma_scan_doc(d: DesktopEntryView)
    requires
        doc_wf(d),
    ensures
        exists|cm: Seq<CommentView>|
            spec_scan(
                doc_lines(d),
                0,
                ScanState { groups: Seq::empty(), comments: Seq::empty() },
            ) == ScanOut::Good(
                ScanState {
                    groups: seq![main_group(d)] + reparsed_groups(d.additional_groups),
                    comments: cm,
                },
            ),
{
    let ls = doc_lines(d);
    let cl = comment_lines(d.comments);
    let c = cl.len() as int;
    let hdr = seq!['['] + "Desktop Entry"@ + seq![']'];
    let mfl = main_field_lines(d);
    let me = main_field_entries(d);
    let gl2 = groups_chunk_lines(d.additional_groups);
    let st0 = ScanState { groups: Seq::empty(), comments: Seq::empty() };
    assert(ls.len() == c + 1 + mfl.len() + gl2.len());
    // the leading comments
    lemma_chunk_comments(d.comments);
    assert forall|j: int|
        0 <= j < c implies (spec_classify(#[trigger] ls[j]) is Blank || spec_classify(
        ls[j],
    ) is CommentLine) by {
        assert(ls[j] == cl[j]);
    }
    lemma_scan_skip_comments(ls, 0, c, st0);
    let cm = choose|cm: Seq<CommentView>|
        spec_scan(ls, 0, st0) == spec_scan(
            ls,
            0 + c,
            ScanState { groups: st0.groups, comments: cm },
        );
    let st_a = ScanState { groups: Seq::<GroupView>::empty(), comments: cm };
    assert(ScanState { groups: st0.groups, comments: cm } == st_a);
    assert(spec_scan(ls, 0, st0) == spec_scan(ls, c, st_a));
    // the main group header
    assert(ls[c] == hdr);
    lemma_lit_desktop_entry_clean();
    lemma_classify_header("Desktop Entry"@);
    lemma_scan_step(ls, c, st_a);
    assert(!has_group(st_a.groups, "Desktop Entry"@));
    let g0 = GroupView { name: "Desktop Entry"@, entries: Seq::empty() };
    let st_b = ScanState { groups: st_a.groups.push(g0), comments: cm };
    assert(spec_scan_line(st_a, c + 1, ls[c]) == ScanOut::Good(st_b));
    assert(spec_scan(ls, c, st_a) == spec_scan(ls, c + 1, st_b));
    // the body of the main group
    lemma_chunk_main(d);
    assert(mfl.len() == me.len());
    assert forall|j: int| 0 <= j < me.len() implies spec_classify(ls[c + 1 + j])
        == LineClass::KeyVal(#[trigger] me[j]) by {
        assert(ls[c + 1 + j] == mfl[j]);
        assert(spec_classify(mfl[j]) == LineClass::KeyVal(me[j]));
    }
    lemma_scan_entries(ls, c + 1, st_b, me);
    let gm = main_group(d);
    let st_c = ScanState { groups: seq![gm], comments: cm };
    assert(st_b.groups.last() == g0);
    assert(st_b.groups.update(
        st_b.groups.len() - 1,
        GroupView { name: g0.name, entries: mm_adds(g0.entries, me) },
    ) =~= seq![gm]);
    assert(ScanState {
        groups: st_b.groups.update(
            st_b.groups.len() - 1,
            GroupView {
                name: st_b.groups.last().name,
                entries: mm_adds(st_b.groups.last().entries, me),
            },
        ),
        comments: st_b.comments,
    } =~= st_c);
    assert(spec_scan(ls, c + 1, st_b) == spec_scan(ls, c + 1 + me.len(), st_c));
    // the additional groups
    let gstart = c + 1 + me.len() as int;
    assert forall|k: int|
        0 <= k < gl2.len() implies ls.subrange(gstart, gstart + gl2.len())[k] == gl2[k] by {
        assert(ls.subrange(gstart, gstart + gl2.len())[k] == ls[gstart + k]);
        assert(ls[gstart + k] == gl2[k]);
    }
    assert(ls.subrange(gstart, gstart + gl2.len()) =~= gl2);
    assert forall|j: int| 0 <= j < d.additional_groups.len() implies !has_group(
        st_c.groups,
        (#[trigger] d.additional_groups[j]).name,
    ) by {
        assert(d.additional_groups[j].name != "Desktop Entry"@);
        assert forall|x: int| 0 <= x < st_c.groups.len() implies (#[trigger] st_c.groups[x]).name
            != d.additional_groups[j].name by {
            assert(st_c.groups[x] == gm);
        }
    }
    lemma_scan_groups(ls, gstart, st_c, d.additional_groups);
    let st_f = ScanState {
        groups: st_c.groups + reparsed_groups(d.additional_groups),
        comments: cm,
    };
    assert(spec_scan(ls, gstart, st_c) == spec_scan(ls, gstart + gl2.len(), st_f));
    assert(gstart + gl2.len() == ls.len());
    assert(spec_scan(ls, ls.len() as int, st_f) == ScanOut::Good(st_f));
    assert(spec_scan(ls, 0, st0) == ScanOut::Good(
        ScanState {
            groups: seq![gm] + reparsed_groups(d.additional_groups),
            comments: cm,
        },
    ));
}

/// Extracting the document from the scanned state of its own serialized
/// text gives the entry type, default name, and command line back.
#[verifier::rlimit(100)]
pub(crate) proof fn lemma_extract_doc(d: DesktopEntryView, cm: Seq<CommentView>)
    requires
        doc_wf(d),
    ensures
        ({
            let st = ScanState {
                groups: seq![main_group(d)] + reparsed_groups(d.additional_groups),
                comments: cm,
            };
            spec_extract(st) matches ParseOut::Done(d2) && d2.entry_type == d.entry_type
                && d2.name.default == d.name.default && d2.exec_cmd == d.exec_cmd
        }),
{
    let st = ScanState {
        groups: seq![main_group(d)] + reparsed_groups(d.additional_groups),
        comments: cm,
    };
    let gm = main_group(d);
    let me = main_field_entries(d);
    let mm = gm.entries;
    assert(st.groups[0] == gm);
    assert(find_group(st.groups, "Desktop Entry"@) == Some(gm));
    let none_mm = Seq::<(Seq<char>, Seq<EntryView>)>::empty();
    assert(al_lookup(none_mm, "Type"@) is None);
    assert(al_lookup(none_mm, "Name"@) is None);
    assert(al_lookup(none_mm, "Exec"@) is None);
    lemma_lookup_mm_adds(none_mm, me, "Type"@);
    lemma_lookup_mm_adds(none_mm, me, "Name"@);
    lemma_lookup_mm_adds(none_mm, me, "Exec"@);
    lemma_main_filter_type(d);
    lemma_main_filter_name(d);
    lemma_main_filter_exec(d);
    let te = EntryView { key: "Type"@, locale: None, value: spec_type_chars(d.entry_type) };
    assert(al_lookup(mm, "Type"@) == Some(seq![te]));
    assert(seq![te][0] == te);
    lemma_type_chars_round(d.entry_type);
    let nes = loc_str_entries("Name"@, d.name);
    assert(nes.len() > 0);
    assert(al_lookup(mm, "Name"@) == Some(nes));
    lemma_variant_entries_tagged("Name"@, d.name.localized);
    lemma_loc_default_single_untagged(
        EntryView { key: "Name"@, locale: None, value: d.name.default },
        variant_entries("Name"@, d.name.localized),
    );
    assert(loc_default(nes) == d.name.default);
    match d.exec_cmd {
        Some(v) => {
            let ee = EntryView { key: "Exec"@, locale: None, value: v };
            assert(opt_str_entries("Exec"@, d.exec_cmd) == seq![ee]);
            assert(al_lookup(mm, "Exec"@) == Some(seq![ee]));
            assert(first_untagged(seq![ee]) == Some(ee));
            assert(opt_string_field(mm, "Exec"@) == Some(v));
        },
        None => {
            assert(opt_str_entries("Exec"@, d.exec_cmd) == Seq::<EntryView>::empty());
            assert(filter_key(me, "Exec"@).len() == 0);
            assert(al_lookup(mm, "Exec"@) is None);
            assert(opt_string_field(mm, "Exec"@) is None);
        },
    }
    assert(spec_extract(st) == ParseOut::Done(build_doc(d.entry_type, nes, mm, st)));
}

/// Law: serializing a well-formed document and parsing the text back
/// succeeds, and the parsed document carries the same entry type, the same
/// default name, and the same command line. Raw-text equality is not
/// claimed: physical order, in-group comments, and duplicate lines are
/// deliberately normalized away.
pub proof fn lemma_serialize_parse_round_trip(d: DesktopEntryView)
    requires
        doc_wf(d),
    ensures
        spec_parse(spec_serialize(d)) matches ParseOut::Done(d2) && d2.entry_type == d.entry_type
            && d2.name.default == d.name.default && d2.exec_cmd == d.exec_cmd,
{
    lemma_serialize_is_unlines(d);
    lemma_doc_lines_clean(d);
    lemma_spec_lines_unlines(doc_lines(d));
    assert(spec_lines(spec_serialize(d)) == doc_lines(d));
    lemma_scan_doc(d);
    let cm = choose|cm: Seq<CommentView>|
        spec_scan(
            doc_lines(d),
            0,
            ScanState { groups: Seq::empty(), comments: Seq::empty() },
        ) == ScanOut::Good(
            ScanState {
                groups: seq![main_group(d)] + reparsed_groups(d.additional_groups),
                comments: cm,
            },
        );
    lemma_extract_doc(d, cm);
}


pub(crate) proof fn lemma_subrange_not_contains(s: Seq<char>, lo: int, hi: int, c: char)
    requires
        !s.contains(c),
        0 <= lo <= hi <= s.len(),
    ensures
        !s.subrange(lo, hi).contains(c),
{
    assert forall|i: int| 0 <= i < hi - lo implies s.subrange(lo, hi)[i] != c by {
        assert(s.subrange(lo, hi)[i] == s[lo + i]);
    }
}

pub(crate) proof fn lemma_trim_start_nc(s: Seq<char>, c: char)
    requires
        !s.contains(c),
    ensures
        !trim_start(s).contains(c),
    decreases s.len(),
{
    if s.len() > 0 && is_ws(s[0]) {
        lemma_subrange_not_contains(s, 1, s.len() as int, c);
        lemma_trim_start_nc(s.drop_first(), c);
    }
}

pub(crate) proof fn lemma_trim_end_nc(s: Seq<char>, c: char)
    requires
        !s.contains(c),
    ensures
        !trim_end(s).contains(c),
    decreases s.len(),
{
    if s.len() > 0 && is_ws(s.last()) {
        lemma_subrange_not_contains(s, 0, s.len() - 1, c);
        lemma_trim_end_nc(s.drop_last(), c);
    }
}

pub(crate) proof fn lemma_trim_nc(s: Seq<char>, c: char)
    requires
        !s.contains(c),
    ensures
        !trim(s).contains(c),
{
    lemma_trim_start_nc(s, c);
    lemma_trim_end_nc(trim_start(s), c);
}

/// Splitting carriage-return-free text yields clean lines.
pub(crate) proof fn lemma_spec_lines_clean(s: Seq<char>)
    requires
        !s.contains('\r'),
    ensures
        all_clean(spec_lines(s)),
    decreases s.len(),
{
    if s.len() > 0 {
        s.index_of_first_ensures('\n');
        match s.index_of_first('\n') {
            Some(i) => {
                let line = strip_tail_cr(s.subrange(0, i));
                let rest = s.subrange(i + 1, s.len() as int);
                lemma_subrange_not_contains(s, 0, i, '\r');
                assert forall|x: int| 0 <= x < i implies s.subrange(0, i)[x] != '\n' by {
                    assert(s.subrange(0, i)[x] == s[x]);
                }
                assert(!s.subrange(0, i).contains('\n'));
                assert(line == s.subrange(0, i));
                assert(clean(line));
                lemma_subrange_not_contains(s, i + 1, s.len() as int, '\r');
                lemma_spec_lines_clean(rest);
                assert forall|k: int| 0 <= k < spec_lines(s).len() implies clean(
                    #[trigger] spec_lines(s)[k],
                ) by {
                    if k == 0 {
                        assert(spec_lines(s)[0] == line);
                    } else {
                        assert(spec_lines(s)[k] == spec_lines(rest)[k - 1]);
                    }
                }
            },
            None => {
                assert forall|x: int| 0 <= x < s.len() implies s[x] != '\n' by {}
                assert(!s.contains('\n'));
                assert(spec_lines(s) == seq![s]);
                assert forall|k: int| 0 <= k < spec_lines(s).len() implies clean(
                    #[trigger] spec_lines(s)[k],
                ) by {
                    assert(spec_lines(s)[k] == s);
                }
            },
        }
    }
}

pub(crate) proof fn lemma_locale_from_chars_nc(s: Seq<char>, c: char)
    requires
        !s.contains(c),
    ensures
        !spec_locale_from_chars(s).lang.contains(c),
        !opt_contains(spec_locale_from_chars(s).country, c),
        !opt_contains(spec_locale_from_chars(s).encoding, c),
        !opt_contains(spec_locale_from_chars(s).modifier, c),
{
    s.index_of_last_ensures('@');
    let b1 = crate::locale::split_last_at(s, '@').0;
    match s.index_of_last('@') {
        Some(i) => {
            lemma_subrange_not_contains(s, 0, i, c);
            lemma_subrange_not_contains(s, i + 1, s.len() as int, c);
        },
        None => {},
    }
    assert(!b1.contains(c));
    b1.index_of_last_ensures('.');
    let b2 = crate::locale::split_last_at(b1, '.').0;
    match b1.index_of_last('.') {
        Some(i) => {
            lemma_subrange_not_contains(b1, 0, i, c);
            lemma_subrange_not_contains(b1, i + 1, b1.len() as int, c);
        },
        None => {},
    }
    assert(!b2.contains(c));
    b2.index_of_first_ensures('_');
    match b2.index_of_first('_') {
        Some(i) => {
            lemma_subrange_not_contains(b2, 0, i, c);
            lemma_subrange_not_contains(b2, i + 1, b2.len() as int, c);
        },
        None => {},
    }
}

pub(crate) proof fn lemma_locale_from_chars_ok(s: Seq<char>)
    requires
        part_ok(s),
    ensures
        locale_ok(spec_locale_from_chars(s)),
{
    lemma_locale_from_chars_nc(s, '\n');
    lemma_locale_from_chars_nc(s, '\r');
    lemma_locale_from_chars_nc(s, '=');
    lemma_locale_from_chars_nc(s, ']');
}

/// What a clean line can classify to: a well-formed entry, a clean header
/// name, or a clean comment.
pub(crate) proof fn lemma_classify_wf(line: Seq<char>)
    requires
        clean(line),
    ensures
        (spec_classify(line) matches LineClass::KeyVal(e) ==> is_valid_key(e.key)
            && entry_emit_wf(e)),
        (spec_classify(line) matches LineClass::Header(n) ==> clean(n)),
        (spec_classify(line) matches LineClass::CommentLine(cc) ==> clean(cc)),
{
    lemma_trim_nc(line, '\n');
    lemma_trim_nc(line, '\r');
    let t = trim(line);
    if t.len() == 0 {
    } else if t[0] == '#' {
        lemma_subrange_not_contains(t, 1, t.len() as int, '\n');
        lemma_subrange_not_contains(t, 1, t.len() as int, '\r');
    } else if t[0] == '[' {
        if t.len() >= 2 && t.last() == ']' {
            lemma_subrange_not_contains(t, 1, t.len() - 1, '\n');
            lemma_subrange_not_contains(t, 1, t.len() - 1, '\r');
        }
    } else {
        line.index_of_first_ensures('=');
        match line.index_of_first('=') {
            None => {},
            Some(eq) => {
                let kp = line.subrange(0, eq);
                let value = line.subrange(eq + 1, line.len() as int);
                lemma_subrange_not_contains(line, eq + 1, line.len() as int, '\n');
                lemma_subrange_not_contains(line, eq + 1, line.len() as int, '\r');
                assert(clean(value));
                assert forall|x: int| 0 <= x < eq implies kp[x] != '=' by {
                    assert(kp[x] == line[x]);
                }
                assert(!kp.contains('='));
                kp.index_of_first_ensures('[');
                match kp.index_of_first('[') {
                    None => {},
                    Some(bs) => {
                        let after = kp.subrange(bs + 1, kp.len() as int);
                        after.index_of_first_ensures(']');
                        match after.index_of_first(']') {
                            None => {},
                            Some(j) => {
                                let ls = after.subrange(0, j);
                                lemma_subrange_not_contains(line, 0, eq, '\n');
                                lemma_subrange_not_contains(line, 0, eq, '\r');
                                lemma_subrange_not_contains(kp, bs + 1, kp.len() as int, '\n');
                                lemma_subrange_not_contains(kp, bs + 1, kp.len() as int, '\r');
                                lemma_subrange_not_contains(kp, bs + 1, kp.len() as int, '=');
                                lemma_subrange_not_contains(after, 0, j, '\n');
                                lemma_subrange_not_contains(after, 0, j, '\r');
                                lemma_subrange_not_contains(after, 0, j, '=');
                                assert forall|x: int| 0 <= x < j implies ls[x] != ']' by {
                                    assert(ls[x] == after[x]);
                                }
                                assert(!ls.contains(']'));
                                assert(part_ok(ls));
                                lemma_locale_from_chars_ok(ls);
                            },
                        }
                    },
                }
            },
        }
    }
}


/// The groups a scan of clean lines maintains: each fit for re-emission,
/// names pairwise distinct.
pub open spec fn groups_scan_wf(gs: Seq<GroupView>) -> bool {
    &&& forall|j: int| 0 <= j < gs.len() ==> group_emit_wf(#[trigger] gs[j])
    &&& forall|j: int, k: int|
        0 <= j < k < gs.len() ==> (#[trigger] gs[j]).name != (#[trigger] gs[k]).name
}

/// The comments a scan collects all carry clean text.
pub open spec fn comments_scan_wf(cs: Seq<CommentView>) -> bool {
    forall|j: int| 0 <= j < cs.len() ==> clean((#[trigger] cs[j]).content)
}

pub(crate) proof fn lemma_mm_add_wf(mm: Seq<(Seq<char>, Seq<EntryView>)>, e: EntryView)
    requires
        buckets_emit_wf(mm),
        is_valid_key(e.key),
        entry_emit_wf(e),
    ensures
        buckets_emit_wf(mm_add(mm, e.key, e)),
    decreases mm.len(),
{
    if mm.len() == 0 {
        let r = mm_add(mm, e.key, e);
        assert(r[0] == (e.key, seq![e]));
        assert forall|j: int| 0 <= j < r[0].1.len() implies entry_emit_wf(#[trigger] r[0].1[j]) by {
            assert(r[0].1[j] == e);
        }
        assert forall|j: int| 0 <= j < r.len() implies bucket_emit_wf(#[trigger] r[j]) by {
            assert(r[j] == r[0]);
        }
    } else if mm[0].0 == e.key {
        let nb = (mm[0].0, mm[0].1.push(e));
        let r = seq![nb] + mm.drop_first();
        assert(mm_add(mm, e.key, e) == r);
        assert(bucket_emit_wf(mm[0]));
        assert forall|j: int| 0 <= j < nb.1.len() implies entry_emit_wf(#[trigger] nb.1[j]) by {
            if j < mm[0].1.len() {
                assert(nb.1[j] == mm[0].1[j]);
            } else {
                assert(nb.1[j] == e);
            }
        }
        assert forall|j: int| 0 <= j < r.len() implies bucket_emit_wf(#[trigger] r[j]) by {
            if j == 0 {
                assert(r[j] == nb);
            } else {
                assert(r[j] == mm[j]);
            }
        }
    } else {
        assert forall|j: int| 0 <= j < mm.drop_first().len() implies bucket_emit_wf(
            #[trigger] mm.drop_first()[j],
        ) by {
            assert(mm.drop_first()[j] == mm[j + 1]);
        }
        lemma_mm_add_wf(mm.drop_first(), e);
        let r = seq![mm[0]] + mm_add(mm.drop_first(), e.key, e);
        assert(mm_add(mm, e.key, e) == r);
        assert forall|j: int| 0 <= j < r.len() implies bucket_emit_wf(#[trigger] r[j]) by {
            if j == 0 {
                assert(r[j] == mm[0]);
            } else {
                assert(r[j] == mm_add(mm.drop_first(), e.key, e)[j - 1]);
            }
        }
    }
}

/// A scan over clean lines keeps its state fit for re-emission.
pub(crate) proof fn lemma_scan_preserves_wf(lines: Seq<Seq<char>>, i: int, st: ScanState)
    requires
        all_clean(lines),
        groups_scan_wf(st.groups),
        comments_scan_wf(st.comments),
    ensures
        (spec_scan(lines, i, st) matches ScanOut::Good(st2) ==> groups_scan_wf(st2.groups)
            && comments_scan_wf(st2.comments)),
    decreases lines.len() - i,
{
    if 0 <= i < lines.len() {
        assert(clean(lines[i]));
        lemma_classify_wf(lines[i]);
        match spec_classify(lines[i]) {
            LineClass::Blank => {
                if st.groups.len() == 0 {
                    let st2 = ScanState {
                        groups: st.groups,
                        comments: st.comments.push(
                            CommentView {
                                line_number: i + 1,
                                content: Seq::empty(),
                                is_blank: true,
                            },
                        ),
                    };
                    assert(!Seq::<char>::empty().contains('\n'));
                    assert(!Seq::<char>::empty().contains('\r'));
                    assert forall|j: int| 0 <= j < st2.comments.len() implies clean(
                        (#[trigger] st2.comments[j]).content,
                    ) by {
                        if j < st.comments.len() {
                            assert(st2.comments[j] == st.comments[j]);
                        }
                    }
                    lemma_scan_preserves_wf(lines, i + 1, st2);
                } else {
                    lemma_scan_preserves_wf(lines, i + 1, st);
                }
            },
            LineClass::CommentLine(cc) => {
                if st.groups.len() == 0 {
                    let st2 = ScanState {
                        groups: st.groups,
                        comments: st.comments.push(
                            CommentView { line_number: i + 1, content: cc, is_blank: false },
                        ),
                    };
                    assert forall|j: int| 0 <= j < st2.comments.len() implies clean(
                        (#[trigger] st2.comments[j]).content,
                    ) by {
                        if j < st.comments.len() {
                            assert(st2.comments[j] == st.comments[j]);
                        }
                    }
                    lemma_scan_preserves_wf(lines, i + 1, st2);
                } else {
                    lemma_scan_preserves_wf(lines, i + 1, st);
                }
            },
            LineClass::Header(name) => {
                if !has_group(st.groups, name) {
                    let g0 = GroupView { name, entries: Seq::empty() };
                    let st2 = ScanState { groups: st.groups.push(g0), comments: st.comments };
                    assert(buckets_emit_wf(g0.entries));
                    assert(group_emit_wf(g0));
                    assert forall|j: int| 0 <= j < st2.groups.len() implies group_emit_wf(
                        #[trigger] st2.groups[j],
                    ) by {
                        if j < st.groups.len() {
                            assert(st2.groups[j] == st.groups[j]);
                        } else {
                            assert(st2.groups[j] == g0);
                        }
                    }
                    assert forall|j: int, k: int|
                        0 <= j < k < st2.groups.len() implies (#[trigger] st2.groups[j]).name != (
                    #[trigger] st2.groups[k]).name by {
                        if k < st.groups.len() {
                            assert(st2.groups[j] == st.groups[j]);
                            assert(st2.groups[k] == st.groups[k]);
                        } else {
                            assert(st2.groups[k] == g0);
                            assert(st2.groups[j] == st.groups[j]);
                        }
                    }
                    lemma_scan_preserves_wf(lines, i + 1, st2);
                }
            },
            LineClass::KeyVal(e) => {
                if st.groups.len() > 0 {
                    let gi = st.groups.len() - 1;
                    let g = st.groups[gi];
                    assert(group_emit_wf(g));
                    lemma_mm_add_wf(g.entries, e);
                    let g2 = GroupView { name: g.name, entries: mm_add(g.entries, e.key, e) };
                    let st2 = ScanState { groups: st.groups.update(gi, g2), comments: st.comments };
                    assert forall|j: int| 0 <= j < st2.groups.len() implies group_emit_wf(
                        #[trigger] st2.groups[j],
                    ) by {
                        if j != gi {
                            assert(st2.groups[j] == st.groups[j]);
                        } else {
                            assert(st2.groups[j] == g2);
                        }
                    }
                    assert forall|j: int, k: int|
                        0 <= j < k < st2.groups.len() implies (#[trigger] st2.groups[j]).name != (
                    #[trigger] st2.groups[k]).name by {
                        assert(st2.groups[j].name == st.groups[j].name);
                        assert(st2.groups[k].name == st.groups[k].name);
                    }
                    lemma_scan_preserves_wf(lines, i + 1, st2);
                }
            },
            LineClass::BadHeader => {},
            LineClass::BadKey(_) => {},
            LineClass::Malformed => {},
        }
    }
}


/// Every entry of the bucket is fit for re-emission.
pub open spec fn entries_wf(es: Seq<EntryView>) -> bool {
    forall|j: int| 0 <= j < es.len() ==> entry_emit_wf(#[trigger] es[j])
}

pub(crate) proof fn lemma_al_lookup_wf(mm: Seq<(Seq<char>, Seq<EntryView>)>, k: Seq<char>)
    requires
        buckets_emit_wf(mm),
    ensures
        (al_lookup(mm, k) matches Some(b) ==> entries_wf(b)),
    decreases mm.len(),
{
    if mm.len() > 0 {
        assert(bucket_emit_wf(mm[0]));
        assert forall|j: int| 0 <= j < mm.drop_first().len() implies bucket_emit_wf(
            #[trigger] mm.drop_first()[j],
        ) by {
            assert(mm.drop_first()[j] == mm[j + 1]);
        }
        lemma_al_lookup_wf(mm.drop_first(), k);
    }
}

pub(crate) proof fn lemma_first_untagged_wf(es: Seq<EntryView>)
    requires
        entries_wf(es),
    ensures
        (first_untagged(es) matches Some(e) ==> entry_emit_wf(e)),
    decreases es.len(),
{
    if es.len() > 0 && !(es[0].locale is None) {
        assert forall|j: int| 0 <= j < es.drop_first().len() implies entry_emit_wf(
            #[trigger] es.drop_first()[j],
        ) by {
            assert(es.drop_first()[j] == es[j + 1]);
        }
        lemma_first_untagged_wf(es.drop_first());
    }
}

pub(crate) proof fn lemma_opt_string_field_wf(mm: Seq<(Seq<char>, Seq<EntryView>)>, k: Seq<char>)
    requires
        buckets_emit_wf(mm),
    ensures
        opt_clean(crate::fields::opt_string_field(mm, k)),
{
    lemma_al_lookup_wf(mm, k);
    match al_lookup(mm, k) {
        Some(b) => {
            lemma_first_untagged_wf(b);
        },
        None => {},
    }
}

pub(crate) proof fn lemma_split_semi_parts(v: Seq<char>)
    requires
        clean(v),
    ensures
        list_clean(crate::fields::split_semi(v)),
    decreases v.len(),
{
    let r = crate::fields::split_semi(v);
    if v.len() > 0 {
        v.index_of_first_ensures(';');
        match v.index_of_first(';') {
            Some(i) => {
                lemma_subrange_not_contains(v, 0, i, '\n');
                lemma_subrange_not_contains(v, 0, i, '\r');
                lemma_subrange_not_contains(v, i + 1, v.len() as int, '\n');
                lemma_subrange_not_contains(v, i + 1, v.len() as int, '\r');
                lemma_split_semi_parts(v.subrange(i + 1, v.len() as int));
                let rest = crate::fields::split_semi(v.subrange(i + 1, v.len() as int));
                assert forall|j: int| 0 <= j < r.len() implies clean(#[trigger] r[j]) by {
                    if v.subrange(0, i).len() == 0 {
                        assert(r[j] == rest[j]);
                    } else {
                        if j == 0 {
                            assert(r[j] == v.subrange(0, i));
                        } else {
                            assert(r[j] == rest[j - 1]);
                        }
                    }
                }
            },
            None => {
                assert forall|j: int| 0 <= j < r.len() implies clean(#[trigger] r[j]) by {
                    assert(r[j] == v);
                }
            },
        }
    }
}

pub(crate) proof fn lemma_opt_list_field_wf(mm: Seq<(Seq<char>, Seq<EntryView>)>, k: Seq<char>)
    requires
        buckets_emit_wf(mm),
    ensures
        opt_list_clean(crate::fields::opt_list_field(mm, k)),
{
    lemma_al_lookup_wf(mm, k);
    match al_lookup(mm, k) {
        Some(b) => {
            lemma_first_untagged_wf(b);
            match first_untagged(b) {
                Some(e) => {
                    lemma_split_semi_parts(e.value);
                },
                None => {},
            }
        },
        None => {},
    }
}

pub(crate) proof fn lemma_loc_default_wf(es: Seq<EntryView>)
    requires
        entries_wf(es),
    ensures
        clean(loc_default(es)),
    decreases es.len(),
{
    if es.len() == 0 {
        assert(!Seq::<char>::empty().contains('\n'));
        assert(!Seq::<char>::empty().contains('\r'));
    } else {
        assert(entry_emit_wf(es.last()));
        assert forall|j: int| 0 <= j < es.drop_last().len() implies entry_emit_wf(
            #[trigger] es.drop_last()[j],
        ) by {
            assert(es.drop_last()[j] == es[j]);
        }
        lemma_loc_default_wf(es.drop_last());
    }
}

pub(crate) proof fn lemma_al_set_str_wf(
    m: Seq<(LocaleView, Seq<char>)>,
    l: LocaleView,
    v: Seq<char>,
)
    requires
        variants_wf(m),
        locale_ok(l),
        clean(v),
    ensures
        variants_wf(al_set(m, l, v)),
    decreases m.len(),
{
    if m.len() == 0 {
        let r = al_set(m, l, v);
        assert forall|j: int| 0 <= j < r.len() implies locale_ok((#[trigger] r[j]).0) && clean(
            r[j].1,
        ) by {
            assert(r[j] == (l, v));
        }
    } else if m[0].0 == l {
        let r = seq![(l, v)] + m.drop_first();
        assert(al_set(m, l, v) == r);
        assert forall|j: int| 0 <= j < r.len() implies locale_ok((#[trigger] r[j]).0) && clean(
            r[j].1,
        ) by {
            if j == 0 {
                assert(r[j] == (l, v));
            } else {
                assert(r[j] == m[j]);
            }
        }
    } else {
        assert forall|j: int| 0 <= j < m.drop_first().len() implies locale_ok(
            (#[trigger] m.drop_first()[j]).0,
        ) && clean(m.drop_first()[j].1) by {
            assert(m.drop_first()[j] == m[j + 1]);
        }
        lemma_al_set_str_wf(m.drop_first(), l, v);
        let r = seq![m[0]] + al_set(m.drop_first(), l, v);
        assert(al_set(m, l, v) == r);
        assert forall|j: int| 0 <= j < r.len() implies locale_ok((#[trigger] r[j]).0) && clean(
            r[j].1,
        ) by {
            if j == 0 {
                assert(r[j] == m[0]);
            } else {
                assert(r[j] == al_set(m.drop_first(), l, v)[j - 1]);
            }
        }
    }
}

pub(crate) proof fn lemma_loc_map_wf(es: Seq<EntryView>)
    requires
        entries_wf(es),
    ensures
        variants_wf(loc_map(es)),
    decreases es.len(),
{
    if es.len() > 0 {
        assert(entry_emit_wf(es.last()));
        assert forall|j: int| 0 <= j < es.drop_last().len() implies entry_emit_wf(
            #[trigger] es.drop_last()[j],
        ) by {
            assert(es.drop_last()[j] == es[j]);
        }
        lemma_loc_map_wf(es.drop_last());
        match es.last().locale {
            Some(l) => {
                lemma_al_set_str_wf(loc_map(es.drop_last()), l, es.last().value);
            },
            None => {},
        }
    }
}

pub(crate) proof fn lemma_opt_loc_field_wf(mm: Seq<(Seq<char>, Seq<EntryView>)>, k: Seq<char>)
    requires
        buckets_emit_wf(mm),
    ensures
        opt_loc_wf(crate::fields::opt_loc_field(mm, k)),
{
    lemma_al_lookup_wf(mm, k);
    match al_lookup(mm, k) {
        Some(b) => {
            lemma_loc_default_wf(b);
            lemma_loc_map_wf(b);
        },
        None => {},
    }
}

pub(crate) proof fn lemma_loc_list_default_wf(es: Seq<EntryView>)
    requires
        entries_wf(es),
    ensures
        list_clean(crate::fields::loc_list_default(es)),
    decreases es.len(),
{
    if es.len() == 0 {
        assert(list_clean(Seq::<Seq<char>>::empty()));
    } else {
        assert(entry_emit_wf(es.last()));
        assert forall|j: int| 0 <= j < es.drop_last().len() implies entry_emit_wf(
            #[trigger] es.drop_last()[j],
        ) by {
            assert(es.drop_last()[j] == es[j]);
        }
        lemma_loc_list_default_wf(es.drop_last());
        match es.last().locale {
            None => {
                lemma_split_semi_parts(es.last().value);
            },
            Some(_) => {},
        }
    }
}

pub(crate) proof fn lemma_al_set_list_wf(
    m: Seq<(LocaleView, Seq<Seq<char>>)>,
    l: LocaleView,
    v: Seq<Seq<char>>,
)
    requires
        list_variants_wf(m),
        locale_ok(l),
        list_clean(v),
    ensures
        list_variants_wf(al_set(m, l, v)),
    decreases m.len(),
{
    if m.len() == 0 {
        let r = al_set(m, l, v);
        assert forall|j: int| 0 <= j < r.len() implies locale_ok((#[trigger] r[j]).0)
            && list_clean(r[j].1) by {
            assert(r[j] == (l, v));
        }
    } else if m[0].0 == l {
        let r = seq![(l, v)] + m.drop_first();
        assert(al_set(m, l, v) == r);
        assert forall|j: int| 0 <= j < r.len() implies locale_ok((#[trigger] r[j]).0)
            && list_clean(r[j].1) by {
            if j == 0 {
                assert(r[j] == (l, v));
            } else {
                assert(r[j] == m[j]);
            }
        }
    } else {
        assert forall|j: int| 0 <= j < m.drop_first().len() implies locale_ok(
            (#[trigger] m.drop_first()[j]).0,
        ) && list_clean(m.drop_first()[j].1) by {
            assert(m.drop_first()[j] == m[j + 1]);
        }
        lemma_al_set_list_wf(m.drop_first(), l, v);
        let r = seq![m[0]] + al_set(m.drop_first(), l, v);
        assert(al_set(m, l, v) == r);
        assert forall|j: int| 0 <= j < r.len() implies locale_ok((#[trigger] r[j]).0)
            && list_clean(r[j].1) by {
            if j == 0 {
                assert(r[j] == m[0]);
            } else {
                assert(r[j] == al_set(m.drop_first(), l, v)[j - 1]);
            }
        }
    }
}

pub(crate) proof fn lemma_loc_list_map_wf(es: Seq<EntryView>)
    requires
        entries_wf(es),
    ensures
        list_variants_wf(crate::fields::loc_list_map(es)),
    decreases es.len(),
{
    if es.len() > 0 {
        assert(entry_emit_wf(es.last()));
        assert forall|j: int| 0 <= j < es.drop_last().len() implies entry_emit_wf(
            #[trigger] es.drop_last()[j],
        ) by {
            assert(es.drop_last()[j] == es[j]);
        }
        lemma_loc_list_map_wf(es.drop_last());
        match es.last().locale {
            Some(l) => {
                lemma_split_semi_parts(es.last().value);
                lemma_al_set_list_wf(
                    crate::fields::loc_list_map(es.drop_last()),
                    l,
                    crate::fields::split_semi(es.last().value),
                );
            },
            None => {},
        }
    }
}

pub(crate) proof fn lemma_opt_loc_list_field_wf(mm: Seq<(Seq<char>, Seq<EntryView>)>, k: Seq<char>)
    requires
        buckets_emit_wf(mm),
    ensures
        opt_loc_list_wf(crate::fields::opt_loc_list_field(mm, k)),
{
    lemma_al_lookup_wf(mm, k);
    match al_lookup(mm, k) {
        Some(b) => {
            lemma_loc_list_default_wf(b);
            lemma_loc_list_map_wf(b);
        },
        None => {},
    }
}

pub(crate) proof fn lemma_unknown_of_wf(mm: Seq<(Seq<char>, Seq<EntryView>)>)
    requires
        buckets_emit_wf(mm),
    ensures
        forall|j: int|
            0 <= j < unknown_of(mm).len() ==> bucket_emit_wf(#[trigger] unknown_of(mm)[j])
                && !crate::fields::is_known_key(unknown_of(mm)[j].0),
    decreases mm.len(),
{
    if mm.len() > 0 {
        assert(bucket_emit_wf(mm[0]));
        assert forall|j: int| 0 <= j < mm.drop_first().len() implies bucket_emit_wf(
            #[trigger] mm.drop_first()[j],
        ) by {
            assert(mm.drop_first()[j] == mm[j + 1]);
        }
        lemma_unknown_of_wf(mm.drop_first());
        let rest = unknown_of(mm.drop_first());
        if !crate::fields::is_known_key(mm[0].0) {
            let r = seq![mm[0]] + rest;
            assert(unknown_of(mm) == r);
            assert forall|j: int| 0 <= j < r.len() implies bucket_emit_wf(#[trigger] r[j])
                && !crate::fields::is_known_key(r[j].0) by {
                if j == 0 {
                    assert(r[j] == mm[0]);
                } else {
                    assert(r[j] == rest[j - 1]);
                }
            }
        }
    }
}

pub(crate) proof fn lemma_remove_group_after_find(gs: Seq<GroupView>, name: Seq<char>)
    requires
        groups_scan_wf(gs),
    ensures
        (find_group(gs, name) matches Some(g) ==> group_emit_wf(g)),
        groups_scan_wf(remove_group(gs, name)),
        (find_group(gs, name) matches Some(g) ==> forall|j: int|
            0 <= j < remove_group(gs, name).len() ==> (#[trigger] remove_group(gs, name)[j]).name
                != name),
    decreases gs.len(),
{
    if gs.len() > 0 {
        assert(group_emit_wf(gs[0]));
        if gs[0].name == name {
            let r = gs.drop_first();
            assert(remove_group(gs, name) == r);
            assert forall|j: int| 0 <= j < r.len() implies group_emit_wf(#[trigger] r[j]) && r[j].name
                != name by {
                assert(r[j] == gs[j + 1]);
                assert(gs[0].name != gs[j + 1].name);
            }
            assert forall|j: int, k: int|
                0 <= j < k < r.len() implies (#[trigger] r[j]).name != (#[trigger] r[k]).name by {
                assert(r[j] == gs[j + 1]);
                assert(r[k] == gs[k + 1]);
            }
        } else {
            assert forall|j: int| 0 <= j < gs.drop_first().len() implies group_emit_wf(
                #[trigger] gs.drop_first()[j],
            ) by {
                assert(gs.drop_first()[j] == gs[j + 1]);
            }
            assert forall|j: int, k: int|
                0 <= j < k < gs.drop_first().len() implies (#[trigger] gs.drop_first()[j]).name != (
            #[trigger] gs.drop_first()[k]).name by {
                assert(gs.drop_first()[j] == gs[j + 1]);
                assert(gs.drop_first()[k] == gs[k + 1]);
            }
            lemma_remove_group_after_find(gs.drop_first(), name);
            let rr = remove_group(gs.drop_first(), name);
            let r = seq![gs[0]] + rr;
            assert(remove_group(gs, name) == r);
            assert forall|j: int| 0 <= j < r.len() implies group_emit_wf(#[trigger] r[j]) by {
                if j == 0 {
                    assert(r[j] == gs[0]);
                } else {
                    assert(r[j] == rr[j - 1]);
                }
            }
            match find_group(gs, name) {
                Some(_) => {
                    assert forall|j: int| 0 <= j < r.len() implies (#[trigger] r[j]).name != name by {
                        if j == 0 {
                        } else {
                            assert(r[j] == rr[j - 1]);
                        }
                    }
                },
                None => {},
            }
            // distinctness of the remainder: each kept group keeps its place
            // relative to the others, so a helper over membership settles it
            assert forall|j: int, k: int|
                0 <= j < k < r.len() implies (#[trigger] r[j]).name != (#[trigger] r[k]).name by {
                if j == 0 {
                    assert(r[k] == rr[k - 1]);
                    lemma_remove_group_member(gs.drop_first(), name, k - 1);
                    let x = choose|x: int|
                        0 <= x < gs.drop_first().len() && gs.drop_first()[x] == rr[k - 1];
                    assert(gs.drop_first()[x] == gs[x + 1]);
                } else {
                    assert(r[j] == rr[j - 1]);
                    assert(r[k] == rr[k - 1]);
                    lemma_remove_group_member(gs.drop_first(), name, j - 1);
                    lemma_remove_group_member(gs.drop_first(), name, k - 1);
                }
            }
        }
    }
}

/// Each group kept by a removal stood in the original sequence; removal
/// keeps relative order, so distinct names stay distinct.
pub(crate) proof fn lemma_remove_group_member(gs: Seq<GroupView>, name: Seq<char>, j: int)
    requires
        0 <= j < remove_group(gs, name).len(),
        forall|a: int, b: int|
            0 <= a < b < gs.len() ==> (#[trigger] gs[a]).name != (#[trigger] gs[b]).name,
    ensures
        exists|x: int| 0 <= x < gs.len() && gs[x] == remove_group(gs, name)[j],
        forall|k: int|
            j < k < remove_group(gs, name).len() ==> (#[trigger] remove_group(gs, name)[k]).name
                != remove_group(gs, name)[j].name,
    decreases gs.len(),
{
    if gs.len() > 0 {
        if gs[0].name == name {
            let r = gs.drop_first();
            assert(remove_group(gs, name) == r);
            assert(r[j] == gs[j + 1]);
            assert forall|k: int| j < k < r.len() implies (#[trigger] r[k]).name != r[j].name by {
                assert(r[k] == gs[k + 1]);
            }
        } else {
            assert forall|a: int, b: int|
                0 <= a < b < gs.drop_first().len() implies (#[trigger] gs.drop_first()[a]).name != (
            #[trigger] gs.drop_first()[b]).name by {
                assert(gs.drop_first()[a] == gs[a + 1]);
                assert(gs.drop_first()[b] == gs[b + 1]);
            }
            let rr = remove_group(gs.drop_first(), name);
            let r = seq![gs[0]] + rr;
            assert(remove_group(gs, name) == r);
            if j == 0 {
                assert(r[0] == gs[0]);
                assert forall|k: int| 0 < k < r.len() implies (#[trigger] r[k]).name != r[0].name by {
                    assert(r[k] == rr[k - 1]);
                    lemma_remove_group_member(gs.drop_first(), name, k - 1);
                    let x = choose|x: int|
                        0 <= x < gs.drop_first().len() && gs.drop_first()[x] == rr[k - 1];
                    assert(gs.drop_first()[x] == gs[x + 1]);
                }
            } else {
                assert(r[j] == rr[j - 1]);
                lemma_remove_group_member(gs.drop_first(), name, j - 1);
                let x = choose|x: int|
                    0 <= x < gs.drop_first().len() && gs.drop_first()[x] == rr[j - 1];
                assert(gs.drop_first()[x] == gs[x + 1]);
                assert(gs[x + 1] == r[j]);
                assert forall|k: int| j < k < r.len() implies (#[trigger] r[k]).name != r[j].name by {
                    assert(r[k] == rr[k - 1]);
                }
            }
        }
    }
}


/// Law: every successful parse of carriage-return-free text yields a
/// well-formed document (see [`doc_wf`]).
pub proof fn lemma_parse_wf(s: Seq<char>, d: DesktopEntryView)
    requires
        !s.contains('\r'),
        spec_parse(s) == ParseOut::Done(d),
    ensures
        doc_wf(d),
{
    lemma_spec_lines_clean(s);
    let ls = spec_lines(s);
    let st0 = ScanState { groups: Seq::empty(), comments: Seq::empty() };
    assert(groups_scan_wf(st0.groups));
    assert(comments_scan_wf(st0.comments));
    lemma_scan_preserves_wf(ls, 0, st0);
    match spec_scan(ls, 0, st0) {
        ScanOut::Good(st) => {
            assert(groups_scan_wf(st.groups));
            lemma_remove_group_after_find(st.groups, "Desktop Entry"@);
            match find_group(st.groups, "Desktop Entry"@) {
                Some(main) => {
                    let mm = main.entries;
                    assert(group_emit_wf(main));
                    assert(buckets_emit_wf(mm));
                    match al_lookup(mm, "Type"@) {
                        Some(tes) => {
                            if tes.len() > 0 {
                                match spec_type_from_chars(tes[0].value) {
                                    Some(ty) => {
                                        match al_lookup(mm, "Name"@) {
                                            Some(nes) => {
                                                assert(d == build_doc(ty, nes, mm, st));
                                                lemma_al_lookup_wf(mm, "Name"@);
                                                lemma_loc_default_wf(nes);
                                                lemma_loc_map_wf(nes);
                                                lemma_opt_string_field_wf(mm, "URL"@);
                                                lemma_opt_string_field_wf(mm, "Version"@);
                                                lemma_opt_string_field_wf(mm, "TryExec"@);
                                                lemma_opt_string_field_wf(mm, "Exec"@);
                                                lemma_opt_string_field_wf(mm, "Path"@);
                                                lemma_opt_string_field_wf(mm, "StartupWMClass"@);
                                                lemma_opt_loc_field_wf(mm, "GenericName"@);
                                                lemma_opt_loc_field_wf(mm, "Comment"@);
                                                lemma_opt_loc_field_wf(mm, "Icon"@);
                                                lemma_opt_list_field_wf(mm, "OnlyShowIn"@);
                                                lemma_opt_list_field_wf(mm, "NotShowIn"@);
                                                lemma_opt_list_field_wf(mm, "Actions"@);
                                                lemma_opt_list_field_wf(mm, "MimeType"@);
                                                lemma_opt_list_field_wf(mm, "Categories"@);
                                                lemma_opt_list_field_wf(mm, "Implements"@);
                                                lemma_opt_loc_list_field_wf(mm, "Keywords"@);
                                                lemma_unknown_of_wf(mm);
                                            },
                                            None => {
                                                assert(false);
                                            },
                                        }
                                    },
                                    None => {
                                        assert(false);
                                    },
                                }
                            } else {
                                assert(false);
                            }
                        },
                        None => {
                            assert(false);
                        },
                    }
                },
                None => {
                    assert(false);
                },
            }
        },
        ScanOut::Fail(_) => {
            assert(false);
        },
    }
}

/// Law (round trip): for any carriage-return-free text that parses
/// successfully, serializing the parsed document and parsing the result
/// succeeds, and the entry type, the default name, and the command line
/// come back exactly. Raw-text equality is not claimed.
pub proof fn lemma_parse_serialize_parse(s: Seq<char>, d: DesktopEntryView)
    requires
        !s.contains('\r'),
        spec_parse(s) == ParseOut::Done(d),
    ensures
        spec_parse(spec_serialize(d)) matches ParseOut::Done(d2) && d2.entry_type == d.entry_type
            && d2.name.default == d.name.default && d2.exec_cmd == d.exec_cmd,
{
    lemma_parse_wf(s, d);
    lemma_serialize_parse_round_trip(d);
}

} // verus!


