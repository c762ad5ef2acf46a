//! The deterministic serializer: the typed document re-emitted as text in
//! a fixed schema order, with unknown keys and additional groups in their
//! order of first appearance.

use vstd::prelude::*;
use vstd::string::StringExecFns;

use crate::locale::Locale;
use crate::locale::LocaleView;
use crate::locale::spec_locale_repr;
use crate::model::Comment;
use crate::model::CommentView;
use crate::model::DesktopEntry;
use crate::model::DesktopEntryView;
use crate::model::Entry;
use crate::model::EntryView;
use crate::model::Group;
use crate::model::GroupView;
use crate::model::buckets_view;
use crate::model::comments_view;
use crate::model::entries_view;
use crate::model::groups_view;
use crate::model::spec_type_chars;
use crate::values::IconString;
use crate::values::LocListView;
use crate::values::LocStrView;
use crate::values::LocalizedString;
use crate::values::LocalizedStringList;
use crate::values::list_pairs;
use crate::values::str_pairs;
use crate::values::strs_view;

verus! {

/// One `key=value` line.
pub open spec fn ser_kv(key: Seq<char>, value: Seq<char>) -> Seq<char> {
    key + seq!['='] + value + seq!['\n']
}

/// One `key[locale]=value` line.
pub open spec fn ser_kv_loc(key: Seq<char>, loc: LocaleView, value: Seq<char>) -> Seq<char> {
    key + seq!['['] + spec_locale_repr(loc) + seq![']'] + seq!['='] + value + seq!['\n']
}

/// A scalar string field: one line when set, nothing when unset.
pub open spec fn ser_opt_str(key: Seq<char>, v: Option<Seq<char>>) -> Seq<char> {
    match v {
        Some(s) => ser_kv(key, s),
        None => Seq::empty(),
    }
}

/// A boolean rendered as its literal.
pub open spec fn bool_chars(b: bool) -> Seq<char> {
    if b {
        "true"@
    } else {
        "false"@
    }
}

/// A boolean field: one line when set, nothing when unset.
pub open spec fn ser_opt_bool(key: Seq<char>, v: Option<bool>) -> Seq<char> {
    match v {
        Some(b) => ser_kv(key, bool_chars(b)),
        None => Seq::empty(),
    }
}

/// List segments joined with `;` between them.
pub open spec fn join_semi(l: Seq<Seq<char>>) -> Seq<char>
    decreases l.len(),
{
    if l.len() == 0 {
        Seq::empty()
    } else if l.len() == 1 {
        l[0]
    } else {
        l[0] + seq![';'] + join_semi(l.drop_first())
    }
}

/// A list field: one joined line when set, nothing when unset.
pub open spec fn ser_opt_list(key: Seq<char>, v: Option<Seq<Seq<char>>>) -> Seq<char> {
    match v {
        Some(l) => ser_kv(key, join_semi(l)),
        None => Seq::empty(),
    }
}

/// The locale-tagged lines of a localized string, in stored order.
pub open spec fn ser_loc_variants(key: Seq<char>, m: Seq<(LocaleView, Seq<char>)>) -> Seq<char>
    decreases m.len(),
{
    if m.len() == 0 {
        Seq::empty()
    } else {
        ser_kv_loc(key, m[0].0, m[0].1) + ser_loc_variants(key, m.drop_first())
    }
}

/// A localized string: its default line, then each variant line.
pub open spec fn ser_loc_str(key: Seq<char>, v: LocStrView) -> Seq<char> {
    ser_kv(key, v.default) + ser_loc_variants(key, v.localized)
}

/// An optional localized string field.
pub open spec fn ser_opt_loc_str(key: Seq<char>, v: Option<LocStrView>) -> Seq<char> {
    match v {
        Some(x) => ser_loc_str(key, x),
        None => Seq::empty(),
    }
}

/// The locale-tagged lines of a localized list, each joined with `;`.
pub open spec fn ser_loc_list_variants(
    key: Seq<char>,
    m: Seq<(LocaleView, Seq<Seq<char>>)>,
) -> Seq<char>
    decreases m.len(),
{
    if m.len() == 0 {
        Seq::empty()
    } else {
        ser_kv_loc(key, m[0].0, join_semi(m[0].1)) + ser_loc_list_variants(key, m.drop_first())
    }
}

/// An optional localized list field.
pub open spec fn ser_opt_loc_list(key: Seq<char>, v: Option<LocListView>) -> Seq<char> {
    match v {
        Some(x) => ser_kv(key, join_semi(x.default)) + ser_loc_list_variants(key, x.localized),
        None => Seq::empty(),
    }
}

/// One raw entry line, emitted under its bucket's key.
pub open spec fn ser_entry(key: Seq<char>, e: EntryView) -> Seq<char> {
    match e.locale {
        Some(l) => ser_kv_loc(key, l, e.value),
        None => ser_kv(key, e.value),
    }
}

/// The lines of one bucket, in file order.
pub open spec fn ser_bucket(key: Seq<char>, es: Seq<EntryView>) -> Seq<char>
    decreases es.len(),
{
    if es.len() == 0 {
        Seq::empty()
    } else {
        ser_entry(key, es[0]) + ser_bucket(key, es.drop_first())
    }
}

/// The lines of a sequence of buckets, in order of first appearance.
pub open spec fn ser_buckets(mm: Seq<(Seq<char>, Seq<EntryView>)>) -> Seq<char>
    decreases mm.len(),
{
    if mm.len() == 0 {
        Seq::empty()
    } else {
        ser_bucket(mm[0].0, mm[0].1) + ser_buckets(mm.drop_first())
    }
}

/// One additional group: a blank separator, its header, its entries.
pub open spec fn ser_group(g: GroupView) -> Seq<char> {
    seq!['\n'] + seq!['['] + g.name + seq![']'] + seq!['\n'] + ser_buckets(g.entries)
}

/// The additional groups, in file order.
pub open spec fn ser_groups(gs: Seq<GroupView>) -> Seq<char>
    decreases gs.len(),
{
    if gs.len() == 0 {
        Seq::empty()
    } else {
        ser_group(gs[0]) + ser_groups(gs.drop_first())
    }
}

/// One leading comment or blank line, verbatim.
pub open spec fn ser_comment(c: CommentView) -> Seq<char> {
    if c.is_blank {
        seq!['\n']
    } else {
        seq!['#'] + c.content + seq!['\n']
    }
}

/// The leading comments, in order.
pub open spec fn ser_comments(cs: Seq<CommentView>) -> Seq<char>
    decreases cs.len(),
{
    if cs.len() == 0 {
        Seq::empty()
    } else {
        ser_comment(cs[0]) + ser_comments(cs.drop_first())
    }
}

/// The serialized text of the first third of the main group body.
pub open spec fn ser_main_a(d: DesktopEntryView) -> Seq<char> {
    ser_kv("Type"@, spec_type_chars(d.entry_type)) + ser_opt_str("Version"@, d.version)
        + ser_loc_str("Name"@, d.name) + ser_opt_loc_str("GenericName"@, d.generic_name)
        + ser_opt_bool("NoDisplay"@, d.no_display) + ser_opt_loc_str("Comment"@, d.comment)
        + ser_opt_loc_str("Icon"@, d.icon) + ser_opt_bool("Hidden"@, d.hidden)
        + ser_opt_list("OnlyShowIn"@, d.only_show_in)
}

/// The serialized text of the second third of the main group body.
pub open spec fn ser_main_b(d: DesktopEntryView) -> Seq<char> {
    ser_opt_list("NotShowIn"@, d.not_show_in) + ser_opt_bool(
        "DBusActivatable"@,
        d.dbus_activatable,
    ) + ser_opt_str("TryExec"@, d.try_exec) + ser_opt_str("Exec"@, d.exec_cmd) + ser_opt_str(
        "Path"@,
        d.path,
    ) + ser_opt_bool("Terminal"@, d.terminal) + ser_opt_list("Actions"@, d.actions) + ser_opt_list(
        "MimeType"@,
        d.mime_type,
    ) + ser_opt_list("Categories"@, d.categories)
}

/// The serialized text of the last third of the main group body.
pub open spec fn ser_main_c(d: DesktopEntryView) -> Seq<char> {
    ser_opt_list("Implements"@, d.implements) + ser_opt_loc_list("Keywords"@, d.keywords)
        + ser_opt_bool("StartupNotify"@, d.startup_notify) + ser_opt_str(
        "StartupWMClass"@,
        d.startup_wm_class,
    ) + ser_opt_str("URL"@, d.url) + ser_opt_bool(
        "PrefersNonDefaultGPU"@,
        d.prefers_non_default_gpu,
    ) + ser_opt_bool("SingleMainWindow"@, d.single_main_window) + ser_buckets(d.unknown_keys)
}

/// The serialized text of a document: leading comments, the main group
/// header, the typed fields in fixed schema order, the unknown keys, then
/// each additional group.
pub open spec fn spec_serialize(d: DesktopEntryView) -> Seq<char> {
    ser_comments(d.comments) + (seq!['['] + "Desktop Entry"@ + seq![']'] + seq!['\n']) + (
    ser_main_a(d) + ser_main_b(d) + ser_main_c(d)) + ser_groups(d.additional_groups)
}

proof fn strlit_facts()
    ensures
        "="@ == seq!['='],
        "\n"@ == seq!['\n'],
        "["@ == seq!['['],
        "]"@ == seq![']'],
        ";"@ == seq![';'],
        "#"@ == seq!['#'],
{
    reveal_strlit("=");
    reveal_strlit("\n");
    reveal_strlit("[");
    reveal_strlit("]");
    reveal_strlit(";");
    reveal_strlit("#");
    assert("="@ =~= seq!['=']);
    assert("\n"@ =~= seq!['\n']);
    assert("["@ =~= seq!['[']);
    assert("]"@ =~= seq![']']);
    assert(";"@ =~= seq![';']);
    assert("#"@ =~= seq!['#']);
}

fn push_kv(out: &mut String, key: &str, value: &str)
    ensures
        final(out)@ == old(out)@ + ser_kv(key@, value@),
{
    proof {
        strlit_facts();
    }
    out.append(key);
    out.append("=");
    out.append(value);
    out.append("\n");
    proof {
        assert(out@ =~= old(out)@ + ser_kv(key@, value@));
    }
}

fn push_kv_loc(out: &mut String, key: &str, loc: &Locale, value: &str)
    ensures
        final(out)@ == old(out)@ + ser_kv_loc(key@, loc@, value@),
{
    proof {
        strlit_facts();
    }
    out.append(key);
    out.append("[");
    let ls = loc.to_string_repr();
    out.append(ls.as_str());
    out.append("]");
    out.append("=");
    out.append(value);
    out.append("\n");
    proof {
        assert(out@ =~= old(out)@ + ser_kv_loc(key@, loc@, value@));
    }
}

fn push_opt_str(out: &mut String, key: &str, v: &Option<String>)
    ensures
        final(out)@ == old(out)@ + ser_opt_str(key@, crate::locale::view_opt(*v)),
{
    match v {
        Some(s) => push_kv(out, key, s.as_str()),
        None => {
            proof {
                assert(out@ =~= old(out)@ + Seq::<char>::empty());
            }
        },
    }
}

fn push_opt_bool(out: &mut String, key: &str, v: &Option<bool>)
    ensures
        final(out)@ == old(out)@ + ser_opt_bool(key@, *v),
{
    match v {
        Some(b) => {
            if *b {
                push_kv(out, key, "true");
            } else {
                push_kv(out, key, "false");
            }
        },
        None => {
            proof {
                assert(out@ =~= old(out)@ + Seq::<char>::empty());
            }
        },
    }
}

fn join_semi_str(l: &Vec<String>) -> (r: String)
    ensures
        r@ == join_semi(strs_view(l@)),
{
    proof {
        strlit_facts();
    }
    let mut r = String::new();
    let n = l.len();
    let mut i: usize = 0;
    while i < n
        invariant
            n == l@.len(),
            i <= n,
            i == 0 ==> r@ == Seq::<char>::empty(),
            i > 0 ==> r@ == join_semi(strs_view(l@).subrange(0, i as int)),
            "="@ == seq!['='] && ";"@ == seq![';'],
        decreases n - i,
    {
        let ghost lv = strs_view(l@);
        proof {
            assert(lv[i as int] == l@[i as int]@);
        }
        if i > 0 {
            r.append(";");
            proof {
                lemma_join_push(lv.subrange(0, i as int), lv[i as int]);
                assert(lv.subrange(0, i + 1).drop_last() =~= lv.subrange(0, i as int));
                assert(lv.subrange(0, i + 1) =~= lv.subrange(0, i as int).push(lv[i as int]));
            }
        } else {
            proof {
                lemma_join_push(lv.subrange(0, 0), lv[0]);
                assert(lv.subrange(0, 1) =~= lv.subrange(0, 0).push(lv[0]));
                assert(lv.subrange(0, 0) =~= Seq::<Seq<char>>::empty());
            }
        }
        r.append(l[i].as_str());
        proof {
            assert(lv.subrange(0, i + 1) =~= lv.subrange(0, i as int).push(lv[i as int]));
        }
        i = i + 1;
    }
    proof {
        if n > 0 {
            assert(strs_view(l@).subrange(0, n as int) =~= strs_view(l@));
        } else {
            assert(strs_view(l@) =~= Seq::<Seq<char>>::empty());
        }
    }
    r
}

proof fn lemma_join_push(s: Seq<Seq<char>>, x: Seq<char>)
    ensures
        join_semi(s.push(x)) == if s.len() == 0 {
            x
        } else {
            join_semi(s) + seq![';'] + x
        },
    decreases s.len(),
{
    if s.len() == 0 {
        assert(s.push(x)[0] == x);
    } else {
        lemma_join_push(s.drop_first(), x);
        assert(s.push(x).drop_first() =~= s.drop_first().push(x));
        if s.len() == 1 {
            assert(join_semi(s) == s[0]);
        }
    }
}

fn push_opt_list(out: &mut String, key: &str, v: &Option<Vec<String>>)
    ensures
        final(out)@ == old(out)@ + ser_opt_list(key@, crate::model::view_opt_strs(*v)),
{
    match v {
        Some(l) => {
            let joined = join_semi_str(l);
            push_kv(out, key, joined.as_str());
        },
        None => {
            proof {
                assert(out@ =~= old(out)@ + Seq::<char>::empty());
            }
        },
    }
}

fn push_loc_variants(out: &mut String, key: &str, m: &Vec<(Locale, String)>)
    ensures
        final(out)@ == old(out)@ + ser_loc_variants(key@, str_pairs(m@)),
{
    let ghost base = out@;
    let ghost mv = str_pairs(m@);
    let n = m.len();
    let mut i: usize = 0;
    proof {
        assert(mv.subrange(0, n as int) =~= mv);
    }
    while i < n
        invariant
            n == m@.len(),
            i <= n,
            mv == str_pairs(m@),
            out@ + ser_loc_variants(key@, mv.subrange(i as int, n as int)) == base
                + ser_loc_variants(key@, mv),
        decreases n - i,
    {
        let ghost before = out@;
        proof {
            assert(mv[i as int] == (m@[i as int].0@, m@[i as int].1@));
        }
        push_kv_loc(out, key, &m[i].0, m[i].1.as_str());
        proof {
            let rest = mv.subrange(i as int, n as int);
            assert(rest.drop_first() =~= mv.subrange(i + 1, n as int));
            assert(rest[0] == mv[i as int]);
            assert(ser_loc_variants(key@, rest) == ser_kv_loc(key@, mv[i as int].0, mv[i as int].1)
                + ser_loc_variants(key@, mv.subrange(i + 1, n as int)));
            assert(out@ + ser_loc_variants(key@, mv.subrange(i + 1, n as int)) =~= before
                + ser_loc_variants(key@, rest));
        }
        i = i + 1;
    }
    proof {
        assert(mv.subrange(n as int, n as int) =~= Seq::<(LocaleView, Seq<char>)>::empty());
        assert(out@ + Seq::<char>::empty() =~= out@);
    }
}

fn push_loc_str(out: &mut String, key: &str, v: &LocalizedString)
    ensures
        final(out)@ == old(out)@ + ser_loc_str(key@, v@),
{
    push_kv(out, key, v.default.as_str());
    push_loc_variants(out, key, &v.localized);
    proof {
        assert(out@ =~= old(out)@ + ser_loc_str(key@, v@));
    }
}

fn push_opt_loc_str(out: &mut String, key: &str, v: &Option<LocalizedString>)
    ensures
        final(out)@ == old(out)@ + ser_opt_loc_str(key@, crate::model::view_opt_loc(*v)),
{
    match v {
        Some(x) => push_loc_str(out, key, x),
        None => {
            proof {
                assert(out@ =~= old(out)@ + Seq::<char>::empty());
            }
        },
    }
}

fn push_opt_icon(out: &mut String, key: &str, v: &Option<IconString>)
    ensures
        final(out)@ == old(out)@ + ser_opt_loc_str(key@, crate::model::view_opt_icon(*v)),
{
    match v {
        Some(x) => {
            push_kv(out, key, x.default.as_str());
            push_loc_variants(out, key, &x.localized);
            proof {
                assert(out@ =~= old(out)@ + ser_loc_str(key@, x@));
            }
        },
        None => {
            proof {
                assert(out@ =~= old(out)@ + Seq::<char>::empty());
            }
        },
    }
}

fn push_loc_list_variants(out: &mut String, key: &str, m: &Vec<(Locale, Vec<String>)>)
    ensures
        final(out)@ == old(out)@ + ser_loc_list_variants(key@, list_pairs(m@)),
{
    let ghost base = out@;
    let ghost mv = list_pairs(m@);
    let n = m.len();
    let mut i: usize = 0;
    proof {
        assert(mv.subrange(0, n as int) =~= mv);
    }
    while i < n
        invariant
            n == m@.len(),
            i <= n,
            mv == list_pairs(m@),
            out@ + ser_loc_list_variants(key@, mv.subrange(i as int, n as int)) == base
                + ser_loc_list_variants(key@, mv),
        decreases n - i,
    {
        let ghost before = out@;
        proof {
            assert(mv[i as int] == (m@[i as int].0@, strs_view(m@[i as int].1@)));
        }
        let joined = join_semi_str(&m[i].1);
        push_kv_loc(out, key, &m[i].0, joined.as_str());
        proof {
            let rest = mv.subrange(i as int, n as int);
            assert(rest.drop_first() =~= mv.subrange(i + 1, n as int));
            assert(rest[0] == mv[i as int]);
            assert(ser_loc_list_variants(key@, rest) == ser_kv_loc(
                key@,
                mv[i as int].0,
                join_semi(mv[i as int].1),
            ) + ser_loc_list_variants(key@, mv.subrange(i + 1, n as int)));
            assert(out@ + ser_loc_list_variants(key@, mv.subrange(i + 1, n as int)) =~= before
                + ser_loc_list_variants(key@, rest));
        }
        i = i + 1;
    }
    proof {
        assert(mv.subrange(n as int, n as int) =~= Seq::<(LocaleView, Seq<Seq<char>>)>::empty());
        assert(out@ + Seq::<char>::empty() =~= out@);
    }
}

fn push_opt_loc_list(out: &mut String, key: &str, v: &Option<LocalizedStringList>)
    ensures
        final(out)@ == old(out)@ + ser_opt_loc_list(key@, crate::model::view_opt_loc_list(*v)),
{
    match v {
        Some(x) => {
            let joined = join_semi_str(&x.default);
            push_kv(out, key, joined.as_str());
            push_loc_list_variants(out, key, &x.localized);
            proof {
                assert(out@ =~= old(out)@ + (ser_kv(key@, join_semi(strs_view(x.default@)))
                    + ser_loc_list_variants(key@, list_pairs(x.localized@))));
            }
        },
        None => {
            proof {
                assert(out@ =~= old(out)@ + Seq::<char>::empty());
            }
        },
    }
}

fn push_bucket(out: &mut String, key: &str, es: &Vec<Entry>)
    ensures
        final(out)@ == old(out)@ + ser_bucket(key@, entries_view(es@)),
{
    let ghost base = out@;
    let ghost ev = entries_view(es@);
    let n = es.len();
    let mut i: usize = 0;
    proof {
        assert(ev.subrange(0, n as int) =~= ev);
    }
    while i < n
        invariant
            n == es@.len(),
            i <= n,
            ev == entries_view(es@),
            out@ + ser_bucket(key@, ev.subrange(i as int, n as int)) == base + ser_bucket(key@, ev),
        decreases n - i,
    {
        let ghost before = out@;
        proof {
            assert(ev[i as int] == es@[i as int]@);
        }
        let e = &es[i];
        match &e.locale {
            Some(l) => push_kv_loc(out, key, l, e.value.as_str()),
            None => push_kv(out, key, e.value.as_str()),
        }
        proof {
            let rest = ev.subrange(i as int, n as int);
            assert(rest.drop_first() =~= mv_sub(ev, i + 1, n as int));
            assert(rest[0] == ev[i as int]);
            assert(ser_bucket(key@, rest) == ser_entry(key@, ev[i as int]) + ser_bucket(
                key@,
                mv_sub(ev, i + 1, n as int),
            ));
            assert(out@ =~= before + ser_entry(key@, ev[i as int]));
            assert(out@ + ser_bucket(key@, mv_sub(ev, i + 1, n as int)) =~= before + ser_bucket(
                key@,
                rest,
            ));
        }
        i = i + 1;
    }
    proof {
        assert(ev.subrange(n as int, n as int) =~= Seq::<EntryView>::empty());
        assert(out@ + Seq::<char>::empty() =~= out@);
    }
}

spec fn mv_sub(s: Seq<EntryView>, i: int, j: int) -> Seq<EntryView> {
    s.subrange(i, j)
}

fn push_buckets(out: &mut String, mm: &Vec<(String, Vec<Entry>)>)
    ensures
        final(out)@ == old(out)@ + ser_buckets(buckets_view(mm@)),
{
    let ghost base = out@;
    let ghost mv = buckets_view(mm@);
    let n = mm.len();
    let mut i: usize = 0;
    proof {
        assert(mv.subrange(0, n as int) =~= mv);
    }
    while i < n
        invariant
            n == mm@.len(),
            i <= n,
            mv == buckets_view(mm@),
            out@ + ser_buckets(mv.subrange(i as int, n as int)) == base + ser_buckets(mv),
        decreases n - i,
    {
        let ghost before = out@;
        proof {
            assert(mv[i as int] == (mm@[i as int].0@, entries_view(mm@[i as int].1@)));
        }
        push_bucket(out, mm[i].0.as_str(), &mm[i].1);
        proof {
            let rest = mv.subrange(i as int, n as int);
            assert(rest.drop_first() =~= mv.subrange(i + 1, n as int));
            assert(rest[0] == mv[i as int]);
            assert(ser_buckets(rest) == ser_bucket(mv[i as int].0, mv[i as int].1) + ser_buckets(
                mv.subrange(i + 1, n as int),
            ));
            assert(out@ + ser_buckets(mv.subrange(i + 1, n as int)) =~= before + ser_buckets(rest));
        }
        i = i + 1;
    }
    proof {
        assert(mv.subrange(n as int, n as int) =~= Seq::<(Seq<char>, Seq<EntryView>)>::empty());
        assert(out@ + Seq::<char>::empty() =~= out@);
    }
}

fn push_groups(out: &mut String, gs: &Vec<Group>)
    ensures
        final(out)@ == old(out)@ + ser_groups(groups_view(gs@)),
{
    let ghost base = out@;
    let ghost gv = groups_view(gs@);
    let n = gs.len();
    let mut i: usize = 0;
    proof {
        assert(gv.subrange(0, n as int) =~= gv);
    }
    while i < n
        invariant
            n == gs@.len(),
            i <= n,
            gv == groups_view(gs@),
            out@ + ser_groups(gv.subrange(i as int, n as int)) == base + ser_groups(gv),
        decreases n - i,
    {
        let ghost before = out@;
        proof {
            assert(gv[i as int] == gs@[i as int]@);
            strlit_facts();
        }
        out.append("\n");
        out.append("[");
        out.append(gs[i].name.as_str());
        out.append("]");
        out.append("\n");
        push_buckets(out, &gs[i].entries);
        proof {
            let rest = gv.subrange(i as int, n as int);
            assert(rest.drop_first() =~= gv.subrange(i + 1, n as int));
            assert(rest[0] == gv[i as int]);
            assert(ser_groups(rest) == ser_group(gv[i as int]) + ser_groups(
                gv.subrange(i + 1, n as int),
            ));
            assert(out@ =~= before + ser_group(gv[i as int]));
            assert(out@ + ser_groups(gv.subrange(i + 1, n as int)) =~= before + ser_groups(rest));
        }
        i = i + 1;
    }
    proof {
        assert(gv.subrange(n as int, n as int) =~= Seq::<GroupView>::empty());
        assert(out@ + Seq::<char>::empty() =~= out@);
    }
}

fn push_comments(out: &mut String, cs: &Vec<Comment>)
    ensures
        final(out)@ == old(out)@ + ser_comments(comments_view(cs@)),
{
    let ghost base = out@;
    let ghost cv = comments_view(cs@);
    let n = cs.len();
    let mut i: usize = 0;
    proof {
        assert(cv.subrange(0, n as int) =~= cv);
    }
    while i < n
        invariant
            n == cs@.len(),
            i <= n,
            cv == comments_view(cs@),
            out@ + ser_comments(cv.subrange(i as int, n as int)) == base + ser_comments(cv),
        decreases n - i,
    {
        let ghost before = out@;
        proof {
            assert(cv[i as int] == cs@[i as int]@);
            strlit_facts();
        }
        if cs[i].is_blank {
            out.append("\n");
        } else {
            out.append("#");
            out.append(cs[i].content.as_str());
            out.append("\n");
        }
        proof {
            let rest = cv.subrange(i as int, n as int);
            assert(rest.drop_first() =~= cv.subrange(i + 1, n as int));
            assert(rest[0] == cv[i as int]);
            assert(ser_comments(rest) == ser_comment(cv[i as int]) + ser_comments(
                cv.subrange(i + 1, n as int),
            ));
            assert(out@ =~= before + ser_comment(cv[i as int]));
            assert(out@ + ser_comments(cv.subrange(i + 1, n as int)) =~= before + ser_comments(
                rest,
            ));
        }
        i = i + 1;
    }
    proof {
        assert(cv.subrange(n as int, n as int) =~= Seq::<CommentView>::empty());
        assert(out@ + Seq::<char>::empty() =~= out@);
    }
}

fn push_main_a(out: &mut String, d: &DesktopEntry)
    ensures
        final(out)@ == old(out)@ + ser_main_a(d@),
{
    push_kv(out, "Type", d.entry_type.as_str());
    push_opt_str(out, "Version", &d.version);
    push_loc_str(out, "Name", &d.name);
    push_opt_loc_str(out, "GenericName", &d.generic_name);
    push_opt_bool(out, "NoDisplay", &d.no_display);
    push_opt_loc_str(out, "Comment", &d.comment);
    push_opt_icon(out, "Icon", &d.icon);
    push_opt_bool(out, "Hidden", &d.hidden);
    push_opt_list(out, "OnlyShowIn", &d.only_show_in);
    proof {
        assert(out@ =~= old(out)@ + ser_main_a(d@));
    }
}

fn push_main_b(out: &mut String, d: &DesktopEntry)
    ensures
        final(out)@ == old(out)@ + ser_main_b(d@),
{
    push_opt_list(out, "NotShowIn", &d.not_show_in);
    push_opt_bool(out, "DBusActivatable", &d.dbus_activatable);
    push_opt_str(out, "TryExec", &d.try_exec);
    push_opt_str(out, "Exec", &d.exec_cmd);
    push_opt_str(out, "Path", &d.path);
    push_opt_bool(out, "Terminal", &d.terminal);
    push_opt_list(out, "Actions", &d.actions);
    push_opt_list(out, "MimeType", &d.mime_type);
    push_opt_list(out, "Categories", &d.categories);
    proof {
        assert(out@ =~= old(out)@ + ser_main_b(d@));
    }
}

fn push_main_c(out: &mut String, d: &DesktopEntry)
    ensures
        final(out)@ == old(out)@ + ser_main_c(d@),
{
    push_opt_list(out, "Implements", &d.implements);
    push_opt_loc_list(out, "Keywords", &d.keywords);
    push_opt_bool(out, "StartupNotify", &d.startup_notify);
    push_opt_str(out, "StartupWMClass", &d.startup_wm_class);
    push_opt_str(out, "URL", &d.url);
    push_opt_bool(out, "PrefersNonDefaultGPU", &d.prefers_non_default_gpu);
    push_opt_bool(out, "SingleMainWindow", &d.single_main_window);
    push_buckets(out, &d.unknown_keys);
    proof {
        assert(out@ =~= old(out)@ + ser_main_c(d@));
    }
}

impl DesktopEntry {
    /// Serializes the document to text, as [`spec_serialize`] describes:
    /// a fixed schema order, deterministic throughout.
    pub fn serialize(&self) -> (r: String)
        ensures
            r@ == spec_serialize(self@),
    {
        let mut out = String::new();
        proof {
            strlit_facts();
        }
        push_comments(&mut out, &self.comments);
        let ghost with_comments = out@;
        out.append("[");
        out.append("Desktop Entry");
        out.append("]");
        out.append("\n");
        proof {
            assert(out@ =~= with_comments + (seq!['['] + "Desktop Entry"@ + seq![']']
                + seq!['\n']));
        }
        push_main_a(&mut out, self);
        push_main_b(&mut out, self);
        push_main_c(&mut out, self);
        push_groups(&mut out, &self.additional_groups);
        proof {
            assert(out@ =~= spec_serialize(self@));
        }
        out
    }
}

} // verus!
