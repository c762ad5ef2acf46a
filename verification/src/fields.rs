//! Typed-field extraction from the raw buckets of the main group: scalar
//! strings, booleans, semicolon-separated lists, and localized values.

use vstd::prelude::*;
use vstd::string::StrSliceExecFns;

use crate::assoc::al_lookup;
use crate::assoc::al_set;
use crate::assoc::lemma_al_lookup_absent;
use crate::assoc::lemma_al_lookup_at;
use crate::chars::find_char;
use crate::chars::str_eq;
use crate::locale::LocaleView;
use crate::model::Entry;
use crate::model::EntryView;
use crate::model::Group;
use crate::model::GroupView;
use crate::model::buckets_view;
use crate::model::entries_view;
use crate::model::groups_view;
use crate::values::IconString;
use crate::values::LocListView;
use crate::values::LocStrView;
use crate::values::LocalizedString;
use crate::values::LocalizedStringList;
use crate::values::strs_view;

verus! {

/// The first entry of a bucket that carries no locale tag.
pub open spec fn first_untagged(es: Seq<EntryView>) -> Option<EntryView>
    decreases es.len(),
{
    if es.len() == 0 {
        None
    } else if es[0].locale is None {
        Some(es[0])
    } else {
        first_untagged(es.drop_first())
    }
}

/// The value of a scalar string field: the first untagged entry under the
/// key, when the key has one.
pub open spec fn opt_string_field(
    mm: Seq<(Seq<char>, Seq<EntryView>)>,
    key: Seq<char>,
) -> Option<Seq<char>> {
    match al_lookup(mm, key) {
        Some(es) => match first_untagged(es) {
            Some(e) => Some(e.value),
            None => None,
        },
        None => None,
    }
}

/// A boolean literal: exactly `true` or `false`; anything else is no
/// boolean at all.
pub open spec fn parse_bool(v: Seq<char>) -> Option<bool> {
    if v == "true"@ {
        Some(true)
    } else if v == "false"@ {
        Some(false)
    } else {
        None
    }
}

/// The value of a boolean field: the first untagged entry read as a
/// boolean literal; a bad literal leaves the field unset, with no error.
pub open spec fn opt_bool_field(
    mm: Seq<(Seq<char>, Seq<EntryView>)>,
    key: Seq<char>,
) -> Option<bool> {
    match al_lookup(mm, key) {
        Some(es) => match first_untagged(es) {
            Some(e) => parse_bool(e.value),
            None => None,
        },
        None => None,
    }
}

/// The segments of a semicolon-separated list value, empty segments
/// dropped.
pub open spec fn split_semi(v: Seq<char>) -> Seq<Seq<char>>
    decreases v.len(),
{
    if v.len() == 0 {
        seq![]
    } else {
        match v.index_of_first(';') {
            Some(i0) => {
                // index_of_first always yields an index within the sequence
                let i = if 0 <= i0 < v.len() {
                    i0
                } else {
                    0
                };
                let seg = v.subrange(0, i);
                let rest = split_semi(v.subrange(i + 1, v.len() as int));
                if seg.len() == 0 {
                    rest
                } else {
                    seq![seg] + rest
                }
            },
            None => seq![v],
        }
    }
}

/// The value of a list field: the first untagged entry split on `;`; when
/// every segment is empty the field stays unset rather than empty.
pub open spec fn opt_list_field(mm: Seq<(Seq<char>, Seq<EntryView>)>, key: Seq<char>) -> Option<
    Seq<Seq<char>>,
> {
    match al_lookup(mm, key) {
        Some(es) => match first_untagged(es) {
            Some(e) => {
                let l = split_semi(e.value);
                if l.len() > 0 {
                    Some(l)
                } else {
                    None
                }
            },
            None => None,
        },
        None => None,
    }
}

/// The default of a localized field: the value of the last untagged entry,
/// or empty when none is untagged.
pub open spec fn loc_default(es: Seq<EntryView>) -> Seq<char>
    decreases es.len(),
{
    if es.len() == 0 {
        Seq::empty()
    } else {
        match es.last().locale {
            None => es.last().value,
            Some(_) => loc_default(es.drop_last()),
        }
    }
}

/// The localized variants of a localized field, inserted in file order:
/// a later entry with the same decomposed locale overwrites the earlier.
pub open spec fn loc_map(es: Seq<EntryView>) -> Seq<(LocaleView, Seq<char>)>
    decreases es.len(),
{
    if es.len() == 0 {
        seq![]
    } else {
        let rest = loc_map(es.drop_last());
        match es.last().locale {
            Some(l) => al_set(rest, l, es.last().value),
            None => rest,
        }
    }
}

/// The value of a localized string field: present whenever the key has
/// any entry at all.
pub open spec fn opt_loc_field(mm: Seq<(Seq<char>, Seq<EntryView>)>, key: Seq<char>) -> Option<
    LocStrView,
> {
    match al_lookup(mm, key) {
        Some(es) => Some(LocStrView { default: loc_default(es), localized: loc_map(es) }),
        None => None,
    }
}

/// The default of a localized list field: the last untagged entry split on
/// `;`, or the empty list.
pub open spec fn loc_list_default(es: Seq<EntryView>) -> Seq<Seq<char>>
    decreases es.len(),
{
    if es.len() == 0 {
        Seq::empty()
    } else {
        match es.last().locale {
            None => split_semi(es.last().value),
            Some(_) => loc_list_default(es.drop_last()),
        }
    }
}

/// The localized variants of a localized list field, each entry split on
/// `;`, inserted in file order.
pub open spec fn loc_list_map(es: Seq<EntryView>) -> Seq<(LocaleView, Seq<Seq<char>>)>
    decreases es.len(),
{
    if es.len() == 0 {
        seq![]
    } else {
        let rest = loc_list_map(es.drop_last());
        match es.last().locale {
            Some(l) => al_set(rest, l, split_semi(es.last().value)),
            None => rest,
        }
    }
}

/// The value of a localized list field: present whenever the key has any
/// entry at all.
pub open spec fn opt_loc_list_field(mm: Seq<(Seq<char>, Seq<EntryView>)>, key: Seq<char>) -> Option<
    LocListView,
> {
    match al_lookup(mm, key) {
        Some(es) => Some(
            LocListView { default: loc_list_default(es), localized: loc_list_map(es) },
        ),
        None => None,
    }
}

/// The key names that feed the typed fields of the main group.
pub open spec fn is_known_key(k: Seq<char>) -> bool {
    ||| k == "Type"@
    ||| k == "Name"@
    ||| k == "Version"@
    ||| k == "GenericName"@
    ||| k == "NoDisplay"@
    ||| k == "Comment"@
    ||| k == "Icon"@
    ||| k == "Hidden"@
    ||| k == "OnlyShowIn"@
    ||| k == "NotShowIn"@
    ||| k == "DBusActivatable"@
    ||| k == "TryExec"@
    ||| k == "Exec"@
    ||| k == "Path"@
    ||| k == "Terminal"@
    ||| k == "Actions"@
    ||| k == "MimeType"@
    ||| k == "Categories"@
    ||| k == "Implements"@
    ||| k == "Keywords"@
    ||| k == "StartupNotify"@
    ||| k == "StartupWMClass"@
    ||| k == "URL"@
    ||| k == "PrefersNonDefaultGPU"@
    ||| k == "SingleMainWindow"@
}

/// The buckets of the main group whose keys feed no typed field, in order
/// of first appearance.
pub open spec fn unknown_of(mm: Seq<(Seq<char>, Seq<EntryView>)>) -> Seq<
    (Seq<char>, Seq<EntryView>),
>
    decreases mm.len(),
{
    if mm.len() == 0 {
        seq![]
    } else {
        let rest = unknown_of(mm.drop_first());
        if is_known_key(mm[0].0) {
            rest
        } else {
            seq![mm[0]] + rest
        }
    }
}

/// The first group of the given name.
pub open spec fn find_group(gs: Seq<GroupView>, name: Seq<char>) -> Option<GroupView>
    decreases gs.len(),
{
    if gs.len() == 0 {
        None
    } else if gs[0].name == name {
        Some(gs[0])
    } else {
        find_group(gs.drop_first(), name)
    }
}

/// The groups with the first one of the given name removed.
pub open spec fn remove_group(gs: Seq<GroupView>, name: Seq<char>) -> Seq<GroupView>
    decreases gs.len(),
{
    if gs.len() == 0 {
        seq![]
    } else if gs[0].name == name {
        gs.drop_first()
    } else {
        seq![gs[0]] + remove_group(gs.drop_first(), name)
    }
}

proof fn lemma_first_untagged_at(es: Seq<EntryView>, i: int)
    requires
        0 <= i < es.len(),
        es[i].locale is None,
        forall|j: int| 0 <= j < i ==> (#[trigger] es[j]).locale is Some,
    ensures
        first_untagged(es) == Some(es[i]),
    decreases i,
{
    if i > 0 {
        lemma_first_untagged_at(es.drop_first(), i - 1);
    }
}

proof fn lemma_first_untagged_none(es: Seq<EntryView>)
    requires
        forall|j: int| 0 <= j < es.len() ==> (#[trigger] es[j]).locale is Some,
    ensures
        first_untagged(es) is None,
    decreases es.len(),
{
    if es.len() > 0 {
        lemma_first_untagged_none(es.drop_first());
    }
}

proof fn lemma_find_group_at(gs: Seq<GroupView>, name: Seq<char>, i: int)
    requires
        0 <= i < gs.len(),
        gs[i].name == name,
        forall|j: int| 0 <= j < i ==> (#[trigger] gs[j]).name != name,
    ensures
        find_group(gs, name) == Some(gs[i]),
        remove_group(gs, name) == gs.remove(i),
    decreases i,
{
    if i == 0 {
        assert(gs.drop_first() =~= gs.remove(0));
    } else {
        lemma_find_group_at(gs.drop_first(), name, i - 1);
        assert(seq![gs[0]] + gs.drop_first().remove(i - 1) =~= gs.remove(i));
    }
}

proof fn lemma_find_group_none(gs: Seq<GroupView>, name: Seq<char>)
    requires
        forall|j: int| 0 <= j < gs.len() ==> (#[trigger] gs[j]).name != name,
    ensures
        find_group(gs, name) is None,
    decreases gs.len(),
{
    if gs.len() > 0 {
        lemma_find_group_none(gs.drop_first(), name);
    }
}

/// The bucket of entries stored under `key`, if any.
pub(crate) fn lookup_bucket<'a>(m: &'a Vec<(String, Vec<Entry>)>, key: &str) -> (r: Option<
    &'a Vec<Entry>,
>)
    ensures
        match r {
            Some(v) => al_lookup(buckets_view(m@), key@) == Some(entries_view(v@)),
            None => al_lookup(buckets_view(m@), key@) is None,
        },
{
    let n = m.len();
    let mut i: usize = 0;
    while i < n
        invariant
            n == m@.len(),
            i <= n,
            forall|j: int| 0 <= j < i ==> (#[trigger] buckets_view(m@)[j]).0 != key@,
        decreases n - i,
    {
        proof {
            assert(buckets_view(m@)[i as int] == (m@[i as int].0@, entries_view(m@[i as int].1@)));
        }
        if str_eq(m[i].0.as_str(), key) {
            proof {
                lemma_al_lookup_at(buckets_view(m@), key@, i as int);
            }
            return Some(&m[i].1);
        }
        i = i + 1;
    }
    proof {
        lemma_al_lookup_absent(buckets_view(m@), key@);
    }
    None
}

/// The value of the first untagged entry of a bucket, if any.
pub(crate) fn first_untagged_value(es: &Vec<Entry>) -> (r: Option<String>)
    ensures
        match first_untagged(entries_view(es@)) {
            Some(e) => r matches Some(v) && v@ == e.value,
            None => r is None,
        },
{
    let n = es.len();
    let mut i: usize = 0;
    while i < n
        invariant
            n == es@.len(),
            i <= n,
            forall|j: int| 0 <= j < i ==> (#[trigger] entries_view(es@)[j]).locale is Some,
        decreases n - i,
    {
        proof {
            assert(entries_view(es@)[i as int] == es@[i as int]@);
        }
        if es[i].locale.is_none() {
            proof {
                lemma_first_untagged_at(entries_view(es@), i as int);
            }
            return Some(es[i].value.clone());
        }
        i = i + 1;
    }
    proof {
        lemma_first_untagged_none(entries_view(es@));
    }
    None
}

/// A scalar string field of the main group.
pub(crate) fn get_string_field(m: &Vec<(String, Vec<Entry>)>, key: &str) -> (r: Option<String>)
    ensures
        match r {
            Some(v) => opt_string_field(buckets_view(m@), key@) == Some(v@),
            None => opt_string_field(buckets_view(m@), key@) is None,
        },
{
    match lookup_bucket(m, key) {
        Some(es) => first_untagged_value(es),
        None => None,
    }
}

/// A boolean field of the main group.
pub(crate) fn get_bool_field(m: &Vec<(String, Vec<Entry>)>, key: &str) -> (r: Option<bool>)
    ensures
        r == opt_bool_field(buckets_view(m@), key@),
{
    match lookup_bucket(m, key) {
        Some(es) => match first_untagged_value(es) {
            Some(v) => {
                if str_eq(v.as_str(), "true") {
                    Some(true)
                } else if str_eq(v.as_str(), "false") {
                    Some(false)
                } else {
                    None
                }
            },
            None => None,
        },
        None => None,
    }
}

/// The segments of `v` split on `;`, empty segments dropped.
pub(crate) fn split_semi_str(v: &str) -> (r: Vec<String>)
    ensures
        strs_view(r@) == split_semi(v@),
{
    let mut r: Vec<String> = Vec::new();
    let mut cur: &str = v;
    let mut n = cur.unicode_len();
    proof {
        assert(strs_view(r@) =~= Seq::<Seq<char>>::empty());
    }
    while n != 0
        invariant
            n == cur@.len(),
            strs_view(r@) + split_semi(cur@) == split_semi(v@),
        decreases n,
    {
        let ghost prev = strs_view(r@);
        match find_char(cur, ';') {
            Some(i) => {
                proof {
                    cur@.index_of_first_ensures(';');
                }
                let seg = cur.substring_char(0, i);
                let rest = cur.substring_char(i + 1, n);
                if i > 0 {
                    r.push(seg.to_owned());
                    proof {
                        assert(strs_view(r@) =~= prev.push(seg@));
                        assert(prev.push(seg@) + split_semi(rest@) =~= prev + (seq![seg@]
                            + split_semi(rest@)));
                        assert(split_semi(cur@) =~= seq![seg@] + split_semi(rest@));
                    }
                } else {
                    proof {
                        assert(split_semi(cur@) =~= split_semi(rest@));
                    }
                }
                cur = rest;
                n = n - i - 1;
            },
            None => {
                proof {
                    cur@.index_of_first_ensures(';');
                    assert(split_semi(cur@) =~= seq![cur@]);
                }
                r.push(cur.to_owned());
                let rest = cur.substring_char(n, n);
                proof {
                    assert(rest@.len() == 0);
                    assert(strs_view(r@) =~= prev.push(cur@));
                    assert(prev.push(cur@) + split_semi(rest@) =~= prev + split_semi(cur@));
                }
                cur = rest;
                n = 0;
            },
        }
    }
    proof {
        assert(split_semi(cur@) =~= Seq::<Seq<char>>::empty());
        assert(strs_view(r@) + split_semi(cur@) =~= strs_view(r@));
    }
    r
}

/// A list field of the main group.
pub(crate) fn get_list_field(m: &Vec<(String, Vec<Entry>)>, key: &str) -> (r: Option<Vec<String>>)
    ensures
        match r {
            Some(v) => opt_list_field(buckets_view(m@), key@) == Some(strs_view(v@)),
            None => opt_list_field(buckets_view(m@), key@) is None,
        },
{
    match lookup_bucket(m, key) {
        Some(es) => match first_untagged_value(es) {
            Some(v) => {
                let l = split_semi_str(v.as_str());
                if l.len() > 0 {
                    Some(l)
                } else {
                    None
                }
            },
            None => None,
        },
        None => None,
    }
}

/// The localized string built from a bucket, in file order.
pub(crate) fn build_localized(es: &Vec<Entry>) -> (r: LocalizedString)
    ensures
        r@ == (LocStrView {
            default: loc_default(entries_view(es@)),
            localized: loc_map(entries_view(es@)),
        }),
{
    let mut r = LocalizedString::new("");
    proof {
        reveal_strlit("");
        assert(""@ =~= Seq::<char>::empty());
    }
    let n = es.len();
    let mut i: usize = 0;
    while i < n
        invariant
            n == es@.len(),
            i <= n,
            r.default@ == loc_default(entries_view(es@).subrange(0, i as int)),
            crate::values::str_pairs(r.localized@) == loc_map(
                entries_view(es@).subrange(0, i as int),
            ),
        decreases n - i,
    {
        proof {
            let ev = entries_view(es@);
            assert(ev[i as int] == es@[i as int]@);
            assert(ev.subrange(0, i + 1).drop_last() =~= ev.subrange(0, i as int));
            assert(ev.subrange(0, i + 1).last() == ev[i as int]);
        }
        let e = &es[i];
        match &e.locale {
            Some(l) => {
                r.add_localized(l.clone(), e.value.clone());
            },
            None => {
                r.default = e.value.clone();
            },
        }
        i = i + 1;
    }
    proof {
        assert(entries_view(es@).subrange(0, n as int) =~= entries_view(es@));
    }
    r
}

/// The icon value built from a bucket, in file order.
pub(crate) fn build_icon(es: &Vec<Entry>) -> (r: IconString)
    ensures
        r@ == (LocStrView {
            default: loc_default(entries_view(es@)),
            localized: loc_map(entries_view(es@)),
        }),
{
    let mut r = IconString::new("");
    proof {
        reveal_strlit("");
        assert(""@ =~= Seq::<char>::empty());
    }
    let n = es.len();
    let mut i: usize = 0;
    while i < n
        invariant
            n == es@.len(),
            i <= n,
            r.default@ == loc_default(entries_view(es@).subrange(0, i as int)),
            crate::values::str_pairs(r.localized@) == loc_map(
                entries_view(es@).subrange(0, i as int),
            ),
        decreases n - i,
    {
        proof {
            let ev = entries_view(es@);
            assert(ev[i as int] == es@[i as int]@);
            assert(ev.subrange(0, i + 1).drop_last() =~= ev.subrange(0, i as int));
            assert(ev.subrange(0, i + 1).last() == ev[i as int]);
        }
        let e = &es[i];
        match &e.locale {
            Some(l) => {
                r.add_localized(l.clone(), e.value.clone());
            },
            None => {
                r.default = e.value.clone();
            },
        }
        i = i + 1;
    }
    proof {
        assert(entries_view(es@).subrange(0, n as int) =~= entries_view(es@));
    }
    r
}

/// The localized list built from a bucket, in file order.
pub(crate) fn build_loc_list(es: &Vec<Entry>) -> (r: LocalizedStringList)
    ensures
        r@ == (LocListView {
            default: loc_list_default(entries_view(es@)),
            localized: loc_list_map(entries_view(es@)),
        }),
{
    let mut r = LocalizedStringList::new(Vec::new());
    proof {
        assert(strs_view(r.default@) =~= Seq::<Seq<char>>::empty());
    }
    let n = es.len();
    let mut i: usize = 0;
    while i < n
        invariant
            n == es@.len(),
            i <= n,
            strs_view(r.default@) == loc_list_default(entries_view(es@).subrange(0, i as int)),
            crate::values::list_pairs(r.localized@) == loc_list_map(
                entries_view(es@).subrange(0, i as int),
            ),
        decreases n - i,
    {
        proof {
            let ev = entries_view(es@);
            assert(ev[i as int] == es@[i as int]@);
            assert(ev.subrange(0, i + 1).drop_last() =~= ev.subrange(0, i as int));
            assert(ev.subrange(0, i + 1).last() == ev[i as int]);
        }
        let e = &es[i];
        let values = split_semi_str(e.value.as_str());
        match &e.locale {
            Some(l) => {
                r.add_localized(l.clone(), values);
            },
            None => {
                r.default = values;
            },
        }
        i = i + 1;
    }
    proof {
        assert(entries_view(es@).subrange(0, n as int) =~= entries_view(es@));
    }
    r
}

/// A localized string field of the main group.
pub(crate) fn get_loc_field(m: &Vec<(String, Vec<Entry>)>, key: &str) -> (r: Option<
    LocalizedString,
>)
    ensures
        match r {
            Some(v) => opt_loc_field(buckets_view(m@), key@) == Some(v@),
            None => opt_loc_field(buckets_view(m@), key@) is None,
        },
{
    match lookup_bucket(m, key) {
        Some(es) => Some(build_localized(es)),
        None => None,
    }
}

/// The icon field of the main group.
pub(crate) fn get_icon_field(m: &Vec<(String, Vec<Entry>)>, key: &str) -> (r: Option<IconString>)
    ensures
        match r {
            Some(v) => opt_loc_field(buckets_view(m@), key@) == Some(v@),
            None => opt_loc_field(buckets_view(m@), key@) is None,
        },
{
    match lookup_bucket(m, key) {
        Some(es) => Some(build_icon(es)),
        None => None,
    }
}

/// A localized list field of the main group.
pub(crate) fn get_loc_list_field(m: &Vec<(String, Vec<Entry>)>, key: &str) -> (r: Option<
    LocalizedStringList,
>)
    ensures
        match r {
            Some(v) => opt_loc_list_field(buckets_view(m@), key@) == Some(v@),
            None => opt_loc_list_field(buckets_view(m@), key@) is None,
        },
{
    match lookup_bucket(m, key) {
        Some(es) => Some(build_loc_list(es)),
        None => None,
    }
}

/// Whether `k` names one of the typed fields of the main group.
pub(crate) fn known_key(k: &str) -> (r: bool)
    ensures
        r == is_known_key(k@),
{
    str_eq(k, "Type") || str_eq(k, "Name") || str_eq(k, "Version") || str_eq(k, "GenericName")
        || str_eq(k, "NoDisplay") || str_eq(k, "Comment") || str_eq(k, "Icon") || str_eq(
        k,
        "Hidden",
    ) || str_eq(k, "OnlyShowIn") || str_eq(k, "NotShowIn") || str_eq(k, "DBusActivatable")
        || str_eq(k, "TryExec") || str_eq(k, "Exec") || str_eq(k, "Path") || str_eq(k, "Terminal")
        || str_eq(k, "Actions") || str_eq(k, "MimeType") || str_eq(k, "Categories") || str_eq(
        k,
        "Implements",
    ) || str_eq(k, "Keywords") || str_eq(k, "StartupNotify") || str_eq(k, "StartupWMClass")
        || str_eq(k, "URL") || str_eq(k, "PrefersNonDefaultGPU") || str_eq(k, "SingleMainWindow")
}

/// The buckets of the main group that feed no typed field, in order of
/// first appearance.
pub(crate) fn take_unknown(m: Vec<(String, Vec<Entry>)>) -> (r: Vec<(String, Vec<Entry>)>)
    ensures
        buckets_view(r@) == unknown_of(buckets_view(m@)),
{
    let ghost m0 = buckets_view(m@);
    let mut rest = m;
    let mut r: Vec<(String, Vec<Entry>)> = Vec::new();
    proof {
        assert(buckets_view(r@) =~= Seq::<(Seq<char>, Seq<EntryView>)>::empty());
    }
    while rest.len() > 0
        invariant
            buckets_view(r@) + unknown_of(buckets_view(rest@)) == unknown_of(m0),
        decreases rest.len(),
    {
        let ghost prev = buckets_view(r@);
        let ghost rv = buckets_view(rest@);
        let b = rest.remove(0);
        proof {
            assert(buckets_view(rest@) =~= rv.drop_first());
            assert(rv[0] == (b.0@, entries_view(b.1@)));
        }
        if !known_key(b.0.as_str()) {
            r.push(b);
            proof {
                assert(buckets_view(r@) =~= prev.push(rv[0]));
                assert(prev.push(rv[0]) + unknown_of(rv.drop_first()) =~= prev + (seq![rv[0]]
                    + unknown_of(rv.drop_first())));
                assert(unknown_of(rv) =~= seq![rv[0]] + unknown_of(rv.drop_first()));
            }
        } else {
            proof {
                assert(unknown_of(rv) =~= unknown_of(rv.drop_first()));
            }
        }
    }
    proof {
        assert(unknown_of(buckets_view(rest@)) =~= Seq::<(Seq<char>, Seq<EntryView>)>::empty());
        assert(buckets_view(r@) + unknown_of(buckets_view(rest@)) =~= buckets_view(r@));
    }
    r
}

/// Removes and returns the first group of the given name; the remaining
/// groups keep their order.
pub(crate) fn extract_group(groups: &mut Vec<Group>, name: &str) -> (r: Option<Group>)
    ensures
        match r {
            Some(g) => find_group(groups_view(old(groups)@), name@) == Some(g@) && groups_view(
                final(groups)@,
            ) == remove_group(groups_view(old(groups)@), name@),
            None => find_group(groups_view(old(groups)@), name@) is None && *final(groups) == *old(
                groups,
            ),
        },
{
    let n = groups.len();
    let mut i: usize = 0;
    while i < n
        invariant
            *groups == *old(groups),
            n == groups@.len(),
            i <= n,
            forall|j: int| 0 <= j < i ==> (#[trigger] groups_view(groups@)[j]).name != name@,
        decreases n - i,
    {
        proof {
            assert(groups_view(groups@)[i as int] == groups@[i as int]@);
        }
        if str_eq(groups[i].name.as_str(), name) {
            proof {
                lemma_find_group_at(groups_view(groups@), name@, i as int);
            }
            let g = groups.remove(i);
            proof {
                assert(groups_view(groups@) =~= groups_view(old(groups)@).remove(i as int));
            }
            return Some(g);
        }
        i = i + 1;
    }
    proof {
        lemma_find_group_none(groups_view(groups@), name@);
    }
    None
}

/// The first entry stored under `key`, whatever its tag, if any; used for
/// the `Type` key, which takes the very first physical line.
pub(crate) fn first_entry_value(m: &Vec<(String, Vec<Entry>)>, key: &str) -> (r: Option<String>)
    ensures
        match al_lookup(buckets_view(m@), key@) {
            Some(es) => {
                if es.len() > 0 {
                    r matches Some(v) && v@ == es[0].value
                } else {
                    r is None
                }
            },
            None => r is None,
        },
{
    match lookup_bucket(m, key) {
        Some(es) => {
            if es.len() > 0 {
                proof {
                    assert(entries_view(es@)[0] == es@[0]@);
                }
                Some(es[0].value.clone())
            } else {
                None
            }
        },
        None => None,
    }
}

} // verus!
