//! Localizable values: a default plus locale-tagged variants, with the
//! fixed fallback cascade used to resolve a query locale.

use vstd::prelude::*;

use crate::assoc::al_lookup;
use crate::assoc::al_set;
use crate::assoc::lemma_al_lookup_absent;
use crate::assoc::lemma_al_lookup_at;
use crate::assoc::lemma_al_set_absent;
use crate::assoc::lemma_al_set_at;
use crate::locale::Locale;
use crate::locale::LocaleView;
use crate::locale::locale_eq;

verus! {

/// A localizable string: the default value and the locale-tagged variants,
/// in insertion order, with locales unique.
pub struct LocalizedString {
    /// The value of the untagged entry.
    pub default: String,
    /// The locale-tagged variants, in insertion order.
    pub localized: Vec<(Locale, String)>,
}

/// An icon name or path, localizable like any other string value.
pub struct IconString {
    /// The default icon name or path.
    pub default: String,
    /// The locale-tagged variants, in insertion order.
    pub localized: Vec<(Locale, String)>,
}

/// A localizable list of strings, such as the keywords of an entry.
pub struct LocalizedStringList {
    /// The default list of values.
    pub default: Vec<String>,
    /// The locale-tagged variants, in insertion order.
    pub localized: Vec<(Locale, Vec<String>)>,
}

/// The views of a sequence of strings.
pub open spec fn strs_view(v: Seq<String>) -> Seq<Seq<char>> {
    v.map_values(|s: String| s@)
}

/// The mathematical value of a localizable string: the default and the
/// locale-tagged variants in insertion order.
#[verifier::ext_equal]
pub struct LocStrView {
    /// The default value.
    pub default: Seq<char>,
    /// The locale-tagged variants, in insertion order.
    pub localized: Seq<(LocaleView, Seq<char>)>,
}

/// The mathematical value of a localizable list of strings.
#[verifier::ext_equal]
pub struct LocListView {
    /// The default list.
    pub default: Seq<Seq<char>>,
    /// The locale-tagged variants, in insertion order.
    pub localized: Seq<(LocaleView, Seq<Seq<char>>)>,
}

impl View for LocalizedString {
    type V = LocStrView;

    open spec fn view(&self) -> LocStrView {
        LocStrView { default: self.default@, localized: str_pairs(self.localized@) }
    }
}

impl View for IconString {
    type V = LocStrView;

    open spec fn view(&self) -> LocStrView {
        LocStrView { default: self.default@, localized: str_pairs(self.localized@) }
    }
}

impl View for LocalizedStringList {
    type V = LocListView;

    open spec fn view(&self) -> LocListView {
        LocListView { default: strs_view(self.default@), localized: list_pairs(self.localized@) }
    }
}

/// The mathematical value of a locale-to-string association list.
pub open spec fn str_pairs(v: Seq<(Locale, String)>) -> Seq<(LocaleView, Seq<char>)> {
    v.map_values(|p: (Locale, String)| (p.0@, p.1@))
}

/// The mathematical value of a locale-to-list association list.
pub open spec fn list_pairs(v: Seq<(Locale, Vec<String>)>) -> Seq<(LocaleView, Seq<Seq<char>>)> {
    v.map_values(|p: (Locale, Vec<String>)| (p.0@, strs_view(p.1@)))
}

/// The query with its country dropped.
pub open spec fn strip_country(q: LocaleView) -> LocaleView {
    LocaleView { lang: q.lang, country: None, encoding: q.encoding, modifier: q.modifier }
}

/// The query with its modifier dropped.
pub open spec fn strip_modifier(q: LocaleView) -> LocaleView {
    LocaleView { lang: q.lang, country: q.country, encoding: q.encoding, modifier: None }
}

/// The query reduced to its language alone.
pub open spec fn lang_only(q: LocaleView) -> LocaleView {
    LocaleView { lang: q.lang, country: None, encoding: None, modifier: None }
}

/// Last step of the cascade: the bare language, tried only when the query
/// had a country or a modifier to drop; otherwise the default.
pub open spec fn resolve_step4<V>(default: V, m: Seq<(LocaleView, V)>, q: LocaleView) -> V {
    if q.country is Some || q.modifier is Some {
        match al_lookup(m, lang_only(q)) {
            Some(v) => v,
            None => default,
        }
    } else {
        default
    }
}

/// Third step: the query without its modifier, tried only when it has one.
pub open spec fn resolve_step3<V>(default: V, m: Seq<(LocaleView, V)>, q: LocaleView) -> V {
    if q.modifier is Some {
        match al_lookup(m, strip_modifier(q)) {
            Some(v) => v,
            None => resolve_step4(default, m, q),
        }
    } else {
        resolve_step4(default, m, q)
    }
}

/// Second step: the query without its country, tried only when it has both
/// a country and a modifier.
pub open spec fn resolve_step2<V>(default: V, m: Seq<(LocaleView, V)>, q: LocaleView) -> V {
    if q.country is Some && q.modifier is Some {
        match al_lookup(m, strip_country(q)) {
            Some(v) => v,
            None => resolve_step3(default, m, q),
        }
    } else {
        resolve_step3(default, m, q)
    }
}

/// The full matching cascade: exact match on all four components, then
/// without country, then without modifier, then the bare language, then the
/// default. The encoding is never stripped: it takes part in every lookup
/// key as stored.
pub open spec fn resolve<V>(default: V, m: Seq<(LocaleView, V)>, q: LocaleView) -> V {
    match al_lookup(m, q) {
        Some(v) => v,
        None => resolve_step2(default, m, q),
    }
}

fn lookup_str(m: &Vec<(Locale, String)>, k: &Locale) -> (r: Option<String>)
    ensures
        match r {
            Some(v) => al_lookup(str_pairs(m@), k@) == Some(v@),
            None => al_lookup(str_pairs(m@), k@) is None,
        },
{
    let n = m.len();
    let mut i: usize = 0;
    while i < n
        invariant
            n == m@.len(),
            i <= n,
            forall|j: int| 0 <= j < i ==> (#[trigger] str_pairs(m@)[j]).0 != k@,
        decreases n - i,
    {
        proof {
            assert(str_pairs(m@)[i as int] == (m@[i as int].0@, m@[i as int].1@));
        }
        if locale_eq(&m[i].0, k) {
            proof {
                lemma_al_lookup_at(str_pairs(m@), k@, i as int);
            }
            return Some(m[i].1.clone());
        }
        i = i + 1;
    }
    proof {
        lemma_al_lookup_absent(str_pairs(m@), k@);
    }
    None
}

fn lookup_list(m: &Vec<(Locale, Vec<String>)>, k: &Locale) -> (r: Option<Vec<String>>)
    ensures
        match r {
            Some(v) => al_lookup(list_pairs(m@), k@) == Some(strs_view(v@)),
            None => al_lookup(list_pairs(m@), k@) is None,
        },
{
    let n = m.len();
    let mut i: usize = 0;
    while i < n
        invariant
            n == m@.len(),
            i <= n,
            forall|j: int| 0 <= j < i ==> (#[trigger] list_pairs(m@)[j]).0 != k@,
        decreases n - i,
    {
        proof {
            assert(list_pairs(m@)[i as int] == (m@[i as int].0@, strs_view(m@[i as int].1@)));
        }
        if locale_eq(&m[i].0, k) {
            proof {
                lemma_al_lookup_at(list_pairs(m@), k@, i as int);
            }
            return Some(clone_strs(&m[i].1));
        }
        i = i + 1;
    }
    proof {
        lemma_al_lookup_absent(list_pairs(m@), k@);
    }
    None
}

/// An exact copy of a vector of strings.
pub fn clone_strs(v: &Vec<String>) -> (r: Vec<String>)
    ensures
        r@ == v@,
{
    let n = v.len();
    let mut r: Vec<String> = Vec::new();
    let mut i: usize = 0;
    while i < n
        invariant
            n == v@.len(),
            i <= n,
            r@ == v@.subrange(0, i as int),
        decreases n - i,
    {
        r.push(v[i].clone());
        proof {
            assert(r@ =~= v@.subrange(0, i + 1));
        }
        i = i + 1;
    }
    proof {
        assert(v@.subrange(0, n as int) =~= v@);
    }
    r
}

impl LocalizedString {
    /// A localizable string with only a default value.
    pub fn new(default: &str) -> (r: Self)
        ensures
            r.default@ == default@,
            str_pairs(r.localized@) == Seq::<(LocaleView, Seq<char>)>::empty(),
    {
        let r = LocalizedString { default: default.to_owned(), localized: Vec::new() };
        proof {
            assert(str_pairs(r.localized@) =~= Seq::<(LocaleView, Seq<char>)>::empty());
        }
        r
    }

    /// Adds a locale-tagged variant; a variant already stored under the
    /// same decomposed locale is overwritten in place.
    pub fn add_localized(&mut self, locale: Locale, value: String)
        ensures
            final(self).default == old(self).default,
            str_pairs(final(self).localized@) == al_set(
                str_pairs(old(self).localized@),
                locale@,
                value@,
            ),
    {
        let n = self.localized.len();
        let mut i: usize = 0;
        while i < n
            invariant
                *self == *old(self),
                n == self.localized@.len(),
                i <= n,
                forall|j: int|
                    0 <= j < i ==> (#[trigger] str_pairs(self.localized@)[j]).0 != locale@,
            decreases n - i,
        {
            proof {
                assert(str_pairs(self.localized@)[i as int] == (
                    self.localized@[i as int].0@,
                    self.localized@[i as int].1@,
                ));
            }
            if locale_eq(&self.localized[i].0, &locale) {
                proof {
                    lemma_al_set_at(str_pairs(self.localized@), locale@, value@, i as int);
                }
                self.localized.set(i, (locale, value));
                proof {
                    assert(str_pairs(self.localized@) =~= str_pairs(
                        old(self).localized@,
                    ).update(i as int, (locale@, value@)));
                }
                return ;
            }
            i = i + 1;
        }
        proof {
            lemma_al_set_absent(str_pairs(self.localized@), locale@, value@);
        }
        self.localized.push((locale, value));
        proof {
            assert(str_pairs(self.localized@) =~= str_pairs(old(self).localized@).push(
                (locale@, value@),
            ));
        }
    }

    /// The value for `locale` under the matching cascade of [`resolve`].
    pub fn get(&self, locale: &Locale) -> (r: String)
        ensures
            r@ == resolve(self.default@, str_pairs(self.localized@), locale@),
    {
        match lookup_str(&self.localized, locale) {
            Some(v) => {
                return v;
            },
            None => {},
        }
        if self.country_and_modifier(locale) {
            let mut q = locale.clone();
            q.country = None;
            proof {
                assert(q@ =~= strip_country(locale@));
            }
            match lookup_str(&self.localized, &q) {
                Some(v) => {
                    return v;
                },
                None => {},
            }
        }
        if locale.modifier.is_some() {
            let mut q = locale.clone();
            q.modifier = None;
            proof {
                assert(q@ =~= strip_modifier(locale@));
            }
            match lookup_str(&self.localized, &q) {
                Some(v) => {
                    return v;
                },
                None => {},
            }
        }
        if locale.country.is_some() || locale.modifier.is_some() {
            let q = Locale::new(locale.lang.as_str());
            proof {
                assert(q@ =~= lang_only(locale@));
            }
            match lookup_str(&self.localized, &q) {
                Some(v) => {
                    return v;
                },
                None => {},
            }
        }
        self.default.clone()
    }

    fn country_and_modifier(&self, locale: &Locale) -> (r: bool)
        ensures
            r == (locale@.country is Some && locale@.modifier is Some),
    {
        locale.country.is_some() && locale.modifier.is_some()
    }
}

impl IconString {
    /// An icon value with only a default name or path.
    pub fn new(default: &str) -> (r: Self)
        ensures
            r.default@ == default@,
            str_pairs(r.localized@) == Seq::<(LocaleView, Seq<char>)>::empty(),
    {
        let r = IconString { default: default.to_owned(), localized: Vec::new() };
        proof {
            assert(str_pairs(r.localized@) =~= Seq::<(LocaleView, Seq<char>)>::empty());
        }
        r
    }

    /// Adds a locale-tagged variant; a variant already stored under the
    /// same decomposed locale is overwritten in place.
    pub fn add_localized(&mut self, locale: Locale, value: String)
        ensures
            final(self).default == old(self).default,
            str_pairs(final(self).localized@) == al_set(
                str_pairs(old(self).localized@),
                locale@,
                value@,
            ),
    {
        let n = self.localized.len();
        let mut i: usize = 0;
        while i < n
            invariant
                *self == *old(self),
                n == self.localized@.len(),
                i <= n,
                forall|j: int|
                    0 <= j < i ==> (#[trigger] str_pairs(self.localized@)[j]).0 != locale@,
            decreases n - i,
        {
            proof {
                assert(str_pairs(self.localized@)[i as int] == (
                    self.localized@[i as int].0@,
                    self.localized@[i as int].1@,
                ));
            }
            if locale_eq(&self.localized[i].0, &locale) {
                proof {
                    lemma_al_set_at(str_pairs(self.localized@), locale@, value@, i as int);
                }
                self.localized.set(i, (locale, value));
                proof {
                    assert(str_pairs(self.localized@) =~= str_pairs(
                        old(self).localized@,
                    ).update(i as int, (locale@, value@)));
                }
                return ;
            }
            i = i + 1;
        }
        proof {
            lemma_al_set_absent(str_pairs(self.localized@), locale@, value@);
        }
        self.localized.push((locale, value));
        proof {
            assert(str_pairs(self.localized@) =~= str_pairs(old(self).localized@).push(
                (locale@, value@),
            ));
        }
    }

    /// The icon for `locale` under the matching cascade of [`resolve`].
    pub fn get(&self, locale: &Locale) -> (r: String)
        ensures
            r@ == resolve(self.default@, str_pairs(self.localized@), locale@),
    {
        match lookup_str(&self.localized, locale) {
            Some(v) => {
                return v;
            },
            None => {},
        }
        if locale.country.is_some() && locale.modifier.is_some() {
            let mut q = locale.clone();
            q.country = None;
            proof {
                assert(q@ =~= strip_country(locale@));
            }
            match lookup_str(&self.localized, &q) {
                Some(v) => {
                    return v;
                },
                None => {},
            }
        }
        if locale.modifier.is_some() {
            let mut q = locale.clone();
            q.modifier = None;
            proof {
                assert(q@ =~= strip_modifier(locale@));
            }
            match lookup_str(&self.localized, &q) {
                Some(v) => {
                    return v;
                },
                None => {},
            }
        }
        if locale.country.is_some() || locale.modifier.is_some() {
            let q = Locale::new(locale.lang.as_str());
            proof {
                assert(q@ =~= lang_only(locale@));
            }
            match lookup_str(&self.localized, &q) {
                Some(v) => {
                    return v;
                },
                None => {},
            }
        }
        self.default.clone()
    }
}

impl LocalizedStringList {
    /// A localizable list with only a default value.
    pub fn new(default: Vec<String>) -> (r: Self)
        ensures
            r.default == default,
            list_pairs(r.localized@) == Seq::<(LocaleView, Seq<Seq<char>>)>::empty(),
    {
        let r = LocalizedStringList { default, localized: Vec::new() };
        proof {
            assert(list_pairs(r.localized@) =~= Seq::<(LocaleView, Seq<Seq<char>>)>::empty());
        }
        r
    }

    /// Adds a locale-tagged variant; a variant already stored under the
    /// same decomposed locale is overwritten in place.
    pub fn add_localized(&mut self, locale: Locale, values: Vec<String>)
        ensures
            final(self).default == old(self).default,
            list_pairs(final(self).localized@) == al_set(
                list_pairs(old(self).localized@),
                locale@,
                strs_view(values@),
            ),
    {
        let n = self.localized.len();
        let mut i: usize = 0;
        while i < n
            invariant
                *self == *old(self),
                n == self.localized@.len(),
                i <= n,
                forall|j: int|
                    0 <= j < i ==> (#[trigger] list_pairs(self.localized@)[j]).0 != locale@,
            decreases n - i,
        {
            proof {
                assert(list_pairs(self.localized@)[i as int] == (
                    self.localized@[i as int].0@,
                    strs_view(self.localized@[i as int].1@),
                ));
            }
            if locale_eq(&self.localized[i].0, &locale) {
                proof {
                    lemma_al_set_at(
                        list_pairs(self.localized@),
                        locale@,
                        strs_view(values@),
                        i as int,
                    );
                }
                self.localized.set(i, (locale, values));
                proof {
                    assert(list_pairs(self.localized@) =~= list_pairs(
                        old(self).localized@,
                    ).update(i as int, (locale@, strs_view(values@))));
                }
                return ;
            }
            i = i + 1;
        }
        proof {
            lemma_al_set_absent(list_pairs(self.localized@), locale@, strs_view(values@));
        }
        self.localized.push((locale, values));
        proof {
            assert(list_pairs(self.localized@) =~= list_pairs(old(self).localized@).push(
                (locale@, strs_view(values@)),
            ));
        }
    }

    /// The list for `locale` under the matching cascade of [`resolve`].
    pub fn get(&self, locale: &Locale) -> (r: Vec<String>)
        ensures
            strs_view(r@) == resolve(
                strs_view(self.default@),
                list_pairs(self.localized@),
                locale@,
            ),
    {
        match lookup_list(&self.localized, locale) {
            Some(v) => {
                return v;
            },
            None => {},
        }
        if locale.country.is_some() && locale.modifier.is_some() {
            let mut q = locale.clone();
            q.country = None;
            proof {
                assert(q@ =~= strip_country(locale@));
            }
            match lookup_list(&self.localized, &q) {
                Some(v) => {
                    return v;
                },
                None => {},
            }
        }
        if locale.modifier.is_some() {
            let mut q = locale.clone();
            q.modifier = None;
            proof {
                assert(q@ =~= strip_modifier(locale@));
            }
            match lookup_list(&self.localized, &q) {
                Some(v) => {
                    return v;
                },
                None => {},
            }
        }
        if locale.country.is_some() || locale.modifier.is_some() {
            let q = Locale::new(locale.lang.as_str());
            proof {
                assert(q@ =~= lang_only(locale@));
            }
            match lookup_list(&self.localized, &q) {
                Some(v) => {
                    return v;
                },
                None => {},
            }
        }
        clone_strs(&self.default)
    }
}

} // verus!
