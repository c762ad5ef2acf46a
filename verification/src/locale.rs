//! The locale model: decomposition of a locale token of the form
//! `lang[_COUNTRY][.ENCODING][@MODIFIER]` into its four components, and the
//! inverse recomposition.

use vstd::prelude::*;
use vstd::string::StrSliceExecFns;
use vstd::string::StringExecFns;

use crate::chars::find_char;
use crate::chars::rfind_char;
use crate::chars::str_eq;

verus! {

/// A locale identifier, decomposed into language, optional country,
/// optional encoding, and optional modifier.
pub struct Locale {
    /// Language code (for example `en`).
    pub lang: String,
    /// Optional country code (for example `US`).
    pub country: Option<String>,
    /// Optional encoding (for example `UTF-8`).
    pub encoding: Option<String>,
    /// Optional modifier (for example `euro`).
    pub modifier: Option<String>,
}

/// The mathematical value of a [`Locale`]: its four components as
/// character sequences.
#[verifier::ext_equal]
pub struct LocaleView {
    /// Language component.
    pub lang: Seq<char>,
    /// Country component, if present.
    pub country: Option<Seq<char>>,
    /// Encoding component, if present.
    pub encoding: Option<Seq<char>>,
    /// Modifier component, if present.
    pub modifier: Option<Seq<char>>,
}

/// The view of an optional string.
pub open spec fn view_opt(o: Option<String>) -> Option<Seq<char>> {
    match o {
        Some(s) => Some(s@),
        None => None,
    }
}

impl View for Locale {
    type V = LocaleView;

    open spec fn view(&self) -> LocaleView {
        LocaleView {
            lang: self.lang@,
            country: view_opt(self.country),
            encoding: view_opt(self.encoding),
            modifier: view_opt(self.modifier),
        }
    }
}

/// Splits `s` at the last occurrence of `c`: the part before it, and the
/// part after it (or `None` when `c` does not occur).
pub open spec fn split_last_at(s: Seq<char>, c: char) -> (Seq<char>, Option<Seq<char>>) {
    match s.index_of_last(c) {
        Some(i) => (s.subrange(0, i), Some(s.subrange(i + 1, s.len() as int))),
        None => (s, None),
    }
}

/// Splits `s` at the first occurrence of `c`: the part before it, and the
/// part after it (or `None` when `c` does not occur).
pub open spec fn split_first_at(s: Seq<char>, c: char) -> (Seq<char>, Option<Seq<char>>) {
    match s.index_of_first(c) {
        Some(i) => (s.subrange(0, i), Some(s.subrange(i + 1, s.len() as int))),
        None => (s, None),
    }
}

/// Decomposition of a locale token, rightmost part first: the modifier is
/// what follows the last `@`; the encoding what follows the last `.` of
/// the remainder; the country what follows the first `_` of what is left;
/// the language is the rest.
pub open spec fn spec_locale_from_chars(s: Seq<char>) -> LocaleView {
    let m = split_last_at(s, '@');
    let e = split_last_at(m.0, '.');
    let c = split_first_at(e.0, '_');
    LocaleView { lang: c.0, country: c.1, encoding: e.1, modifier: m.1 }
}

/// An optional component with its separator prefixed, or nothing.
pub open spec fn opt_part(c: char, o: Option<Seq<char>>) -> Seq<char> {
    match o {
        Some(s) => seq![c] + s,
        None => Seq::<char>::empty(),
    }
}

/// Recomposition of a locale: `lang`, then `_country`, then `.encoding`,
/// then `@modifier`, each part present only when its component is.
pub open spec fn spec_locale_repr(l: LocaleView) -> Seq<char> {
    l.lang + opt_part('_', l.country) + opt_part('.', l.encoding) + opt_part('@', l.modifier)
}

/// Whether an optional component contains the character `c`.
pub open spec fn opt_contains(o: Option<Seq<char>>, c: char) -> bool {
    match o {
        Some(s) => s.contains(c),
        None => false,
    }
}

/// The locales whose recomposed token decomposes back to them: each
/// separator that the recomposition introduces must stay recognizable.
/// Every locale that [`spec_locale_from_chars`] produces satisfies this.
pub open spec fn locale_wf(l: LocaleView) -> bool {
    &&& !l.lang.contains('_')
    &&& (match l.encoding {
        Some(e) => !e.contains('.'),
        None => !l.lang.contains('.') && !opt_contains(l.country, '.'),
    })
    &&& (match l.modifier {
        Some(m) => !m.contains('@'),
        None => !l.lang.contains('@') && !opt_contains(l.country, '@') && !opt_contains(
            l.encoding,
            '@',
        ),
    })
}

pub(crate) proof fn lemma_not_contains_concat(a: Seq<char>, b: Seq<char>, c: char)
    requires
        !a.contains(c),
        !b.contains(c),
    ensures
        !(a + b).contains(c),
{
    assert forall|i: int| 0 <= i < (a + b).len() implies (a + b)[i] != c by {
        if i < a.len() {
            assert((a + b)[i] == a[i]);
        } else {
            assert((a + b)[i] == b[i - a.len()]);
        }
    }
}

pub(crate) proof fn lemma_opt_part_not_contains(sep: char, o: Option<Seq<char>>, c: char)
    requires
        c != sep,
        !opt_contains(o, c),
    ensures
        !opt_part(sep, o).contains(c),
{
    match o {
        Some(x) => {
            assert forall|i: int| 0 <= i < opt_part(sep, o).len() implies opt_part(sep, o)[i]
                != c by {
                if i > 0 {
                    assert(opt_part(sep, o)[i] == x[i - 1]);
                }
            }
        },
        None => {},
    }
}

/// Law: recomposing a well-formed locale and decomposing the result gives
/// the locale back; decomposition is a left inverse of recomposition.
pub proof fn lemma_locale_round_trip(l: LocaleView)
    requires
        locale_wf(l),
    ensures
        spec_locale_from_chars(spec_locale_repr(l)) == l,
{
    let s = spec_locale_repr(l);
    let base2 = l.lang + opt_part('_', l.country);
    let base1 = base2 + opt_part('.', l.encoding);

    // The modifier splits off first, at the last '@'.
    let sp = split_last_at(s, '@');
    match l.modifier {
        Some(m) => {
            assert(s =~= base1 + seq!['@'] + m);
            crate::chars::lemma_index_of_last_concat(base1, m, '@');
            assert(sp.0 =~= base1);
            assert(s.subrange(base1.len() as int + 1, s.len() as int) =~= m);
        },
        None => {
            lemma_opt_part_not_contains('_', l.country, '@');
            lemma_opt_part_not_contains('.', l.encoding, '@');
            lemma_not_contains_concat(l.lang, opt_part('_', l.country), '@');
            lemma_not_contains_concat(base2, opt_part('.', l.encoding), '@');
            assert(s =~= base1);
            crate::chars::lemma_index_of_last_none(s, '@');
        },
    }
    assert(sp.0 == base1 && sp.1 == l.modifier);

    // The encoding splits off next, at the last '.' of the remainder.
    let ep = split_last_at(base1, '.');
    match l.encoding {
        Some(e) => {
            assert(base1 =~= base2 + seq!['.'] + e);
            crate::chars::lemma_index_of_last_concat(base2, e, '.');
            assert(ep.0 =~= base2);
            assert(base1.subrange(base2.len() as int + 1, base1.len() as int) =~= e);
        },
        None => {
            lemma_opt_part_not_contains('_', l.country, '.');
            lemma_not_contains_concat(l.lang, opt_part('_', l.country), '.');
            assert(base1 =~= base2);
            crate::chars::lemma_index_of_last_none(base1, '.');
        },
    }
    assert(ep.0 == base2 && ep.1 == l.encoding);

    // The country splits off last, at the first '_' of what is left.
    let cp = split_first_at(base2, '_');
    match l.country {
        Some(c) => {
            assert(base2 =~= l.lang + seq!['_'] + c);
            crate::chars::lemma_index_of_first_concat(l.lang, c, '_');
            assert(cp.0 =~= l.lang);
            assert(base2.subrange(l.lang.len() as int + 1, base2.len() as int) =~= c);
        },
        None => {
            assert(base2 =~= l.lang);
            crate::chars::lemma_index_of_first_none(base2, '_');
        },
    }
    assert(cp.0 == l.lang && cp.1 == l.country);
    assert(spec_locale_from_chars(s) =~= l);
}

impl Locale {
    /// A locale with only a language component.
    pub fn new(lang: &str) -> (r: Self)
        ensures
            r@ == (LocaleView { lang: lang@, country: None, encoding: None, modifier: None }),
    {
        Locale { lang: lang.to_owned(), country: None, encoding: None, modifier: None }
    }

    /// Decomposes a locale token such as `en_US.UTF-8@euro`.
    pub fn from_string(s: &str) -> (r: Self)
        ensures
            r@ == spec_locale_from_chars(s@),
    {
        let n = s.unicode_len();
        let (base1, modifier): (&str, Option<String>) = match rfind_char(s, '@') {
            Some(i) => {
                proof {
                    s@.index_of_last_ensures('@');
                }
                (s.substring_char(0, i), Some(s.substring_char(i + 1, n).to_owned()))
            },
            None => (s, None),
        };
        let bn = base1.unicode_len();
        let (base2, encoding): (&str, Option<String>) = match rfind_char(base1, '.') {
            Some(i) => {
                proof {
                    base1@.index_of_last_ensures('.');
                }
                (base1.substring_char(0, i), Some(base1.substring_char(i + 1, bn).to_owned()))
            },
            None => (base1, None),
        };
        let cn = base2.unicode_len();
        match find_char(base2, '_') {
            Some(i) => {
                proof {
                    base2@.index_of_first_ensures('_');
                }
                Locale {
                    lang: base2.substring_char(0, i).to_owned(),
                    country: Some(base2.substring_char(i + 1, cn).to_owned()),
                    encoding,
                    modifier,
                }
            },
            None => Locale { lang: base2.to_owned(), country: None, encoding, modifier },
        }
    }

    /// Recomposes the locale into its token form.
    pub fn to_string_repr(&self) -> (r: String)
        ensures
            r@ == spec_locale_repr(self@),
    {
        proof {
            reveal_strlit("_");
            reveal_strlit(".");
            reveal_strlit("@");
            assert("_"@ =~= seq!['_']);
            assert("."@ =~= seq!['.']);
            assert("@"@ =~= seq!['@']);
        }
        let mut r = self.lang.clone();
        match &self.country {
            Some(c) => {
                r.append("_");
                r.append(c.as_str());
                proof {
                    assert(r@ =~= self@.lang + opt_part('_', self@.country));
                }
            },
            None => {
                proof {
                    assert(r@ =~= self@.lang + opt_part('_', self@.country));
                }
            },
        }
        let ghost stage1 = r@;
        match &self.encoding {
            Some(e) => {
                r.append(".");
                r.append(e.as_str());
                proof {
                    assert(r@ =~= stage1 + opt_part('.', self@.encoding));
                }
            },
            None => {
                proof {
                    assert(r@ =~= stage1 + opt_part('.', self@.encoding));
                }
            },
        }
        let ghost stage2 = r@;
        match &self.modifier {
            Some(m) => {
                r.append("@");
                r.append(m.as_str());
                proof {
                    assert(r@ =~= stage2 + opt_part('@', self@.modifier));
                }
            },
            None => {
                proof {
                    assert(r@ =~= stage2 + opt_part('@', self@.modifier));
                }
            },
        }
        proof {
            assert(r@ =~= spec_locale_repr(self@));
        }
        r
    }
}

impl Clone for Locale {
    /// An exact copy of the locale.
    fn clone(&self) -> (r: Self)
        ensures
            r == *self,
    {
        Locale {
            lang: self.lang.clone(),
            country: match &self.country {
                Some(c) => Some(c.clone()),
                None => None,
            },
            encoding: match &self.encoding {
                Some(e) => Some(e.clone()),
                None => None,
            },
            modifier: match &self.modifier {
                Some(m) => Some(m.clone()),
                None => None,
            },
        }
    }
}

fn opt_str_eq(a: &Option<String>, b: &Option<String>) -> (r: bool)
    ensures
        r == (view_opt(*a) == view_opt(*b)),
{
    match (a, b) {
        (Some(x), Some(y)) => str_eq(x.as_str(), y.as_str()),
        (None, None) => true,
        _ => false,
    }
}

/// Whether the two locales have the same four components.
pub fn locale_eq(a: &Locale, b: &Locale) -> (r: bool)
    ensures
        r == (a@ == b@),
{
    let ok = str_eq(a.lang.as_str(), b.lang.as_str()) && opt_str_eq(&a.country, &b.country)
        && opt_str_eq(&a.encoding, &b.encoding) && opt_str_eq(&a.modifier, &b.modifier);
    proof {
        if ok {
            assert(a@ =~= b@);
        }
    }
    ok
}

} // verus!
