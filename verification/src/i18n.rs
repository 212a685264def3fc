//! Translation lookup shared by the tray, native dialogs, and window titles.
//! One flat JSON catalog per language; lookups fall back from the current
//! language to en-GB and finally to the key itself.

use vstd::prelude::*;

use crate::text::{chars_equal, chars_of, replace_all, replace_chars, str_equals, string_of};

verus! {

/// Supported UI languages. `EnGb` is the fallback for everything unknown.
#[derive(Debug, Clone, Copy, PartialEq, Eq, Hash, Structural)]
pub enum Lang {
    EnGb,
    Es,
    Fr,
    De,
    It,
}

pub open spec fn is_tag_separator(c: char) -> bool {
    c == '-' || c == '_'
}

/// Index of the first '-' or '_' at or after `i`, or the length.
pub open spec fn first_separator_from(s: Seq<char>, i: int) -> int
    decreases s.len() - i,
{
    if i < 0 || i >= s.len() {
        s.len() as int
    } else if is_tag_separator(s[i]) {
        i
    } else {
        first_separator_from(s, i + 1)
    }
}

/// `to_ascii_lowercase` on one character.
pub open spec fn ascii_lower(c: char) -> char {
    if 'A' <= c <= 'Z' {
        ((c as u32) + 32) as char
    } else {
        c
    }
}

/// The primary subtag of a BCP-47-ish tag, ASCII-lowercased.
pub open spec fn primary_subtag(tag: Seq<char>) -> Seq<char> {
    tag.take(first_separator_from(tag, 0)).map_values(|c: char| ascii_lower(c))
}

/// The language a tag selects by its primary subtag.
pub open spec fn lang_of_tag(tag: Seq<char>) -> Lang {
    let p = primary_subtag(tag);
    if p == seq!['e', 's'] {
        Lang::Es
    } else if p == seq!['f', 'r'] {
        Lang::Fr
    } else if p == seq!['d', 'e'] {
        Lang::De
    } else if p == seq!['i', 't'] {
        Lang::It
    } else {
        Lang::EnGb
    }
}

/// The tag the frontend uses to pick its catalog.
pub open spec fn lang_tag(lang: Lang) -> Seq<char> {
    match lang {
        Lang::EnGb => seq!['e', 'n', '-', 'G', 'B'],
        Lang::Es => seq!['e', 's'],
        Lang::Fr => seq!['f', 'r'],
        Lang::De => seq!['d', 'e'],
        Lang::It => seq!['i', 't'],
    }
}

fn lower_char(c: char) -> (l: char)
    ensures
        l == ascii_lower(c),
{
    if 'A' <= c && c <= 'Z' {
        let code = c as u32 + 32;
        let l = (code as u8) as char;
        l
    } else {
        c
    }
}

impl Lang {
    /// Match a BCP-47-ish tag ("es", "es-MX", "fr_FR") by its primary subtag;
    /// anything unsupported falls back to en-GB.
    pub fn from_tag(tag: &str) -> (lang: Lang)
        ensures
            lang == lang_of_tag(tag@),
    {
        let chars = chars_of(tag);
        let mut primary: Vec<char> = Vec::new();
        let mut i: usize = 0;
        while i < chars.len()
            invariant
                i <= chars@.len(),
                chars@ == tag@,
                first_separator_from(tag@, 0) == first_separator_from(tag@, i as int),
                primary@ == tag@.take(i as int).map_values(|c: char| ascii_lower(c)),
            ensures
                first_separator_from(tag@, 0) == i,
                primary@ == tag@.take(i as int).map_values(|c: char| ascii_lower(c)),
            decreases chars@.len() - i,
        {
            let c = chars[i];
            if c == '-' || c == '_' {
                break;
            }
            primary.push(lower_char(c));
            i = i + 1;
            assert(primary@ =~= tag@.take(i as int).map_values(|c: char| ascii_lower(c)));
        }
        assert(primary@ == primary_subtag(tag@));
        if chars_equal(primary.as_slice(), &['e', 's']) {
            Lang::Es
        } else if chars_equal(primary.as_slice(), &['f', 'r']) {
            Lang::Fr
        } else if chars_equal(primary.as_slice(), &['d', 'e']) {
            Lang::De
        } else if chars_equal(primary.as_slice(), &['i', 't']) {
            Lang::It
        } else {
            Lang::EnGb
        }
    }

    /// The tag the frontend uses to pick its catalog (matches its locale files).
    pub fn tag(self) -> (t: &'static str)
        ensures
            t@ == lang_tag(self),
    {
        proof {
            reveal_strlit("en-GB");
            reveal_strlit("es");
            reveal_strlit("fr");
            reveal_strlit("de");
            reveal_strlit("it");
        }
        match self {
            Lang::EnGb => "en-GB",
            Lang::Es => "es",
            Lang::Fr => "fr",
            Lang::De => "de",
            Lang::It => "it",
        }
    }
}

/// The operating system's locale tag, through `sys_locale::get_locale`.
/// Trusted, with no claim on the result: it depends on the environment.
#[verifier::external_body]
fn system_locale() -> (tag: Option<String>) {
    sys_locale::get_locale()
}

/// The language a settings value selects: an explicit tag by its primary
/// subtag; "system" by the given system locale, en-GB when there is none.
pub open spec fn resolved_lang(setting: Seq<char>, locale: Option<Seq<char>>) -> Lang {
    if setting == "system"@ {
        match locale {
            Some(tag) => lang_of_tag(tag),
            None => Lang::EnGb,
        }
    } else {
        lang_of_tag(setting)
    }
}

/// Resolve a settings value given what the system reports as its locale.
pub fn resolve_with_locale(setting: &str, locale: Option<&str>) -> (lang: Lang)
    ensures
        lang == resolved_lang(
            setting@,
            match locale {
                Some(t) => Some(t@),
                None => None,
            },
        ),
{
    if str_equals(setting, "system") {
        match locale {
            Some(tag) => Lang::from_tag(tag),
            None => Lang::EnGb,
        }
    } else {
        Lang::from_tag(setting)
    }
}

/// Resolve a settings value ("system" or an explicit tag) to a language,
/// asking the operating system for its locale in the "system" case.
pub fn resolve(setting: &str) -> (lang: Lang)
    ensures
        setting@ != "system"@ ==> lang == lang_of_tag(setting@),
        setting@ == "system"@ ==> lang == Lang::EnGb || exists|tag: Seq<char>| lang == lang_of_tag(tag),
{
    if str_equals(setting, "system") {
        match system_locale() {
            Some(tag) => resolve_with_locale(setting, Some(tag.as_str())),
            None => resolve_with_locale(setting, None),
        }
    } else {
        Lang::from_tag(setting)
    }
}

/// After the settings were saved with the language `saved` in place of
/// `previous`: switch the interface language when it changed. Returns
/// whether it changed, in which case the native menus and window titles
/// must be refreshed.
pub fn follow_language(i18n: &mut I18n, previous: &str, saved: &str) -> (changed: bool)
    ensures
        changed == (previous@ != saved@),
        !changed ==> *final(i18n) == *old(i18n),
        changed && saved@ != "system"@ ==> final(i18n).language() == lang_of_tag(saved@),
        forall|l: Lang| #[trigger] final(i18n).catalog(l) == old(i18n).catalog(l),
{
    if str_equals(previous, saved) {
        false
    } else {
        let lang = resolve(saved);
        set_language(i18n, lang);
        true
    }
}

/// The key/value pairs serde_json reads from a JSON object of strings, keys
/// in ascending order; `None` when the text is not such an object.
pub uninterp spec fn flat_json_entries(json: Seq<char>) -> Option<Seq<(Seq<char>, Seq<char>)>>;

/// No key occurs twice among the entries.
pub open spec fn distinct_keys(entries: Seq<(Seq<char>, Seq<char>)>) -> bool {
    forall|i: int, j: int| 0 <= i < j < entries.len() ==> #[trigger] entries[i].0 != #[trigger] entries[j].0
}

/// Parses a flat JSON object of strings with `serde_json::from_str` into an
/// ordered map and lists its entries. Trusted: the entries are exactly what
/// `flat_json_entries` names for this text, and, coming from a `BTreeMap`,
/// no key occurs twice.
#[verifier::external_body]
fn parse_flat_json(json: &str) -> (entries: Option<Vec<(String, String)>>)
    ensures
        match entries {
            Some(v) => flat_json_entries(json@) == Some(
                v@.map_values(|e: (String, String)| (e.0@, e.1@)),
            ) && distinct_keys(v@.map_values(|e: (String, String)| (e.0@, e.1@))),
            None => flat_json_entries(json@) is None,
        },
{
    serde_json::from_str::<std::collections::BTreeMap<String, String>>(json).ok().map(
        |m| m.into_iter().collect(),
    )
}

/// One language's translations.
pub struct Catalog {
    entries: Vec<(String, String)>,
}

impl View for Catalog {
    type V = Seq<(Seq<char>, Seq<char>)>;

    closed spec fn view(&self) -> Seq<(Seq<char>, Seq<char>)> {
        self.entries@.map_values(|e: (String, String)| (e.0@, e.1@))
    }
}

/// The value of the first entry whose key is `key`.
pub open spec fn lookup(entries: Seq<(Seq<char>, Seq<char>)>, key: Seq<char>) -> Option<Seq<char>>
    decreases entries.len(),
{
    if entries.len() == 0 {
        None
    } else if entries[0].0 == key {
        Some(entries[0].1)
    } else {
        lookup(entries.drop_first(), key)
    }
}

proof fn lemma_lookup_step(entries: Seq<(Seq<char>, Seq<char>)>, key: Seq<char>, i: int)
    requires
        0 <= i < entries.len(),
        entries[i].0 != key,
    ensures
        lookup(entries.subrange(i, entries.len() as int), key) == lookup(
            entries.subrange(i + 1, entries.len() as int),
            key,
        ),
{
    assert(entries.subrange(i, entries.len() as int).drop_first() =~= entries.subrange(
        i + 1,
        entries.len() as int,
    ));
}

impl Catalog {
    /// A catalog from the text of a flat JSON object of strings.
    pub fn from_json(json: &str) -> (c: Option<Catalog>)
        ensures
            match c {
                Some(c) => flat_json_entries(json@) == Some(c@) && distinct_keys(c@),
                None => flat_json_entries(json@) is None,
            },
    {
        match parse_flat_json(json) {
            Some(entries) => Some(Catalog { entries }),
            None => None,
        }
    }

    /// An empty catalog.
    pub fn empty() -> (c: Catalog)
        ensures
            c@ == Seq::<(Seq<char>, Seq<char>)>::empty(),
    {
        let c = Catalog { entries: Vec::new() };
        assert(c@ =~= Seq::<(Seq<char>, Seq<char>)>::empty());
        c
    }

    /// The translation of `key`, if the catalog has one.
    pub fn get(&self, key: &str) -> (v: Option<String>)
        ensures
            match v {
                Some(s) => lookup(self@, key@) == Some(s@),
                None => lookup(self@, key@) is None,
            },
    {
        let key_chars = chars_of(key);
        let mut i: usize = 0;
        assert(self@.subrange(0, self@.len() as int) =~= self@);
        while i < self.entries.len()
            invariant
                i <= self.entries@.len(),
                key_chars@ == key@,
                self@.len() == self.entries@.len(),
                lookup(self@, key@) == lookup(self@.subrange(i as int, self@.len() as int), key@),
            decreases self.entries@.len() - i,
        {
            let k = chars_of(self.entries[i].0.as_str());
            if chars_equal(k.as_slice(), key_chars.as_slice()) {
                let v = self.entries[i].1.clone();
                assert(self@[i as int] == (self.entries@[i as int].0@, self.entries@[i as int].1@));
                assert(self@.subrange(i as int, self@.len() as int)[0] == self@[i as int]);
                return Some(v);
            }
            proof {
                assert(self@[i as int] == (self.entries@[i as int].0@, self.entries@[i as int].1@));
                lemma_lookup_step(self@, key@, i as int);
            }
            i = i + 1;
        }
        assert(self@.subrange(i as int, self@.len() as int) =~= Seq::<(Seq<char>, Seq<char>)>::empty());
        None
    }
}

/// The translation state: the current language and every catalog.
pub struct I18n {
    current: Lang,
    en_gb: Catalog,
    es: Catalog,
    fr: Catalog,
    de: Catalog,
    it: Catalog,
}

impl I18n {
    /// The current language.
    pub closed spec fn language(&self) -> Lang {
        self.current
    }

    /// The catalog of `lang`.
    pub closed spec fn catalog(&self, lang: Lang) -> Seq<(Seq<char>, Seq<char>)> {
        match lang {
            Lang::EnGb => self.en_gb@,
            Lang::Es => self.es@,
            Lang::Fr => self.fr@,
            Lang::De => self.de@,
            Lang::It => self.it@,
        }
    }

    /// Translation state over the five catalogs, starting in en-GB.
    pub fn new(en_gb: Catalog, es: Catalog, fr: Catalog, de: Catalog, it: Catalog) -> (i: I18n)
        ensures
            i.language() == Lang::EnGb,
            i.catalog(Lang::EnGb) == en_gb@,
            i.catalog(Lang::Es) == es@,
            i.catalog(Lang::Fr) == fr@,
            i.catalog(Lang::De) == de@,
            i.catalog(Lang::It) == it@,
    {
        I18n { current: Lang::EnGb, en_gb, es, fr, de, it }
    }

    fn catalog_of(&self, lang: Lang) -> (c: &Catalog)
        ensures
            c@ == self.catalog(lang),
    {
        match lang {
            Lang::EnGb => &self.en_gb,
            Lang::Es => &self.es,
            Lang::Fr => &self.fr,
            Lang::De => &self.de,
            Lang::It => &self.it,
        }
    }
}

/// Switch the current language.
pub fn set_language(i18n: &mut I18n, lang: Lang)
    ensures
        final(i18n).language() == lang,
        forall|l: Lang| #[trigger] final(i18n).catalog(l) == old(i18n).catalog(l),
{
    i18n.current = lang;
}

/// The current language.
pub fn current(i18n: &I18n) -> (lang: Lang)
    ensures
        lang == i18n.language(),
{
    i18n.current
}

/// What `t` returns: the current language's translation, else en-GB's, else the key.
pub open spec fn translation(i18n: I18n, key: Seq<char>) -> Seq<char> {
    match lookup(i18n.catalog(i18n.language()), key) {
        Some(v) => v,
        None => match lookup(i18n.catalog(Lang::EnGb), key) {
            Some(v) => v,
            None => key,
        },
    }
}

/// Translated string for `key`: current language, then en-GB, then the key itself.
pub fn t(i18n: &I18n, key: &str) -> (text: String)
    ensures
        text@ == translation(*i18n, key@),
{
    match i18n.catalog_of(i18n.current).get(key) {
        Some(v) => v,
        None => match i18n.en_gb.get(key) {
            Some(v) => v,
            None => {
                let chars = chars_of(key);
                string_of(chars.as_slice())
            },
        },
    }
}

/// The placeholder `{name}`.
pub open spec fn placeholder(name: Seq<char>) -> Seq<char> {
    seq!['{'] + name + seq!['}']
}

/// `text` with each `{name}` placeholder replaced, in argument order.
pub open spec fn interpolated(text: Seq<char>, args: Seq<(Seq<char>, Seq<char>)>) -> Seq<char>
    decreases args.len(),
{
    if args.len() == 0 {
        text
    } else {
        interpolated(replace_all(text, placeholder(args[0].0), args[0].1), args.drop_first())
    }
}

proof fn lemma_interpolated_step(text: Seq<char>, args: Seq<(Seq<char>, Seq<char>)>, i: int)
    requires
        0 <= i < args.len(),
    ensures
        interpolated(text, args.subrange(i, args.len() as int)) == interpolated(
            replace_all(text, placeholder(args[i].0), args[i].1),
            args.subrange(i + 1, args.len() as int),
        ),
{
    assert(args.subrange(i, args.len() as int).drop_first() =~= args.subrange(i + 1, args.len() as int));
}

/// `t` plus `{name}` placeholder replacement.
pub fn t_with(i18n: &I18n, key: &str, args: &[(&str, &str)]) -> (text: String)
    ensures
        text@ == interpolated(translation(*i18n, key@), args@.map_values(|a: (&str, &str)| (a.0@, a.1@))),
{
    let first = t(i18n, key);
    let mut text = chars_of(first.as_str());
    let ghost all = args@.map_values(|a: (&str, &str)| (a.0@, a.1@));
    let mut i: usize = 0;
    assert(all.subrange(0, all.len() as int) =~= all);
    while i < args.len()
        invariant
            i <= args@.len(),
            all == args@.map_values(|a: (&str, &str)| (a.0@, a.1@)),
            interpolated(translation(*i18n, key@), all) == interpolated(
                text@,
                all.subrange(i as int, all.len() as int),
            ),
        decreases args@.len() - i,
    {
        let (name, value) = args[i];
        let mut pat: Vec<char> = Vec::new();
        pat.push('{');
        let mut name_chars = chars_of(name);
        pat.append(&mut name_chars);
        pat.push('}');
        assert(pat@ =~= placeholder(all[i as int].0));
        let value_chars = chars_of(value);
        proof {
            lemma_interpolated_step(text@, all, i as int);
        }
        text = replace_chars(text.as_slice(), pat.as_slice(), value_chars.as_slice());
        i = i + 1;
    }
    assert(all.subrange(i as int, all.len() as int) =~= Seq::<(Seq<char>, Seq<char>)>::empty());
    string_of(text.as_slice())
}


proof fn lemma_first_separator_bounds(s: Seq<char>, i: int)
    requires
        0 <= i <= s.len(),
    ensures
        i <= first_separator_from(s, i) <= s.len(),
        forall|k: int| i <= k < first_separator_from(s, i) ==> !is_tag_separator(#[trigger] s[k]),
    decreases s.len() - i,
{
    if i < s.len() && !is_tag_separator(s[i]) {
        lemma_first_separator_bounds(s, i + 1);
    }
}

proof fn lemma_no_separator(s: Seq<char>, i: int)
    requires
        0 <= i <= s.len(),
        forall|k: int| 0 <= k < s.len() ==> !is_tag_separator(#[trigger] s[k]),
    ensures
        first_separator_from(s, i) == s.len(),
    decreases s.len() - i,
{
    if i < s.len() {
        lemma_no_separator(s, i + 1);
    }
}

/// Only the case-folded primary subtag of a tag counts: that subtag, taken
/// as a tag itself, is its own primary subtag and selects the same language.
pub proof fn lemma_only_primary_subtag_counts(tag: Seq<char>)
    ensures
        primary_subtag(primary_subtag(tag)) == primary_subtag(tag),
        lang_of_tag(primary_subtag(tag)) == lang_of_tag(tag),
{
    let p = primary_subtag(tag);
    lemma_first_separator_bounds(tag, 0);
    let end = first_separator_from(tag, 0);
    assert forall|k: int| 0 <= k < p.len() implies !is_tag_separator(#[trigger] p[k]) by {
        assert(p[k] == ascii_lower(tag[k]));
        assert(!is_tag_separator(tag[k]));
    }
    lemma_no_separator(p, 0);
    assert(p.take(p.len() as int) =~= p);
    assert(primary_subtag(p) =~= p) by {
        assert forall|k: int| 0 <= k < p.len() implies #[trigger] ascii_lower(p[k]) == p[k] by {
            assert(p[k] == ascii_lower(tag[k]));
        }
    }
}

/// Every language's tag selects that language again.
pub proof fn lemma_tag_round_trip(lang: Lang)
    ensures
        lang_of_tag(lang_tag(lang)) == lang,
{
    let t = lang_tag(lang);
    match lang {
        Lang::EnGb => {
            assert(t[2] == '-');
            assert(first_separator_from(t, 2) == 2);
            assert(first_separator_from(t, 1) == 2);
            assert(first_separator_from(t, 0) == 2);
            assert(primary_subtag(t) =~= seq!['e', 'n']);
            assert(primary_subtag(t) != seq!['e', 's']);
            assert(primary_subtag(t) != seq!['d', 'e']);
        },
        _ => {
            assert(first_separator_from(t, 2) == 2);
            assert(first_separator_from(t, 1) == 2);
            assert(first_separator_from(t, 0) == 2);
            assert(primary_subtag(t) =~= t);
            assert(seq!['e', 's'] != seq!['f', 'r']);
            assert(seq!['e', 's'][0] != seq!['d', 'e'][0]);
            assert(seq!['e', 's'][0] != seq!['i', 't'][0]);
            assert(seq!['f', 'r'][0] != seq!['d', 'e'][0]);
            assert(seq!['f', 'r'][0] != seq!['i', 't'][0]);
            assert(seq!['d', 'e'][0] != seq!['i', 't'][0]);
        },
    }
}

/// A key that the current language's catalog has is translated by it.
pub proof fn lemma_current_language_wins(i18n: I18n, key: Seq<char>)
    requires
        lookup(i18n.catalog(i18n.language()), key) is Some,
    ensures
        Some(translation(i18n, key)) == lookup(i18n.catalog(i18n.language()), key),
{
}

/// A key no catalog has translates to itself.
pub proof fn lemma_unknown_key_is_itself(i18n: I18n, key: Seq<char>)
    requires
        lookup(i18n.catalog(i18n.language()), key) is None,
        lookup(i18n.catalog(Lang::EnGb), key) is None,
    ensures
        translation(i18n, key) == key,
{
}

} // verus!
