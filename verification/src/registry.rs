//! Language descriptors, and the registry that keeps one descriptor (and at most
//! one backend) per language and detects a file's language from its name or
//! extension.
use vstd::prelude::*;

use crate::backends::{backend_language, Backend};
use crate::text::{lemma_seq_lt_asymmetric, lemma_seq_lt_irreflexive, lemma_seq_lt_total,
    lemma_seq_lt_transitive, seq_lt, str_eq, str_lt};
use crate::paths::{extension, file_name, opt_view, path_extension, path_file_name};
use crate::types::{language_name, lemma_language_name_injective, Language};

verus! {

/// What the registry knows of a language: its display name, the file extensions
/// (without the dot) and the exact file names that select it.
#[derive(Debug, Clone, Copy)]
pub struct LanguageDescriptor {
    pub language: Language,
    pub display_name: &'static str,
    pub extensions: &'static [&'static str],
    pub file_names: &'static [&'static str],
}

/// A list of names as plain values.
pub open spec fn names_of(s: Seq<&'static str>) -> Seq<Seq<char>> {
    s.map_values(|x: &'static str| x@)
}

impl LanguageDescriptor {
    pub fn new(
        language: Language,
        display_name: &'static str,
        extensions: &'static [&'static str],
    ) -> (d: Self)
        ensures
            d.language == language,
            d.display_name == display_name,
            d.extensions == extensions,
            d.file_names@.len() == 0,
    {
        Self::with_file_names(language, display_name, extensions, &[])
    }

    pub fn with_file_names(
        language: Language,
        display_name: &'static str,
        extensions: &'static [&'static str],
        file_names: &'static [&'static str],
    ) -> (d: Self)
        ensures
            d.language == language,
            d.display_name == display_name,
            d.extensions == extensions,
            d.file_names == file_names,
    {
        LanguageDescriptor { language, display_name, extensions, file_names }
    }
}

/// An association list without repeated keys, read as a map.
pub open spec fn assoc_map(v: Seq<(&'static str, Language)>) -> Map<Seq<char>, Language> {
    Map::new(
        |k: Seq<char>| exists|i: int| 0 <= i < v.len() && v[i].0@ == k,
        |k: Seq<char>| v[choose|i: int| 0 <= i < v.len() && v[i].0@ == k].1,
    )
}

/// `m` with each of `keys` mapped to `language`, in order.
pub open spec fn insert_keys(m: Map<Seq<char>, Language>, keys: Seq<Seq<char>>, language: Language) -> Map<
    Seq<char>,
    Language,
>
    decreases keys.len(),
{
    if keys.len() == 0 {
        m
    } else {
        insert_keys(m, keys.drop_last(), language).insert(keys.last(), language)
    }
}

/// `m` without any of `keys`.
pub open spec fn remove_keys(m: Map<Seq<char>, Language>, keys: Seq<Seq<char>>) -> Map<
    Seq<char>,
    Language,
> {
    m.remove_keys(keys.to_set())
}

/// Descriptors ordered by language name; no language occurs twice.
pub open spec fn descriptors_ordered(d: Seq<LanguageDescriptor>) -> bool {
    forall|i: int, j: int|
        0 <= i < j < d.len() ==> seq_lt(
            language_name(#[trigger] d[i].language),
            language_name(#[trigger] d[j].language),
        )
}

/// The languages of a list of descriptors, in order.
pub open spec fn languages_of(d: Seq<LanguageDescriptor>) -> Seq<Language> {
    d.map_values(|x: LanguageDescriptor| x.language)
}

/// The descriptor registered for each language.
pub open spec fn descriptor_map(d: Seq<LanguageDescriptor>) -> Map<Language, LanguageDescriptor> {
    Map::new(
        |l: Language| exists|i: int| 0 <= i < d.len() && d[i].language == l,
        |l: Language| d[choose|i: int| 0 <= i < d.len() && d[i].language == l],
    )
}

/// The backend registered for each language.
pub open spec fn backend_map(b: Seq<Backend>) -> Map<Language, Backend> {
    Map::new(
        |l: Language| exists|i: int| 0 <= i < b.len() && backend_language(b[i]) == l,
        |l: Language| b[choose|i: int| 0 <= i < b.len() && backend_language(b[i]) == l],
    )
}

/// Descriptors by language, extension and file-name lookups, and backends.
#[derive(Debug, Clone)]
pub struct LanguageBackendRegistry {
    descriptors: Vec<LanguageDescriptor>,
    by_extension: Vec<(&'static str, Language)>,
    by_file_name: Vec<(&'static str, Language)>,
    backends: Vec<Backend>,
}

/// No key occurs twice.
pub open spec fn keys_unique(v: Seq<(&'static str, Language)>) -> bool {
    forall|i: int, j: int| 0 <= i < j < v.len() ==> (#[trigger] v[i]).0@ != (#[trigger] v[j]).0@
}

/// No language has two backends.
pub open spec fn backends_unique(v: Seq<Backend>) -> bool {
    forall|i: int, j: int|
        0 <= i < j < v.len() ==> backend_language(#[trigger] v[i]) != backend_language(#[trigger] v[j])
}

impl LanguageBackendRegistry {
    /// The registry's invariant: descriptors in name order, lookups without
    /// duplicate keys, one backend per language.
    pub closed spec fn wf(&self) -> bool {
        &&& descriptors_ordered(self.descriptors@)
        &&& keys_unique(self.by_extension@)
        &&& keys_unique(self.by_file_name@)
        &&& backends_unique(self.backends@)
        &&& keys_sound(assoc_map(self.by_extension@), descriptor_map(self.descriptors@), |d: LanguageDescriptor| extensions_of(d))
        &&& keys_sound(assoc_map(self.by_file_name@), descriptor_map(self.descriptors@), |d: LanguageDescriptor| file_names_of(d))
    }

    pub closed spec fn descriptor_seq(&self) -> Seq<LanguageDescriptor> {
        self.descriptors@
    }

    pub closed spec fn extension_map(&self) -> Map<Seq<char>, Language> {
        assoc_map(self.by_extension@)
    }

    pub closed spec fn file_name_map(&self) -> Map<Seq<char>, Language> {
        assoc_map(self.by_file_name@)
    }

    pub closed spec fn backend_table(&self) -> Map<Language, Backend> {
        backend_map(self.backends@)
    }
}

// ---------------------------------------------------------------------------
// Lookups and their maps
// ---------------------------------------------------------------------------

proof fn lemma_assoc_at(v: Seq<(&'static str, Language)>, i: int)
    requires
        keys_unique(v),
        0 <= i < v.len(),
    ensures
        assoc_map(v).contains_key(v[i].0@),
        assoc_map(v)[v[i].0@] == v[i].1,
{
    let k = v[i].0@;
    assert(exists|j: int| 0 <= j < v.len() && v[j].0@ == k);
    let j = choose|j: int| 0 <= j < v.len() && v[j].0@ == k;
    if j != i {
        if j < i {
            assert(v[j].0@ != v[i].0@);
        } else {
            assert(v[i].0@ != v[j].0@);
        }
    }
}

/// Maps `key` to `language` in an association list, replacing an earlier entry.
fn assoc_insert(v: &mut Vec<(&'static str, Language)>, key: &'static str, language: Language)
    requires
        keys_unique(old(v)@),
    ensures
        keys_unique(final(v)@),
        assoc_map(final(v)@) == assoc_map(old(v)@).insert(key@, language),
{
    let ghost before = v@;
    let mut i: usize = 0;
    while i < v.len()
        invariant
            i <= v.len(),
            v@ == before,
            before == old(v)@,
            keys_unique(before),
            forall|k: int| 0 <= k < i ==> (#[trigger] v@[k]).0@ != key@,
        decreases v.len() - i,
    {
        if str_eq(v[i].0, key) {
            v.set(i, (key, language));
            proof {
                assert forall|a: int, b: int| 0 <= a < b < v@.len() implies (#[trigger] v@[a]).0@
                    != (#[trigger] v@[b]).0@ by {
                    assert(before[a].0@ != before[b].0@);
                }
                let m = assoc_map(v@);
                let e = assoc_map(before).insert(key@, language);
                assert forall|k: Seq<char>| m.contains_key(k) <==> e.contains_key(k) by {
                    assert(v@[i as int].0@ == key@);
                    if e.contains_key(k) && k != key@ {
                        let j = choose|j: int| 0 <= j < before.len() && before[j].0@ == k;
                        assert(j != i as int);
                        assert(v@[j] == before[j]);
                        assert(v@[j].0@ == k);
                    }
                    if m.contains_key(k) {
                        let j = choose|j: int| 0 <= j < v@.len() && v@[j].0@ == k;
                        if j != i as int {
                            assert(before[j].0@ == k);
                        }
                    }
                }
                assert forall|k: Seq<char>| m.contains_key(k) implies m[k] == e[k] by {
                    let j = choose|j: int| 0 <= j < v@.len() && v@[j].0@ == k;
                    lemma_assoc_at(v@, j);
                    if j != i as int {
                        lemma_assoc_at(before, j);
                    }
                }
                assert(m =~= e);
            }
            return;
        }
        i += 1;
    }
    v.push((key, language));
    proof {
        assert forall|a: int, b: int| 0 <= a < b < v@.len() implies (#[trigger] v@[a]).0@ != (
        #[trigger] v@[b]).0@ by {
            if b < before.len() {
                assert(before[a].0@ != before[b].0@);
            }
        }
        let m = assoc_map(v@);
        let e = assoc_map(before).insert(key@, language);
        assert forall|k: Seq<char>| m.contains_key(k) <==> e.contains_key(k) by {
            if e.contains_key(k) && k != key@ {
                let j = choose|j: int| 0 <= j < before.len() && before[j].0@ == k;
                assert(v@[j].0@ == k);
            }
            if k == key@ {
                assert(v@[before.len() as int].0@ == k);
            }
            if m.contains_key(k) {
                let j = choose|j: int| 0 <= j < v@.len() && v@[j].0@ == k;
                if j < before.len() {
                    assert(before[j].0@ == k);
                }
            }
        }
        assert forall|k: Seq<char>| m.contains_key(k) implies m[k] == e[k] by {
            let j = choose|j: int| 0 <= j < v@.len() && v@[j].0@ == k;
            lemma_assoc_at(v@, j);
            if j < before.len() {
                lemma_assoc_at(before, j);
            }
        }
        assert(m =~= e);
    }
}

/// Removes `key` from an association list.
fn assoc_remove(v: &mut Vec<(&'static str, Language)>, key: &'static str)
    requires
        keys_unique(old(v)@),
    ensures
        keys_unique(final(v)@),
        assoc_map(final(v)@) == assoc_map(old(v)@).remove(key@),
{
    let ghost before = v@;
    let mut i: usize = 0;
    while i < v.len()
        invariant
            i <= v.len(),
            v@ == before,
            before == old(v)@,
            keys_unique(before),
            forall|k: int| 0 <= k < i ==> (#[trigger] v@[k]).0@ != key@,
        decreases v.len() - i,
    {
        if str_eq(v[i].0, key) {
            v.remove(i);
            proof {
                assert forall|a: int, b: int| 0 <= a < b < v@.len() implies (#[trigger] v@[a]).0@
                    != (#[trigger] v@[b]).0@ by {
                    let a2 = if a < i { a } else { a + 1 };
                    let b2 = if b < i { b } else { b + 1 };
                    assert(v@[a] == before[a2]);
                    assert(v@[b] == before[b2]);
                    assert(before[a2].0@ != before[b2].0@);
                }
                let m = assoc_map(v@);
                let e = assoc_map(before).remove(key@);
                assert forall|k: Seq<char>| m.contains_key(k) <==> e.contains_key(k) by {
                    if e.contains_key(k) {
                        let j = choose|j: int| 0 <= j < before.len() && before[j].0@ == k;
                        assert(j != i);
                        let j2 = if j < i { j } else { j - 1 };
                        assert(v@[j2] == before[j]);
                    }
                    if m.contains_key(k) {
                        let j = choose|j: int| 0 <= j < v@.len() && v@[j].0@ == k;
                        let j2 = if j < i { j } else { j + 1 };
                        assert(v@[j] == before[j2]);
                        assert(before[j2].0@ != before[i as int].0@ || j2 == i);
                    }
                }
                assert forall|k: Seq<char>| m.contains_key(k) implies m[k] == e[k] by {
                    let j = choose|j: int| 0 <= j < v@.len() && v@[j].0@ == k;
                    lemma_assoc_at(v@, j);
                    let j2 = if j < i { j } else { j + 1 };
                    assert(v@[j] == before[j2]);
                    lemma_assoc_at(before, j2);
                }
                assert(m =~= e);
            }
            return;
        }
        i += 1;
    }
    proof {
        let m = assoc_map(v@);
        let e = assoc_map(before).remove(key@);
        assert forall|k: Seq<char>| m.contains_key(k) <==> e.contains_key(k) by {
            if m.contains_key(k) {
                let j = choose|j: int| 0 <= j < v@.len() && v@[j].0@ == k;
                assert(v@[j].0@ != key@);
            }
        }
        assert(m =~= e);
    }
}

/// The language a lookup by file name, then by extension, selects.
pub open spec fn lookup_language(
    by_file_name: Map<Seq<char>, Language>,
    by_extension: Map<Seq<char>, Language>,
    file_name: Option<Seq<char>>,
    extension: Option<Seq<char>>,
) -> Language {
    if file_name is Some && by_file_name.contains_key(file_name->0) {
        by_file_name[file_name->0]
    } else if extension is Some && by_extension.contains_key(extension->0) {
        by_extension[extension->0]
    } else {
        Language::Unknown
    }
}

fn assoc_get(v: &Vec<(&'static str, Language)>, key: &str) -> (r: Option<Language>)
    requires
        keys_unique(v@),
    ensures
        match r {
            Some(l) => assoc_map(v@).contains_key(key@) && assoc_map(v@)[key@] == l,
            None => !assoc_map(v@).contains_key(key@),
        },
{
    let mut i: usize = 0;
    while i < v.len()
        invariant
            i <= v.len(),
            keys_unique(v@),
            forall|k: int| 0 <= k < i ==> (#[trigger] v@[k]).0@ != key@,
        decreases v.len() - i,
    {
        if str_eq(v[i].0, key) {
            proof {
                lemma_assoc_at(v@, i as int);
            }
            return Some(v[i].1);
        }
        i += 1;
    }
    None
}

/// `m` with each of `keys` mapped to `language`.
fn insert_all(v: &mut Vec<(&'static str, Language)>, keys: &'static [&'static str], language: Language)
    requires
        keys_unique(old(v)@),
    ensures
        keys_unique(final(v)@),
        assoc_map(final(v)@) == insert_keys(assoc_map(old(v)@), names_of(keys@), language),
{
    let ghost start = assoc_map(v@);
    let mut j: usize = 0;
    while j < keys.len()
        invariant
            j <= keys.len(),
            keys_unique(v@),
            assoc_map(v@) == insert_keys(start, names_of(keys@).take(j as int), language),
        decreases keys.len() - j,
    {
        assoc_insert(v, keys[j], language);
        proof {
            assert(names_of(keys@).take(j + 1).drop_last() =~= names_of(keys@).take(j as int));
        }
        j += 1;
    }
    assert(names_of(keys@).take(keys.len() as int) =~= names_of(keys@));
}

/// `m` without any of `keys`.
fn remove_all(v: &mut Vec<(&'static str, Language)>, keys: &'static [&'static str])
    requires
        keys_unique(old(v)@),
    ensures
        keys_unique(final(v)@),
        assoc_map(final(v)@) == remove_keys(assoc_map(old(v)@), names_of(keys@)),
{
    let ghost start = assoc_map(v@);
    let mut j: usize = 0;
    while j < keys.len()
        invariant
            j <= keys.len(),
            keys_unique(v@),
            assoc_map(v@) == remove_keys(start, names_of(keys@).take(j as int)),
        decreases keys.len() - j,
    {
        let ghost prev = assoc_map(v@);
        assoc_remove(v, keys[j]);
        proof {
            let t0 = names_of(keys@).take(j as int);
            let t1 = names_of(keys@).take(j + 1);
            assert(t1 =~= t0.push(keys@[j as int]@));
            assert(t1.to_set() =~= t0.to_set().insert(keys@[j as int]@)) by {
                assert forall|x: Seq<char>| t1.to_set().contains(x) <==> t0.to_set().insert(keys@[j as int]@).contains(x) by {
                    if t1.to_set().contains(x) {
                        let k = choose|k: int| 0 <= k < t1.len() && t1[k] == x;
                        if k < j {
                            assert(t0[k] == x);
                        }
                    }
                    if t0.to_set().contains(x) {
                        let k = choose|k: int| 0 <= k < t0.len() && t0[k] == x;
                        assert(t1[k] == x);
                    }
                    if x == keys@[j as int]@ {
                        assert(t1[j as int] == x);
                    }
                }
            }
            assert(assoc_map(v@) =~= remove_keys(start, t1));
        }
        j += 1;
    }
    assert(names_of(keys@).take(keys.len() as int) =~= names_of(keys@));
}

// ---------------------------------------------------------------------------
// Descriptors in name order
// ---------------------------------------------------------------------------

/// Languages occur once in an ordered list.
proof fn lemma_ordered_unique(d: Seq<LanguageDescriptor>, i: int, j: int)
    requires
        descriptors_ordered(d),
        0 <= i < d.len(),
        0 <= j < d.len(),
        i != j,
    ensures
        d[i].language != d[j].language,
{
    if i < j {
        assert(seq_lt(language_name(d[i].language), language_name(d[j].language)));
        lemma_seq_lt_irreflexive(language_name(d[i].language));
    } else {
        assert(seq_lt(language_name(d[j].language), language_name(d[i].language)));
        lemma_seq_lt_irreflexive(language_name(d[j].language));
    }
}

proof fn lemma_desc_at(d: Seq<LanguageDescriptor>, i: int)
    requires
        descriptors_ordered(d),
        0 <= i < d.len(),
    ensures
        descriptor_map(d).contains_key(d[i].language),
        descriptor_map(d)[d[i].language] == d[i],
{
    let l = d[i].language;
    assert(exists|j: int| 0 <= j < d.len() && d[j].language == l);
    let j = choose|j: int| 0 <= j < d.len() && d[j].language == l;
    if j != i {
        lemma_ordered_unique(d, i, j);
    }
}

/// What registering `d` leaves in a lookup map: the keys of the descriptor it
/// replaces are dropped, then `d`'s keys map to its language.
pub open spec fn after_register(
    m: Map<Seq<char>, Language>,
    previous: Option<Seq<Seq<char>>>,
    keys: Seq<Seq<char>>,
    language: Language,
) -> Map<Seq<char>, Language> {
    let base = match previous {
        Some(p) => remove_keys(m, p),
        None => m,
    };
    insert_keys(base, keys, language)
}

proof fn lemma_insert_keys_reads(m: Map<Seq<char>, Language>, keys: Seq<Seq<char>>, language: Language, k: Seq<char>)
    ensures
        keys.contains(k) ==> insert_keys(m, keys, language).contains_key(k) && insert_keys(m, keys, language)[k]
            == language,
        !keys.contains(k) ==> (insert_keys(m, keys, language).contains_key(k) == m.contains_key(k)) && (
        m.contains_key(k) ==> insert_keys(m, keys, language)[k] == m[k]),
    decreases keys.len(),
{
    if keys.len() > 0 {
        lemma_insert_keys_reads(m, keys.drop_last(), language, k);
        if keys.contains(k) && k != keys.last() {
            let i = choose|i: int| 0 <= i < keys.len() && keys[i] == k;
            assert(keys.drop_last()[i] == k);
        }
        if !keys.contains(k) {
            assert(!keys.drop_last().contains(k)) by {
                if keys.drop_last().contains(k) {
                    let i = choose|i: int| 0 <= i < keys.drop_last().len() && keys.drop_last()[i] == k;
                    assert(keys[i] == k);
                }
            }
            assert(keys[keys.len() - 1] != k);
        }
    }
}

/// After a descriptor is registered, each of its keys selects its language, and a
/// key that neither it nor the descriptor it replaces names keeps its language.
pub proof fn lemma_registered_keys_select_language(
    m: Map<Seq<char>, Language>,
    previous: Option<Seq<Seq<char>>>,
    keys: Seq<Seq<char>>,
    language: Language,
    k: Seq<char>,
)
    ensures
        keys.contains(k) ==> after_register(m, previous, keys, language).contains_key(k) && after_register(
            m,
            previous,
            keys,
            language,
        )[k] == language,
        !keys.contains(k) && !(previous matches Some(p) && p.contains(k)) ==> (after_register(
            m,
            previous,
            keys,
            language,
        ).contains_key(k) == m.contains_key(k)) && (m.contains_key(k) ==> after_register(
            m,
            previous,
            keys,
            language,
        )[k] == m[k]),
{
    let base = match previous {
        Some(p) => remove_keys(m, p),
        None => m,
    };
    lemma_insert_keys_reads(base, keys, language, k);
}

/// A descriptor's extensions as plain values.
pub open spec fn extensions_of(d: LanguageDescriptor) -> Seq<Seq<char>> {
    names_of(d.extensions@)
}

/// A descriptor's file names as plain values.
pub open spec fn file_names_of(d: LanguageDescriptor) -> Seq<Seq<char>> {
    names_of(d.file_names@)
}

/// Every key of the lookup table leads to a registered language whose descriptor
/// lists that key.
pub open spec fn keys_sound(
    m: Map<Seq<char>, Language>,
    dm: Map<Language, LanguageDescriptor>,
    keys_of: spec_fn(LanguageDescriptor) -> Seq<Seq<char>>,
) -> bool {
    forall|k: Seq<char>|
        #[trigger] m.contains_key(k) ==> dm.contains_key(m[k]) && keys_of(dm[m[k]]).contains(k)
}

/// The keys that the registered descriptor of `language` lists, if there is one.
pub open spec fn previous_keys(
    dm: Map<Language, LanguageDescriptor>,
    language: Language,
    keys_of: spec_fn(LanguageDescriptor) -> Seq<Seq<char>>,
) -> Option<Seq<Seq<char>>> {
    if dm.contains_key(language) {
        Some(keys_of(dm[language]))
    } else {
        None
    }
}

/// Registering a descriptor keeps every table key pointing at a descriptor that
/// lists it: its own keys now lead to it, the keys of the descriptor it replaces are
/// dropped, and every other key keeps its language and that language's descriptor.
proof fn lemma_register_keeps_keys_sound(
    m: Map<Seq<char>, Language>,
    dm: Map<Language, LanguageDescriptor>,
    d: LanguageDescriptor,
    keys_of: spec_fn(LanguageDescriptor) -> Seq<Seq<char>>,
)
    requires
        keys_sound(m, dm, keys_of),
    ensures
        keys_sound(
            after_register(m, previous_keys(dm, d.language, keys_of), keys_of(d), d.language),
            dm.insert(d.language, d),
            keys_of,
        ),
{
    let prev = previous_keys(dm, d.language, keys_of);
    let after = after_register(m, prev, keys_of(d), d.language);
    let dm2 = dm.insert(d.language, d);
    assert forall|k: Seq<char>| #[trigger] after.contains_key(k) implies dm2.contains_key(after[k])
        && keys_of(dm2[after[k]]).contains(k) by {
        lemma_registered_keys_select_language(m, prev, keys_of(d), d.language, k);
        if !keys_of(d).contains(k) {
            if prev is Some && prev->0.contains(k) {
                let p = prev->0;
                let base = remove_keys(m, p);
                assert(p.to_set().contains(k));
                assert(!base.contains_key(k));
                lemma_insert_keys_reads(base, keys_of(d), d.language, k);
            } else {
                assert(m.contains_key(k));
                assert(after[k] == m[k]);
                assert(m[k] != d.language);
            }
        }
    }
}

/// The extensions of the descriptor registered for `language`, if any.
pub open spec fn previous_extensions(map: Map<Language, LanguageDescriptor>, language: Language) -> Option<
    Seq<Seq<char>>,
> {
    if map.contains_key(language) {
        Some(names_of(map[language].extensions@))
    } else {
        None
    }
}

/// The file names of the descriptor registered for `language`, if any.
pub open spec fn previous_file_names(map: Map<Language, LanguageDescriptor>, language: Language) -> Option<
    Seq<Seq<char>>,
> {
    if map.contains_key(language) {
        Some(names_of(map[language].file_names@))
    } else {
        None
    }
}

fn name_lt(a: Language, b: Language) -> (r: bool)
    ensures
        r == seq_lt(language_name(a), language_name(b)),
{
    str_lt(a.as_str(), b.as_str())
}

proof fn lemma_without(before: Seq<LanguageDescriptor>, i: int)
    requires
        descriptors_ordered(before),
        0 <= i < before.len(),
    ensures
        descriptors_ordered(before.remove(i)),
        forall|k: int|
            0 <= k < before.remove(i).len() ==> (#[trigger] before.remove(i)[k]).language
                != before[i].language,
        descriptor_map(before.remove(i)) == descriptor_map(before).remove(before[i].language),
{
    let r = before.remove(i);
    let l = before[i].language;
    assert forall|a: int, b: int| 0 <= a < b < r.len() implies seq_lt(
        language_name(#[trigger] r[a].language),
        language_name(#[trigger] r[b].language),
    ) by {
        let a2 = if a < i { a } else { a + 1 };
        let b2 = if b < i { b } else { b + 1 };
        assert(r[a] == before[a2]);
        assert(r[b] == before[b2]);
    }
    assert forall|k: int| 0 <= k < r.len() implies (#[trigger] r[k]).language != l by {
        let k2 = if k < i { k } else { k + 1 };
        assert(r[k] == before[k2]);
        lemma_ordered_unique(before, k2, i);
    }
    let m = descriptor_map(r);
    let e = descriptor_map(before).remove(l);
    assert forall|x: Language| m.contains_key(x) <==> e.contains_key(x) by {
        if m.contains_key(x) {
            let j = choose|j: int| 0 <= j < r.len() && r[j].language == x;
            let j2 = if j < i { j } else { j + 1 };
            assert(r[j] == before[j2]);
        }
        if e.contains_key(x) {
            let j = choose|j: int| 0 <= j < before.len() && before[j].language == x;
            assert(j != i);
            let j2 = if j < i { j } else { j - 1 };
            assert(r[j2] == before[j]);
        }
    }
    assert forall|x: Language| m.contains_key(x) implies m[x] == e[x] by {
        let j = choose|j: int| 0 <= j < r.len() && r[j].language == x;
        lemma_desc_at(r, j);
        let j2 = if j < i { j } else { j + 1 };
        assert(r[j] == before[j2]);
        lemma_desc_at(before, j2);
    }
    assert(m =~= e);
}

proof fn lemma_absent(s: Seq<LanguageDescriptor>, l: Language)
    requires
        forall|k: int| 0 <= k < s.len() ==> (#[trigger] s[k]).language != l,
    ensures
        !descriptor_map(s).contains_key(l),
{
    if descriptor_map(s).contains_key(l) {
        let j = choose|j: int| 0 <= j < s.len() && s[j].language == l;
        assert(s[j].language != l);
    }
}

proof fn lemma_place(r: Seq<LanguageDescriptor>, p: int, d: LanguageDescriptor)
    requires
        descriptors_ordered(r),
        forall|k: int| 0 <= k < r.len() ==> (#[trigger] r[k]).language != d.language,
        0 <= p <= r.len(),
        forall|k: int| 0 <= k < p ==> seq_lt(language_name(#[trigger] r[k].language), language_name(d.language)),
        p < r.len() ==> seq_lt(language_name(d.language), language_name(r[p].language)),
    ensures
        descriptors_ordered(r.insert(p, d)),
        descriptor_map(r.insert(p, d)) == descriptor_map(r).insert(d.language, d),
{
    let n = r.insert(p, d);
    assert forall|a: int, b: int| 0 <= a < b < n.len() implies seq_lt(
        language_name(#[trigger] n[a].language),
        language_name(#[trigger] n[b].language),
    ) by {
        if b < p {
            assert(n[a] == r[a] && n[b] == r[b]);
        } else if b == p {
            assert(n[a] == r[a]);
        } else if a == p {
            assert(n[b] == r[b - 1]);
            if b - 1 > p {
                assert(seq_lt(language_name(r[p].language), language_name(r[b - 1].language)));
                lemma_seq_lt_transitive(
                    language_name(d.language),
                    language_name(r[p].language),
                    language_name(r[b - 1].language),
                );
            }
        } else if a < p {
            assert(n[a] == r[a] && n[b] == r[b - 1]);
        } else {
            assert(n[a] == r[a - 1] && n[b] == r[b - 1]);
        }
    }
    let m = descriptor_map(n);
    let e = descriptor_map(r).insert(d.language, d);
    assert forall|x: Language| m.contains_key(x) <==> e.contains_key(x) by {
        if m.contains_key(x) && x != d.language {
            let j = choose|j: int| 0 <= j < n.len() && n[j].language == x;
            assert(j != p);
            let j2 = if j < p { j } else { j - 1 };
            assert(n[j] == r[j2]);
        }
        if e.contains_key(x) {
            if x == d.language {
                assert(n[p].language == x);
            } else {
                let j = choose|j: int| 0 <= j < r.len() && r[j].language == x;
                let j3 = if j < p { j } else { j + 1 };
                assert(n[j3] == r[j]);
            }
        }
    }
    assert forall|x: Language| m.contains_key(x) implies m[x] == e[x] by {
        let j = choose|j: int| 0 <= j < n.len() && n[j].language == x;
        lemma_desc_at(n, j);
        if j != p {
            let j2 = if j < p { j } else { j - 1 };
            assert(n[j] == r[j2]);
            lemma_desc_at(r, j2);
        }
    }
    assert(m =~= e);
}

/// Puts `d` in the ordered list in place of any descriptor of its language.
fn place_descriptor(v: &mut Vec<LanguageDescriptor>, d: LanguageDescriptor) -> (previous: Option<LanguageDescriptor>)
    requires
        descriptors_ordered(old(v)@),
    ensures
        descriptors_ordered(final(v)@),
        descriptor_map(final(v)@) == descriptor_map(old(v)@).insert(d.language, d),
        match previous {
            Some(p) => descriptor_map(old(v)@).contains_key(d.language) && descriptor_map(old(v)@)[d.language] == p,
            None => !descriptor_map(old(v)@).contains_key(d.language),
        },
{
    let ghost before = v@;
    let mut previous: Option<LanguageDescriptor> = None;
    let mut i: usize = 0;
    while i < v.len() && v[i].language != d.language
        invariant
            i <= v.len(),
            v@ == before,
            forall|k: int| 0 <= k < i ==> (#[trigger] v@[k]).language != d.language,
        decreases v.len() - i,
    {
        i += 1;
    }
    if i < v.len() {
        proof {
            lemma_desc_at(before, i as int);
            lemma_without(before, i as int);
        }
        previous = Some(v.remove(i));
    } else {
        proof {
            lemma_absent(before, d.language);
            assert(descriptor_map(before).remove(d.language) =~= descriptor_map(before));
        }
    }
    let ghost removed = v@;
    assert(descriptor_map(removed) == descriptor_map(before).remove(d.language));
    let mut p: usize = 0;
    while p < v.len() && !name_lt(d.language, v[p].language)
        invariant
            p <= v.len(),
            v@ == removed,
            forall|k: int| 0 <= k < removed.len() ==> (#[trigger] removed[k]).language != d.language,
            forall|k: int| 0 <= k < p ==> seq_lt(language_name(#[trigger] removed[k].language), language_name(d.language)),
        decreases v.len() - p,
    {
        proof {
            lemma_language_name_injective(v@[p as int].language, d.language);
            lemma_seq_lt_total(language_name(v@[p as int].language), language_name(d.language));
        }
        p += 1;
    }
    proof {
        lemma_place(removed, p as int, d);
        assert(descriptor_map(removed).insert(d.language, d) =~= descriptor_map(before).insert(d.language, d));
    }
    v.insert(p, d);
    previous
}

// ---------------------------------------------------------------------------
// Backends
// ---------------------------------------------------------------------------

proof fn lemma_backend_at(b: Seq<Backend>, i: int)
    requires
        backends_unique(b),
        0 <= i < b.len(),
    ensures
        backend_map(b).contains_key(backend_language(b[i])),
        backend_map(b)[backend_language(b[i])] == b[i],
{
    let l = backend_language(b[i]);
    assert(exists|j: int| 0 <= j < b.len() && backend_language(b[j]) == l);
    let j = choose|j: int| 0 <= j < b.len() && backend_language(b[j]) == l;
    if j != i {
        if j < i {
            assert(backend_language(b[j]) != backend_language(b[i]));
        } else {
            assert(backend_language(b[i]) != backend_language(b[j]));
        }
    }
}

fn place_backend(v: &mut Vec<Backend>, backend: Backend)
    requires
        backends_unique(old(v)@),
    ensures
        backends_unique(final(v)@),
        backend_map(final(v)@) == backend_map(old(v)@).insert(backend_language(backend), backend),
{
    let ghost before = v@;
    let language = backend.descriptor().language;
    let mut i: usize = 0;
    while i < v.len() && v[i].descriptor().language != language
        invariant
            i <= v.len(),
            v@ == before,
            forall|k: int| 0 <= k < i ==> backend_language(#[trigger] v@[k]) != language,
        decreases v.len() - i,
    {
        i += 1;
    }
    if i < v.len() {
        v.set(i, backend);
    } else {
        v.push(backend);
    }
    proof {
        let n = v@;
        assert forall|a: int, b: int| 0 <= a < b < n.len() implies backend_language(#[trigger] n[a])
            != backend_language(#[trigger] n[b]) by {
            if a != i && b != i && b < before.len() {
                assert(n[a] == before[a] && n[b] == before[b]);
            } else if a == i {
                if b < before.len() {
                    assert(n[b] == before[b]);
                    if i < before.len() {
                        assert(backend_language(before[i as int]) != backend_language(before[b]));
                    }
                }
            } else if b == i {
                assert(n[a] == before[a]);
            }
        }
        let m = backend_map(n);
        let e = backend_map(before).insert(language, backend);
        assert forall|x: Language| m.contains_key(x) <==> e.contains_key(x) by {
            if m.contains_key(x) && x != language {
                let j = choose|j: int| 0 <= j < n.len() && backend_language(n[j]) == x;
                assert(j != i);
                assert(n[j] == before[j]);
            }
            if e.contains_key(x) {
                if x == language {
                    assert(backend_language(n[i as int]) == x);
                } else {
                    let j = choose|j: int| 0 <= j < before.len() && backend_language(before[j]) == x;
                    assert(j != i);
                    assert(n[j] == before[j]);
                }
            }
        }
        assert forall|x: Language| m.contains_key(x) implies m[x] == e[x] by {
            let j = choose|j: int| 0 <= j < n.len() && backend_language(n[j]) == x;
            lemma_backend_at(n, j);
            if j != i {
                assert(n[j] == before[j]);
                lemma_backend_at(before, j);
            }
        }
        assert(m =~= e);
    }
}

/// A registry lists its languages by name, each once.
pub proof fn lemma_supported_languages_sorted(reg: LanguageBackendRegistry)
    requires
        reg.wf(),
    ensures
        forall|i: int, j: int|
            0 <= i < j < languages_of(reg.descriptor_seq()).len() ==> seq_lt(
                language_name(#[trigger] languages_of(reg.descriptor_seq())[i]),
                language_name(#[trigger] languages_of(reg.descriptor_seq())[j]),
            ),
        languages_of(reg.descriptor_seq()).no_duplicates(),
{
    let ls = languages_of(reg.descriptor_seq());
    let d = reg.descriptor_seq();
    assert forall|i: int, j: int| 0 <= i < j < ls.len() implies seq_lt(
        language_name(#[trigger] ls[i]),
        language_name(#[trigger] ls[j]),
    ) by {
        assert(ls[i] == d[i].language && ls[j] == d[j].language);
    }
    assert forall|i: int, j: int| 0 <= i < ls.len() && 0 <= j < ls.len() && i != j implies ls[i] != ls[j] by {
        assert(ls[i] == d[i].language && ls[j] == d[j].language);
        if i < j {
            crate::text::lemma_seq_lt_irreflexive(language_name(ls[i]));
        } else {
            crate::text::lemma_seq_lt_irreflexive(language_name(ls[j]));
        }
    }
}

/// The backend registered for a language classifies that language.
pub proof fn lemma_backend_table_language(reg: LanguageBackendRegistry, l: Language)
    requires
        reg.backend_table().contains_key(l),
    ensures
        backend_language(reg.backend_table()[l]) == l,
{
}

// ---------------------------------------------------------------------------
// The registry's operations
// ---------------------------------------------------------------------------

impl LanguageBackendRegistry {
    pub fn new() -> (r: Self)
        ensures
            r.wf(),
            r.descriptor_seq().len() == 0,
            r.extension_map() == Map::<Seq<char>, Language>::empty(),
            r.file_name_map() == Map::<Seq<char>, Language>::empty(),
            r.backend_table() == Map::<Language, Backend>::empty(),
    {
        let r = LanguageBackendRegistry {
            descriptors: Vec::new(),
            by_extension: Vec::new(),
            by_file_name: Vec::new(),
            backends: Vec::new(),
        };
        assert(assoc_map(r.by_extension@) =~= Map::<Seq<char>, Language>::empty());
        assert(assoc_map(r.by_file_name@) =~= Map::<Seq<char>, Language>::empty());
        assert(backend_map(r.backends@) =~= Map::<Language, Backend>::empty());
        r
    }

    /// Registers a descriptor, replacing the one of the same language with its
    /// extensions and file names.
    pub fn register_descriptor(&mut self, descriptor: LanguageDescriptor)
        requires
            old(self).wf(),
        ensures
            final(self).wf(),
            descriptor_map(final(self).descriptor_seq()) == descriptor_map(
                old(self).descriptor_seq(),
            ).insert(descriptor.language, descriptor),
            final(self).extension_map() == after_register(
                old(self).extension_map(),
                previous_extensions(descriptor_map(old(self).descriptor_seq()), descriptor.language),
                names_of(descriptor.extensions@),
                descriptor.language,
            ),
            final(self).file_name_map() == after_register(
                old(self).file_name_map(),
                previous_file_names(descriptor_map(old(self).descriptor_seq()), descriptor.language),
                names_of(descriptor.file_names@),
                descriptor.language,
            ),
            final(self).backend_table() == old(self).backend_table(),
    {
        let ghost dm0 = descriptor_map(self.descriptors@);
        let ghost e0 = assoc_map(self.by_extension@);
        let ghost f0 = assoc_map(self.by_file_name@);
        let previous = place_descriptor(&mut self.descriptors, descriptor);
        if let Some(p) = previous {
            remove_all(&mut self.by_extension, p.extensions);
            remove_all(&mut self.by_file_name, p.file_names);
        }
        insert_all(&mut self.by_extension, descriptor.extensions, descriptor.language);
        insert_all(&mut self.by_file_name, descriptor.file_names, descriptor.language);
        proof {
            let ext = |d: LanguageDescriptor| extensions_of(d);
            let names = |d: LanguageDescriptor| file_names_of(d);
            lemma_register_keeps_keys_sound(e0, dm0, descriptor, ext);
            lemma_register_keeps_keys_sound(f0, dm0, descriptor, names);
            assert(previous_keys(dm0, descriptor.language, ext) == previous_extensions(dm0, descriptor.language));
            assert(previous_keys(dm0, descriptor.language, names) == previous_file_names(dm0, descriptor.language));
        }
    }

    pub fn with_descriptor(self, descriptor: LanguageDescriptor) -> (r: Self)
        requires
            self.wf(),
        ensures
            r.wf(),
            descriptor_map(r.descriptor_seq()) == descriptor_map(self.descriptor_seq()).insert(
                descriptor.language,
                descriptor,
            ),
            r.extension_map() == after_register(
                self.extension_map(),
                previous_extensions(descriptor_map(self.descriptor_seq()), descriptor.language),
                names_of(descriptor.extensions@),
                descriptor.language,
            ),
            r.file_name_map() == after_register(
                self.file_name_map(),
                previous_file_names(descriptor_map(self.descriptor_seq()), descriptor.language),
                names_of(descriptor.file_names@),
                descriptor.language,
            ),
            r.backend_table() == self.backend_table(),
    {
        let mut r = self;
        r.register_descriptor(descriptor);
        r
    }

    /// Registers each descriptor in turn.
    pub fn extend(self, descriptors: &[LanguageDescriptor]) -> (r: Self)
        requires
            self.wf(),
        ensures
            r.wf(),
            forall|i: int|
                0 <= i < descriptors@.len() ==> descriptor_map(r.descriptor_seq()).contains_key(
                    #[trigger] descriptors@[i].language,
                ),
            r.backend_table() == self.backend_table(),
    {
        let mut r = self;
        let mut i: usize = 0;
        while i < descriptors.len()
            invariant
                i <= descriptors.len(),
                r.wf(),
                r.backend_table() == self.backend_table(),
                forall|k: int|
                    0 <= k < i ==> descriptor_map(r.descriptor_seq()).contains_key(
                        #[trigger] descriptors@[k].language,
                    ),
            decreases descriptors.len() - i,
        {
            r.register_descriptor(descriptors[i]);
            i += 1;
        }
        r
    }

    /// Registers a backend and its descriptor.
    pub fn register_backend(&mut self, backend: Backend)
        requires
            old(self).wf(),
        ensures
            final(self).wf(),
            final(self).backend_table() == old(self).backend_table().insert(
                backend_language(backend),
                backend,
            ),
            descriptor_map(final(self).descriptor_seq()).dom() == descriptor_map(
                old(self).descriptor_seq(),
            ).dom().insert(backend_language(backend)),
    {
        let descriptor = backend.descriptor();
        place_backend(&mut self.backends, backend);
        self.register_descriptor(descriptor);
    }

    pub fn with_backend(self, backend: Backend) -> (r: Self)
        requires
            self.wf(),
        ensures
            r.wf(),
            r.backend_table() == self.backend_table().insert(backend_language(backend), backend),
            descriptor_map(r.descriptor_seq()).dom() == descriptor_map(self.descriptor_seq()).dom().insert(
                backend_language(backend),
            ),
    {
        let mut r = self;
        r.register_backend(backend);
        r
    }

    /// The backend registered for a language.
    pub fn backend(&self, language: Language) -> (r: Option<&Backend>)
        requires
            self.wf(),
        ensures
            match r {
                Some(b) => self.backend_table().contains_key(language) && self.backend_table()[language] == *b,
                None => !self.backend_table().contains_key(language),
            },
    {
        let mut i: usize = 0;
        while i < self.backends.len()
            invariant
                i <= self.backends.len(),
                backends_unique(self.backends@),
                forall|k: int| 0 <= k < i ==> backend_language(#[trigger] self.backends@[k]) != language,
            decreases self.backends.len() - i,
        {
            if self.backends[i].descriptor().language == language {
                proof {
                    lemma_backend_at(self.backends@, i as int);
                }
                return Some(&self.backends[i]);
            }
            i += 1;
        }
        proof {
            if backend_map(self.backends@).contains_key(language) {
                let j = choose|j: int| 0 <= j < self.backends@.len() && backend_language(self.backends@[j]) == language;
                assert(backend_language(self.backends@[j]) != language);
            }
        }
        None
    }

    /// The registered descriptors, ordered by language name.
    pub fn descriptors(&self) -> (r: &[LanguageDescriptor])
        requires
            self.wf(),
        ensures
            r@ == self.descriptor_seq(),
            descriptors_ordered(r@),
    {
        self.descriptors.as_slice()
    }

    /// The registered languages, ordered by name.
    pub fn supported_languages(&self) -> (r: Vec<Language>)
        requires
            self.wf(),
        ensures
            r@ == languages_of(self.descriptor_seq()),
    {
        let mut out: Vec<Language> = Vec::new();
        let mut i: usize = 0;
        while i < self.descriptors.len()
            invariant
                i <= self.descriptors.len(),
                out@ == languages_of(self.descriptors@).take(i as int),
            decreases self.descriptors.len() - i,
        {
            out.push(self.descriptors[i].language);
            i += 1;
            assert(out@ =~= languages_of(self.descriptors@).take(i as int));
        }
        assert(out@ =~= languages_of(self.descriptors@));
        out
    }

    /// The language selected by a file name and an extension: the file name first,
    /// then the extension, `Unknown` when neither is registered.
    pub fn language_for(&self, file_name: Option<&str>, extension: Option<&str>) -> (r: Language)
        requires
            self.wf(),
        ensures
            r == lookup_language(
                self.file_name_map(),
                self.extension_map(),
                match file_name {
                    Some(n) => Some(n@),
                    None => None,
                },
                match extension {
                    Some(e) => Some(e@),
                    None => None,
                },
            ),
    {
        if let Some(name) = file_name {
            if let Some(language) = assoc_get(&self.by_file_name, name) {
                return language;
            }
        }
        if let Some(ext) = extension {
            if let Some(language) = assoc_get(&self.by_extension, ext) {
                return language;
            }
        }
        Language::Unknown
    }

    /// Detects the language of a path from its file name and extension.
    pub fn detect_language(&self, path: &str) -> (r: Language)
        requires
            self.wf(),
        ensures
            r == lookup_language(
                self.file_name_map(),
                self.extension_map(),
                path_file_name(path@),
                path_extension(path@),
            ),
    {
        let name = file_name(path);
        let ext = extension(path);
        let name_ref: Option<&str> = match &name {
            Some(n) => Some(n.as_str()),
            None => None,
        };
        let ext_ref: Option<&str> = match &ext {
            Some(e) => Some(e.as_str()),
            None => None,
        };
        self.language_for(name_ref, ext_ref)
    }
}

/// Some registered descriptor lists the key.
pub open spec fn listed(
    dm: Map<Language, LanguageDescriptor>,
    keys_of: spec_fn(LanguageDescriptor) -> Seq<Seq<char>>,
    k: Seq<char>,
) -> bool {
    exists|l: Language| #[trigger] dm.contains_key(l) && keys_of(dm[l]).contains(k)
}

/// The table holds every key that a registered descriptor lists.
pub open spec fn keys_complete(
    m: Map<Seq<char>, Language>,
    dm: Map<Language, LanguageDescriptor>,
    keys_of: spec_fn(LanguageDescriptor) -> Seq<Seq<char>>,
) -> bool {
    forall|l: Language, k: Seq<char>|
        #[trigger] dm.contains_key(l) && #[trigger] keys_of(dm[l]).contains(k) ==> m.contains_key(k)
}

/// No key is listed by two registered descriptors.
pub open spec fn keys_unshared(
    dm: Map<Language, LanguageDescriptor>,
    keys_of: spec_fn(LanguageDescriptor) -> Seq<Seq<char>>,
) -> bool {
    forall|l1: Language, l2: Language, k: Seq<char>|
        dm.contains_key(l1) && dm.contains_key(l2) && #[trigger] keys_of(dm[l1]).contains(k)
            && #[trigger] keys_of(dm[l2]).contains(k) ==> l1 == l2
}

impl LanguageBackendRegistry {
    /// What `detect_language` gives agrees with the registered descriptors: a file
    /// name in the file-name table decides first, then an extension in the
    /// extension table, and a language found either way has a registered descriptor
    /// that lists that file name or extension; with neither, the language is
    /// unknown.
    pub proof fn lemma_detection_agrees_with_descriptors(&self, path: Seq<char>)
        requires
            self.wf(),
        ensures
            ({
                let fm = self.file_name_map();
                let em = self.extension_map();
                let dm = descriptor_map(self.descriptor_seq());
                let name = path_file_name(path);
                let ext = path_extension(path);
                let l = lookup_language(fm, em, name, ext);
                &&& (name is Some && fm.contains_key(name->0)) ==> l == fm[name->0] && dm.contains_key(l)
                    && file_names_of(dm[l]).contains(name->0)
                &&& (!(name is Some && fm.contains_key(name->0)) && ext is Some && em.contains_key(ext->0))
                    ==> l == em[ext->0] && dm.contains_key(l) && extensions_of(dm[l]).contains(ext->0)
                &&& (!(name is Some && fm.contains_key(name->0)) && !(ext is Some && em.contains_key(ext->0)))
                    ==> l == Language::Unknown
            }),
    {
        let name = path_file_name(path);
        let ext = path_extension(path);
        if name is Some {
            let _ = self.file_name_map().contains_key(name->0);
        }
        if ext is Some {
            let _ = self.extension_map().contains_key(ext->0);
        }
    }

    /// Where the lookup tables hold every key that a registered descriptor lists
    /// and no key is listed by two of them, a registered descriptor that lists the
    /// path's file name gives the detected language; failing a listed file name, one
    /// that lists the path's extension does.
    pub proof fn lemma_listed_key_selects_language(&self, path: Seq<char>, d: LanguageDescriptor)
        requires
            self.wf(),
            descriptor_map(self.descriptor_seq()).contains_key(d.language),
            descriptor_map(self.descriptor_seq())[d.language] == d,
            keys_complete(self.file_name_map(), descriptor_map(self.descriptor_seq()), |x: LanguageDescriptor| file_names_of(x)),
            keys_complete(self.extension_map(), descriptor_map(self.descriptor_seq()), |x: LanguageDescriptor| extensions_of(x)),
            keys_unshared(descriptor_map(self.descriptor_seq()), |x: LanguageDescriptor| file_names_of(x)),
            keys_unshared(descriptor_map(self.descriptor_seq()), |x: LanguageDescriptor| extensions_of(x)),
        ensures
            ({
                let dm = descriptor_map(self.descriptor_seq());
                let name = path_file_name(path);
                let ext = path_extension(path);
                let l = lookup_language(self.file_name_map(), self.extension_map(), name, ext);
                &&& (name is Some && file_names_of(d).contains(name->0)) ==> l == d.language
                &&& (!(name is Some && listed(dm, |x: LanguageDescriptor| file_names_of(x), name->0)) && ext is Some
                    && extensions_of(d).contains(ext->0)) ==> l == d.language
            }),
    {
        let dm = descriptor_map(self.descriptor_seq());
        let fn_of = |x: LanguageDescriptor| file_names_of(x);
        let ex_of = |x: LanguageDescriptor| extensions_of(x);
        let fm = self.file_name_map();
        let em = self.extension_map();
        let name = path_file_name(path);
        let ext = path_extension(path);
        assert(keys_sound(fm, dm, fn_of));
        assert(keys_sound(em, dm, ex_of));
        if name is Some && file_names_of(d).contains(name->0) {
            let n = name->0;
            assert(fn_of(dm[d.language]).contains(n));
            assert(fm.contains_key(n));
            assert(fn_of(dm[fm[n]]).contains(n));
        }
        if !(name is Some && listed(dm, fn_of, name->0)) && ext is Some && extensions_of(d).contains(ext->0) {
            let e = ext->0;
            if name is Some && fm.contains_key(name->0) {
                assert(fn_of(dm[fm[name->0]]).contains(name->0));
                assert(listed(dm, fn_of, name->0));
            }
            assert(ex_of(dm[d.language]).contains(e));
            assert(em.contains_key(e));
            assert(ex_of(dm[em[e]]).contains(e));
        }
    }
}

} // verus!
