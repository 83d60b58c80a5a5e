//! Language names, aliases, and default snippets.
//!
//! The language registry is plain data handed in by the caller: the list of
//! known language names, an alias table mapping shorthand names to
//! canonical ones, and a snippet table mapping each language to its default
//! source text.  Lookup is first match in table order.

use vstd::prelude::*;

use crate::codes::Codes;
use crate::runner::has_str;
use crate::template::views;

verus! {

broadcast use vstd::seq_lib::group_seq_lib_default;

/// One table entry: a key with its value.
pub struct KeyVal {
    pub key: String,
    pub val: String,
}

impl KeyVal {
    pub fn new(key: &str, val: &str) -> (r: KeyVal)
        ensures
            r.key@ == key@,
            r.val@ == val@,
    {
        KeyVal { key: key.to_owned(), val: val.to_owned() }
    }
}

/// The table has an entry under this key.
pub open spec fn table_has(t: Seq<KeyVal>, key: Seq<char>) -> bool {
    exists|i: int| 0 <= i < t.len() && (#[trigger] t[i]).key@ == key
}

/// `i` is the first entry under this key.
pub open spec fn first_entry(t: Seq<KeyVal>, key: Seq<char>, i: int) -> bool {
    &&& 0 <= i < t.len()
    &&& t[i].key@ == key
    &&& forall|j: int| 0 <= j < i ==> (#[trigger] t[j]).key@ != key
}

/// The value under the first entry with this key, if any.
pub fn lookup<'a>(table: &'a Vec<KeyVal>, key: &str) -> (r: Option<&'a String>)
    ensures
        match r {
            Some(v) => exists|i: int| #[trigger] first_entry(table@, key@, i) && v@ == table@[i].val@,
            None => !table_has(table@, key@),
        },
{
    let mut i: usize = 0;
    while i < table.len()
        invariant
            i <= table@.len(),
            forall|j: int| 0 <= j < i ==> (#[trigger] table@[j]).key@ != key@,
        decreases table@.len() - i,
    {
        if crate::runner::str_eq(table[i].key.as_str(), key) {
            assert(first_entry(table@, key@, i as int));
            return Some(&table[i].val);
        }
        i = i + 1;
    }
    None
}

/// The default snippet for a language; a language with none is a
/// configuration defect.
pub fn get_snippet(snippets: &Vec<KeyVal>, lang: &str) -> (r: Result<String, Codes>)
    ensures
        match r {
            Ok(s) => exists|i: int|
                #[trigger] first_entry(snippets@, lang@, i) && s@ == snippets@[i].val@,
            Err(c) => c == Codes::InternalError && !table_has(snippets@, lang@),
        },
{
    match lookup(snippets, lang) {
        Some(s) => Ok(s.clone()),
        None => Err(Codes::InternalError),
    }
}

/// `out` is the canonical language for the requested name `lv`: the empty
/// name passes through only while listing, a known language name stands
/// for itself, and otherwise the alias table decides.
pub open spec fn resolves_lang(
    lv: Seq<char>,
    listing: bool,
    langs: Seq<Seq<char>>,
    aliases: Seq<KeyVal>,
    out: Seq<char>,
) -> bool {
    if lv.len() == 0 {
        listing && out == lv
    } else if has_str(langs, lv) {
        out == lv
    } else {
        exists|i: int| #[trigger] first_entry(aliases, lv, i) && out == aliases[i].val@
    }
}

/// The requested name names no language: not empty, not known, not an
/// alias.
pub open spec fn lang_unknown(lv: Seq<char>, langs: Seq<Seq<char>>, aliases: Seq<KeyVal>) -> bool {
    &&& lv.len() > 0
    &&& !has_str(langs, lv)
    &&& !table_has(aliases, lv)
}

/// The canonical language for a requested name: itself when known, its
/// alias target otherwise.  An empty name is allowed only beside a listing
/// request; an unknown one is a language error.
pub fn determine_lang(lang: &String, listing: bool, langs: &Vec<String>, aliases: &Vec<KeyVal>) -> (r:
    Result<String, Codes>)
    ensures
        match r {
            Ok(s) => resolves_lang(lang@, listing, views(langs@), aliases@, s@),
            Err(c) => (c == Codes::InternalError && lang@.len() == 0 && !listing) || (c
                == Codes::LanguageError && lang_unknown(lang@, views(langs@), aliases@)),
        },
{
    if lang.as_str().is_empty() {
        if listing {
            Ok(lang.clone())
        } else {
            Err(Codes::InternalError)
        }
    } else if crate::runner::str_list_contains(langs, lang.as_str()) {
        Ok(lang.clone())
    } else {
        match lookup(aliases, lang.as_str()) {
            Some(canonical) => Ok(canonical.clone()),
            None => Err(Codes::LanguageError),
        }
    }
}

} // verus!
