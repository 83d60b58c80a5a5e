//! Pure string substitution over command-argument templates.
//!
//! A substitution context is an ordered list of entries, each mapping a
//! placeholder key (such as an input-file marker) to a replacement.  Exactly
//! one entry may be flagged as the output producer: substituting it also
//! records the resulting output artifact path, taken from the substituted
//! token starting where the replacement began and running up to the next
//! space or the end of the token.  Within one pipeline invocation, a later
//! capture overwrites an earlier one.

use vstd::prelude::*;

use crate::codes::Codes;

verus! {

broadcast use vstd::seq_lib::group_seq_lib_default;

/// A replacement value, optionally flagged as the output producer.
pub struct Rep {
    pub string: String,
    pub is_out: bool,
}

impl Rep {
    /// A plain replacement.
    pub fn new(s: &str) -> (r: Rep)
        ensures
            r.string@ == s@,
            !r.is_out,
    {
        Rep { string: s.to_owned(), is_out: false }
    }

    /// A replacement whose substitution also captures the output path.
    pub fn out(s: &str) -> (r: Rep)
        ensures
            r.string@ == s@,
            r.is_out,
    {
        Rep { string: s.to_owned(), is_out: true }
    }
}

/// One placeholder with its replacement.
pub struct Entry {
    pub key: String,
    pub rep: Rep,
}

/// The substitution context: entries are applied in order.
pub struct Conf {
    pub entries: Vec<Entry>,
}

impl Conf {
    pub fn new() -> (c: Conf)
        ensures
            c.entries@.len() == 0,
    {
        Conf { entries: Vec::new() }
    }

    pub fn add(&mut self, key: &str, rep: Rep)
        ensures
            final(self).entries@.len() == old(self).entries@.len() + 1,
            forall|i: int|
                0 <= i < old(self).entries@.len() ==> final(self).entries@[i]
                    == old(self).entries@[i],
            final(self).entries@.last().key@ == key@,
            final(self).entries@.last().rep == rep,
    {
        self.entries.push(Entry { key: key.to_owned(), rep });
    }
}

/// The key occurs in `s` at position `i`.
pub open spec fn contains_at(s: Seq<char>, key: Seq<char>, i: int) -> bool {
    &&& 0 <= i
    &&& i + key.len() <= s.len()
    &&& s.subrange(i, i + key.len() as int) == key
}

/// Position of the leftmost occurrence of `key` in `s`; an empty key matches
/// nothing.
pub open spec fn find_first(s: Seq<char>, key: Seq<char>) -> Option<int>
    decreases s.len(),
{
    if key.len() == 0 || s.len() < key.len() {
        None
    } else if s.subrange(0, key.len() as int) == key {
        Some(0int)
    } else {
        match find_first(s.skip(1), key) {
            Some(i) => Some(i + 1),
            None => None,
        }
    }
}

/// `s` with every (non-overlapping, leftmost-first) occurrence of `key`
/// replaced by `rep`; the identity when `key` is empty.
pub open spec fn replace_all(s: Seq<char>, key: Seq<char>, rep: Seq<char>) -> Seq<char>
    decreases s.len(),
{
    if key.len() == 0 || s.len() < key.len() {
        s
    } else if s.subrange(0, key.len() as int) == key {
        rep + replace_all(s.skip(key.len() as int), key, rep)
    } else {
        seq![s[0]] + replace_all(s.skip(1), key, rep)
    }
}

/// Index of the first space at or after `i`, or the end of `s`.
pub open spec fn token_end(s: Seq<char>, i: int) -> int
    decreases s.len() - i,
{
    if i >= s.len() {
        s.len() as int
    } else if s[i] == ' ' {
        i
    } else {
        token_end(s, i + 1)
    }
}

/// The captured output path: the slice of `s` from `i` up to the next space
/// or the end.
pub open spec fn capture(s: Seq<char>, i: int) -> Seq<char> {
    s.subrange(i, token_end(s, i))
}

/// One entry applied to `cur`, threading the capture `cap`: no occurrence of
/// the key leaves both unchanged; otherwise every occurrence is replaced,
/// and an output-producing entry records the capture starting where the
/// first replacement began.
pub open spec fn apply_entry(cur: Seq<char>, e: Entry, cap: Seq<char>) -> (Seq<char>, Seq<char>) {
    match find_first(cur, e.key@) {
        None => (cur, cap),
        Some(i) => {
            let res = replace_all(cur, e.key@, e.rep.string@);
            (res, if e.rep.is_out { capture(res, i) } else { cap })
        },
    }
}

/// All entries applied to `inp` in order, threading the capture.
pub open spec fn sub_model(inp: Seq<char>, entries: Seq<Entry>, cap: Seq<char>) -> (
    Seq<char>,
    Seq<char>,
)
    decreases entries.len(),
{
    if entries.len() == 0 {
        (inp, cap)
    } else {
        let (r, c) = apply_entry(inp, entries[0], cap);
        sub_model(r, entries.skip(1), c)
    }
}

/// A whole token list substituted in order, threading the capture through
/// the tokens so that the last capture wins.
pub open spec fn subst_list_model(
    tokens: Seq<Seq<char>>,
    entries: Seq<Entry>,
    cap: Seq<char>,
) -> (Seq<Seq<char>>, Seq<char>)
    decreases tokens.len(),
{
    if tokens.len() == 0 {
        (Seq::empty(), cap)
    } else {
        let (r, c) = sub_model(tokens[0], entries, cap);
        let (rs, c2) = subst_list_model(tokens.skip(1), entries, c);
        (seq![r] + rs, c2)
    }
}

/// The views of a list of strings.
pub open spec fn views(ts: Seq<String>) -> Seq<Seq<char>> {
    ts.map_values(|s: String| s@)
}

/// `find_first` returns exactly the leftmost occurrence, or `None` when
/// there is none.
pub proof fn lemma_find_first_is_match(s: Seq<char>, key: Seq<char>)
    ensures
        match find_first(s, key) {
            Some(i) => contains_at(s, key, i) && (forall|j: int|
                0 <= j < i ==> !contains_at(s, key, j)),
            None => key.len() > 0 ==> forall|j: int| !contains_at(s, key, j),
        },
    decreases s.len(),
{
    if key.len() == 0 || s.len() < key.len() {
        assert(find_first(s, key) is None);
        if key.len() > 0 {
            assert forall|j: int| !contains_at(s, key, j) by {
                assert(j + key.len() > s.len() || j < 0);
            }
        }
    } else if s.subrange(0, key.len() as int) == key {
    } else {
        lemma_find_first_is_match(s.skip(1), key);
        assert forall|j: int| 1 <= j && j + key.len() <= s.len() implies contains_at(
            s,
            key,
            j,
        ) == contains_at(s.skip(1), key, j - 1) by {
            assert(s.skip(1).subrange(j - 1, j - 1 + key.len() as int) =~= s.subrange(
                j,
                j + key.len() as int,
            ));
        }
        match find_first(s.skip(1), key) {
            Some(i) => {
                assert(contains_at(s.skip(1), key, i));
                assert(contains_at(s, key, i + 1));
                assert(!contains_at(s, key, 0)) by {
                    assert(s.subrange(0, key.len() as int) != key);
                }
                assert forall|j: int| 0 <= j < i + 1 implies !contains_at(s, key, j) by {
                    if j >= 1 {
                        assert(!contains_at(s.skip(1), key, j - 1));
                    }
                }
            },
            None => {
                assert forall|j: int| !contains_at(s, key, j) by {
                    if 1 <= j && j + key.len() <= s.len() {
                        assert(!contains_at(s.skip(1), key, j - 1));
                    } else if j == 0 {
                        assert(s.subrange(0, key.len() as int) != key);
                    }
                }
            },
        }
    }
}

/// Decomposition of `replace_all` at the leftmost occurrence: the prefix
/// before it is kept verbatim, so in the result the replacement begins at
/// the same index.
pub proof fn lemma_replace_all_at_first(s: Seq<char>, key: Seq<char>, rep: Seq<char>, i: int)
    requires
        key.len() > 0,
        contains_at(s, key, i),
        forall|j: int| 0 <= j < i ==> !contains_at(s, key, j),
    ensures
        replace_all(s, key, rep) == s.subrange(0, i) + rep + replace_all(
            s.skip(i + key.len() as int),
            key,
            rep,
        ),
    decreases i,
{
    if i == 0 {
        assert(s.subrange(0, key.len() as int) == key);
        assert(s.subrange(0, 0) + rep + replace_all(s.skip(key.len() as int), key, rep)
            =~= rep + replace_all(s.skip(key.len() as int), key, rep));
    } else {
        assert(!contains_at(s, key, 0));
        assert(s.subrange(0, key.len() as int) != key) by {
            assert(key.len() <= s.len());
        }
        assert(s.len() >= key.len());
        assert(contains_at(s.skip(1), key, i - 1)) by {
            assert(s.skip(1).subrange(i - 1, i - 1 + key.len() as int) =~= s.subrange(
                i,
                i + key.len() as int,
            ));
        }
        assert forall|j: int| 0 <= j < i - 1 implies !contains_at(s.skip(1), key, j) by {
            assert(!contains_at(s, key, j + 1));
            if j + 1 + key.len() <= s.len() {
                assert(s.skip(1).subrange(j, j + key.len() as int) =~= s.subrange(
                    j + 1,
                    j + 1 + key.len() as int,
                ));
            }
        }
        lemma_replace_all_at_first(s.skip(1), key, rep, i - 1);
        assert(s.skip(1).skip(i - 1 + key.len() as int) =~= s.skip(i + key.len() as int));
        assert(seq![s[0]] + (s.skip(1).subrange(0, i - 1) + rep + replace_all(
            s.skip(i + key.len() as int),
            key,
            rep,
        )) =~= s.subrange(0, i) + rep + replace_all(s.skip(i + key.len() as int), key, rep));
    }
}

/// `token_end` stays within bounds.
pub proof fn lemma_token_end_bounds(s: Seq<char>, i: int)
    requires
        0 <= i <= s.len(),
    ensures
        i <= token_end(s, i) <= s.len(),
    decreases s.len() - i,
{
    if i < s.len() && s[i] != ' ' {
        lemma_token_end_bounds(s, i + 1);
    }
}

/// Whether `key` occurs in `s` at position `i`, executably.
fn matches_at(s: &str, key: &str, i: usize, n: usize, k: usize) -> (b: bool)
    requires
        n == s@.len(),
        k == key@.len(),
        i + k <= n,
    ensures
        b == contains_at(s@, key@, i as int),
{
    let mut j: usize = 0;
    while j < k
        invariant
            0 <= j <= k,
            n == s@.len(),
            k == key@.len(),
            i + k <= n,
            forall|m: int| 0 <= m < j ==> s@[i + m] == key@[m],
        decreases k - j,
    {
        if s.get_char(i + j) != key.get_char(j) {
            assert(s@.subrange(i as int, i + k as int) != key@) by {
                assert(s@.subrange(i as int, i + k as int)[j as int] != key@[j as int]);
            }
            return false;
        }
        j = j + 1;
    }
    assert(s@.subrange(i as int, i + k as int) =~= key@);
    true
}

/// Leftmost occurrence of `key` in `s`, executably.
fn find_in(s: &str, key: &str) -> (r: Option<usize>)
    ensures
        match r {
            Some(i) => find_first(s@, key@) == Some(i as int),
            None => find_first(s@, key@) is None,
        },
{
    let n = s.unicode_len();
    let k = key.unicode_len();
    proof {
        lemma_find_first_is_match(s@, key@);
    }
    if k == 0 || n < k {
        return None;
    }
    let mut i: usize = 0;
    while i <= n - k
        invariant
            n == s@.len(),
            k == key@.len(),
            0 < k <= n,
            i <= n - k + 1,
            forall|j: int| 0 <= j < i ==> !contains_at(s@, key@, j),
        decreases n - i,
    {
        if matches_at(s, key, i, n, k) {
            proof {
                lemma_find_first_is_match(s@, key@);
            }
            return Some(i);
        }
        i = i + 1;
    }
    assert forall|j: int| !contains_at(s@, key@, j) by {
        if 0 <= j && j + key@.len() <= s@.len() {
            assert(j < i);
        }
    }
    None
}

/// `s` with every occurrence of `key` replaced by `rep`, executably.
fn replace_in(s: &str, key: &str, rep: &str) -> (r: String)
    ensures
        r@ == replace_all(s@, key@, rep@),
{
    let n = s.unicode_len();
    let k = key.unicode_len();
    if k == 0 || n < k {
        return s.to_owned();
    }
    let mut out = String::new();
    let mut pos: usize = 0;
    proof {
        assert(s@.skip(0) =~= s@);
        assert(Seq::<char>::empty() + replace_all(s@, key@, rep@) =~= replace_all(s@, key@, rep@));
    }
    while pos <= n - k
        invariant
            n == s@.len(),
            k == key@.len(),
            0 < k <= n,
            pos <= n,
            out@ + replace_all(s@.skip(pos as int), key@, rep@) == replace_all(s@, key@, rep@),
        decreases n - pos,
    {
        let ghost suffix = s@.skip(pos as int);
        let ghost out0 = out@;
        assert(suffix.len() == n - pos >= k);
        if matches_at(s, key, pos, n, k) {
            assert(suffix.subrange(0, k as int) =~= s@.subrange(pos as int, pos + k as int));
            assert(replace_all(suffix, key@, rep@) == rep@ + replace_all(
                suffix.skip(k as int),
                key@,
                rep@,
            ));
            assert(suffix.skip(k as int) =~= s@.skip(pos + k as int));
            out.append(rep);
            assert(out@ + replace_all(s@.skip(pos + k as int), key@, rep@) =~= out0
                + replace_all(suffix, key@, rep@));
            pos = pos + k;
        } else {
            assert(suffix.subrange(0, k as int) != key@) by {
                assert(suffix.subrange(0, k as int) =~= s@.subrange(pos as int, pos + k as int));
            }
            assert(replace_all(suffix, key@, rep@) == seq![suffix[0]] + replace_all(
                suffix.skip(1),
                key@,
                rep@,
            ));
            let c = s.substring_char(pos, pos + 1);
            assert(c@ =~= seq![suffix[0]]);
            out.append(c);
            assert(suffix.skip(1) =~= s@.skip(pos + 1));
            assert(out@ + replace_all(s@.skip(pos + 1), key@, rep@) =~= out0 + replace_all(
                suffix,
                key@,
                rep@,
            ));
            pos = pos + 1;
        }
    }
    let tail = s.substring_char(pos, n);
    assert(s@.skip(pos as int) =~= s@.subrange(pos as int, n as int));
    assert(replace_all(s@.skip(pos as int), key@, rep@) == s@.skip(pos as int));
    out.append(tail);
    assert(out@ =~= replace_all(s@, key@, rep@));
    out
}

/// Record the captured output path: the slice of the substituted token from
/// `start_idx` (where the replacement began) to the next space or the end.
///
/// This step cannot fail; the result type keeps a failure channel open for
/// compatibility with the rest of the pipeline.
pub fn get_out_name(subbed: &str, start_idx: usize, out_name: &mut String) -> (r: Result<
    (),
    Codes,
>)
    requires
        start_idx <= subbed@.len(),
    ensures
        r is Ok,
        final(out_name)@ == capture(subbed@, start_idx as int),
{
    let n = subbed.unicode_len();
    let mut end: usize = start_idx;
    proof {
        lemma_token_end_bounds(subbed@, start_idx as int);
    }
    while end < n && subbed.get_char(end) != ' '
        invariant
            start_idx <= end <= n,
            n == subbed@.len(),
            token_end(subbed@, start_idx as int) == token_end(subbed@, end as int),
        decreases n - end,
    {
        assert(token_end(subbed@, end as int) == token_end(subbed@, end + 1));
        end = end + 1;
    }
    assert(token_end(subbed@, end as int) == end as int);
    *out_name = subbed.substring_char(start_idx, end).to_owned();
    Ok(())
}

/// Substitute one token: apply every entry of the context in order,
/// updating the captured output name whenever an output-producing entry
/// matched.  Cannot fail.
pub fn sub(inp: &str, conf: &Conf, out_name: &mut String) -> (r: Result<String, Codes>)
    ensures
        ({
            let (res, cap) = sub_model(inp@, conf.entries@, old(out_name)@);
            r matches Ok(s) && s@ == res && final(out_name)@ == cap
        }),
{
    let ghost entries = conf.entries@;
    let ghost cap0 = out_name@;
    let mut cur = inp.to_owned();
    let mut idx: usize = 0;
    proof {
        assert(entries.skip(0) =~= entries);
    }
    while idx < conf.entries.len()
        invariant
            idx <= conf.entries@.len(),
            conf.entries@ == entries,
            sub_model(inp@, entries, cap0) == sub_model(cur@, entries.skip(idx as int), out_name@),
        decreases conf.entries@.len() - idx,
    {
        let ghost pre = entries.skip(idx as int);
        let ghost cur0 = cur@;
        let ghost cap_in = out_name@;
        assert(pre[0] == entries[idx as int]);
        let e = &conf.entries[idx];
        match find_in(cur.as_str(), e.key.as_str()) {
            None => {
                assert(apply_entry(cur0, entries[idx as int], cap_in) == (cur0, cap_in));
            },
            Some(i) => {
                proof {
                    lemma_find_first_is_match(cur@, e.key@);
                    assert(e.key@.len() > 0);
                }
                let res = replace_in(cur.as_str(), e.key.as_str(), e.rep.string.as_str());
                if e.rep.is_out {
                    proof {
                        lemma_replace_all_at_first(cur0, e.key@, e.rep.string@, i as int);
                        assert(res@.len() >= i as int);
                    }
                    let _ = get_out_name(res.as_str(), i, out_name);
                }
                assert(apply_entry(cur0, entries[idx as int], cap_in) == (res@, out_name@));
                cur = res;
            },
        }
        proof {
            assert(pre.skip(1) =~= entries.skip(idx + 1));
            assert(sub_model(cur0, pre, cap_in) == sub_model(cur@, entries.skip(idx + 1), out_name@));
        }
        idx = idx + 1;
    }
    assert(entries.skip(idx as int) =~= Seq::<Entry>::empty());
    Ok(cur)
}

/// Substitute a whole token list in order, threading the captured output
/// name through every token.
pub fn sub_tokens(tokens: &Vec<String>, conf: &Conf, out_name: &mut String) -> (r: Vec<String>)
    ensures
        ({
            let (rs, cap) = subst_list_model(views(tokens@), conf.entries@, old(out_name)@);
            views(r@) == rs && final(out_name)@ == cap
        }),
{
    let mut out: Vec<String> = Vec::new();
    let mut idx: usize = 0;
    let ghost entries = conf.entries@;
    let ghost cap0 = out_name@;
    proof {
        assert(views(tokens@).skip(0) =~= views(tokens@));
        assert(views(out@) =~= Seq::<Seq<char>>::empty());
        let rs0 = subst_list_model(views(tokens@), entries, cap0).0;
        assert(Seq::<Seq<char>>::empty() + rs0 =~= rs0);
    }
    while idx < tokens.len()
        invariant
            idx <= tokens@.len(),
            conf.entries@ == entries,
            cap0 == old(out_name)@,
            subst_list_model(views(tokens@), entries, cap0) == ({
                let (rs, c) = subst_list_model(views(tokens@).skip(idx as int), entries, out_name@);
                (views(out@) + rs, c)
            }),
        decreases tokens@.len() - idx,
    {
        let ghost pre = views(tokens@).skip(idx as int);
        let ghost out0 = out@;
        let ghost cap_in = out_name@;
        assert(pre[0] == tokens@[idx as int]@);
        let r = crate::template::sub(tokens[idx].as_str(), conf, out_name);
        match r {
            Ok(s) => {
                out.push(s);
            },
            Err(_) => {
                proof {
                    assert(false);
                }
            },
        }
        proof {
            let r0 = sub_model(pre[0], entries, cap_in).0;
            let c0 = sub_model(pre[0], entries, cap_in).1;
            assert(out_name@ == c0);
            assert(views(out@) =~= views(out0).push(r0));
            assert(pre.skip(1) =~= views(tokens@).skip(idx + 1));
            let rs1 = subst_list_model(pre.skip(1), entries, c0).0;
            let c1 = subst_list_model(pre.skip(1), entries, c0).1;
            assert(subst_list_model(pre, entries, cap_in) == (seq![r0] + rs1, c1));
            assert(views(out@) + rs1 =~= views(out0) + (seq![r0] + rs1));
        }
        idx = idx + 1;
    }
    assert(views(tokens@).skip(idx as int) =~= Seq::<Seq<char>>::empty());
    out
}

/// Substitute a whole token list, returning the materialized tokens and the
/// captured output path, if any capture took place and was non-empty.
pub fn substitute(tokens: &Vec<String>, conf: &Conf) -> (r: (Vec<String>, Option<String>))
    ensures
        ({
            let (rs, cap) = subst_list_model(views(tokens@), conf.entries@, Seq::empty());
            &&& views(r.0@) == rs
            &&& match r.1 {
                Some(s) => s@ == cap && cap.len() > 0,
                None => cap.len() == 0,
            }
        }),
{
    let mut out_name = String::new();
    let out = sub_tokens(tokens, conf, &mut out_name);
    let cap_empty = out_name.as_str().is_empty();
    if cap_empty {
        (out, None)
    } else {
        (out, Some(out_name))
    }
}

/// A context none of whose keys occurs in the input substitutes to the
/// input itself, and leaves the capture alone.
pub proof fn lemma_sub_no_match(inp: Seq<char>, entries: Seq<Entry>, cap: Seq<char>)
    requires
        forall|i: int| 0 <= i < entries.len() ==> find_first(inp, #[trigger] entries[i].key@)
            is None,
    ensures
        sub_model(inp, entries, cap) == (inp, cap),
    decreases entries.len(),
{
    if entries.len() > 0 {
        assert(apply_entry(inp, entries[0], cap) == (inp, cap));
        assert(forall|i: int| 0 <= i < entries.skip(1).len() ==> find_first(
            inp,
            #[trigger] entries.skip(1)[i].key@,
        ) is None);
        lemma_sub_no_match(inp, entries.skip(1), cap);
    }
}

/// Template idempotence: substituting a context with no matching
/// placeholders returns every token unchanged and leaves the capture alone.
pub proof fn lemma_substitute_no_match(tokens: Seq<Seq<char>>, entries: Seq<Entry>, cap: Seq<char>)
    requires
        forall|t: int, i: int|
            0 <= t < tokens.len() && 0 <= i < entries.len() ==> find_first(
                #[trigger] tokens[t],
                #[trigger] entries[i].key@,
            ) is None,
    ensures
        subst_list_model(tokens, entries, cap) == (tokens, cap),
    decreases tokens.len(),
{
    if tokens.len() > 0 {
        lemma_sub_no_match(tokens[0], entries, cap);
        lemma_substitute_no_match(tokens.skip(1), entries, cap);
        assert(seq![tokens[0]] + tokens.skip(1) =~= tokens);
    }
}

} // verus!
