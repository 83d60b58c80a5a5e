//! Naming of the per-language scratch files.
//!
//! A scratch file is named after the language and the runner, with the
//! runner's declared extension; the directory it lands in (the per-user
//! cache directory or the temporary directory) is the caller's business
//! and arrives here as a plain path string.

use vstd::prelude::*;

verus! {

broadcast use vstd::seq_lib::group_seq_lib_default;

/// The language and runner joined by an underscore.
pub fn add_prefix(lang: &str, runner: &str) -> (r: String)
    ensures
        r@ == lang@ + seq!['_'] + runner@,
{
    proof {
        reveal_strlit("_");
        assert("_"@ =~= seq!['_']);
    }
    let mut out = lang.to_owned();
    out.append("_");
    out.append(runner);
    assert(out@ =~= lang@ + seq!['_'] + runner@);
    out
}

/// The file name of a scratch file in `dir`: `{lang}_{runner}` plus the
/// extension when there is one, a path separator in between unless `dir`
/// already ends with one.
pub open spec fn cache_file_model(
    dir: Seq<char>,
    lang: Seq<char>,
    runner: Seq<char>,
    extension: Seq<char>,
) -> Seq<char> {
    let sep: Seq<char> = if dir.len() > 0 && dir[dir.len() - 1] == '/' {
        Seq::empty()
    } else {
        seq!['/']
    };
    let ext: Seq<char> = if extension.len() > 0 {
        seq!['.'] + extension
    } else {
        Seq::empty()
    };
    dir + sep + lang + seq!['_'] + runner + ext
}

/// The full path of a scratch file for this language and runner under
/// `dir`.
pub fn cache_file_name(dir: &str, lang: &str, runner: &str, extension: &str) -> (r: String)
    ensures
        r@ == cache_file_model(dir@, lang@, runner@, extension@),
{
    proof {
        reveal_strlit("/");
        reveal_strlit(".");
        assert("/"@ =~= seq!['/']);
        assert("."@ =~= seq!['.']);
    }
    let mut out = dir.to_owned();
    let n = dir.unicode_len();
    if n == 0 || dir.get_char(n - 1) != '/' {
        out.append("/");
    }
    let prefix = add_prefix(lang, runner);
    out.append(prefix.as_str());
    if !extension.is_empty() {
        out.append(".");
        out.append(extension);
    }
    assert(out@ =~= cache_file_model(dir@, lang@, runner@, extension@));
    out
}

} // verus!
