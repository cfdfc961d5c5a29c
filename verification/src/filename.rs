//! Deriving a file extension from a URL string and composing the output
//! path for one download.

use vstd::prelude::*;

verus! {

/// The extension of `s` under the literal last-dot rule: the characters
/// after the last `.` of the final `/`-separated segment, or `None` when
/// that segment has no `.` past its first character. A query string is not
/// stripped first, so `photo.JPG?x=1` yields `JPG?x=1`.
pub open spec fn extension_of(s: Seq<char>) -> Option<Seq<char>>
    decreases s.len(),
{
    if s.len() == 0 {
        None
    } else if s.last() == '/' {
        None
    } else if s.last() == '.' {
        if s.len() >= 2 && s[s.len() - 2] != '/' {
            Some(Seq::empty())
        } else {
            None
        }
    } else {
        match extension_of(s.drop_last()) {
            Some(e) => Some(e.push(s.last())),
            None => None,
        }
    }
}

/// A string whose suffix from position `k` on holds neither `.` nor `/` has
/// no extension unless one starts at or before `k`.
proof fn lemma_extension_plain_suffix(s: Seq<char>, k: int)
    requires
        0 <= k <= s.len(),
        forall|j: int| k <= j < s.len() ==> s[j] != '.' && s[j] != '/',
    ensures
        k == 0 ==> extension_of(s) is None,
        k > 0 && s[k - 1] == '/' ==> extension_of(s) is None,
        (k > 0 && s[k - 1] == '.' && (k == 1 || s[k - 2] == '/')) ==> extension_of(s) is None,
        (k >= 2 && s[k - 1] == '.' && s[k - 2] != '/') ==> extension_of(s) == Some(
            s.subrange(k, s.len() as int),
        ),
    decreases s.len() - k,
{
    if k == s.len() {
        if k >= 2 && s[k - 1] == '.' && s[k - 2] != '/' {
            assert(s.subrange(k, s.len() as int) =~= Seq::<char>::empty());
        }
    } else {
        lemma_extension_plain_suffix(s.drop_last(), k);
        assert(s.last() != '.' && s.last() != '/');
        if k >= 2 && s[k - 1] == '.' && s[k - 2] != '/' {
            assert(extension_of(s.drop_last()) == Some(
                s.drop_last().subrange(k, s.len() - 1),
            ));
            assert(s.drop_last().subrange(k, s.len() - 1).push(s.last()) =~= s.subrange(
                k,
                s.len() as int,
            ));
        }
    }
}

/// Extracts the extension of `filename` under the literal last-dot rule
/// stated by [`extension_of`]; `None` exactly when that rule yields none.
pub fn get_extension_from_filename(filename: &str) -> (r: Option<&str>)
    ensures
        match r {
            Some(e) => extension_of(filename@) == Some(e@),
            None => extension_of(filename@) is None,
        },
{
    let n = filename.unicode_len();
    let mut k: usize = n;
    // Scan backwards for the first `.` or `/`.
    while k > 0 && filename.get_char(k - 1) != '.' && filename.get_char(k - 1) != '/'
        invariant
            0 <= k <= n == filename@.len(),
            forall|j: int| k <= j < n ==> filename@[j] != '.' && filename@[j] != '/',
        decreases k,
    {
        k = k - 1;
    }
    proof {
        lemma_extension_plain_suffix(filename@, k as int);
    }
    if k == 0 {
        return None;
    }
    let c = filename.get_char(k - 1);
    if c == '/' {
        return None;
    }
    // c is '.', closing the extension, unless it opens the final segment.
    if k == 1 || filename.get_char(k - 2) == '/' {
        return None;
    }
    Some(filename.substring_char(k, n))
}

/// The output path for one download: the save prefix, the identifier, a
/// dot, and the extension, concatenated verbatim.
pub open spec fn derived_path(save: Seq<char>, id: Seq<char>, ext: Seq<char>) -> Seq<char> {
    save + id + seq!['.'] + ext
}

/// Composes the output path from the save prefix, the row's identifier and
/// the derived extension, by plain concatenation: the prefix must already
/// end in a path separator if one is wanted.
pub fn derive_filename(save_path: &str, sort_id: &str, ext: &str) -> (r: String)
    ensures
        r@ == derived_path(save_path@, sort_id@, ext@),
{
    let mut r = String::from_str(save_path);
    r.append(sort_id);
    r.append(".");
    r.append(ext);
    proof {
        reveal_strlit(".");
        assert("."@ =~= seq!['.']);
    }
    r
}

} // verus!
