//! The column specification: which cell of a row is the identifier and which
//! is the URL, parsed from a string of the form `"x,y"`.

use vstd::prelude::*;
use crate::errors::RunError;

verus! {

/// The pair of 0-based column indices: `sort_id` names the identifier
/// column, `url` the URL column.
#[derive(Clone, Copy, Debug, PartialEq, Eq, Structural)]
pub struct KvPair {
    pub sort_id: usize,
    pub url: usize,
}

/// Whether `c` is an ASCII decimal digit.
pub open spec fn is_digit(c: char) -> bool {
    '0' <= c && c <= '9'
}

/// The numeric value of an ASCII decimal digit.
pub open spec fn digit_val(c: char) -> nat {
    (c as nat - '0' as nat) as nat
}

/// Whether every character of `s` is an ASCII decimal digit.
pub open spec fn all_digits(s: Seq<char>) -> bool {
    forall|i: int| 0 <= i < s.len() ==> is_digit(#[trigger] s[i])
}

/// The number denoted by a sequence of ASCII digits, most significant first.
pub open spec fn digits_val(s: Seq<char>) -> nat
    decreases s.len(),
{
    if s.len() == 0 {
        0
    } else {
        digits_val(s.drop_last()) * 10 + digit_val(s.last())
    }
}

/// The index of the first comma in `s`, or `s.len()` if there is none.
pub open spec fn first_comma(s: Seq<char>) -> int
    decreases s.len(),
{
    if s.len() == 0 {
        0
    } else if s[0] == ',' {
        0
    } else {
        1 + first_comma(s.skip(1))
    }
}

/// Whether `s` holds at least one comma, i.e. at least two fields.
pub open spec fn has_comma(s: Seq<char>) -> bool {
    first_comma(s) < s.len()
}

/// The first comma-separated field of `s`.
pub open spec fn field1(s: Seq<char>) -> Seq<char> {
    s.subrange(0, first_comma(s))
}

/// Everything after the first comma of `s`.
pub open spec fn tail_after_comma(s: Seq<char>) -> Seq<char> {
    s.subrange(first_comma(s) + 1, s.len() as int)
}

/// The second comma-separated field of `s`. Fields beyond the second are
/// ignored.
pub open spec fn field2(s: Seq<char>) -> Seq<char> {
    field1(tail_after_comma(s))
}

/// A field that denotes a valid 0-based column index: non-empty, all ASCII
/// digits, and small enough for `usize`.
pub open spec fn valid_index_field(s: Seq<char>) -> bool {
    &&& s.len() > 0
    &&& all_digits(s)
    &&& digits_val(s) <= usize::MAX
}

/// A well-formed column specification string: at least two comma-separated
/// fields, the first two of which are valid column indices.
pub open spec fn valid_col_spec(s: Seq<char>) -> bool {
    &&& has_comma(s)
    &&& valid_index_field(field1(s))
    &&& valid_index_field(field2(s))
}

/// Any position with no comma before it and a comma (or the end) at it is
/// exactly `first_comma`.
pub proof fn lemma_first_comma_is(s: Seq<char>, i: int)
    requires
        0 <= i <= s.len(),
        forall|j: int| 0 <= j < i ==> s[j] != ',',
        i < s.len() ==> s[i] == ',',
    ensures
        first_comma(s) == i,
    decreases s.len(),
{
    if s.len() == 0 {
    } else if s[0] == ',' {
        assert(i == 0);
    } else {
        assert(i >= 1) by {
            if i == 0 {
                assert(s[0] == ',');
            }
        }
        assert forall|j: int| 0 <= j < i - 1 implies s.skip(1)[j] != ',' by {
            assert(s.skip(1)[j] == s[j + 1]);
        }
        if i - 1 < s.skip(1).len() {
            assert(s.skip(1)[i - 1] == s[i]);
        }
        lemma_first_comma_is(s.skip(1), i - 1);
    }
}

/// Reading more digits never shrinks the denoted number.
proof fn lemma_digits_val_prefix_le(s: Seq<char>, lo: int, j: int, hi: int)
    requires
        0 <= lo <= j <= hi <= s.len(),
    ensures
        digits_val(s.subrange(lo, j)) <= digits_val(s.subrange(lo, hi)),
    decreases hi - j,
{
    if j < hi {
        lemma_digits_val_prefix_le(s, lo, j, hi - 1);
        assert(s.subrange(lo, hi).drop_last() =~= s.subrange(lo, hi - 1));
        assert(digits_val(s.subrange(lo, hi)) == digits_val(s.subrange(lo, hi - 1)) * 10
            + digit_val(s.subrange(lo, hi).last()));
    }
}

/// Parses the digits of `s` between positions `lo` and `hi` as a column
/// index.
fn parse_field(s: &str, lo: usize, hi: usize) -> (r: Result<usize, ()>)
    requires
        lo <= hi <= s@.len(),
    ensures
        match r {
            Ok(v) => valid_index_field(s@.subrange(lo as int, hi as int)) && v == digits_val(
                s@.subrange(lo as int, hi as int),
            ),
            Err(_) => !valid_index_field(s@.subrange(lo as int, hi as int)),
        },
{
    if lo == hi {
        assert(s@.subrange(lo as int, hi as int).len() == 0);
        return Err(());
    }
    let mut acc: usize = 0;
    let mut j: usize = lo;
    while j < hi
        invariant
            lo <= j <= hi <= s@.len(),
            all_digits(s@.subrange(lo as int, j as int)),
            acc == digits_val(s@.subrange(lo as int, j as int)),
        decreases hi - j,
    {
        let c = s.get_char(j);
        if !(c >= '0' && c <= '9') {
            assert(s@.subrange(lo as int, hi as int)[j - lo] == s@[j as int]);
            return Err(());
        }
        let d: usize = (c as u32 - '0' as u32) as usize;
        assert(d == digit_val(c));
        let limit: usize = usize::MAX / 10;
        let rem: usize = usize::MAX % 10;
        assert(usize::MAX as int == limit as int * 10 + rem as int) by (nonlinear_arith)
            requires
                limit == usize::MAX as int / 10 && rem == usize::MAX as int % 10,
        ;
        if acc > limit || (acc == limit && d > rem) {
            proof {
                assert(s@.subrange(lo as int, j + 1).drop_last() =~= s@.subrange(
                    lo as int,
                    j as int,
                ));
                assert(digits_val(s@.subrange(lo as int, j + 1)) == acc * 10 + d);
                assert(acc * 10 + d > usize::MAX) by (nonlinear_arith)
                    requires
                        acc > limit || (acc == limit && d > rem),
                        usize::MAX as int == limit as int * 10 + rem as int,
                        rem < 10,
                ;
                lemma_digits_val_prefix_le(s@, lo as int, j + 1, hi as int);
            }
            return Err(());
        }
        proof {
            assert(acc * 10 + d <= usize::MAX) by (nonlinear_arith)
                requires
                    acc <= limit,
                    acc == limit ==> d <= rem,
                    d <= 9,
                    usize::MAX as int == limit as int * 10 + rem as int,
            ;
        }
        acc = acc * 10 + d;
        j = j + 1;
        proof {
            assert(s@.subrange(lo as int, j as int).drop_last() =~= s@.subrange(
                lo as int,
                j - 1,
            ));
            assert(s@.subrange(lo as int, j as int).last() == s@[j - 1]);
        }
    }
    assert(s@.subrange(lo as int, j as int) =~= s@.subrange(lo as int, hi as int));
    Ok(acc)
}

impl KvPair {
    /// Parses a column specification string `"x,y"`: `x` becomes the
    /// identifier column, `y` the URL column. Fails exactly when `s` has
    /// fewer than two comma-separated fields or either of the first two
    /// fields is not a valid non-negative integer; extra fields are ignored.
    pub fn from_str(s: &str) -> (r: Result<KvPair, RunError>)
        ensures
            match r {
                Ok(kv) => valid_col_spec(s@) && kv.sort_id == digits_val(field1(s@))
                    && kv.url == digits_val(field2(s@)),
                Err(e) => !valid_col_spec(s@) && (e matches RunError::ArgumentParse { input }
                    && input@ == s@),
            },
    {
        let n = s.unicode_len();
        // Find the first comma.
        let mut i: usize = 0;
        while i < n && s.get_char(i) != ','
            invariant
                0 <= i <= n == s@.len(),
                forall|j: int| 0 <= j < i ==> s@[j] != ',',
            decreases n - i,
        {
            i = i + 1;
        }
        proof {
            lemma_first_comma_is(s@, i as int);
        }
        if i == n {
            // No comma: fewer than two fields.
            return Err(RunError::ArgumentParse { input: String::from_str(s) });
        }
        // Find the comma (or the end) that closes the second field.
        let mut k: usize = i + 1;
        while k < n && s.get_char(k) != ','
            invariant
                i < k <= n == s@.len(),
                forall|j: int| i < j < k ==> s@[j] != ',',
            decreases n - k,
        {
            k = k + 1;
        }
        proof {
            let tail = tail_after_comma(s@);
            assert forall|j: int| 0 <= j < k - i - 1 implies tail[j] != ',' by {
                assert(tail[j] == s@[i + 1 + j]);
            }
            if k < n {
                assert(tail[k - i - 1] == s@[k as int]);
            }
            lemma_first_comma_is(tail, k - i - 1);
            assert(field2(s@) =~= s@.subrange(i + 1, k as int));
        }
        let a = parse_field(s, 0, i);
        let b = parse_field(s, i + 1, k);
        assert(field1(s@) =~= s@.subrange(0, i as int));
        match (a, b) {
            (Ok(sort_id), Ok(url)) => Ok(KvPair { sort_id, url }),
            _ => Err(RunError::ArgumentParse { input: String::from_str(s) }),
        }
    }
}

/// Parses a column specification string; the entry point the command line
/// uses for its `"x,y"` argument.
pub fn parse_kv_pair(s: &str) -> (r: Result<KvPair, RunError>)
    ensures
        match r {
            Ok(kv) => valid_col_spec(s@) && kv.sort_id == digits_val(field1(s@)) && kv.url
                == digits_val(field2(s@)),
            Err(e) => !valid_col_spec(s@) && (e matches RunError::ArgumentParse { input }
                && input@ == s@),
        },
{
    KvPair::from_str(s)
}

} // verus!
