//! Small string helpers shared across the modules.

use vstd::prelude::*;

verus! {

/// String comparison, proved against the views: true exactly when the two
/// character sequences are equal.
pub fn str_eq(a: &str, b: &str) -> (r: bool)
    ensures
        r == (a@ == b@),
{
    let a_owned: String = a.to_owned();
    let b_owned: String = b.to_owned();
    a_owned == b_owned
}

/// `s` with every trailing `/` removed and nothing else changed.
pub open spec fn spec_trim_trailing_slashes(s: Seq<char>) -> Seq<char>
    decreases s.len(),
{
    if s.len() > 0 && s.last() == '/' {
        spec_trim_trailing_slashes(s.drop_last())
    } else {
        s
    }
}

/// A base URL normalized for joining: every trailing `/` removed, the
/// rest untouched.
pub fn trim_trailing_slashes(url: &str) -> (r: &str)
    ensures
        r@ == spec_trim_trailing_slashes(url@),
{
    let len = url.unicode_len();
    let mut end: usize = len;
    proof {
        assert(url@.subrange(0, len as int) =~= url@);
    }
    while end > 0 && url.get_char(end - 1) == '/'
        invariant
            end <= len,
            len == url@.len(),
            spec_trim_trailing_slashes(url@) == spec_trim_trailing_slashes(
                url@.subrange(0, end as int),
            ),
        decreases end,
    {
        proof {
            assert(url@.subrange(0, end as int).drop_last() =~= url@.subrange(0, end - 1));
        }
        end = end - 1;
    }
    proof {
        if end > 0 {
            assert(url@.subrange(0, end as int).last() == url@[end - 1]);
        }
        assert(spec_trim_trailing_slashes(url@.subrange(0, end as int)) == url@.subrange(
            0,
            end as int,
        ));
    }
    url.substring_char(0, end)
}

} // verus!
