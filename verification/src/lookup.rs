//! Extracting the origin address from the body the public-IP lookup
//! collaborator returns: a JSON object with an `origin` string field.
//! The transport is the host's concern; the scan over the body text is
//! decided here.

use vstd::prelude::*;
use vstd::string::StrSliceExecFns;

verus! {

/// Whether `pat` occurs in `s` at position `i`.
pub open spec fn occurs_at(s: Seq<char>, pat: Seq<char>, i: int) -> bool {
    0 <= i && i + pat.len() <= s.len() && s.subrange(i, i + pat.len()) == pat
}

/// The first position at or after `from` where `pat` occurs in `s`.
pub open spec fn first_from(s: Seq<char>, pat: Seq<char>, from: int) -> Option<int>
    decreases s.len() - from + 1,
{
    if from < 0 || from + pat.len() > s.len() {
        Option::None
    } else if occurs_at(s, pat, from) {
        Option::Some(from)
    } else {
        first_from(s, pat, from + 1)
    }
}

/// Whether `pat` occurs in `s` at position `i`.
fn matches_at(s: &str, pat: &str, i: usize, n: usize, m: usize) -> (b: bool)
    requires
        n == s@.len(),
        m == pat@.len(),
        i <= n,
        n - i >= m,
    ensures
        b == occurs_at(s@, pat@, i as int),
{
    let mut j: usize = 0;
    while j < m
        invariant
            n == s@.len(),
            m == pat@.len(),
            i <= n,
            n - i >= m,
            j <= m,
            forall|k: int| 0 <= k < j ==> s@[i + k] == pat@[k],
        decreases m - j,
    {
        if s.get_char(i + j) != pat.get_char(j) {
            proof {
                let sub = s@.subrange(i as int, i as int + m as int);
                assert(sub[j as int] == s@[i as int + j as int]);
                assert(sub != pat@);
            }
            return false;
        }
        j += 1;
    }
    proof {
        assert(s@.subrange(i as int, i as int + m as int) =~= pat@);
    }
    true
}

/// Finds the first occurrence of `pat` in `s` at or after `from`.
fn find_from(s: &str, pat: &str, from: usize) -> (r: Option<usize>)
    requires
        from <= s@.len(),
    ensures
        (match r {
            Option::Some(i) => first_from(s@, pat@, from as int) == Option::Some(i as int)
                && from <= i && i + pat@.len() <= s@.len(),
            Option::None => first_from(s@, pat@, from as int) is None,
        }),
{
    let n = s.unicode_len();
    let m = pat.unicode_len();
    let mut i: usize = from;
    loop
        invariant
            n == s@.len(),
            m == pat@.len(),
            from <= i,
            i <= n,
            first_from(s@, pat@, from as int) == first_from(s@, pat@, i as int),
        decreases n - i,
    {
        if n - i < m {
            proof {
                assert(first_from(s@, pat@, i as int) is None);
            }
            return None;
        }
        if matches_at(s, pat, i, n, m) {
            proof {
                assert(first_from(s@, pat@, i as int) == Option::Some(i as int));
            }
            return Some(i);
        }
        proof {
            if m == 0 {
                assert(s@.subrange(i as int, i as int) =~= pat@);
                assert(occurs_at(s@, pat@, i as int));
            }
            assert(m >= 1);
            assert(first_from(s@, pat@, i as int) == first_from(s@, pat@, i as int + 1));
        }
        i += 1;
    }
}

/// The origin key as it appears in the body.
pub open spec fn origin_key() -> Seq<char> {
    seq!['"', 'o', 'r', 'i', 'g', 'i', 'n', '"']
}

/// The origin address in a lookup body: the text between the first
/// pair of quotes after the first occurrence of the origin key, when
/// the key and both quotes are present.
pub open spec fn origin_of(s: Seq<char>) -> Option<Seq<char>> {
    match first_from(s, origin_key(), 0) {
        Option::None => Option::None,
        Option::Some(i) => match first_from(s, seq!['"'], i + 8) {
            Option::None => Option::None,
            Option::Some(p) => match first_from(s, seq!['"'], p + 1) {
                Option::None => Option::None,
                Option::Some(q) => Option::Some(s.subrange(p + 1, q)),
            },
        },
    }
}

/// Pulls the `origin` string field out of the echoed body.
pub fn extract_origin(body: &str) -> (r: Option<String>)
    ensures
        (match origin_of(body@) {
            Option::Some(v) => (r matches Option::Some(x) && x@ == v),
            Option::None => r is None,
        }),
{
    let n = body.unicode_len();
    let key = "\"origin\"";
    let quote = "\"";
    proof {
        reveal_strlit("\"origin\"");
        reveal_strlit("\"");
        assert(key@ =~= origin_key());
        assert(quote@ =~= seq!['"']);
        assert(key@.len() == 8);
        assert(quote@.len() == 1);
    }
    let i = match find_from(body, key, 0) {
        Some(i) => i,
        None => {
            return None;
        },
    };
    let p = match find_from(body, quote, i + 8) {
        Some(p) => p,
        None => {
            return None;
        },
    };
    let q = match find_from(body, quote, p + 1) {
        Some(q) => q,
        None => {
            return None;
        },
    };
    let t = body.substring_char(p + 1, q);
    Some(t.to_owned())
}

} // verus!
