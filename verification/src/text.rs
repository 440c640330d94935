//! Verified text operations: profile-name validation and sanitization,
//! the recognized file extension, whitespace trimming for the marker
//! file, and decimal suffixes for collision-free names.

use vstd::prelude::*;
use vstd::string::StrSliceExecFns;
use vstd::string::StringExecFns;
use crate::chars::{alphanumeric, whitespace, is_alphanumeric_char, is_whitespace_char, push_char};

verus! {

/// The predicate a profile-name character must satisfy.
pub open spec fn alnum_pred() -> spec_fn(char) -> bool {
    |c: char| alphanumeric(c)
}

/// A profile name is valid when every character is alphanumeric.
pub open spec fn valid_name(s: Seq<char>) -> bool {
    forall|k: int| 0 <= k < s.len() ==> alphanumeric(s[k])
}

/// Whether every character of `s` is alphanumeric.
pub fn is_valid_name(s: &str) -> (b: bool)
    ensures
        b == valid_name(s@),
{
    let n: usize = s.unicode_len();
    let mut i: usize = 0;
    while i < n
        invariant
            n == s@.len(),
            i <= n,
            forall|k: int| 0 <= k < i ==> alphanumeric(s@[k]),
        decreases n - i,
    {
        if !is_alphanumeric_char(s.get_char(i)) {
            return false;
        }
        i += 1;
    }
    true
}

/// A name with every non-alphanumeric character stripped.
pub open spec fn sanitized(s: Seq<char>) -> Seq<char> {
    s.filter(alnum_pred())
}

/// Strips every non-alphanumeric character from `s`.
pub fn sanitize_name(s: &str) -> (r: String)
    ensures
        r@ == sanitized(s@),
{
    let n: usize = s.unicode_len();
    let mut out = String::new();
    let mut i: usize = 0;
    while i < n
        invariant
            n == s@.len(),
            i <= n,
            out@ == s@.take(i as int).filter(alnum_pred()),
        decreases n - i,
    {
        let c = s.get_char(i);
        proof {
            lemma_filter_take_step(s@, i as int);
        }
        if is_alphanumeric_char(c) {
            push_char(&mut out, c);
        }
        i += 1;
    }
    proof {
        assert(s@.take(n as int) =~= s@);
    }
    out
}

/// Filtering one more character extends the filtered prefix by that
/// character exactly when it satisfies the predicate.
proof fn lemma_filter_take_step(s: Seq<char>, i: int)
    requires
        0 <= i < s.len(),
    ensures
        s.take(i + 1).filter(alnum_pred()) == if alnum_pred()(s[i]) {
            s.take(i).filter(alnum_pred()).push(s[i])
        } else {
            s.take(i).filter(alnum_pred())
        },
{
    reveal(Seq::filter);
    let t = s.take(i + 1);
    assert(t.len() == i + 1);
    assert(t.drop_last() =~= s.take(i));
    assert(t.last() == s[i]);
    if alnum_pred()(s[i]) {
        assert(t.filter(alnum_pred()) == s.take(i).filter(alnum_pred()).push(s[i]));
    } else {
        assert(t.filter(alnum_pred()) == s.take(i).filter(alnum_pred()));
    }
}

/// The recognized profile-file extension.
pub open spec fn conf_ext() -> Seq<char> {
    seq!['.', 'c', 'o', 'n', 'f']
}

/// Whether `s` ends in the recognized extension.
pub open spec fn has_conf_ext(s: Seq<char>) -> bool {
    s.len() >= 5 && s.subrange(s.len() - 5, s.len() as int) == conf_ext()
}

/// Whether the five characters of `s` starting at `i` spell the
/// recognized extension.
fn matches_conf_at(s: &str, i: usize, n: usize) -> (b: bool)
    requires
        n == s@.len(),
        i <= n,
    ensures
        b == (i + 5 <= s@.len() && s@.subrange(i as int, i as int + 5) == conf_ext()),
{
    if n - i < 5 {
        return false;
    }
    let b0 = s.get_char(i) == '.';
    let b1 = s.get_char(i + 1) == 'c';
    let b2 = s.get_char(i + 2) == 'o';
    let b3 = s.get_char(i + 3) == 'n';
    let b4 = s.get_char(i + 4) == 'f';
    let ghost sub = s@.subrange(i as int, i as int + 5);
    proof {
        assert(sub.len() == 5);
        assert(sub[0] == s@[i as int]);
        assert(sub[1] == s@[i as int + 1]);
        assert(sub[2] == s@[i as int + 2]);
        assert(sub[3] == s@[i as int + 3]);
        assert(sub[4] == s@[i as int + 4]);
    }
    if b0 && b1 && b2 && b3 && b4 {
        proof {
            assert(sub =~= conf_ext());
        }
        true
    } else {
        proof {
            assert(sub != conf_ext());
        }
        false
    }
}

/// Whether `s` ends in the recognized extension.
pub fn ends_with_conf(s: &str) -> (b: bool)
    ensures
        b == has_conf_ext(s@),
{
    let n: usize = s.unicode_len();
    if n < 5 {
        return false;
    }
    matches_conf_at(s, n - 5, n)
}

/// `s` with every occurrence of the recognized extension removed,
/// scanning left to right.
pub open spec fn strip_conf(s: Seq<char>) -> Seq<char>
    decreases s.len(),
{
    if s.len() == 0 {
        s
    } else if s.len() >= 5 && s.subrange(0, 5) == conf_ext() {
        strip_conf(s.skip(5))
    } else {
        seq![s[0]] + strip_conf(s.skip(1))
    }
}

/// Removes every occurrence of the recognized extension from `s`.
pub fn strip_conf_ext(s: &str) -> (r: String)
    ensures
        r@ == strip_conf(s@),
{
    let n: usize = s.unicode_len();
    let mut out = String::new();
    let mut i: usize = 0;
    proof {
        assert(s@.skip(0) =~= s@);
        assert(out@ + strip_conf(s@.skip(0)) =~= strip_conf(s@));
    }
    while i < n
        invariant
            n == s@.len(),
            i <= n,
            out@ + strip_conf(s@.skip(i as int)) == strip_conf(s@),
        decreases n - i,
    {
        let ghost rest = s@.skip(i as int);
        if matches_conf_at(s, i, n) {
            proof {
                assert(rest.subrange(0, 5) =~= s@.subrange(i as int, i as int + 5));
                assert(rest.skip(5) =~= s@.skip(i as int + 5));
                assert(strip_conf(rest) == strip_conf(s@.skip(i as int + 5)));
            }
            i += 5;
        } else {
            let c = s.get_char(i);
            let ghost out0 = out@;
            proof {
                if rest.len() >= 5 {
                    assert(rest.subrange(0, 5) =~= s@.subrange(i as int, i as int + 5));
                }
                assert(rest[0] == s@[i as int]);
                assert(rest.skip(1) =~= s@.skip(i as int + 1));
                assert(strip_conf(rest) == seq![s@[i as int]] + strip_conf(s@.skip(i as int + 1)));
            }
            push_char(&mut out, c);
            proof {
                assert(out@ + strip_conf(s@.skip(i as int + 1)) =~= out0 + strip_conf(rest));
            }
            i += 1;
        }
    }
    proof {
        assert(s@.skip(n as int) =~= Seq::<char>::empty());
        assert(strip_conf(Seq::<char>::empty()) =~= Seq::<char>::empty());
        assert(out@ + strip_conf(s@.skip(n as int)) =~= out@);
    }
    out
}

/// The number of leading whitespace characters.
pub open spec fn ws_prefix_len(s: Seq<char>) -> nat
    decreases s.len(),
{
    if s.len() == 0 {
        0
    } else if !whitespace(s[0]) {
        0
    } else {
        1 + ws_prefix_len(s.drop_first())
    }
}

/// The number of trailing whitespace characters.
pub open spec fn ws_suffix_len(s: Seq<char>) -> nat
    decreases s.len(),
{
    if s.len() == 0 {
        0
    } else if !whitespace(s.last()) {
        0
    } else {
        1 + ws_suffix_len(s.drop_last())
    }
}

/// `s` with leading and trailing whitespace removed.
pub open spec fn trimmed(s: Seq<char>) -> Seq<char> {
    if ws_prefix_len(s) == s.len() {
        Seq::empty()
    } else {
        s.subrange(ws_prefix_len(s) as int, s.len() - ws_suffix_len(s))
    }
}

/// The leading-whitespace count is the first non-whitespace position.
proof fn lemma_ws_prefix_char(s: Seq<char>, i: int)
    requires
        0 <= i <= s.len(),
        forall|k: int| 0 <= k < i ==> whitespace(s[k]),
        i < s.len() ==> !whitespace(s[i]),
    ensures
        ws_prefix_len(s) == i,
    decreases i,
{
    if i == 0 {
    } else {
        assert(whitespace(s[0]));
        lemma_ws_prefix_char(s.drop_first(), i - 1);
    }
}

/// The trailing-whitespace count is measured from the last
/// non-whitespace position.
proof fn lemma_ws_suffix_char(s: Seq<char>, m: int)
    requires
        0 <= m <= s.len(),
        forall|k: int| s.len() - m <= k < s.len() ==> whitespace(s[k]),
        m < s.len() ==> !whitespace(s[s.len() - m - 1]),
    ensures
        ws_suffix_len(s) == m,
    decreases m,
{
    if m == 0 {
    } else {
        assert(whitespace(s.last()));
        lemma_ws_suffix_char(s.drop_last(), m - 1);
    }
}

/// Removes leading and trailing whitespace, as written to the marker
/// file.
pub fn trim_text(s: &str) -> (r: String)
    ensures
        r@ == trimmed(s@),
{
    let n: usize = s.unicode_len();
    let mut i: usize = 0;
    while i < n && is_whitespace_char(s.get_char(i))
        invariant
            n == s@.len(),
            i <= n,
            forall|k: int| 0 <= k < i ==> whitespace(s@[k]),
        decreases n - i,
    {
        i += 1;
    }
    if i == n {
        proof {
            lemma_ws_prefix_char(s@, n as int);
        }
        return String::new();
    }
    proof {
        lemma_ws_prefix_char(s@, i as int);
    }
    let mut j: usize = n;
    while j > i && is_whitespace_char(s.get_char(j - 1))
        invariant
            n == s@.len(),
            i <= j <= n,
            i < n,
            !whitespace(s@[i as int]),
            forall|k: int| j <= k < n ==> whitespace(s@[k]),
        decreases j,
    {
        j -= 1;
    }
    proof {
        if j == i {
            assert(whitespace(s@[i as int]));
        }
        lemma_ws_suffix_char(s@, n - j as int);
    }
    let t = s.substring_char(i, j);
    t.to_owned()
}

/// The character for one decimal digit.
pub open spec fn dec_digit(d: nat) -> char {
    if d == 0 {
        '0'
    } else if d == 1 {
        '1'
    } else if d == 2 {
        '2'
    } else if d == 3 {
        '3'
    } else if d == 4 {
        '4'
    } else if d == 5 {
        '5'
    } else if d == 6 {
        '6'
    } else if d == 7 {
        '7'
    } else if d == 8 {
        '8'
    } else {
        '9'
    }
}

/// The decimal digits of `n`, most significant first.
pub open spec fn dec_of(n: nat) -> Seq<char>
    decreases n,
{
    if n < 10 {
        seq![dec_digit(n)]
    } else {
        dec_of(n / 10).push(dec_digit(n % 10))
    }
}

/// The character for the digit `d`.
fn digit_char(d: u64) -> (c: char)
    requires
        d < 10,
    ensures
        c == dec_digit(d as nat),
{
    if d == 0 {
        '0'
    } else if d == 1 {
        '1'
    } else if d == 2 {
        '2'
    } else if d == 3 {
        '3'
    } else if d == 4 {
        '4'
    } else if d == 5 {
        '5'
    } else if d == 6 {
        '6'
    } else if d == 7 {
        '7'
    } else if d == 8 {
        '8'
    } else {
        '9'
    }
}

/// Writes `n` in decimal.
pub fn u64_to_dec(n: u64) -> (r: String)
    ensures
        r@ == dec_of(n as nat),
    decreases n,
{
    if n < 10 {
        let mut s = String::new();
        push_char(&mut s, digit_char(n));
        proof {
            assert(s@ =~= seq![dec_digit(n as nat)]);
        }
        s
    } else {
        let mut s = u64_to_dec(n / 10);
        push_char(&mut s, digit_char(n % 10));
        s
    }
}

/// A decimal rendering is never empty.
pub proof fn lemma_dec_len(n: nat)
    ensures
        dec_of(n).len() >= 1,
    decreases n,
{
    if n >= 10 {
        lemma_dec_len(n / 10);
    }
}

/// Distinct digits render as distinct characters.
proof fn lemma_digit_injective(d1: nat, d2: nat)
    requires
        d1 < 10,
        d2 < 10,
        dec_digit(d1) == dec_digit(d2),
    ensures
        d1 == d2,
{
}

/// The decimal rendering is injective.
pub proof fn lemma_dec_injective(a: nat, b: nat)
    requires
        dec_of(a) == dec_of(b),
    ensures
        a == b,
    decreases a,
{
    if a < 10 && b < 10 {
        assert(dec_of(a)[0] == dec_digit(a));
        assert(dec_of(b)[0] == dec_digit(b));
        lemma_digit_injective(a, b);
    } else if a < 10 {
        assert(dec_of(a).len() == 1);
        lemma_dec_len(b / 10);
        assert(dec_of(b).len() >= 2);
    } else if b < 10 {
        assert(dec_of(b).len() == 1);
        lemma_dec_len(a / 10);
        assert(dec_of(a).len() >= 2);
    } else {
        assert(dec_of(a).last() == dec_digit(a % 10));
        assert(dec_of(b).last() == dec_digit(b % 10));
        lemma_digit_injective(a % 10, b % 10);
        assert(dec_of(a).drop_last() =~= dec_of(a / 10));
        assert(dec_of(b).drop_last() =~= dec_of(b / 10));
        lemma_dec_injective(a / 10, b / 10);
        assert(a == a / 10 * 10 + a % 10);
        assert(b == b / 10 * 10 + b % 10);
    }
}

/// A collision candidate: the base name, an underscore, and a counter.
pub open spec fn suffixed(base: Seq<char>, k: nat) -> Seq<char> {
    base + seq!['_'] + dec_of(k)
}

/// Builds the collision candidate `base_k`.
pub fn with_suffix(base: &str, k: u64) -> (r: String)
    ensures
        r@ == suffixed(base@, k as nat),
{
    let mut s: String = base.to_owned();
    push_char(&mut s, '_');
    let d = u64_to_dec(k);
    s.append(d.as_str());
    proof {
        assert(s@ =~= base@ + seq!['_'] + dec_of(k as nat));
    }
    s
}

/// Character-wise string equality.
pub fn str_eq_chars(a: &str, b: &str) -> (r: bool)
    ensures
        r == (a@ == b@),
{
    let na: usize = a.unicode_len();
    let nb: usize = b.unicode_len();
    if na != nb {
        return false;
    }
    let mut i: usize = 0;
    while i < na
        invariant
            na == a@.len(),
            na == b@.len(),
            i <= na,
            forall|k: int| 0 <= k < i ==> a@[k] == b@[k],
        decreases na - i,
    {
        if a.get_char(i) != b.get_char(i) {
            return false;
        }
        i += 1;
    }
    proof {
        assert(a@ =~= b@);
    }
    true
}

} // verus!
