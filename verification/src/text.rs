//! Decimal text: the character-level grammar shared by the configuration
//! validator, the interface-suffix parser and the command builders.

use vstd::prelude::*;

verus! {

/// A decimal digit `'0'..='9'`.
pub open spec fn is_digit(c: char) -> bool {
    48 <= c as int && c as int <= 57
}

/// Numeric value of one digit.
pub open spec fn digit_val(c: char) -> int {
    c as int - 48
}

/// Every character of `s` is a decimal digit.
pub open spec fn all_digits(s: Seq<char>) -> bool {
    forall|i: int| 0 <= i < s.len() ==> is_digit(s[i])
}

/// The number denoted by a digit string, most significant digit first.
pub open spec fn dec_value(s: Seq<char>) -> int
    decreases s.len(),
{
    if s.len() == 0 {
        0
    } else {
        dec_value(s.drop_last()) * 10 + digit_val(s.last())
    }
}

/// `s` is a plain decimal numeral whose value fits below `bound`.
pub open spec fn is_dec_numeral(s: Seq<char>, bound: int) -> bool {
    s.len() > 0 && all_digits(s) && dec_value(s) <= bound
}

pub proof fn lemma_dec_value_nonneg(s: Seq<char>)
    requires
        all_digits(s),
    ensures
        dec_value(s) >= 0,
    decreases s.len(),
{
    if s.len() > 0 {
        assert(all_digits(s.drop_last()));
        lemma_dec_value_nonneg(s.drop_last());
    }
}

/// Parses a string of decimal digits as a `u32`.
pub fn parse_u32(s: &str) -> (r: Option<u32>)
    ensures
        match r {
            Some(v) => is_dec_numeral(s@, u32::MAX as int) && v as int == dec_value(s@),
            None => !is_dec_numeral(s@, u32::MAX as int),
        },
{
    match parse_u64(s) {
        Some(v) => {
            if v <= u32::MAX as u64 {
                Some(v as u32)
            } else {
                None
            }
        },
        None => {
            proof {
                if is_dec_numeral(s@, u32::MAX as int) {
                    assert(is_dec_numeral(s@, u64::MAX as int));
                }
            }
            None
        },
    }
}

/// Parses a string of decimal digits as a `u64`.
///
/// Unlike the standard parser this accepts digits only (no sign); the
/// supervisor's configuration values are all plain numerals.
pub fn parse_u64(s: &str) -> (r: Option<u64>)
    ensures
        match r {
            Some(v) => is_dec_numeral(s@, u64::MAX as int) && v as int == dec_value(s@),
            None => !is_dec_numeral(s@, u64::MAX as int),
        },
{
    let len = s.unicode_len();
    if len == 0 {
        return None;
    }
    let mut i: usize = 0;
    let mut acc: u64 = 0;
    let mut overflow: bool = false;
    while i < len
        invariant
            0 <= i <= len,
            len == s@.len(),
            forall|j: int| 0 <= j < i ==> is_digit(s@[j]),
            !overflow ==> acc as int == dec_value(s@.subrange(0, i as int)),
            overflow ==> dec_value(s@.subrange(0, i as int)) > u64::MAX as int,
        decreases len - i,
    {
        let c = s.get_char(i);
        let cv = c as u32;
        if cv < 48 || cv > 57 {
            return None;
        }
        let d = (cv - 48) as u64;
        proof {
            assert(s@.subrange(0, i + 1 as int).drop_last() =~= s@.subrange(0, i as int));
        }
        if !overflow {
            if acc > 1844674407370955161 || (acc == 1844674407370955161 && d > 5) {
                overflow = true;
                proof {
                    assert(dec_value(s@.subrange(0, i + 1 as int)) > u64::MAX as int);
                }
            } else {
                acc = acc * 10 + d;
            }
        } else {
            proof {
                assert(forall|j: int| 0 <= j < i + 1 ==> is_digit(s@[j]));
                assert(all_digits(s@.subrange(0, i as int)));
                lemma_dec_value_nonneg(s@.subrange(0, i as int));
            }
        }
        i += 1;
    }
    proof {
        assert(s@.subrange(0, len as int) =~= s@);
    }
    if overflow {
        None
    } else {
        Some(acc)
    }
}

/// The digit character for a value below ten.
pub open spec fn digit_char(d: int) -> char {
    if d == 0 {
        '0'
    } else if d == 1 {
        '1'
    } else if d == 2 {
        '2'
    } else if d == 3 {
        '3'
    } else if d == 4 {
        '4'
    } else if d == 5 {
        '5'
    } else if d == 6 {
        '6'
    } else if d == 7 {
        '7'
    } else if d == 8 {
        '8'
    } else {
        '9'
    }
}

/// The decimal numeral of a non-negative number, most significant digit first.
pub open spec fn dec_digits(n: int) -> Seq<char>
    decreases n,
{
    if n < 10 {
        seq![digit_char(n)]
    } else {
        dec_digits(n / 10) + seq![digit_char(n % 10)]
    }
}

fn digit_str(d: u64) -> (r: &'static str)
    requires
        d < 10,
    ensures
        r@ =~= seq![digit_char(d as int)],
{
    proof {
        reveal_strlit("0");
        reveal_strlit("1");
        reveal_strlit("2");
        reveal_strlit("3");
        reveal_strlit("4");
        reveal_strlit("5");
        reveal_strlit("6");
        reveal_strlit("7");
        reveal_strlit("8");
        reveal_strlit("9");
    }
    match d {
        0 => "0",
        1 => "1",
        2 => "2",
        3 => "3",
        4 => "4",
        5 => "5",
        6 => "6",
        7 => "7",
        8 => "8",
        _ => "9",
    }
}

/// Renders a number as its decimal numeral.
pub fn u64_to_string(n: u64) -> (r: String)
    ensures
        r@ == dec_digits(n as int),
    decreases n,
{
    if n < 10 {
        digit_str(n).to_owned()
    } else {
        proof {
            vstd::arithmetic::div_mod::lemma_div_decreases(n as int, 10);
        }
        let q = n / 10;
        let d = n % 10;
        let prefix = u64_to_string(q);
        let r = prefix.concat(digit_str(d));
        proof {
            assert(r@ =~= dec_digits(n as int));
        }
        r
    }
}

/// A numeral denotes the number it was rendered from.
pub proof fn lemma_dec_digits_value(n: int)
    requires
        n >= 0,
    ensures
        dec_value(dec_digits(n)) == n,
        all_digits(dec_digits(n)),
        dec_digits(n).len() > 0,
    decreases n,
{
    if n < 10 {
        let s = dec_digits(n);
        assert(s.drop_last() =~= Seq::<char>::empty());
        assert(dec_value(s) == dec_value(Seq::<char>::empty()) * 10 + digit_val(digit_char(n)));
    } else {
        vstd::arithmetic::div_mod::lemma_div_decreases(n, 10);
        vstd::arithmetic::div_mod::lemma_div_pos_is_pos(n, 10);
        lemma_dec_digits_value(n / 10);
        let s = dec_digits(n);
        assert(s.drop_last() =~= dec_digits(n / 10));
        assert(s.last() == digit_char(n % 10));
        vstd::arithmetic::div_mod::lemma_fundamental_div_mod(n, 10);
        assert(dec_value(s) == dec_value(dec_digits(n / 10)) * 10 + digit_val(digit_char(n % 10)));
    }
}

/// Distinct numbers render as distinct numerals.
pub proof fn lemma_dec_digits_injective(a: int, b: int)
    requires
        a >= 0,
        b >= 0,
        a != b,
    ensures
        dec_digits(a) != dec_digits(b),
{
    lemma_dec_digits_value(a);
    lemma_dec_digits_value(b);
}

/// `pat` occurs in `s` starting at position `i`.
pub open spec fn occurs_at(s: Seq<char>, pat: Seq<char>, i: int) -> bool {
    0 <= i && i + pat.len() <= s.len() && s.subrange(i, i + pat.len()) == pat
}

/// `pat` occurs somewhere in `s`.
pub open spec fn contains_seq(s: Seq<char>, pat: Seq<char>) -> bool {
    exists|i: int| occurs_at(s, pat, i)
}

/// Substring search: whether `pat` occurs in `s`.
pub fn str_contains(s: &str, pat: &str) -> (r: bool)
    ensures
        r == contains_seq(s@, pat@),
{
    let slen = s.unicode_len();
    let plen = pat.unicode_len();
    if plen > slen {
        proof {
            assert(forall|i: int| !occurs_at(s@, pat@, i));
        }
        return false;
    }
    if plen == 0 {
        proof {
            assert(s@.subrange(0, 0) =~= pat@);
            assert(occurs_at(s@, pat@, 0));
        }
        return true;
    }
    let mut i: usize = 0;
    while i <= slen - plen
        invariant
            0 < plen <= slen,
            slen == s@.len(),
            plen == pat@.len(),
            0 <= i <= slen - plen + 1,
            forall|k: int| 0 <= k < i ==> !occurs_at(s@, pat@, k),
        decreases slen - plen + 1 - i,
    {
        let mut j: usize = 0;
        let mut matches: bool = true;
        while j < plen
            invariant
                plen <= slen,
                slen == s@.len(),
                plen == pat@.len(),
                0 <= i <= slen - plen,
                0 <= j <= plen,
                matches ==> forall|k: int| 0 <= k < j ==> s@[i + k] == pat@[k],
                !matches ==> !occurs_at(s@, pat@, i as int),
            decreases plen - j,
        {
            if matches {
                let cs = s.get_char(i + j);
                let cp = pat.get_char(j);
                if cs != cp {
                    proof {
                        assert(s@.subrange(i as int, i + plen as int)[j as int] != pat@[j as int]);
                    }
                    matches = false;
                }
            }
            j += 1;
        }
        if matches {
            proof {
                assert(s@.subrange(i as int, i + plen as int) =~= pat@);
                assert(occurs_at(s@, pat@, i as int));
            }
            return true;
        }
        i += 1;
    }
    proof {
        assert(forall|k: int| occurs_at(s@, pat@, k) ==> 0 <= k <= slen - plen);
    }
    false
}

/// Whitespace as the dialer's output uses it.
pub open spec fn is_space(c: char) -> bool {
    c == ' ' || c == '\t' || c == '\r' || c == '\n'
}

/// First position at or after `i` holding a non-space character, or the end.
pub open spec fn next_nonspace(s: Seq<char>, i: int) -> int
    decreases s.len() - i when 0 <= i <= s.len()
{
    if i >= s.len() {
        i
    } else if !is_space(s[i]) {
        i
    } else {
        next_nonspace(s, i + 1)
    }
}

/// First position at or after `i` holding a space, or the end.
pub open spec fn next_space(s: Seq<char>, i: int) -> int
    decreases s.len() - i when 0 <= i <= s.len()
{
    if i >= s.len() {
        i
    } else if is_space(s[i]) {
        i
    } else {
        next_space(s, i + 1)
    }
}

pub proof fn lemma_next_nonspace_bounds(s: Seq<char>, i: int)
    requires
        0 <= i <= s.len(),
    ensures
        i <= next_nonspace(s, i) <= s.len(),
        next_nonspace(s, i) < s.len() ==> !is_space(s[next_nonspace(s, i)]),
    decreases s.len() - i,
{
    if i < s.len() && is_space(s[i]) {
        lemma_next_nonspace_bounds(s, i + 1);
    }
}

pub proof fn lemma_next_space_bounds(s: Seq<char>, i: int)
    requires
        0 <= i <= s.len(),
    ensures
        i <= next_space(s, i) <= s.len(),
        next_space(s, i) < s.len() ==> is_space(s[next_space(s, i)]),
    decreases s.len() - i,
{
    if i < s.len() && !is_space(s[i]) {
        lemma_next_space_bounds(s, i + 1);
    }
}

/// A scan that saw only spaces pins `next_nonspace` down.
pub proof fn lemma_next_nonspace_is(s: Seq<char>, i: int, r: int)
    requires
        0 <= i <= r <= s.len(),
        forall|k: int| i <= k < r ==> is_space(s[k]),
        r == s.len() || !is_space(s[r]),
    ensures
        next_nonspace(s, i) == r,
    decreases r - i,
{
    if i < r {
        lemma_next_nonspace_is(s, i + 1, r);
    }
}

/// A scan that saw only non-spaces pins `next_space` down.
pub proof fn lemma_next_space_is(s: Seq<char>, i: int, r: int)
    requires
        0 <= i <= r <= s.len(),
        forall|k: int| i <= k < r ==> !is_space(s[k]),
        r == s.len() || is_space(s[r]),
    ensures
        next_space(s, i) == r,
    decreases r - i,
{
    if i < r {
        lemma_next_space_is(s, i + 1, r);
    }
}

/// The whitespace-separated tokens of `s` from position `i` on.
pub open spec fn tokens_from(s: Seq<char>, i: int) -> Seq<Seq<char>>
    decreases s.len() - i when 0 <= i <= s.len() via tokens_from_decreases
{
    let a = next_nonspace(s, i);
    if a >= s.len() {
        Seq::empty()
    } else {
        seq![s.subrange(a, next_space(s, a))] + tokens_from(s, next_space(s, a))
    }
}

#[via_fn]
proof fn tokens_from_decreases(s: Seq<char>, i: int) {
    lemma_next_nonspace_bounds(s, i);
    let a = next_nonspace(s, i);
    if a < s.len() {
        lemma_next_space_bounds(s, a);
        assert(next_space(s, a) == next_space(s, a + 1));
        lemma_next_space_bounds(s, a + 1);
    }
}

/// The whitespace-separated tokens of `s`.
pub open spec fn tokens(s: Seq<char>) -> Seq<Seq<char>> {
    tokens_from(s, 0)
}

fn is_space_char(c: char) -> (r: bool)
    ensures
        r == is_space(c),
{
    c == ' ' || c == '\t' || c == '\r' || c == '\n'
}

/// Extracts token number `n` (counting from zero) of a whitespace-separated
/// string, or `None` when the string has no such token.
pub fn nth_token(s: &str, n: usize) -> (r: Option<String>)
    ensures
        match r {
            Some(t) => n < tokens(s@).len() && t@ == tokens(s@)[n as int],
            None => n >= tokens(s@).len(),
        },
{
    let len = s.unicode_len();
    let ghost toks = tokens(s@);
    let mut i: usize = 0;
    let mut count: usize = 0;
    loop
        invariant
            len == s@.len(),
            toks == tokens(s@),
            0 <= i <= len,
            count <= n,
            count <= toks.len(),
            tokens_from(s@, i as int) =~= toks.skip(count as int),
        decreases len - i + (n - count),
    {
        let ghost i_entry = i as int;
        // Skip the spaces before the next token.
        while i < len && is_space_char(s.get_char(i))
            invariant
                len == s@.len(),
                toks == tokens(s@),
                i_entry <= i <= len,
                count <= n,
                count <= toks.len(),
                tokens_from(s@, i as int) =~= toks.skip(count as int),
            decreases len - i,
        {
            proof {
                assert(next_nonspace(s@, i as int) == next_nonspace(s@, i + 1 as int));
                assert(tokens_from(s@, i as int) == tokens_from(s@, i + 1 as int));
            }
            i += 1;
        }
        if i == len {
            proof {
                assert(tokens_from(s@, len as int) =~= Seq::<Seq<char>>::empty());
                assert(toks.skip(count as int).len() == 0);
            }
            return None;
        }
        // A token starts here; scan to its end.
        let a = i;
        while i < len && !is_space_char(s.get_char(i))
            invariant
                len == s@.len(),
                toks == tokens(s@),
                a <= i <= len,
                a < len,
                count <= n,
                count <= toks.len(),
                !is_space(s@[a as int]),
                forall|k: int| a <= k < i ==> !is_space(s@[k]),
                tokens_from(s@, a as int) =~= toks.skip(count as int),
            decreases len - i,
        {
            i += 1;
        }
        proof {
            lemma_next_space_is(s@, a as int, i as int);
            assert(next_nonspace(s@, a as int) == a as int);
            assert(tokens_from(s@, a as int) =~= seq![s@.subrange(a as int, i as int)]
                + tokens_from(s@, i as int));
            assert(toks.skip(count as int)[0] == toks[count as int]);
            assert(toks[count as int] == s@.subrange(a as int, i as int));
        }
        if count == n {
            let t = s.substring_char(a, i);
            return Some(t.to_owned());
        }
        proof {
            assert(toks.skip(count as int).drop_first() =~= toks.skip(count + 1 as int));
        }
        count += 1;
    }
}

/// Strict lexicographic order on character sequences, by scalar value.
pub open spec fn lex_lt(a: Seq<char>, b: Seq<char>) -> bool
    decreases a.len(),
{
    if b.len() == 0 {
        false
    } else if a.len() == 0 {
        true
    } else if (a[0] as int) < (b[0] as int) {
        true
    } else if a[0] == b[0] {
        lex_lt(a.drop_first(), b.drop_first())
    } else {
        false
    }
}

/// Two sequences are equal or strictly ordered one way, never both.
pub proof fn lemma_lex_trichotomy(a: Seq<char>, b: Seq<char>)
    ensures
        lex_lt(a, b) || lex_lt(b, a) || a =~= b,
        lex_lt(a, b) ==> !lex_lt(b, a) && !(a =~= b),
        lex_lt(b, a) ==> !lex_lt(a, b) && !(a =~= b),
    decreases a.len(),
{
    if a.len() > 0 && b.len() > 0 && a[0] == b[0] {
        lemma_lex_trichotomy(a.drop_first(), b.drop_first());
        if a.drop_first() =~= b.drop_first() {
            assert forall|i: int| 0 <= i < a.len() implies a[i] == b[i] by {
                if i > 0 {
                    assert(a.drop_first()[i - 1] == a[i]);
                    assert(b.drop_first()[i - 1] == b[i]);
                }
            }
            assert(a =~= b);
        }
        if a =~= b {
            assert(a.drop_first() =~= b.drop_first());
        }
    }
}

pub proof fn lemma_lex_transitive(a: Seq<char>, b: Seq<char>, c: Seq<char>)
    requires
        lex_lt(a, b),
        lex_lt(b, c),
    ensures
        lex_lt(a, c),
    decreases a.len(),
{
    if a.len() > 0 && b.len() > 0 && c.len() > 0 && a[0] == b[0] && b[0] == c[0] {
        lemma_lex_transitive(a.drop_first(), b.drop_first(), c.drop_first());
    }
}

/// Compares two strings in the order of `lex_lt`.
pub fn str_lex_lt(a: &str, b: &str) -> (r: bool)
    ensures
        r == lex_lt(a@, b@),
{
    let alen = a.unicode_len();
    let blen = b.unicode_len();
    let mut i: usize = 0;
    proof {
        assert(a@.skip(0) =~= a@);
        assert(b@.skip(0) =~= b@);
    }
    loop
        invariant
            alen == a@.len(),
            blen == b@.len(),
            0 <= i <= alen,
            0 <= i <= blen,
            lex_lt(a@, b@) == lex_lt(a@.skip(i as int), b@.skip(i as int)),
        decreases alen - i,
    {
        if i == alen {
            proof {
                assert(lex_lt(a@.skip(i as int), b@.skip(i as int)) == (i < blen));
            }
            return i < blen;
        }
        if i == blen {
            proof {
                assert(b@.skip(i as int).len() == 0);
            }
            return false;
        }
        let ca = a.get_char(i);
        let cb = b.get_char(i);
        proof {
            assert(a@.skip(i as int)[0] == a@[i as int]);
            assert(b@.skip(i as int)[0] == b@[i as int]);
        }
        if ca != cb {
            proof {
                assert(lex_lt(a@.skip(i as int), b@.skip(i as int)) == ((ca as int) < (cb as int)));
            }
            return (ca as u32) < (cb as u32);
        }
        proof {
            assert(a@.skip(i as int).drop_first() =~= a@.skip(i + 1 as int));
            assert(b@.skip(i as int).drop_first() =~= b@.skip(i + 1 as int));
        }
        i += 1;
    }
}

/// `p` is a prefix of `s`.
pub open spec fn has_prefix(s: Seq<char>, p: Seq<char>) -> bool {
    p.len() <= s.len() && s.take(p.len() as int) == p
}

/// Whether `p` starts `s`.
pub fn str_has_prefix(s: &str, p: &str) -> (r: bool)
    ensures
        r == has_prefix(s@, p@),
{
    let slen = s.unicode_len();
    let plen = p.unicode_len();
    if plen > slen {
        return false;
    }
    let mut i: usize = 0;
    while i < plen
        invariant
            plen <= slen,
            slen == s@.len(),
            plen == p@.len(),
            0 <= i <= plen,
            forall|k: int| 0 <= k < i ==> s@[k] == p@[k],
        decreases plen - i,
    {
        if s.get_char(i) != p.get_char(i) {
            proof {
                assert(s@.take(plen as int)[i as int] != p@[i as int]);
            }
            return false;
        }
        i += 1;
    }
    proof {
        assert(s@.take(plen as int) =~= p@);
    }
    true
}

/// Whether two strings hold the same characters.
pub fn str_eq(a: &str, b: &str) -> (r: bool)
    ensures
        r == (a@ == b@),
{
    let lt = str_lex_lt(a, b);
    let gt = str_lex_lt(b, a);
    proof {
        lemma_lex_trichotomy(a@, b@);
    }
    !lt && !gt
}

} // verus!
