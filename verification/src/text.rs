//! Verified text utilities for the line protocol: whitespace tokenization,
//! prefix and substring tests, and numeric token parsing.

use vstd::prelude::*;

verus! {

/// The separators the protocol uses between tokens: ASCII whitespace.
pub open spec fn is_space(c: char) -> bool {
    c == ' ' || c == '\t' || c == '\n' || c == '\r'
}

fn is_space_exec(c: char) -> (r: bool)
    ensures
        r == is_space(c),
{
    c == ' ' || c == '\t' || c == '\n' || c == '\r'
}

/// The first index at or after `i` holding a space, or the length when
/// every later character is part of a token.
pub open spec fn first_space_from(s: Seq<char>, i: nat) -> nat
    decreases s.len() - i,
{
    if i >= s.len() {
        s.len()
    } else if is_space(s[i as int]) {
        i
    } else {
        first_space_from(s, (i + 1) as nat)
    }
}

pub proof fn lemma_first_space_from(s: Seq<char>, i: nat)
    requires
        i <= s.len(),
    ensures
        i <= first_space_from(s, i) <= s.len(),
        forall|m: int| i <= m < first_space_from(s, i) ==> !is_space(#[trigger] s[m]),
        first_space_from(s, i) < s.len() ==> is_space(s[first_space_from(s, i) as int]),
    decreases s.len() - i,
{
    if i < s.len() && !is_space(s[i as int]) {
        lemma_first_space_from(s, (i + 1) as nat);
    }
}

/// `first_space_from` is pinned down by its characterization: no space
/// before `j`, and a space (or the end) at `j`.
pub proof fn lemma_first_space_from_is(s: Seq<char>, i: nat, j: nat)
    requires
        i <= j <= s.len(),
        forall|m: int| i <= m < j ==> !is_space(#[trigger] s[m]),
        j < s.len() ==> is_space(s[j as int]),
    ensures
        first_space_from(s, i) == j,
    decreases j - i,
{
    if i < j {
        lemma_first_space_from_is(s, (i + 1) as nat, j);
    }
}

/// The whitespace-separated tokens of `s` from position `i` on.
pub open spec fn spec_tokens_from(s: Seq<char>, i: nat) -> Seq<Seq<char>>
    decreases s.len() - i,
    via spec_tokens_from_decreases
{
    if i >= s.len() {
        seq![]
    } else if is_space(s[i as int]) {
        spec_tokens_from(s, (i + 1) as nat)
    } else {
        let j = first_space_from(s, (i + 1) as nat);
        seq![s.subrange(i as int, j as int)] + spec_tokens_from(s, j)
    }
}

#[via_fn]
proof fn spec_tokens_from_decreases(s: Seq<char>, i: nat) {
    if i < s.len() && !is_space(s[i as int]) {
        lemma_first_space_from(s, (i + 1) as nat);
    }
}

/// The whitespace-separated tokens of `s`, in order.
pub open spec fn spec_tokens(s: Seq<char>) -> Seq<Seq<char>> {
    spec_tokens_from(s, 0)
}

/// `p` occurs in `s` at position `i`.
pub open spec fn match_at(s: Seq<char>, p: Seq<char>, i: int) -> bool {
    &&& 0 <= i
    &&& i + p.len() <= s.len()
    &&& forall|j: int| 0 <= j < p.len() ==> s[i + j] == #[trigger] p[j]
}

/// `s` begins with `p`.
pub open spec fn starts_with(s: Seq<char>, p: Seq<char>) -> bool {
    match_at(s, p, 0)
}

/// `p` occurs somewhere in `s`.
pub open spec fn contains_seq(s: Seq<char>, p: Seq<char>) -> bool {
    exists|i: int| match_at(s, p, i)
}

/// Character-for-character equality of two string slices.
pub fn str_eq(a: &str, b: &str) -> (r: bool)
    ensures
        r == (a@ == b@),
{
    let n = a.unicode_len();
    let m = b.unicode_len();
    if n != m {
        assert(a@ != b@) by {
            assert(a@.len() != b@.len());
        }
        return false;
    }
    let mut i: usize = 0;
    while i < n
        invariant
            n == a@.len(),
            n == b@.len(),
            i <= n,
            forall|j: int| 0 <= j < i ==> a@[j] == b@[j],
        decreases n - i,
    {
        if a.get_char(i) != b.get_char(i) {
            return false;
        }
        i += 1;
    }
    proof {
        assert(a@ =~= b@);
    }
    true
}

/// Does `s` begin with `p`?
pub fn str_starts_with(s: &str, p: &str) -> (r: bool)
    ensures
        r == starts_with(s@, p@),
{
    let n = s.unicode_len();
    let m = p.unicode_len();
    if m > n {
        return false;
    }
    let mut j: usize = 0;
    while j < m
        invariant
            n == s@.len(),
            m == p@.len(),
            m <= n,
            j <= m,
            forall|k: int| 0 <= k < j ==> s@[k] == #[trigger] p@[k],
        decreases m - j,
    {
        if s.get_char(j) != p.get_char(j) {
            return false;
        }
        j += 1;
    }
    true
}

/// Does `p` occur anywhere in `s`?
pub fn str_contains(s: &str, p: &str) -> (r: bool)
    ensures
        r == contains_seq(s@, p@),
{
    let n = s.unicode_len();
    let m = p.unicode_len();
    if m > n {
        return false;
    }
    if m == 0 {
        assert(match_at(s@, p@, 0));
        return true;
    }
    let mut i: usize = 0;
    while i <= n - m
        invariant
            n == s@.len(),
            m == p@.len(),
            0 < m <= n,
            i <= n - m + 1,
            forall|q: int| 0 <= q < i ==> !match_at(s@, p@, q),
        decreases n - i,
    {
        let mut j: usize = 0;
        let mut matched = true;
        while matched && j < m
            invariant
                n == s@.len(),
                m == p@.len(),
                m <= n,
                i + m <= n,
                j <= m,
                matched ==> forall|k: int| 0 <= k < j ==> s@[i + k] == #[trigger] p@[k],
                !matched ==> !match_at(s@, p@, i as int),
            decreases m - j,
        {
            if s.get_char(i + j) != p.get_char(j) {
                matched = false;
                j = m;
            } else {
                j += 1;
            }
        }
        if matched {
            assert(match_at(s@, p@, i as int));
            return true;
        }
        i += 1;
    }
    assert(forall|q: int| match_at(s@, p@, q) ==> 0 <= q && q + p@.len() <= s@.len());
    false
}

/// The index of the first character of `s` that is not whitespace, or the
/// length when there is none.
pub open spec fn first_nonspace(s: Seq<char>, i: nat) -> nat
    decreases s.len() - i,
{
    if i >= s.len() {
        s.len()
    } else if !is_space(s[i as int]) {
        i
    } else {
        first_nonspace(s, (i + 1) as nat)
    }
}

/// `s` without its leading whitespace.
pub open spec fn spec_trim_start(s: Seq<char>) -> Seq<char> {
    s.subrange(first_nonspace(s, 0) as int, s.len() as int)
}

/// Returns the suffix of `s` that starts at its first non-whitespace
/// character.
pub fn trim_start<'a>(s: &'a str) -> (r: &'a str)
    ensures
        r@ == spec_trim_start(s@),
{
    let n = s.unicode_len();
    let mut i: usize = 0;
    while i < n && is_space_exec(s.get_char(i))
        invariant
            n == s@.len(),
            i <= n,
            forall|m: int| 0 <= m < i ==> is_space(#[trigger] s@[m]),
        decreases n - i,
    {
        i += 1;
    }
    proof {
        lemma_first_nonspace_is(s@, 0, i as nat);
    }
    s.substring_char(i, n)
}

proof fn lemma_first_nonspace_is(s: Seq<char>, i: nat, j: nat)
    requires
        i <= j <= s.len(),
        forall|m: int| i <= m < j ==> is_space(#[trigger] s[m]),
        j < s.len() ==> !is_space(s[j as int]),
    ensures
        first_nonspace(s, i) == j,
    decreases j - i,
{
    if i < j {
        lemma_first_nonspace_is(s, (i + 1) as nat, j);
    }
}

/// Splits `s` into its whitespace-separated tokens.
pub fn tokenize(s: &str) -> (tokens: Vec<String>)
    ensures
        tokens.deep_view() == spec_tokens(s@),
{
    let n = s.unicode_len();
    let mut tokens: Vec<String> = Vec::new();
    proof {
        assert(tokens.deep_view() + spec_tokens_from(s@, 0) =~= spec_tokens_from(s@, 0));
    }
    let mut i: usize = 0;
    while i < n
        invariant
            n == s@.len(),
            i <= n,
            spec_tokens(s@) == tokens.deep_view() + spec_tokens_from(s@, i as nat),
        decreases n - i,
    {
        if is_space_exec(s.get_char(i)) {
            i += 1;
        } else {
            let ghost start = i as nat;
            let ghost pre = tokens.deep_view();
            let mut j: usize = i + 1;
            while j < n && !is_space_exec(s.get_char(j))
                invariant
                    n == s@.len(),
                    start < j <= n,
                    forall|m: int| start < m < j ==> !is_space(#[trigger] s@[m]),
                decreases n - j,
            {
                j += 1;
            }
            proof {
                lemma_first_space_from_is(s@, (start + 1) as nat, j as nat);
            }
            let tok = s.substring_char(i, j);
            tokens.push(tok.to_owned());
            proof {
                let ghost piece = s@.subrange(start as int, j as int);
                assert(spec_tokens_from(s@, start) == seq![piece] + spec_tokens_from(
                    s@,
                    j as nat,
                ));
                assert(tokens.deep_view() =~= pre + seq![piece]);
                assert(pre + seq![piece] + spec_tokens_from(s@, j as nat) =~= pre + (seq![piece]
                    + spec_tokens_from(s@, j as nat)));
            }
            i = j;
        }
    }
    proof {
        assert(tokens.deep_view() + spec_tokens_from(s@, i as nat) =~= tokens.deep_view());
    }
    tokens
}

/// A decimal digit.
pub open spec fn is_digit(c: char) -> bool {
    48 <= c as u32 <= 57
}

pub open spec fn digit_val(c: char) -> int {
    c as u32 - 48
}

pub open spec fn all_digits(s: Seq<char>) -> bool {
    forall|i: int| 0 <= i < s.len() ==> is_digit(#[trigger] s[i])
}

/// The value of a run of decimal digits, most significant first.
pub open spec fn digits_val(s: Seq<char>) -> int
    decreases s.len(),
{
    if s.len() == 0 {
        0
    } else {
        digits_val(s.drop_last()) * 10 + digit_val(s.last())
    }
}

/// Whether `s` holds an optional sign followed by one or more digits.
pub open spec fn has_sign(s: Seq<char>) -> bool {
    s.len() >= 1 && (s[0] == '-' || s[0] == '+')
}

pub open spec fn is_int_token(s: Seq<char>) -> bool {
    if has_sign(s) {
        s.len() >= 2 && all_digits(s.subrange(1, s.len() as int))
    } else {
        s.len() >= 1 && all_digits(s)
    }
}

pub open spec fn int_token_val(s: Seq<char>) -> int {
    if has_sign(s) {
        if s[0] == '-' {
            -digits_val(s.subrange(1, s.len() as int))
        } else {
            digits_val(s.subrange(1, s.len() as int))
        }
    } else {
        digits_val(s)
    }
}

/// What parsing a token as a 32-bit signed integer yields: its value when
/// the token is well formed and in range, nothing otherwise.
pub open spec fn spec_parse_i32(s: Seq<char>) -> Option<i32> {
    if is_int_token(s) && i32::MIN <= int_token_val(s) <= i32::MAX {
        Some(int_token_val(s) as i32)
    } else {
        None
    }
}

pub proof fn lemma_digits_val_nonneg(s: Seq<char>)
    requires
        all_digits(s),
    ensures
        digits_val(s) >= 0,
    decreases s.len(),
{
    if s.len() > 0 {
        assert(all_digits(s.drop_last())) by {
            assert(forall|i: int|
                0 <= i < s.len() - 1 ==> s.drop_last()[i] == #[trigger] s[i]);
        }
        lemma_digits_val_nonneg(s.drop_last());
    }
}

/// Dropping trailing digits never increases the value.
pub proof fn lemma_digits_val_prefix(s: Seq<char>, k: int)
    requires
        all_digits(s),
        0 <= k <= s.len(),
    ensures
        digits_val(s) >= digits_val(s.subrange(0, k)),
    decreases s.len(),
{
    if k == s.len() {
        assert(s.subrange(0, k) =~= s);
    } else {
        let pre = s.drop_last();
        assert(all_digits(pre)) by {
            assert(forall|i: int| 0 <= i < pre.len() ==> pre[i] == #[trigger] s[i]);
        }
        lemma_digits_val_nonneg(pre);
        lemma_digits_val_prefix(pre, k);
        assert(pre.subrange(0, k) =~= s.subrange(0, k));
        assert(digits_val(s) == digits_val(pre) * 10 + digit_val(s.last()));
    }
}

/// Parses a token as a 32-bit signed integer, exactly as the value grammar
/// of the option and score fields demands: an optional sign and decimal
/// digits, rejected when malformed or out of range.
pub fn parse_i32(s: &str) -> (r: Option<i32>)
    ensures
        r == spec_parse_i32(s@),
{
    let n = s.unicode_len();
    if n == 0 {
        return None;
    }
    let c0 = s.get_char(0);
    let signed = c0 == '-' || c0 == '+';
    let neg = c0 == '-';
    let start: usize = if signed {
        1
    } else {
        0
    };
    if start >= n {
        return None;
    }
    let ghost tail = s@.subrange(start as int, n as int);
    let mut mag: u64 = 0;
    let mut i: usize = start;
    while i < n
        invariant
            n == s@.len(),
            n > 0,
            start <= i <= n,
            start < n,
            signed == has_sign(s@),
            neg == (s@[0] == '-'),
            start == (if signed { 1int } else { 0int }),
            tail == s@.subrange(start as int, n as int),
            forall|m: int| start <= m < i ==> is_digit(#[trigger] s@[m]),
            mag == digits_val(s@.subrange(start as int, i as int)),
            mag <= 0x8000_0000u64,
        decreases n - i,
    {
        let c = s.get_char(i);
        let u = c as u32;
        if u < 48 || u > 57 {
            assert(!is_int_token(s@)) by {
                assert(!is_digit(s@[i as int]));
                if is_int_token(s@) {
                    assert(is_digit(tail[i - start]));
                }
            }
            return None;
        }
        let d = (u - 48) as u64;
        let ghost pre = s@.subrange(start as int, i as int);
        let ghost ext = s@.subrange(start as int, i + 1);
        assert(ext.drop_last() =~= pre);
        assert(digits_val(ext) == mag * 10 + d);
        if mag > (0x8000_0000u64 - d) / 10 {
            proof {
                assert(mag * 10 + d > 0x8000_0000) by {
                    let b = 0x8000_0000int - d;
                    assert(mag >= b / 10 + 1);
                    assert((b / 10) * 10 + b % 10 == b);
                    assert(mag * 10 >= (b / 10 + 1) * 10);
                }
                if is_int_token(s@) {
                    assert(all_digits(tail));
                    lemma_digits_val_prefix(tail, i + 1 - start);
                    assert(tail.subrange(0, i + 1 - start) =~= ext);
                    lemma_digits_val_nonneg(tail);
                    assert(int_token_val(s@) == (if neg { -digits_val(tail) } else {
                        digits_val(tail)
                    })) by {
                        if signed {
                            assert(tail =~= s@.subrange(1, s@.len() as int));
                        } else {
                            assert(tail =~= s@);
                        }
                    }
                }
            }
            return None;
        }
        proof {
            let b = 0x8000_0000int - d;
            assert(mag <= b / 10);
            assert((b / 10) * 10 + b % 10 == b);
            assert(mag * 10 <= (b / 10) * 10);
        }
        mag = mag * 10 + d;
        i += 1;
        proof {
            assert(s@.subrange(start as int, i as int) =~= ext);
        }
    }
    proof {
        assert(tail =~= s@.subrange(start as int, i as int));
        if signed {
            assert(tail =~= s@.subrange(1, s@.len() as int));
        } else {
            assert(tail =~= s@);
        }
        assert(is_int_token(s@));
        assert(int_token_val(s@) == (if neg { -(mag as int) } else { mag as int }));
    }
    if neg {
        if mag == 0x8000_0000u64 {
            Some(i32::MIN)
        } else {
            Some(-(mag as i32))
        }
    } else {
        if mag == 0x8000_0000u64 {
            None
        } else {
            Some(mag as i32)
        }
    }
}

/// What parsing a token as a boolean yields: exactly the words the check
/// options use.
pub open spec fn spec_parse_bool(s: Seq<char>) -> Option<bool> {
    if s == "true"@ {
        Some(true)
    } else if s == "false"@ {
        Some(false)
    } else {
        None
    }
}

pub fn parse_bool(s: &str) -> (r: Option<bool>)
    ensures
        r == spec_parse_bool(s@),
{
    if str_eq(s, "true") {
        Some(true)
    } else if str_eq(s, "false") {
        Some(false)
    } else {
        None
    }
}

/// The largest index holding `c`, if any.
pub open spec fn last_index_of(s: Seq<char>, c: char) -> Option<int>
    decreases s.len(),
{
    if s.len() == 0 {
        None
    } else if s.last() == c {
        Some(s.len() - 1)
    } else {
        last_index_of(s.drop_last(), c)
    }
}

pub proof fn lemma_last_index_of_none(s: Seq<char>, c: char)
    requires
        forall|m: int| 0 <= m < s.len() ==> s[m] != c,
    ensures
        last_index_of(s, c) is None,
    decreases s.len(),
{
    if s.len() > 0 {
        lemma_last_index_of_none(s.drop_last(), c);
    }
}

pub proof fn lemma_last_index_of_is(s: Seq<char>, c: char, k: int)
    requires
        0 <= k < s.len(),
        s[k] == c,
        forall|m: int| k < m < s.len() ==> s[m] != c,
    ensures
        last_index_of(s, c) == Some(k),
    decreases s.len(),
{
    if k < s.len() - 1 {
        lemma_last_index_of_is(s.drop_last(), c, k);
    }
}

/// The index of the last occurrence of `c` in `s`.
pub fn rfind_char(s: &str, c: char) -> (r: Option<usize>)
    ensures
        match r {
            Some(k) => k < s@.len() && last_index_of(s@, c) == Some(k as int),
            None => last_index_of(s@, c) is None,
        },
{
    let n = s.unicode_len();
    let mut i: usize = n;
    while i > 0
        invariant
            n == s@.len(),
            i <= n,
            forall|m: int| i <= m < n ==> s@[m] != c,
        decreases i,
    {
        if s.get_char(i - 1) == c {
            proof {
                lemma_last_index_of_is(s@, c, i - 1);
            }
            return Some(i - 1);
        }
        i -= 1;
    }
    proof {
        lemma_last_index_of_none(s@, c);
    }
    None
}

} // verus!
