//! Text as sequences of code points: the order of strings, trimming, and
//! reading decimal numbers.

use std::cmp::Ordering;
use vstd::prelude::*;

verus! {

/// The code points of a text, in order.
pub open spec fn codes(s: Seq<char>) -> Seq<int> {
    Seq::new(s.len(), |i: int| s[i] as int)
}

/// `a` is not after `b` in the lexicographic order: at the first place where
/// they differ `a` holds the smaller number, or `a` is a prefix of `b`.
pub open spec fn lex_le(a: Seq<int>, b: Seq<int>) -> bool
    decreases a.len(),
{
    if a.len() == 0 {
        true
    } else if b.len() == 0 {
        false
    } else if a[0] != b[0] {
        a[0] < b[0]
    } else {
        lex_le(a.drop_first(), b.drop_first())
    }
}

/// `a` is not after `b` in the order of strings, which compares code points.
pub open spec fn text_le(a: Seq<char>, b: Seq<char>) -> bool {
    lex_le(codes(a), codes(b))
}

/// Any two sequences are comparable.
pub proof fn lemma_lex_le_total(a: Seq<int>, b: Seq<int>)
    ensures
        lex_le(a, b) || lex_le(b, a),
    decreases a.len(),
{
    if a.len() > 0 && b.len() > 0 && a[0] == b[0] {
        lemma_lex_le_total(a.drop_first(), b.drop_first());
    }
}

/// The order is transitive.
pub proof fn lemma_lex_le_transitive(a: Seq<int>, b: Seq<int>, c: Seq<int>)
    requires
        lex_le(a, b),
        lex_le(b, c),
    ensures
        lex_le(a, c),
    decreases a.len(),
{
    if a.len() > 0 && b.len() > 0 && c.len() > 0 && a[0] == b[0] && b[0] == c[0] {
        lemma_lex_le_transitive(a.drop_first(), b.drop_first(), c.drop_first());
    }
}

/// Two sequences that are each not after the other are the same sequence.
pub proof fn lemma_lex_le_antisymmetric(a: Seq<int>, b: Seq<int>)
    requires
        lex_le(a, b),
        lex_le(b, a),
    ensures
        a == b,
    decreases a.len(),
{
    if a.len() > 0 && b.len() > 0 {
        lemma_lex_le_antisymmetric(a.drop_first(), b.drop_first());
        assert(a =~= seq![a[0]] + a.drop_first());
        assert(b =~= seq![b[0]] + b.drop_first());
    } else {
        assert(a =~= b);
    }
}

/// Every sequence is not after itself.
pub proof fn lemma_lex_le_reflexive(a: Seq<int>)
    ensures
        lex_le(a, a),
{
    lemma_lex_le_total(a, a);
}

/// Sequences that agree on their first `k` places compare as their rests do.
pub proof fn lemma_lex_le_skip(a: Seq<int>, b: Seq<int>, k: int)
    requires
        0 <= k <= a.len(),
        k <= b.len(),
        a.take(k) == b.take(k),
    ensures
        lex_le(a, b) == lex_le(a.skip(k), b.skip(k)),
    decreases k,
{
    if k == 0 {
        assert(a.skip(0) =~= a);
        assert(b.skip(0) =~= b);
    } else {
        assert(a[0] == a.take(k)[0]);
        assert(b[0] == b.take(k)[0]);
        assert(a.drop_first().take(k - 1) =~= a.take(k).drop_first());
        assert(b.drop_first().take(k - 1) =~= b.take(k).drop_first());
        lemma_lex_le_skip(a.drop_first(), b.drop_first(), k - 1);
        assert(a.drop_first().skip(k - 1) =~= a.skip(k));
        assert(b.drop_first().skip(k - 1) =~= b.skip(k));
    }
}

/// Two texts that are each not after the other are the same text.
pub proof fn lemma_text_le_antisymmetric(a: Seq<char>, b: Seq<char>)
    requires
        text_le(a, b),
        text_le(b, a),
    ensures
        a == b,
{
    lemma_lex_le_antisymmetric(codes(a), codes(b));
    assert(a.len() == codes(a).len());
    assert(b.len() == codes(b).len());
    assert forall|i: int| 0 <= i < a.len() implies a[i] == b[i] by {
        assert(codes(a)[i] == a[i] as int);
        assert(codes(b)[i] == b[i] as int);
    }
    assert(a =~= b);
}

/// Compares two strings with `str::cmp`, which orders strings
/// lexicographically by their code points: the result is `Greater` exactly
/// when `a` is after `b`, and `Less` exactly when `b` is after `a`.
#[verifier::external_body]
pub(crate) fn compare_text(a: &str, b: &str) -> (o: Ordering)
    ensures
        (o == Ordering::Greater) == !text_le(a@, b@),
        (o == Ordering::Less) == !text_le(b@, a@),
{
    a.cmp(b)
}

/// Tests two strings for equality with `str::eq`: they are equal exactly when
/// they hold the same characters.
#[verifier::external_body]
pub(crate) fn same_text(a: &str, b: &str) -> (same: bool)
    ensures
        same == (a@ == b@),
{
    a == b
}

/// Appends one character with `String::push`.
#[verifier::external_body]
pub(crate) fn push_char(s: &mut String, c: char)
    ensures
        final(s)@ == old(s)@.push(c),
{
    s.push(c)
}

/// Whether `char::is_whitespace` holds of `c`: whether `c` has the Unicode
/// property White_Space.
pub uninterp spec fn is_whitespace(c: char) -> bool;

/// `s` without its leading whitespace.
pub open spec fn trim_start(s: Seq<char>) -> Seq<char>
    decreases s.len(),
{
    if s.len() > 0 && is_whitespace(s[0]) {
        trim_start(s.drop_first())
    } else {
        s
    }
}

/// `s` without its trailing whitespace.
pub open spec fn trim_end(s: Seq<char>) -> Seq<char>
    decreases s.len(),
{
    if s.len() > 0 && is_whitespace(s.last()) {
        trim_end(s.drop_last())
    } else {
        s
    }
}

/// `s` without leading and trailing whitespace.
pub open spec fn trimmed(s: Seq<char>) -> Seq<char> {
    trim_end(trim_start(s))
}

/// Trimming never lengthens a text, so the empty text stays empty.
pub proof fn lemma_trimmed_len(s: Seq<char>)
    ensures
        trimmed(s).len() <= s.len(),
{
    lemma_trim_start_len(s);
    lemma_trim_end_len(trim_start(s));
}

proof fn lemma_trim_start_len(s: Seq<char>)
    ensures
        trim_start(s).len() <= s.len(),
    decreases s.len(),
{
    if s.len() > 0 && is_whitespace(s[0]) {
        lemma_trim_start_len(s.drop_first());
    }
}

proof fn lemma_trim_end_len(s: Seq<char>)
    ensures
        trim_end(s).len() <= s.len(),
    decreases s.len(),
{
    if s.len() > 0 && is_whitespace(s.last()) {
        lemma_trim_end_len(s.drop_last());
    }
}

/// Trims a string with `str::trim`, which removes leading and trailing
/// whitespace, whitespace being what `char::is_whitespace` accepts: what is
/// left neither starts nor ends with whitespace.
#[verifier::external_body]
pub(crate) fn trim(s: &str) -> (t: &str)
    ensures
        t@ == trimmed(s@),
        t@.len() > 0 ==> !is_whitespace(t@.first()) && !is_whitespace(t@.last()),
{
    s.trim()
}

/// Whether `c` is one of the ten decimal digits.
pub open spec fn is_digit(c: char) -> bool {
    '0' <= c && c <= '9'
}

/// The number that the digit `c` stands for.
pub open spec fn digit_value(c: char) -> int {
    c as int - '0' as int
}

/// Whether `s` holds decimal digits only.
pub open spec fn all_digits(s: Seq<char>) -> bool {
    forall|i: int| 0 <= i < s.len() ==> is_digit(#[trigger] s[i])
}

/// The number that the digits of `s` write in base ten.
pub open spec fn decimal(s: Seq<char>) -> int
    decreases s.len(),
{
    if s.len() == 0 {
        0
    } else {
        10 * decimal(s.drop_last()) + digit_value(s.last())
    }
}

/// `s` without the plus sign that may lead it.
pub open spec fn unsigned_part(s: Seq<char>) -> Seq<char> {
    if s.len() > 0 && s[0] == '+' {
        s.drop_first()
    } else {
        s
    }
}

/// The number that `s` writes: an optional plus sign, then at least one
/// decimal digit and nothing else, the whole no greater than `u64::MAX`.
pub open spec fn parsed_u64(s: Seq<char>) -> Option<u64> {
    let digits = unsigned_part(s);
    if digits.len() > 0 && all_digits(digits) && decimal(digits) <= u64::MAX {
        Some(decimal(digits) as u64)
    } else {
        None
    }
}

/// A run of digits writes a number no smaller than any of its prefixes does.
pub proof fn lemma_decimal_prefix(s: Seq<char>, k: int)
    requires
        all_digits(s),
        0 <= k <= s.len(),
    ensures
        0 <= decimal(s.take(k)) <= decimal(s),
    decreases s.len() - k,
{
    if k == s.len() {
        assert(s.take(k) =~= s);
        lemma_decimal_nonnegative(s);
    } else {
        lemma_decimal_prefix(s, k + 1);
        let t = s.take(k + 1);
        assert(t.drop_last() =~= s.take(k));
        assert(t.last() == s[k]);
        assert(is_digit(s[k]));
        assert(all_digits(s.take(k))) by {
            assert forall|i: int| 0 <= i < s.take(k).len() implies is_digit(
                #[trigger] s.take(k)[i],
            ) by {
                assert(s.take(k)[i] == s[i]);
            }
        }
        lemma_decimal_nonnegative(s.take(k));
    }
}

proof fn lemma_decimal_nonnegative(s: Seq<char>)
    requires
        all_digits(s),
    ensures
        0 <= decimal(s),
    decreases s.len(),
{
    if s.len() > 0 {
        assert(all_digits(s.drop_last())) by {
            assert forall|i: int| 0 <= i < s.drop_last().len() implies is_digit(
                #[trigger] s.drop_last()[i],
            ) by {
                assert(s.drop_last()[i] == s[i]);
            }
        }
        lemma_decimal_nonnegative(s.drop_last());
        assert(is_digit(s[s.len() - 1]));
    }
}

/// The character that writes the digit `d`.
pub open spec fn digit_char(d: nat) -> char {
    (('0' as u8) + (d as u8)) as char
}

/// What writes `n` in base ten, without leading zeros.
pub open spec fn shown_u64(n: nat) -> Seq<char>
    decreases n,
{
    if n < 10 {
        seq![digit_char(n)]
    } else {
        shown_u64(n / 10).push(digit_char(n % 10))
    }
}

/// What writes a number reads back as that number.
pub proof fn lemma_shown_reads_back(n: nat)
    requires
        n <= u64::MAX,
    ensures
        parsed_u64(shown_u64(n)) == Some(n as u64),
{
    lemma_shown_digits(n);
    let s = shown_u64(n);
    assert(is_digit(s[0]));
    assert(unsigned_part(s) == s);
}

proof fn lemma_shown_digits(n: nat)
    ensures
        shown_u64(n).len() > 0,
        all_digits(shown_u64(n)),
        decimal(shown_u64(n)) == n,
    decreases n,
{
    let s = shown_u64(n);
    if n < 10 {
        assert(s.drop_last() =~= Seq::<char>::empty());
        assert(s.last() == digit_char(n));
        assert(decimal(s.drop_last()) == 0);
    } else {
        let front = shown_u64(n / 10);
        lemma_shown_digits(n / 10);
        assert(s.drop_last() =~= front);
        assert(s.last() == digit_char(n % 10));
        assert forall|i: int| 0 <= i < s.len() implies is_digit(#[trigger] s[i]) by {
            if i < front.len() {
                assert(s[i] == front[i]);
            }
        }
    }
}

/// Writes a number with `u64::to_string`: in base ten, without a sign and
/// without leading zeros.
#[verifier::external_body]
pub(crate) fn show_u64(n: u64) -> (text: String)
    ensures
        text@ == shown_u64(n as nat),
{
    n.to_string()
}

/// Reads a decimal number, as `str::parse::<u64>` does: an optional plus
/// sign, then digits; anything else, no digit at all, or a number too large
/// for `u64` gives `None`.
pub fn parse_u64(s: &str) -> (r: Option<u64>)
    ensures
        r == parsed_u64(s@),
{
    let mut acc: u64 = 0;
    let mut plus = false;
    let mut started = false;
    let mut any = false;
    for c in it: s.chars()
        invariant
            it.seq() == s@,
            started == (it.index() > 0),
            plus == (it.index() > 0 && s@[0] == '+'),
            any == (it.index() > (if plus { 1int } else { 0int })),
            all_digits(s@.subrange(if plus { 1int } else { 0int }, it.index())),
            acc == decimal(s@.subrange(if plus { 1int } else { 0int }, it.index())),
    {
        let ghost k = it.index();
        let ghost off = if plus { 1int } else { 0int };
        if !started && c == '+' {
            plus = true;
            proof {
                assert(s@.subrange(1, 1) =~= Seq::<char>::empty());
            }
        } else if '0' <= c && c <= '9' {
            let d: u64 = (c as u64) - ('0' as u64);
            let ghost before = s@.subrange(off, k);
            let ghost now = s@.subrange(off, k + 1);
            proof {
                assert(now.drop_last() =~= before);
                assert(now.last() == c);
                assert forall|i: int| 0 <= i < now.len() implies is_digit(#[trigger] now[i]) by {
                    if i < now.len() - 1 {
                        assert(now[i] == before[i]);
                    }
                }
                assert(decimal(now) == 10 * decimal(before) + digit_value(c));
            }
            let next = match acc.checked_mul(10) {
                Some(m) => m.checked_add(d),
                None => None,
            };
            match next {
                Some(n) => {
                    acc = n;
                    any = true;
                },
                None => {
                    proof {
                        let digits = unsigned_part(s@);
                        assert(digits =~= s@.subrange(off, s@.len() as int));
                        if all_digits(digits) {
                            lemma_decimal_prefix(digits, k + 1 - off);
                            assert(digits.take(k + 1 - off) =~= now);
                        }
                    }
                    return None;
                },
            }
        } else {
            proof {
                let digits = unsigned_part(s@);
                assert(digits =~= s@.subrange(off, s@.len() as int));
                assert(digits[k - off] == c);
                assert(!is_digit(c));
            }
            return None;
        }
        started = true;
    }
    proof {
        let off = if plus { 1int } else { 0int };
        assert(unsigned_part(s@) =~= s@.subrange(off, s@.len() as int));
    }
    if any {
        Some(acc)
    } else {
        None
    }
}

} // verus!
