//! Character- and string-level helpers: the whitespace test behind the
//! ledger's no-op filter, decimal parsing and formatting, and the small
//! URL-extraction steps of the quiz-report scanner.

use vstd::prelude::*;
use vstd::string::*;

verus! {

/// The Unicode `White_Space` code points: exactly the characters that the
/// blankness test treats as invisible.
pub open spec fn spec_is_whitespace(c: char) -> bool {
    ||| c == '\u{0009}'
    ||| c == '\u{000A}'
    ||| c == '\u{000B}'
    ||| c == '\u{000C}'
    ||| c == '\u{000D}'
    ||| c == ' '
    ||| c == '\u{0085}'
    ||| c == '\u{00A0}'
    ||| c == '\u{1680}'
    ||| ('\u{2000}' <= c && c <= '\u{200A}')
    ||| c == '\u{2028}'
    ||| c == '\u{2029}'
    ||| c == '\u{202F}'
    ||| c == '\u{205F}'
    ||| c == '\u{3000}'
}

pub fn is_whitespace_char(c: char) -> (r: bool)
    ensures
        r == spec_is_whitespace(c),
{
    c == '\u{0009}' || c == '\u{000A}' || c == '\u{000B}' || c == '\u{000C}' || c == '\u{000D}'
        || c == ' ' || c == '\u{0085}' || c == '\u{00A0}' || c == '\u{1680}' || ('\u{2000}' <= c
        && c <= '\u{200A}') || c == '\u{2028}' || c == '\u{2029}' || c == '\u{202F}' || c
        == '\u{205F}' || c == '\u{3000}'
}

/// A string is blank when every character is whitespace; the empty string is
/// blank. Blank notes never justify persisting a log entry.
pub open spec fn spec_is_blank(s: Seq<char>) -> bool {
    forall|i: int| 0 <= i < s.len() ==> spec_is_whitespace(#[trigger] s[i])
}

pub fn is_blank(s: &str) -> (r: bool)
    ensures
        r == spec_is_blank(s@),
{
    let len = s.unicode_len();
    let mut i: usize = 0;
    while i < len
        invariant
            0 <= i <= len,
            len == s@.len(),
            forall|j: int| 0 <= j < i ==> spec_is_whitespace(#[trigger] s@[j]),
        decreases len - i,
    {
        let c = s.get_char(i);
        if !is_whitespace_char(c) {
            return false;
        }
        i = i + 1;
    }
    true
}

/// String equality on views.
pub fn str_eq(a: &str, b: &str) -> (r: bool)
    ensures
        r == (a@ == b@),
{
    let s: String = a.to_owned();
    let t: String = b.to_owned();
    s == t
}

/// The decimal digit character for `d` (0 through 9).
pub open spec fn spec_digit(d: int) -> char {
    if d == 0 {
        '0'
    } else if d == 1 {
        '1'
    } else if d == 2 {
        '2'
    } else if d == 3 {
        '3'
    } else if d == 4 {
        '4'
    } else if d == 5 {
        '5'
    } else if d == 6 {
        '6'
    } else if d == 7 {
        '7'
    } else if d == 8 {
        '8'
    } else {
        '9'
    }
}

/// The decimal digits of `n`, most significant first, without leading zeros
/// (a single `'0'` for zero).
pub open spec fn spec_digits(n: nat) -> Seq<char>
    decreases n,
{
    if n < 10 {
        seq![spec_digit(n as int)]
    } else {
        spec_digits(n / 10).push(spec_digit((n % 10) as int))
    }
}

/// Digit characters grouped in threes from the right, separated by commas.
pub open spec fn spec_group_commas(ds: Seq<char>) -> Seq<char>
    decreases ds.len(),
{
    if ds.len() <= 3 {
        ds
    } else {
        spec_group_commas(ds.take(ds.len() - 3)) + seq![','] + ds.skip(ds.len() - 3)
    }
}

/// A signed count rendered with thousands separators.
pub open spec fn spec_format_with_commas(num: int) -> Seq<char> {
    if num < 0 {
        seq!['-'] + spec_group_commas(spec_digits((-num) as nat))
    } else {
        spec_group_commas(spec_digits(num as nat))
    }
}

fn digit_char(d: u32) -> (r: char)
    requires
        d < 10,
    ensures
        r == spec_digit(d as int),
{
    if d == 0 {
        '0'
    } else if d == 1 {
        '1'
    } else if d == 2 {
        '2'
    } else if d == 3 {
        '3'
    } else if d == 4 {
        '4'
    } else if d == 5 {
        '5'
    } else if d == 6 {
        '6'
    } else if d == 7 {
        '7'
    } else if d == 8 {
        '8'
    } else {
        '9'
    }
}

/// Appends the decimal digits of `v`, most significant first.
fn push_digits(v: u32, out: &mut Vec<char>)
    ensures
        final(out)@ == old(out)@ + spec_digits(v as nat),
    decreases v,
{
    if v < 10 {
        out.push(digit_char(v));
        proof {
            assert(final(out)@ =~= old(out)@ + spec_digits(v as nat));
        }
    } else {
        push_digits(v / 10, out);
        out.push(digit_char(v % 10));
        proof {
            assert(final(out)@ =~= old(out)@ + spec_digits(v as nat));
        }
    }
}

/// The first `k` characters, copied.
fn take_chars(ds: &Vec<char>, k: usize) -> (r: Vec<char>)
    requires
        k <= ds@.len(),
    ensures
        r@ == ds@.take(k as int),
{
    let mut r: Vec<char> = Vec::new();
    let mut i: usize = 0;
    while i < k
        invariant
            0 <= i <= k,
            k <= ds@.len(),
            r@ =~= ds@.take(i as int),
        decreases k - i,
    {
        r.push(ds[i]);
        proof {
            assert(r@ =~= ds@.take(i + 1 as int));
        }
        i = i + 1;
    }
    r
}

/// Groups digit characters in threes from the right with commas.
fn group_commas(ds: &Vec<char>) -> (r: Vec<char>)
    ensures
        r@ == spec_group_commas(ds@),
    decreases ds@.len(),
{
    let n = ds.len();
    if n <= 3 {
        take_chars(ds, n)
    } else {
        let prefix = take_chars(ds, n - 3);
        let mut r = group_commas(&prefix);
        r.push(',');
        r.push(ds[n - 3]);
        r.push(ds[n - 2]);
        r.push(ds[n - 1]);
        proof {
            assert(r@ =~= spec_group_commas(ds@.take(n - 3 as int)) + seq![','] + ds@.skip(
                n - 3 as int,
            ));
        }
        r
    }
}

/// Renders a signed count with thousands separators, as in `-1,234,567`.
pub fn format_with_commas(num: i32) -> (r: String)
    requires
        num > i32::MIN,
    ensures
        r@ == spec_format_with_commas(num as int),
{
    let magnitude: u32 = if num < 0 {
        (-num) as u32
    } else {
        num as u32
    };
    let mut digits: Vec<char> = Vec::new();
    push_digits(magnitude, &mut digits);
    let mut grouped = group_commas(&digits);
    let mut out: Vec<char> = Vec::new();
    if num < 0 {
        out.push('-');
    }
    out.append(&mut grouped);
    proof {
        assert(out@ =~= spec_format_with_commas(num as int));
    }
    chars_to_string(out)
}

/// Relies on String implementing FromIterator over chars: the resulting
/// string holds exactly the given characters, in order.
#[verifier::external_body]
fn chars_to_string(chars: Vec<char>) -> (r: String)
    ensures
        r@ == chars@,
{
    String::from_iter(chars)
}

/// A decimal digit character.
pub open spec fn spec_is_digit(c: char) -> bool {
    '0' <= c && c <= '9'
}

/// The numeric value of a digit character.
pub open spec fn spec_digit_value(c: char) -> int {
    c as int - 48
}

pub open spec fn spec_all_digits(s: Seq<char>) -> bool {
    forall|i: int| 0 <= i < s.len() ==> spec_is_digit(#[trigger] s[i])
}

/// The value of a digit string read in base ten.
pub open spec fn spec_decimal_value(s: Seq<char>) -> int
    decreases s.len(),
{
    if s.len() == 0 {
        0
    } else {
        spec_decimal_value(s.drop_last()) * 10 + spec_digit_value(s.last())
    }
}

/// What parsing an unsigned 64-bit decimal accepts: an optional leading
/// `'+'`, then at least one digit, valuing at most `u64::MAX`.
pub open spec fn spec_parse_u64(s: Seq<char>) -> Option<u64> {
    let digits = if s.len() > 0 && s[0] == '+' {
        s.skip(1)
    } else {
        s
    };
    if digits.len() > 0 && spec_all_digits(digits) && spec_decimal_value(digits) <= u64::MAX {
        Some(spec_decimal_value(digits) as u64)
    } else {
        None
    }
}

proof fn lemma_decimal_value_nonneg(s: Seq<char>)
    requires
        spec_all_digits(s),
    ensures
        spec_decimal_value(s) >= 0,
    decreases s.len(),
{
    if s.len() > 0 {
        assert(spec_all_digits(s.drop_last()));
        lemma_decimal_value_nonneg(s.drop_last());
        assert(spec_is_digit(s.last()));
    }
}

/// A prefix of a digit string never values more than the whole string.
proof fn lemma_decimal_prefix_le(s: Seq<char>, j: int)
    requires
        spec_all_digits(s),
        0 <= j <= s.len(),
    ensures
        spec_decimal_value(s.take(j)) <= spec_decimal_value(s),
    decreases s.len() - j,
{
    if j == s.len() {
        assert(s.take(j) =~= s);
    } else {
        assert(s.take(j + 1).drop_last() =~= s.take(j));
        assert(s.take(j + 1).last() == s[j]);
        assert(spec_all_digits(s.take(j)));
        lemma_decimal_value_nonneg(s.take(j));
        assert(spec_is_digit(s[j]));
        assert(spec_decimal_value(s.take(j + 1)) == spec_decimal_value(s.take(j)) * 10
            + spec_digit_value(s[j]));
        assert(spec_decimal_value(s.take(j)) * 10 >= spec_decimal_value(s.take(j))) by (nonlinear_arith)
            requires
                spec_decimal_value(s.take(j)) >= 0,
        ;
        lemma_decimal_prefix_le(s, j + 1);
    }
}

/// Parses an unsigned 64-bit decimal, as used for external user identifiers;
/// `None` on an empty string, a non-digit, or overflow.
pub fn parse_u64(s: &str) -> (r: Option<u64>)
    ensures
        r == spec_parse_u64(s@),
{
    let len = s.unicode_len();
    let start: usize = if len > 0 && s.get_char(0) == '+' {
        1
    } else {
        0
    };
    let ghost digits = if s@.len() > 0 && s@[0] == '+' {
        s@.skip(1)
    } else {
        s@
    };
    proof {
        assert(digits =~= s@.subrange(start as int, len as int));
    }
    if start >= len {
        return None;
    }
    let mut acc: u64 = 0;
    let mut i: usize = start;
    while i < len
        invariant
            start <= i <= len,
            len == s@.len(),
            start <= 1,
            digits == (if s@.len() > 0 && s@[0] == '+' {
                s@.skip(1)
            } else {
                s@
            }),
            digits =~= s@.subrange(start as int, len as int),
            spec_all_digits(digits.take(i - start)),
            acc as int == spec_decimal_value(digits.take(i - start)),
        decreases len - i,
    {
        let c = s.get_char(i);
        proof {
            assert(digits[i - start] == s@[i as int]);
        }
        if !('0' <= c && c <= '9') {
            proof {
                assert(!spec_is_digit(digits[i - start]));
            }
            return None;
        }
        let d: u64 = ((c as u32) - 48) as u64;
        proof {
            assert(acc as int * 10 + d as int <= u128::MAX as int) by (nonlinear_arith)
                requires
                    acc <= u64::MAX,
                    d <= 9,
            ;
        }
        let wide: u128 = acc as u128 * 10 + d as u128;
        proof {
            assert(digits.take(i - start + 1).drop_last() =~= digits.take(i - start));
            assert(digits.take(i - start + 1).last() == digits[i - start]);
            assert(wide as int == spec_decimal_value(digits.take(i - start + 1)));
        }
        if wide > u64::MAX as u128 {
            proof {
                if spec_all_digits(digits) {
                    lemma_decimal_prefix_le(digits, i - start + 1);
                    assert(spec_decimal_value(digits) > u64::MAX);
                }
            }
            return None;
        }
        acc = wide as u64;
        i = i + 1;
    }
    proof {
        assert(digits.take(len - start) =~= digits);
    }
    Some(acc)
}

/// Whether `pat` occurs in `s` as a contiguous run.
pub open spec fn spec_contains_seq(s: Seq<char>, pat: Seq<char>) -> bool {
    exists|k: int|
        0 <= k && k + pat.len() <= s.len() && #[trigger] s.subrange(k, k + pat.len() as int)
            == pat
}

/// The characters of a string, as a vector.
pub fn str_to_chars(s: &str) -> (r: Vec<char>)
    ensures
        r@ == s@,
{
    let len = s.unicode_len();
    let mut r: Vec<char> = Vec::new();
    let mut i: usize = 0;
    while i < len
        invariant
            0 <= i <= len,
            len == s@.len(),
            r@ =~= s@.take(i as int),
        decreases len - i,
    {
        r.push(s.get_char(i));
        proof {
            assert(r@ =~= s@.take(i + 1 as int));
        }
        i = i + 1;
    }
    proof {
        assert(r@ =~= s@);
    }
    r
}

fn match_at(s: &Vec<char>, pat: &Vec<char>, k: usize) -> (r: bool)
    requires
        k + pat@.len() <= s@.len(),
    ensures
        r == (s@.subrange(k as int, k as int + pat@.len() as int) == pat@),
{
    let slen = s.len();
    let m = pat.len();
    let mut j: usize = 0;
    while j < m
        invariant
            0 <= j <= m,
            m == pat@.len(),
            slen == s@.len(),
            k + m <= slen,
            forall|t: int| 0 <= t < j ==> s@[k + t] == pat@[t],
        decreases m - j,
    {
        if s[k + j] != pat[j] {
            proof {
                let sub = s@.subrange(k as int, k as int + pat@.len() as int);
                assert(sub[j as int] == s@[k + j]);
            }
            return false;
        }
        j = j + 1;
    }
    proof {
        assert(s@.subrange(k as int, k as int + pat@.len() as int) =~= pat@);
    }
    true
}

/// Whether `pat` occurs in `s` as a contiguous run of characters.
pub fn contains_seq(s: &Vec<char>, pat: &Vec<char>) -> (r: bool)
    ensures
        r == spec_contains_seq(s@, pat@),
{
    let n = s.len();
    let m = pat.len();
    if m > n {
        return false;
    }
    if m == 0 {
        proof {
            let kk = 0int;
            assert(s@.subrange(kk, kk + pat@.len() as int) =~= pat@);
            assert(0 <= kk && kk + pat@.len() <= s@.len() && s@.subrange(
                kk,
                kk + pat@.len() as int,
            ) == pat@);
            assert(spec_contains_seq(s@, pat@));
        }
        return true;
    }
    let mut k: usize = 0;
    while k <= n - m
        invariant
            0 <= k <= n - m + 1,
            0 < m <= n,
            n == s@.len(),
            m == pat@.len(),
            forall|t: int|
                0 <= t < k ==> #[trigger] s@.subrange(t, t + pat@.len() as int) != pat@,
        decreases n - k,
    {
        if match_at(s, pat, k) {
            proof {
                let kk = k as int;
                assert(0 <= kk && kk + pat@.len() <= s@.len() && s@.subrange(
                    kk,
                    kk + pat@.len() as int,
                ) == pat@);
                assert(spec_contains_seq(s@, pat@));
            }
            return true;
        }
        k = k + 1;
    }
    false
}

/// The first position of `c` in `s` at or after `i`.
pub open spec fn spec_index_of(s: Seq<char>, c: char, i: int) -> Option<int>
    decreases s.len() - i when 0 <= i <= s.len()
{
    if i >= s.len() {
        None
    } else if s[i] == c {
        Some(i)
    } else {
        spec_index_of(s, c, i + 1)
    }
}

fn find_char(s: &Vec<char>, c: char) -> (r: Option<usize>)
    ensures
        match r {
            Some(k) => k < s@.len() && spec_index_of(s@, c, 0) == Some(k as int),
            None => spec_index_of(s@, c, 0) is None,
        },
{
    let n = s.len();
    let mut i: usize = 0;
    while i < n
        invariant
            0 <= i <= n,
            n == s@.len(),
            spec_index_of(s@, c, i as int) == spec_index_of(s@, c, 0),
        decreases n - i,
    {
        if s[i] == c {
            return Some(i);
        }
        i = i + 1;
    }
    None
}

/// `s` with every occurrence of `pat`, scanned left to right without
/// overlap, replaced by `rep`.
pub open spec fn spec_replace(s: Seq<char>, pat: Seq<char>, rep: Seq<char>) -> Seq<char>
    decreases s.len() when 0 < pat.len()
{
    if s.len() < pat.len() {
        s
    } else if s.take(pat.len() as int) == pat {
        rep + spec_replace(s.skip(pat.len() as int), pat, rep)
    } else {
        seq![s[0]] + spec_replace(s.skip(1), pat, rep)
    }
}

fn replace_chars(s: &Vec<char>, pat: &Vec<char>, rep: &Vec<char>) -> (r: Vec<char>)
    requires
        pat@.len() > 0,
    ensures
        r@ == spec_replace(s@, pat@, rep@),
{
    let n = s.len();
    let m = pat.len();
    let mut out: Vec<char> = Vec::new();
    let mut i: usize = 0;
    proof {
        assert(s@.skip(0) =~= s@);
        assert(out@ + spec_replace(s@, pat@, rep@) =~= spec_replace(s@, pat@, rep@));
    }
    while i < n
        invariant
            0 <= i <= n,
            n == s@.len(),
            m == pat@.len(),
            m > 0,
            spec_replace(s@, pat@, rep@) == out@ + spec_replace(s@.skip(i as int), pat@, rep@),
        decreases n - i,
    {
        let matched = if m <= n - i {
            match_at(s, pat, i)
        } else {
            false
        };
        if matched {
            let ghost pre_out = out@;
            proof {
                assert(s@.skip(i as int).take(m as int) =~= s@.subrange(i as int, i + m as int));
                assert(s@.skip(i as int).skip(m as int) =~= s@.skip(i + m as int));
            }
            let mut piece = take_chars(rep, rep.len());
            proof {
                assert(piece@ =~= rep@);
            }
            out.append(&mut piece);
            proof {
                assert(out@ + spec_replace(s@.skip(i + m as int), pat@, rep@) =~= pre_out + (rep@
                    + spec_replace(s@.skip(i + m as int), pat@, rep@)));
            }
            i = i + m;
        } else {
            let ghost pre_out = out@;
            proof {
                if m <= n - i {
                    assert(s@.skip(i as int).take(m as int) =~= s@.subrange(
                        i as int,
                        i + m as int,
                    ));
                } else {
                    assert(s@.skip(i as int).len() < m);
                }
                assert(s@.skip(i as int).skip(1) =~= s@.skip(i + 1 as int));
                assert(seq![s@[i as int]] =~= s@.skip(i as int).take(1));
            }
            out.push(s[i]);
            proof {
                assert(out@ + spec_replace(s@.skip(i + 1 as int), pat@, rep@) =~= pre_out + (seq![
                    s@[i as int],
                ] + spec_replace(s@.skip(i + 1 as int), pat@, rep@)));
            }
            i = i + 1;
        }
    }
    proof {
        assert(s@.skip(n as int) =~= Seq::<char>::empty());
        assert(out@ + spec_replace(s@.skip(n as int), pat@, rep@) =~= out@);
    }
    out
}

/// What the report scanner extracts from a field value: the text between the
/// first `'('` and the first `')'`, with every `dashboard` rewritten to
/// `api`; `None` when the parentheses are missing or out of order.
pub open spec fn spec_extract_api_url(s: Seq<char>) -> Option<Seq<char>> {
    match spec_index_of(s, '(', 0) {
        Some(a) => match spec_index_of(s, ')', 0) {
            Some(b) => if a + 1 <= b {
                Some(spec_replace(s.subrange(a + 1, b), "dashboard"@, "api"@))
            } else {
                None
            },
            None => None,
        },
        None => None,
    }
}

/// Rewrites the dashboard link in a report field to its machine-readable
/// endpoint.
pub fn extract_api_url(value: &str) -> (r: Option<String>)
    ensures
        match r {
            Some(u) => spec_extract_api_url(value@) == Some(u@),
            None => spec_extract_api_url(value@) is None,
        },
{
    let cs = str_to_chars(value);
    let a = match find_char(&cs, '(') {
        Some(a) => a,
        None => {
            return None;
        },
    };
    let b = match find_char(&cs, ')') {
        Some(b) => b,
        None => {
            return None;
        },
    };
    if a >= b {
        return None;
    }
    let mut url: Vec<char> = Vec::new();
    let mut i: usize = a + 1;
    while i < b
        invariant
            a + 1 <= i <= b,
            b < cs@.len(),
            url@ =~= cs@.subrange(a + 1 as int, i as int),
        decreases b - i,
    {
        url.push(cs[i]);
        proof {
            assert(url@ =~= cs@.subrange(a + 1 as int, i + 1 as int));
        }
        i = i + 1;
    }
    let pat = str_to_chars("dashboard");
    let rep = str_to_chars("api");
    proof {
        reveal_strlit("dashboard");
        assert(pat@.len() == 9);
    }
    let replaced = replace_chars(&url, &pat, &rep);
    Some(chars_to_string(replaced))
}

} // verus!
