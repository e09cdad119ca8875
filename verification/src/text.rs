//! Character-level string utilities with specifications over `Seq<char>`.
use vstd::prelude::*;

verus! {

/// `pat` occurs in `s` starting at character index `i`.
pub open spec fn occurs_at(s: Seq<char>, pat: Seq<char>, i: int) -> bool {
    0 <= i && i + pat.len() <= s.len() && s.subrange(i, i + pat.len()) == pat
}

/// `pat` occurs somewhere in `s`.
pub open spec fn contains_seq(s: Seq<char>, pat: Seq<char>) -> bool {
    exists|i: int| occurs_at(s, pat, i)
}

/// `s` ends with `pat`.
pub open spec fn ends_with_seq(s: Seq<char>, pat: Seq<char>) -> bool {
    pat.len() <= s.len() && occurs_at(s, pat, s.len() - pat.len())
}

/// `s` starts with `pat`.
pub open spec fn starts_with_seq(s: Seq<char>, pat: Seq<char>) -> bool {
    occurs_at(s, pat, 0)
}

/// Splits `s` at every non-overlapping occurrence of `"__"`, scanning from
/// the left; `start` is where the current piece began, `i` the scan position.
pub open spec fn split_dunder_from(s: Seq<char>, start: int, i: int) -> Seq<Seq<char>>
    decreases s.len() - i,
{
    if i >= s.len() || i < 0 || start < 0 || start > i {
        seq![s.subrange(start, s.len() as int)]
    } else if i + 1 < s.len() && s[i] == '_' && s[i + 1] == '_' {
        seq![s.subrange(start, i)] + split_dunder_from(s, i + 2, i + 2)
    } else {
        split_dunder_from(s, start, i + 1)
    }
}

/// The pieces of `s` separated by `"__"`.
pub open spec fn split_dunder(s: Seq<char>) -> Seq<Seq<char>> {
    split_dunder_from(s, 0, 0)
}

/// Number of leading `'_'` characters of `s`.
pub open spec fn leading_underscores(s: Seq<char>) -> nat
    decreases s.len(),
{
    if s.len() > 0 && s[0] == '_' {
        1 + leading_underscores(s.subrange(1, s.len() as int))
    } else {
        0
    }
}

/// `s` without its leading `'_'` characters.
pub open spec fn trim_leading_underscores(s: Seq<char>) -> Seq<char> {
    s.subrange(leading_underscores(s) as int, s.len() as int)
}

/// The decimal digit character for `d < 10`.
pub open spec fn digit_char(d: nat) -> char {
    if d == 0 { '0' } else if d == 1 { '1' } else if d == 2 { '2' } else if d == 3 { '3' }
    else if d == 4 { '4' } else if d == 5 { '5' } else if d == 6 { '6' } else if d == 7 { '7' }
    else if d == 8 { '8' } else { '9' }
}

/// The decimal rendering of `n`, without leading zeros.
pub open spec fn decimal(n: nat) -> Seq<char>
    decreases n,
{
    if n < 10 {
        seq![digit_char(n)]
    } else {
        decimal(n / 10).push(digit_char(n % 10))
    }
}

/// The numeric value of an ASCII digit character.
pub open spec fn digit_value(c: char) -> int {
    (c as int) - ('0' as int)
}

pub open spec fn is_digit(c: char) -> bool {
    '0' <= c && c <= '9'
}

/// The value of a nonempty run of decimal digits.
pub open spec fn digits_value(s: Seq<char>) -> int
    decreases s.len(),
{
    if s.len() == 0 {
        0
    } else {
        digits_value(s.drop_last()) * 10 + digit_value(s.last())
    }
}

/// What `str::parse::<usize>` accepts: an optional `'+'`, then one or more
/// decimal digits whose value fits in `usize`.
pub open spec fn parse_usize_spec(s: Seq<char>) -> Option<usize> {
    let body = unsigned_body(s);
    if body.len() > 0 && all_digits(body) && digits_value(body) <= usize::MAX {
        Some(digits_value(body) as usize)
    } else {
        None
    }
}

/// `s` without one leading `'+'`.
pub open spec fn unsigned_body(s: Seq<char>) -> Seq<char> {
    if s.len() > 0 && s[0] == '+' { s.subrange(1, s.len() as int) } else { s }
}

/// Every character of `s` is a decimal digit.
pub open spec fn all_digits(s: Seq<char>) -> bool {
    forall|i: int| 0 <= i < s.len() ==> is_digit(#[trigger] s[i])
}

/// Whether `pat` occurs in `s` at character index `i`.
pub fn occurs_at_exec(s: &str, pat: &str, i: usize) -> (r: bool)
    ensures
        r == occurs_at(s@, pat@, i as int),
{
    let n = s.unicode_len();
    let m = pat.unicode_len();
    if i > n || m > n - i {
        return false;
    }
    let mut j: usize = 0;
    while j < m
        invariant
            n == s@.len(),
            m == pat@.len(),
            i + m <= n,
            0 <= j <= m,
            forall|k: int| 0 <= k < j ==> s@[i + k] == pat@[k],
        decreases m - j,
    {
        if s.get_char(i + j) != pat.get_char(j) {
            assert(s@.subrange(i as int, i + m)[j as int] != pat@[j as int]);
            return false;
        }
        j += 1;
    }
    assert(s@.subrange(i as int, i + m) =~= pat@);
    true
}

/// Whether two strings hold the same characters.
pub fn str_eq(a: &str, b: &str) -> (r: bool)
    ensures
        r == (a@ == b@),
{
    if a.unicode_len() != b.unicode_len() {
        return false;
    }
    let r = occurs_at_exec(a, b, 0);
    proof {
        if r {
            assert(a@.subrange(0, b@.len() as int) =~= a@);
        } else {
            assert(a@.subrange(0, b@.len() as int) =~= a@);
        }
    }
    r
}

/// Whether `pat` occurs anywhere in `s`.
pub fn contains_str(s: &str, pat: &str) -> (r: bool)
    ensures
        r == contains_seq(s@, pat@),
{
    let n = s.unicode_len();
    let m = pat.unicode_len();
    if m > n {
        assert forall|i: int| !occurs_at(s@, pat@, i) by {}
        return false;
    }
    if m == 0 {
        assert(s@.subrange(0, 0) =~= pat@);
        assert(occurs_at(s@, pat@, 0));
        return true;
    }
    let mut i: usize = 0;
    while m <= n - i
        invariant
            n == s@.len(),
            m == pat@.len(),
            1 <= m <= n,
            0 <= i <= n - m + 1,
            forall|k: int| 0 <= k < i ==> !occurs_at(s@, pat@, k),
        decreases n - m + 1 - i,
    {
        if occurs_at_exec(s, pat, i) {
            return true;
        }
        i += 1;
    }
    assert forall|k: int| !occurs_at(s@, pat@, k) by {
        if 0 <= k < i {
        }
    }
    false
}

/// Whether `s` ends with `pat`.
pub fn ends_with_str(s: &str, pat: &str) -> (r: bool)
    ensures
        r == ends_with_seq(s@, pat@),
{
    let n = s.unicode_len();
    let m = pat.unicode_len();
    if m > n {
        return false;
    }
    occurs_at_exec(s, pat, n - m)
}

/// Whether `s` starts with `pat`.
pub fn starts_with_str(s: &str, pat: &str) -> (r: bool)
    ensures
        r == starts_with_seq(s@, pat@),
{
    occurs_at_exec(s, pat, 0)
}

/// The character index of the last occurrence of `pat` in `s`.
pub fn rfind_str(s: &str, pat: &str) -> (r: Option<usize>)
    ensures
        match r {
            Some(i) => occurs_at(s@, pat@, i as int) && forall|k: int|
                i < k ==> !occurs_at(s@, pat@, k),
            None => !contains_seq(s@, pat@),
        },
{
    let n = s.unicode_len();
    let m = pat.unicode_len();
    if m > n {
        assert forall|i: int| !occurs_at(s@, pat@, i) by {}
        return None;
    }
    if m == 0 {
        assert(s@.subrange(n as int, n as int) =~= pat@);
        return Some(n);
    }
    let mut i: usize = n - m + 1;
    while i > 0
        invariant
            n == s@.len(),
            m == pat@.len(),
            m <= n,
            0 <= i <= n - m + 1,
            forall|k: int| i <= k ==> !occurs_at(s@, pat@, k),
        decreases i,
    {
        if occurs_at_exec(s, pat, i - 1) {
            return Some(i - 1);
        }
        i -= 1;
    }
    assert forall|k: int| !occurs_at(s@, pat@, k) by {
        if k >= 0 {
        }
    }
    None
}

/// The characters of `s` from index `from` up to `to`, as a new `String`.
pub fn substring(s: &str, from: usize, to: usize) -> (r: String)
    requires
        from <= to <= s@.len(),
    ensures
        r@ == s@.subrange(from as int, to as int),
{
    let piece = s.substring_char(from, to);
    String::from_str(piece)
}

/// Concatenation of two strings as a new `String`.
pub fn concat2(a: &str, b: &str) -> (r: String)
    ensures
        r@ == a@ + b@,
{
    let mut r = String::from_str(a);
    r.append(b);
    r
}

/// Concatenation of three strings as a new `String`.
pub fn concat3(a: &str, b: &str, c: &str) -> (r: String)
    ensures
        r@ == a@ + b@ + c@,
{
    let mut r = String::from_str(a);
    r.append(b);
    r.append(c);
    r
}

/// Splits `s` at every `"__"` separator.
pub fn split_dunder_exec(s: &str) -> (r: Vec<String>)
    ensures
        r@.len() == split_dunder(s@).len(),
        forall|k: int| 0 <= k < r@.len() ==> (#[trigger] r@[k])@ == split_dunder(s@)[k],
{
    let n = s.unicode_len();
    let mut out: Vec<String> = Vec::new();
    let mut start: usize = 0;
    let mut i: usize = 0;
    let ghost pieces: Seq<Seq<char>> = Seq::empty();
    while i < n
        invariant
            n == s@.len(),
            0 <= start <= i <= n,
            out@.len() == pieces.len(),
            forall|k: int| 0 <= k < out@.len() ==> (#[trigger] out@[k])@ == pieces[k],
            pieces + split_dunder_from(s@, start as int, i as int) == split_dunder(s@),
        decreases n - i,
    {
        if i + 1 < n && s.get_char(i) == '_' && s.get_char(i + 1) == '_' {
            let piece = substring(s, start, i);
            proof {
                let ghost old_pieces = pieces;
                pieces = pieces.push(piece@);
                assert(split_dunder_from(s@, start as int, i as int) == seq![s@.subrange(
                    start as int,
                    i as int,
                )] + split_dunder_from(s@, i + 2, i + 2));
                assert(pieces + split_dunder_from(s@, i + 2, i + 2) =~= old_pieces
                    + split_dunder_from(s@, start as int, i as int));
            }
            out.push(piece);
            i = i + 2;
            start = i;
        } else {
            i = i + 1;
        }
    }
    let last = substring(s, start, n);
    proof {
        assert(split_dunder_from(s@, start as int, i as int) == seq![s@.subrange(
            start as int,
            n as int,
        )]);
        pieces = pieces.push(last@);
    }
    out.push(last);
    proof {
        assert(pieces =~= split_dunder(s@));
    }
    out
}

/// `s` with its leading underscores removed.
pub fn trim_leading_underscores_exec(s: &str) -> (r: String)
    ensures
        r@ == trim_leading_underscores(s@),
{
    let n = s.unicode_len();
    let mut k: usize = 0;
    assert(s@.subrange(0, n as int) =~= s@);
    while k < n && s.get_char(k) == '_'
        invariant
            n == s@.len(),
            0 <= k <= n,
            leading_underscores(s@) == k + leading_underscores(s@.subrange(k as int, n as int)),
        decreases n - k,
    {
        proof {
            let t = s@.subrange(k as int, n as int);
            assert(t.subrange(1, t.len() as int) =~= s@.subrange(k + 1, n as int));
        }
        k += 1;
    }
    proof {
        let t = s@.subrange(k as int, n as int);
        if k < n {
            assert(t[0] == s@[k as int]);
        }
    }
    substring(s, k, n)
}

/// One decimal digit as a one-character string.
fn digit_string(d: usize) -> (r: String)
    requires
        d < 10,
    ensures
        r@ == seq![digit_char(d as nat)],
{
    let digits = "0123456789";
    proof {
        reveal_strlit("0123456789");
    }
    let r = substring(digits, d, d + 1);
    assert(r@ =~= seq![digit_char(d as nat)]);
    r
}

/// The decimal rendering of `n`.
pub fn usize_to_decimal(n: usize) -> (r: String)
    ensures
        r@ == decimal(n as nat),
    decreases n,
{
    if n < 10 {
        digit_string(n)
    } else {
        let head = usize_to_decimal(n / 10);
        let last = digit_string(n % 10);
        let r = concat2(head.as_str(), last.as_str());
        assert(r@ =~= decimal(n as nat));
        r
    }
}

/// The decimal rendering of an `i64`, with a leading `'-'` when negative.
pub fn i64_to_decimal(v: i64) -> (r: String)
    ensures
        r@ == (if v < 0 { seq!['-'] + decimal((-v) as nat) } else { decimal(v as nat) }),
{
    if v < 0 {
        let mag: u64 = if v == i64::MIN { 9223372036854775808u64 } else { (-v) as u64 };
        let digits = u64_to_decimal(mag);
        let minus = "-";
        proof {
            reveal_strlit("-");
        }
        concat2(minus, digits.as_str())
    } else {
        u64_to_decimal(v as u64)
    }
}

/// The decimal rendering of `n`.
pub fn u64_to_decimal(n: u64) -> (r: String)
    ensures
        r@ == decimal(n as nat),
    decreases n,
{
    if n < 10 {
        digit_string(n as usize)
    } else {
        let head = u64_to_decimal(n / 10);
        let last = digit_string((n % 10) as usize);
        let r = concat2(head.as_str(), last.as_str());
        assert(r@ =~= decimal(n as nat));
        r
    }
}

/// Parses a decimal `usize` the way `str::parse::<usize>` does.
pub fn parse_usize(s: &str) -> (r: Option<usize>)
    ensures
        r == parse_usize_spec(s@),
{
    let n = s.unicode_len();
    let start: usize = if n > 0 && s.get_char(0) == '+' { 1 } else { 0 };
    let ghost body = unsigned_body(s@);
    assert(body =~= s@.subrange(start as int, n as int));
    if start >= n {
        return None;
    }
    let mut acc: usize = 0;
    let mut i: usize = start;
    while i < n
        invariant
            n == s@.len(),
            start <= i <= n,
            start < n,
            body =~= s@.subrange(start as int, n as int),
            body == unsigned_body(s@),
            forall|k: int| start <= k < i ==> is_digit(#[trigger] s@[k]),
            acc as int == digits_value(s@.subrange(start as int, i as int)),
        decreases n - i,
    {
        let c = s.get_char(i);
        if !('0' <= c && c <= '9') {
            assert(body[i - start] == c);
            assert(!is_digit(body[i - start]));
            return None;
        }
        let d: usize = ((c as u32) - ('0' as u32)) as usize;
        proof {
            let prefix = s@.subrange(start as int, i + 1);
            assert(prefix.drop_last() =~= s@.subrange(start as int, i as int));
            assert(prefix.last() == c);
        }
        if acc > (usize::MAX - d) / 10 {
            proof {
                assert(acc * 10 + d > usize::MAX) by (nonlinear_arith)
                    requires acc > (usize::MAX - d) / 10, d < 10;
                assert(digit_value(c) == d);
                if all_digits(body) {
                    lemma_digits_value_monotone(body, (i - start + 1) as int);
                    assert(body.subrange(0, (i - start + 1) as int) =~= s@.subrange(
                        start as int,
                        i + 1,
                    ));
                }
            }
            return None;
        }
        acc = acc * 10 + d;
        i += 1;
    }
    assert(s@.subrange(start as int, n as int) =~= body);
    Some(acc)
}

/// The value of a digit string is at least the value of any of its prefixes.
proof fn lemma_digits_value_monotone(s: Seq<char>, k: int)
    requires
        0 <= k <= s.len(),
        forall|i: int| 0 <= i < s.len() ==> is_digit(#[trigger] s[i]),
    ensures
        digits_value(s.subrange(0, k)) <= digits_value(s),
    decreases s.len(),
{
    if k < s.len() {
        lemma_digits_value_monotone(s.drop_last(), k);
        assert(s.drop_last().subrange(0, k) =~= s.subrange(0, k));
        lemma_digits_value_nonneg(s.drop_last());
        assert(is_digit(s.last()));
    } else {
        assert(s.subrange(0, k) =~= s);
    }
}

proof fn lemma_digits_value_nonneg(s: Seq<char>)
    requires
        forall|i: int| 0 <= i < s.len() ==> is_digit(#[trigger] s[i]),
    ensures
        digits_value(s) >= 0,
    decreases s.len(),
{
    if s.len() > 0 {
        lemma_digits_value_nonneg(s.drop_last());
        assert(is_digit(s.last()));
    }
}

} // verus!

verus! {

/// Splitting always yields at least one piece.
pub proof fn lemma_split_nonempty(s: Seq<char>, start: int, i: int)
    ensures
        split_dunder_from(s, start, i).len() >= 1,
    decreases s.len() - i,
{
    if i >= s.len() || i < 0 || start < 0 || start > i {
    } else if i + 1 < s.len() && s[i] == '_' && s[i + 1] == '_' {
        lemma_split_nonempty(s, i + 2, i + 2);
    } else {
        lemma_split_nonempty(s, start, i + 1);
    }
}

} // verus!
