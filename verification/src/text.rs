//! Character-level text helpers: white space, trimming, splitting, and
//! decimal numbers, each with the meaning std gives it.

use vstd::prelude::*;

verus! {

/// The characters with the Unicode `White_Space` property, which is what
/// `char::is_whitespace` accepts.
pub open spec fn is_white_space(c: char) -> bool {
    ||| ('\u{9}' <= c && c <= '\u{d}')
    ||| c == ' '
    ||| c == '\u{85}'
    ||| c == '\u{a0}'
    ||| c == '\u{1680}'
    ||| ('\u{2000}' <= c && c <= '\u{200a}')
    ||| c == '\u{2028}'
    ||| c == '\u{2029}'
    ||| c == '\u{202f}'
    ||| c == '\u{205f}'
    ||| c == '\u{3000}'
}

pub fn white_space(c: char) -> (r: bool)
    ensures
        r == is_white_space(c),
{
    ('\u{9}' <= c && c <= '\u{d}') || c == ' ' || c == '\u{85}' || c == '\u{a0}' || c
        == '\u{1680}' || ('\u{2000}' <= c && c <= '\u{200a}') || c == '\u{2028}' || c
        == '\u{2029}' || c == '\u{202f}' || c == '\u{205f}' || c == '\u{3000}'
}

/// `s` without its leading white space.
pub open spec fn trim_start(s: Seq<char>) -> Seq<char>
    decreases s.len(),
{
    if s.len() > 0 && is_white_space(s[0]) {
        trim_start(s.drop_first())
    } else {
        s
    }
}

/// `s` without its trailing white space.
pub open spec fn trim_end(s: Seq<char>) -> Seq<char>
    decreases s.len(),
{
    if s.len() > 0 && is_white_space(s.last()) {
        trim_end(s.drop_last())
    } else {
        s
    }
}

/// `s` without leading and trailing white space, as `str::trim` gives it.
pub open spec fn trim(s: Seq<char>) -> Seq<char> {
    trim_end(trim_start(s))
}

/// The characters of a string slice.
pub fn chars_of(s: &str) -> (v: Vec<char>)
    ensures
        v@ == s@,
{
    let n = s.unicode_len();
    let mut v: Vec<char> = Vec::new();
    let mut i: usize = 0;
    while i < n
        invariant
            n == s@.len(),
            i <= n,
            v@ == s@.take(i as int),
        decreases n - i,
    {
        let c = s.get_char(i);
        v.push(c);
        i = i + 1;
        assert(v@ =~= s@.take(i as int));
    }
    assert(v@ =~= s@);
    v
}

/// Appends one character to a string.
/// Trusted: calls `String::push`, whose documentation says it appends the
/// given `char` to the end of the string.
#[verifier::external_body]
pub(crate) fn push_char(s: &mut String, c: char)
    ensures
        final(s)@ == old(s)@.push(c),
{
    s.push(c)
}

/// A string holding the given characters.
pub fn string_of(v: &[char]) -> (s: String)
    ensures
        s@ == v@,
{
    let mut s = String::new();
    let mut i: usize = 0;
    while i < v.len()
        invariant
            i <= v@.len(),
            s@ == v@.take(i as int),
        decreases v@.len() - i,
    {
        push_char(&mut s, v[i]);
        i = i + 1;
        assert(s@ =~= v@.take(i as int));
    }
    assert(s@ =~= v@);
    s
}

/// Whether two character sequences are equal.
pub fn chars_eq(a: &[char], b: &[char]) -> (r: bool)
    ensures
        r == (a@ == b@),
{
    if a.len() != b.len() {
        return false;
    }
    let mut i: usize = 0;
    while i < a.len()
        invariant
            a@.len() == b@.len(),
            i <= a@.len(),
            forall|j: int| 0 <= j < i ==> a@[j] == b@[j],
        decreases a@.len() - i,
    {
        if a[i] != b[i] {
            return false;
        }
        i = i + 1;
    }
    assert(a@ =~= b@);
    true
}

/// Whether `p` is a prefix of `a`.
pub fn chars_start_with(a: &[char], p: &[char]) -> (r: bool)
    ensures
        r == p@.is_prefix_of(a@),
{
    if p.len() > a.len() {
        return false;
    }
    let mut i: usize = 0;
    while i < p.len()
        invariant
            p@.len() <= a@.len(),
            i <= p@.len(),
            forall|j: int| 0 <= j < i ==> p@[j] == a@[j],
        decreases p@.len() - i,
    {
        if a[i] != p[i] {
            return false;
        }
        i = i + 1;
    }
    assert(p@ =~= a@.subrange(0, p@.len() as int));
    true
}

/// The characters of `s` without leading and trailing white space.
pub fn trim_chars(s: &[char]) -> (r: Vec<char>)
    ensures
        r@ == trim(s@),
{
    let n = s.len();
    let mut i: usize = 0;
    assert(s@.subrange(0, n as int) =~= s@);
    while i < n && white_space(s[i])
        invariant
            n == s@.len(),
            i <= n,
            trim_start(s@) == trim_start(s@.subrange(i as int, n as int)),
        decreases n - i,
    {
        assert(s@.subrange(i as int, n as int).drop_first() =~= s@.subrange(i + 1, n as int));
        i = i + 1;
    }
    assert(trim_start(s@) == s@.subrange(i as int, n as int));
    let mut j: usize = n;
    while j > i && white_space(s[j - 1])
        invariant
            n == s@.len(),
            i <= j <= n,
            trim_end(s@.subrange(i as int, n as int)) == trim_end(s@.subrange(i as int, j as int)),
        decreases j,
    {
        assert(s@.subrange(i as int, j as int).drop_last() =~= s@.subrange(i as int, j - 1));
        j = j - 1;
    }
    let mut r: Vec<char> = Vec::new();
    let mut k: usize = i;
    while k < j
        invariant
            n == s@.len(),
            i <= k <= j <= n,
            r@ == s@.subrange(i as int, k as int),
        decreases j - k,
    {
        r.push(s[k]);
        k = k + 1;
        assert(r@ =~= s@.subrange(i as int, k as int));
    }
    r
}

/// The pieces of `s` between the occurrences of `sep`, as `str::split` with
/// a `char` pattern gives them: one more piece than there are separators.
pub open spec fn split_on(s: Seq<char>, sep: char) -> Seq<Seq<char>>
    decreases s.len(),
{
    if s.len() == 0 {
        seq![Seq::empty()]
    } else {
        let init = split_on(s.drop_last(), sep);
        if s.last() == sep {
            init.push(Seq::empty())
        } else {
            init.update(init.len() - 1, init.last().push(s.last()))
        }
    }
}

/// Splitting always gives at least one piece, and at least two where the
/// separator occurs.
pub proof fn lemma_split_len(s: Seq<char>, sep: char)
    ensures
        split_on(s, sep).len() >= 1,
        s.contains(sep) ==> split_on(s, sep).len() >= 2,
    decreases s.len(),
{
    if s.len() > 0 {
        lemma_split_len(s.drop_last(), sep);
        if s.last() != sep && s.contains(sep) {
            let i = choose|i: int| 0 <= i < s.len() && s[i] == sep;
            assert(s.drop_last()[i] == sep);
        }
    }
}

/// The pieces of `s` between the occurrences of `sep`.
pub fn split_chars(s: &[char], sep: char) -> (r: Vec<Vec<char>>)
    ensures
        r@.len() == split_on(s@, sep).len(),
        forall|k: int| 0 <= k < r@.len() ==> #[trigger] r@[k]@ == split_on(s@, sep)[k],
{
    let n = s.len();
    let mut done: Vec<Vec<char>> = Vec::new();
    let mut cur: Vec<char> = Vec::new();
    let mut i: usize = 0;
    assert(s@.take(0) =~= Seq::<char>::empty());
    while i < n
        invariant
            n == s@.len(),
            i <= n,
            split_on(s@.take(i as int), sep).len() == done@.len() + 1,
            forall|k: int|
                0 <= k < done@.len() ==> #[trigger] done@[k]@ == split_on(s@.take(i as int), sep)[k],
            split_on(s@.take(i as int), sep).last() == cur@,
        decreases n - i,
    {
        let c = s[i];
        let ghost prev = split_on(s@.take(i as int), sep);
        assert(s@.take(i + 1).drop_last() =~= s@.take(i as int));
        if c == sep {
            done.push(cur);
            cur = Vec::new();
        } else {
            cur.push(c);
        }
        i = i + 1;
        assert forall|k: int| 0 <= k < done@.len() implies #[trigger] done@[k]@ == split_on(
            s@.take(i as int),
            sep,
        )[k] by {}
    }
    assert(s@.take(n as int) =~= s@);
    done.push(cur);
    done
}

/// The ASCII digit for `d` (taken below ten).
pub open spec fn digit(d: int) -> char {
    if d == 0 {
        '0'
    } else if d == 1 {
        '1'
    } else if d == 2 {
        '2'
    } else if d == 3 {
        '3'
    } else if d == 4 {
        '4'
    } else if d == 5 {
        '5'
    } else if d == 6 {
        '6'
    } else if d == 7 {
        '7'
    } else if d == 8 {
        '8'
    } else {
        '9'
    }
}

/// Whether `c` is an ASCII digit.
pub open spec fn is_digit(c: char) -> bool {
    '0' <= c && c <= '9'
}

/// The value of the ASCII digit `c`.
pub open spec fn digit_value(c: char) -> int {
    c as int - '0' as int
}

/// Whether every character of `s` is an ASCII digit.
pub open spec fn all_digits(s: Seq<char>) -> bool {
    forall|i: int| 0 <= i < s.len() ==> #[trigger] is_digit(s[i])
}

/// The number that the digits of `s` spell, most significant first.
pub open spec fn digits_value(s: Seq<char>) -> int
    decreases s.len(),
{
    if s.len() == 0 {
        0
    } else {
        digits_value(s.drop_last()) * 10 + digit_value(s.last())
    }
}

/// The decimal digits of `n`, without leading zeros.
pub open spec fn decimal(n: nat) -> Seq<char>
    decreases n,
{
    if n < 10 {
        seq![digit(n as int)]
    } else {
        decimal(n / 10).push(digit((n % 10) as int))
    }
}

/// The last `w` decimal digits of `n`, with leading zeros.
pub open spec fn padded(n: nat, w: nat) -> Seq<char>
    decreases w,
{
    if w == 0 {
        Seq::empty()
    } else {
        padded(n / 10, (w - 1) as nat).push(digit((n % 10) as int))
    }
}

/// An integer as `Display` writes it: a `-` for a negative one, then its
/// decimal digits.
pub open spec fn int_text(i: int) -> Seq<char> {
    if i < 0 {
        seq!['-'] + decimal((-i) as nat)
    } else {
        decimal(i as nat)
    }
}

fn digit_char(d: u64) -> (c: char)
    requires
        d < 10,
    ensures
        c == digit(d as int),
{
    if d == 0 {
        '0'
    } else if d == 1 {
        '1'
    } else if d == 2 {
        '2'
    } else if d == 3 {
        '3'
    } else if d == 4 {
        '4'
    } else if d == 5 {
        '5'
    } else if d == 6 {
        '6'
    } else if d == 7 {
        '7'
    } else if d == 8 {
        '8'
    } else {
        '9'
    }
}

/// Appends the decimal digits of `n`.
pub fn push_decimal(s: &mut String, n: u64)
    ensures
        final(s)@ == old(s)@ + decimal(n as nat),
    decreases n,
{
    if n >= 10 {
        push_decimal(s, n / 10);
    }
    push_char(s, digit_char(n % 10));
    assert(final(s)@ =~= old(s)@ + decimal(n as nat));
}

/// Appends an integer as `Display` writes it.
pub fn push_int(s: &mut String, v: i32)
    ensures
        final(s)@ == old(s)@ + int_text(v as int),
{
    if v < 0 {
        push_char(s, '-');
        let m: i64 = -(v as i64);
        push_decimal(s, m as u64);
        assert(final(s)@ =~= old(s)@ + int_text(v as int));
    } else {
        push_decimal(s, v as u64);
    }
}

/// The sign and the digits of a number text, as std's integer parsing reads
/// them: one leading `+`, or `-` where negative numbers are read, may stand
/// before the digits, and something must follow it.
pub open spec fn sign_and_digits(s: Seq<char>, signed: bool) -> Option<(bool, Seq<char>)> {
    if s.len() == 0 {
        None
    } else if s[0] == '+' || (signed && s[0] == '-') {
        if s.len() == 1 {
            None
        } else {
            Some((s[0] == '-', s.drop_first()))
        }
    } else {
        Some((false, s))
    }
}

/// The number `s` spells under std's integer parsing, before the range of the
/// target type is checked.
pub open spec fn parse_int(s: Seq<char>, signed: bool) -> Option<int> {
    match sign_and_digits(s, signed) {
        Some((neg, d)) => if all_digits(d) {
            Some(if neg { -digits_value(d) } else { digits_value(d) })
        } else {
            None
        },
        None => None,
    }
}

/// What `str::parse::<i32>` gives.
pub open spec fn parse_i32(s: Seq<char>) -> Option<i32> {
    match parse_int(s, true) {
        Some(v) => if i32::MIN <= v <= i32::MAX {
            Some(v as i32)
        } else {
            None
        },
        None => None,
    }
}

/// What `str::parse::<u64>` gives.
pub open spec fn parse_u64(s: Seq<char>) -> Option<u64> {
    match parse_int(s, false) {
        Some(v) => if 0 <= v <= u64::MAX {
            Some(v as u64)
        } else {
            None
        },
        None => None,
    }
}

/// More digits never spell a smaller number.
pub proof fn lemma_digits_value_prefix(s: Seq<char>, k: int)
    requires
        all_digits(s),
        0 <= k <= s.len(),
    ensures
        0 <= digits_value(s.take(k)) <= digits_value(s),
    decreases s.len(),
{
    if k == s.len() {
        assert(s.take(k) =~= s);
        lemma_digits_value_nonneg(s);
    } else {
        assert(s.drop_last().take(k) =~= s.take(k));
        lemma_digits_value_prefix(s.drop_last(), k);
        lemma_digits_value_nonneg(s.drop_last());
        assert(is_digit(s[s.len() - 1]));
    }
}

pub proof fn lemma_digits_value_nonneg(s: Seq<char>)
    requires
        all_digits(s),
    ensures
        digits_value(s) >= 0,
    decreases s.len(),
{
    if s.len() > 0 {
        lemma_digits_value_nonneg(s.drop_last());
        assert(is_digit(s[s.len() - 1]));
    }
}

fn char_digit(c: char) -> (r: Option<u64>)
    ensures
        match r {
            Some(d) => is_digit(c) && d == digit_value(c) && d < 10,
            None => !is_digit(c),
        },
{
    if '0' <= c && c <= '9' {
        Some((c as u32 - '0' as u32) as u64)
    } else {
        None
    }
}

/// The sign and magnitude that `s` spells, where it spells one whose
/// magnitude fits in a `u64`.
fn parse_magnitude(s: &[char], signed: bool) -> (r: Option<(bool, u64)>)
    ensures
        match r {
            Some((neg, m)) => (neg ==> signed) && parse_int(s@, signed) == Some(
                if neg {
                    -(m as int)
                } else {
                    m as int
                },
            ),
            None => match parse_int(s@, signed) {
                Some(v) => v > u64::MAX || v < -(u64::MAX as int),
                None => true,
            },
        },
{
    let n = s.len();
    if n == 0 {
        return None;
    }
    let mut neg = false;
    let mut start: usize = 0;
    if s[0] == '+' || (signed && s[0] == '-') {
        if n == 1 {
            return None;
        }
        neg = s[0] == '-';
        start = 1;
    }
    let ghost d = s@.subrange(start as int, n as int);
    assert(sign_and_digits(s@, signed) == Some((neg, d))) by {
        if start == 1 {
            assert(s@.drop_first() =~= d);
        } else {
            assert(s@ =~= d);
        }
    }
    let mut acc: u64 = 0;
    let mut i: usize = start;
    while i < n
        invariant
            n == s@.len(),
            start <= i <= n,
            d == s@.subrange(start as int, n as int),
            sign_and_digits(s@, signed) == Some((neg, d)),
            neg ==> signed,
            all_digits(d.take(i - start)),
            acc == digits_value(d.take(i - start)),
        decreases n - i,
    {
        let c = s[i];
        let ghost k = i - start;
        assert(d.take(k + 1).drop_last() =~= d.take(k));
        assert(d.take(k + 1).last() == c);
        match char_digit(c) {
            None => {
                assert(d[k] == c);
                assert(!is_digit(d[k]));
                assert(!all_digits(d));
                return None;
            },
            Some(v) => {
                if acc > (u64::MAX - v) / 10 {
                    proof {
                        assert(all_digits(d.take(k + 1)));
                        assert(acc * 10 + v > u64::MAX) by (nonlinear_arith)
                            requires
                                acc > (u64::MAX - v) / 10,
                                v < 10,
                        ;
                        if all_digits(d) {
                            lemma_digits_value_prefix(d, k + 1);
                        }
                    }
                    return None;
                }
                acc = acc * 10 + v;
                assert(all_digits(d.take(k + 1)));
            },
        }
        i = i + 1;
    }
    assert(d.take(n - start) =~= d);
    Some((neg, acc))
}

/// `s` read as a decimal `i32`, as `str::parse::<i32>` reads it.
pub fn parse_i32_chars(s: &[char]) -> (r: Option<i32>)
    ensures
        r == parse_i32(s@),
{
    match parse_magnitude(s, true) {
        Some((neg, m)) => {
            if neg {
                if m <= 2147483648 {
                    let v: i64 = -(m as i64);
                    Some(v as i32)
                } else {
                    None
                }
            } else {
                if m <= 2147483647 {
                    Some(m as i32)
                } else {
                    None
                }
            }
        },
        None => None,
    }
}

/// `s` read as a decimal `u64`, as `str::parse::<u64>` reads it.
pub fn parse_u64_chars(s: &[char]) -> (r: Option<u64>)
    ensures
        r == parse_u64(s@),
{
    match parse_magnitude(s, false) {
        Some((neg, m)) => {
            assert(!neg);
            Some(m)
        },
        None => None,
    }
}

/// Whether the characters `a` are those of the word `b`.
pub fn is_word(a: &[char], b: &str) -> (r: bool)
    ensures
        r == (a@ == b@),
{
    let w = chars_of(b);
    chars_eq(a, w.as_slice())
}

/// Whether the text `s` is the word `b`.
pub fn str_is(s: &str, b: &str) -> (r: bool)
    ensures
        r == (s@ == b@),
{
    let a = chars_of(s);
    is_word(a.as_slice(), b)
}

/// Whether the text `s` begins with `p`, as `str::starts_with`.
pub fn str_starts_with(s: &str, p: &str) -> (r: bool)
    ensures
        r == p@.is_prefix_of(s@),
{
    let a = chars_of(s);
    let b = chars_of(p);
    chars_start_with(a.as_slice(), b.as_slice())
}

proof fn lemma_digit(d: int)
    requires
        0 <= d < 10,
    ensures
        is_digit(digit(d)),
        digit_value(digit(d)) == d,
{
}

/// The decimal text of a number is made of digits and spells the number.
pub proof fn lemma_decimal(n: nat)
    ensures
        decimal(n).len() >= 1,
        all_digits(decimal(n)),
        digits_value(decimal(n)) == n,
    decreases n,
{
    if n >= 10 {
        lemma_decimal(n / 10);
        lemma_digit((n % 10) as int);
        let s = decimal(n);
        assert(s.drop_last() =~= decimal(n / 10));
        assert(s.last() == digit((n % 10) as int));
        assert(n == (n / 10) * 10 + n % 10);
        assert(digits_value(s) == digits_value(s.drop_last()) * 10 + digit_value(s.last()));
        assert(digits_value(s) == (n / 10) * 10 + n % 10);
        assert forall|i: int| 0 <= i < s.len() implies #[trigger] is_digit(s[i]) by {
            if i < s.len() - 1 {
                assert(s[i] == decimal(n / 10)[i]);
            }
        }
    } else {
        lemma_digit(n as int);
        let s = decimal(n);
        assert(s.drop_last() =~= Seq::<char>::empty());
        assert(digits_value(s.drop_last()) == 0);
        assert(digits_value(s) == digit_value(s.last()));
    }
}

/// Reading the decimal text of an `i32` gives the number back.
pub proof fn lemma_i32_text_roundtrip(v: i32)
    ensures
        parse_i32(int_text(v as int)) == Some(v),
{
    if v < 0 {
        let m = (-v) as nat;
        lemma_decimal(m);
        let t = int_text(v as int);
        assert(t.drop_first() =~= decimal(m));
        assert(is_digit(decimal(m)[0]));
    } else {
        lemma_decimal(v as nat);
        assert(is_digit(decimal(v as nat)[0]));
    }
}

/// Reading the decimal text of a `u64` gives the number back.
pub proof fn lemma_u64_text_roundtrip(v: u64)
    ensures
        parse_u64(decimal(v as nat)) == Some(v),
{
    lemma_decimal(v as nat);
    assert(is_digit(decimal(v as nat)[0]));
}

/// Appending text without separators extends the last piece.
pub proof fn lemma_split_append_plain(p: Seq<char>, b: Seq<char>, sep: char)
    requires
        !b.contains(sep),
    ensures
        split_on(p + b, sep) == split_on(p, sep).update(
            split_on(p, sep).len() - 1,
            split_on(p, sep).last() + b,
        ),
    decreases b.len(),
{
    lemma_split_len(p, sep);
    if b.len() == 0 {
        assert(p + b =~= p);
        assert(split_on(p, sep).last() + b =~= split_on(p, sep).last());
        assert(split_on(p, sep).update(split_on(p, sep).len() - 1, split_on(p, sep).last())
            =~= split_on(p, sep));
    } else {
        let b0 = b.drop_last();
        assert(!b0.contains(sep)) by {
            if b0.contains(sep) {
                let i = choose|i: int| 0 <= i < b0.len() && b0[i] == sep;
                assert(b[i] == sep);
            }
        }
        lemma_split_append_plain(p, b0, sep);
        assert((p + b).drop_last() =~= p + b0);
        assert((p + b).last() == b.last());
        assert(b[b.len() - 1] != sep);
        let sp = split_on(p, sep);
        let init = split_on(p + b0, sep);
        assert(init == sp.update(sp.len() - 1, sp.last() + b0));
        assert(init.len() == sp.len());
        assert(init.last() == sp.last() + b0);
        assert(split_on(p + b, sep) == init.update(init.len() - 1, init.last().push(b.last())));
        assert(sp.last() + b0 + seq![b.last()] =~= sp.last() + b);
        assert(init.last().push(b.last()) =~= sp.last() + b);
        assert(split_on(p + b, sep) =~= split_on(p, sep).update(
            split_on(p, sep).len() - 1,
            split_on(p, sep).last() + b,
        ));
    }
}

/// Two words joined by one separator split into the two words.
pub proof fn lemma_split_two_words(a: Seq<char>, b: Seq<char>, sep: char)
    requires
        !a.contains(sep),
        !b.contains(sep),
    ensures
        split_on(a + seq![sep] + b, sep) == seq![a, b],
{
    let e = Seq::<char>::empty();
    lemma_split_append_plain(e, a, sep);
    assert(e + a =~= a);
    assert(split_on(e, sep) =~= seq![e]);
    assert(split_on(a, sep) =~= seq![a]);
    let a1 = a + seq![sep];
    assert(a1.drop_last() =~= a);
    assert(split_on(a1, sep) =~= seq![a, e]);
    lemma_split_append_plain(a1, b, sep);
    assert(e + b =~= b);
    assert(split_on(a1 + b, sep) =~= seq![a, b]);
}

/// The text of an integer holds no character other than digits and `-`.
pub proof fn lemma_int_text_chars(v: int, c: char)
    requires
        c != '-',
        !is_digit(c),
    ensures
        !int_text(v).contains(c),
{
    let n: nat = if v < 0 {
        (-v) as nat
    } else {
        v as nat
    };
    lemma_decimal(n);
    let t = int_text(v);
    if t.contains(c) {
        let i = choose|i: int| 0 <= i < t.len() && t[i] == c;
        if v < 0 {
            assert(i > 0);
            assert(t[i] == decimal(n)[i - 1]);
            assert(is_digit(decimal(n)[i - 1]));
        } else {
            assert(is_digit(decimal(n)[i]));
        }
    }
}

/// Text added at the end changes only the last piece and the pieces after
/// it: the earlier pieces stay.
pub proof fn lemma_split_prefix_stable(p: Seq<char>, q: Seq<char>, sep: char)
    ensures
        split_on(p + q, sep).len() >= split_on(p, sep).len(),
        forall|i: int|
            0 <= i < split_on(p, sep).len() - 1 ==> #[trigger] split_on(p + q, sep)[i] == split_on(
                p,
                sep,
            )[i],
    decreases q.len(),
{
    lemma_split_len(p, sep);
    if q.len() == 0 {
        assert(p + q =~= p);
    } else {
        let q0 = q.drop_last();
        lemma_split_prefix_stable(p, q0, sep);
        assert((p + q).drop_last() =~= p + q0);
        lemma_split_len(p + q0, sep);
    }
}

/// A separator and a word without separators add that word as a new piece.
pub proof fn lemma_split_push_word(w: Seq<char>, x: Seq<char>, sep: char)
    requires
        !x.contains(sep),
    ensures
        split_on(w + seq![sep] + x, sep) == split_on(w, sep).push(x),
{
    lemma_split_len(w, sep);
    let w1 = w + seq![sep];
    assert(w1.drop_last() =~= w);
    assert(split_on(w1, sep) == split_on(w, sep).push(Seq::empty()));
    lemma_split_append_plain(w1, x, sep);
    assert(Seq::<char>::empty() + x =~= x);
    assert(split_on(w1 + x, sep) =~= split_on(w, sep).push(x));
}

/// A word without separators is its own only piece.
pub proof fn lemma_split_one_word(w: Seq<char>, sep: char)
    requires
        !w.contains(sep),
    ensures
        split_on(w, sep) == seq![w],
{
    let e = Seq::<char>::empty();
    lemma_split_append_plain(e, w, sep);
    assert(e + w =~= w);
    assert(split_on(e, sep) =~= seq![e]);
    assert(split_on(w, sep) =~= seq![w]);
}

/// The decimal text of a positive number does not begin with `0`, and a
/// negative number's text begins with `-`: with the read-back laws this makes
/// the text of a number the one way `Display` writes it.
pub proof fn lemma_decimal_canonical(n: nat, i: int)
    ensures
        n > 0 ==> decimal(n)[0] != '0',
        (int_text(i)[0] == '-') == (i < 0),
    decreases n,
{
    lemma_decimal(n);
    if n >= 10 {
        lemma_decimal_canonical(n / 10, 0);
        assert(decimal(n)[0] == decimal(n / 10)[0]);
    }
    let m: nat = if i < 0 {
        (-i) as nat
    } else {
        i as nat
    };
    lemma_decimal(m);
    assert(is_digit(decimal(m)[0]));
}

/// Removing leading white space leaves a suffix that starts with no white
/// space; everything removed is white space.
pub proof fn lemma_trim_start_shape(s: Seq<char>) -> (k: int)
    ensures
        0 <= k <= s.len(),
        trim_start(s) == s.subrange(k, s.len() as int),
        forall|i: int| 0 <= i < k ==> is_white_space(#[trigger] s[i]),
        trim_start(s).len() > 0 ==> !is_white_space(trim_start(s)[0]),
    decreases s.len(),
{
    if s.len() > 0 && is_white_space(s[0]) {
        let k0 = lemma_trim_start_shape(s.drop_first());
        assert forall|i: int| 0 <= i < k0 + 1 implies is_white_space(#[trigger] s[i]) by {
            if i > 0 {
                assert(s[i] == s.drop_first()[i - 1]);
            }
        }
        assert(s.drop_first().subrange(k0, s.drop_first().len() as int) =~= s.subrange(
            k0 + 1,
            s.len() as int,
        ));
        k0 + 1
    } else {
        assert(s.subrange(0, s.len() as int) =~= s);
        0
    }
}

/// Removing trailing white space leaves a prefix that ends with no white
/// space; everything removed is white space.
pub proof fn lemma_trim_end_shape(s: Seq<char>) -> (k: int)
    ensures
        0 <= k <= s.len(),
        trim_end(s) == s.subrange(0, k),
        forall|i: int| k <= i < s.len() ==> is_white_space(#[trigger] s[i]),
        trim_end(s).len() > 0 ==> !is_white_space(trim_end(s).last()),
    decreases s.len(),
{
    if s.len() > 0 && is_white_space(s.last()) {
        let k0 = lemma_trim_end_shape(s.drop_last());
        assert forall|i: int| k0 <= i < s.len() implies is_white_space(#[trigger] s[i]) by {
            if i < s.len() - 1 {
                assert(s[i] == s.drop_last()[i]);
            }
        }
        assert(s.drop_last().subrange(0, k0) =~= s.subrange(0, k0));
        k0
    } else {
        assert(s.subrange(0, s.len() as int) =~= s);
        s.len() as int
    }
}

/// Trimming keeps a middle part of the text that neither begins nor ends
/// with white space, and removes only white space around it.
pub proof fn lemma_trim_shape(s: Seq<char>) -> (r: (int, int))
    ensures
        0 <= r.0 <= r.1 <= s.len(),
        trim(s) == s.subrange(r.0, r.1),
        forall|i: int| 0 <= i < r.0 ==> is_white_space(#[trigger] s[i]),
        forall|i: int| r.1 <= i < s.len() ==> is_white_space(#[trigger] s[i]),
        trim(s).len() > 0 ==> !is_white_space(trim(s)[0]) && !is_white_space(trim(s).last()),
{
    let a = lemma_trim_start_shape(s);
    let t = trim_start(s);
    let b = lemma_trim_end_shape(t);
    assert forall|i: int| a + b <= i < s.len() implies is_white_space(#[trigger] s[i]) by {
        assert(s[i] == t[i - a]);
    }
    assert(t.subrange(0, b) =~= s.subrange(a, a + b));
    if trim(s).len() > 0 {
        assert(trim(s)[0] == t[0]);
    }
    (a, a + b)
}

} // verus!
