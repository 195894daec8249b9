use vstd::prelude::*;

verus! {

/// The characters that carry Unicode's White_Space property.
pub open spec fn white_space(c: char) -> bool {
    let v = c as u32;
    (9 <= v <= 13) || v == 32 || v == 0x85 || v == 0xA0 || v == 0x1680 || (0x2000 <= v <= 0x200A)
        || v == 0x2028 || v == 0x2029 || v == 0x202F || v == 0x205F || v == 0x3000
}

/// Whether `c` is stripped at an end of `s`: white space, or, when `quotes` holds, `"`.
pub open spec fn strippable(c: char, quotes: bool) -> bool {
    if quotes {
        c == '"'
    } else {
        white_space(c)
    }
}

/// The first position at or after `i` whose character is not strippable.
pub open spec fn skip_leading(s: Seq<char>, i: int, quotes: bool) -> int
    decreases s.len() - i,
{
    if 0 <= i < s.len() && strippable(s[i], quotes) {
        skip_leading(s, i + 1, quotes)
    } else {
        i
    }
}

/// The end of `s[lo..j]` once strippable characters are taken off its back.
pub open spec fn skip_trailing(s: Seq<char>, lo: int, j: int, quotes: bool) -> int
    decreases j - lo,
{
    if lo < j <= s.len() && strippable(s[j - 1], quotes) {
        skip_trailing(s, lo, j - 1, quotes)
    } else {
        j
    }
}

/// `s` without strippable characters at either end.
pub open spec fn strip(s: Seq<char>, quotes: bool) -> Seq<char> {
    let a = skip_leading(s, 0, quotes);
    s.subrange(a, skip_trailing(s, a, s.len() as int, quotes))
}

/// `s` without white space at either end.
pub open spec fn trim_spec(s: Seq<char>) -> Seq<char> {
    strip(s, false)
}

/// `s` without `"` at either end.
pub open spec fn unquote_spec(s: Seq<char>) -> Seq<char> {
    strip(s, true)
}

/// The first position at or after `i` that holds `c`, or the length of `s`.
pub open spec fn find_from(s: Seq<char>, c: char, i: int) -> int
    decreases s.len() - i,
{
    if i < 0 || i >= s.len() {
        s.len() as int
    } else if s[i] == c {
        i
    } else {
        find_from(s, c, i + 1)
    }
}

/// The code of `c` once an ASCII capital is made small.
pub open spec fn fold_case(c: char) -> u32 {
    let v = c as u32;
    if 65 <= v <= 90 {
        (v + 32) as u32
    } else {
        v
    }
}

/// `a` and `b` are equal but for the case of ASCII letters.
pub open spec fn same_ignoring_case(a: Seq<char>, b: Seq<char>) -> bool {
    a.len() == b.len() && forall|i: int| 0 <= i < a.len() ==> fold_case(#[trigger] a[i]) == fold_case(b[i])
}

/// `s` starts with keyword `kd` (in any case) and a space: what follows.
pub open spec fn keyword_spec(kd: Seq<char>, s: Seq<char>) -> Option<Seq<char>> {
    if kd.len() < s.len() && same_ignoring_case(s.subrange(0, kd.len() as int), kd) && s[kd.len() as int] == ' ' {
        Some(s.subrange(kd.len() as int + 1, s.len() as int))
    } else {
        None
    }
}

/// The text before the first space of `s`, and what follows that space.
pub open spec fn token_spec(s: Seq<char>) -> Option<(Seq<char>, Seq<char>)> {
    let k = find_from(s, ' ', 0);
    if k < s.len() {
        Some((s.subrange(k + 1, s.len() as int), s.subrange(0, k)))
    } else {
        None
    }
}

/// A leading double-quoted run of `s`: what follows it, and what stands between the quotes.
pub open spec fn quote_spec(s: Seq<char>) -> Option<(Seq<char>, Seq<char>)> {
    let k = find_from(s, '"', 1);
    if s.len() > 0 && s[0] == '"' && k < s.len() {
        Some((s.subrange(k + 1, s.len() as int), s.subrange(1, k)))
    } else {
        None
    }
}

/// A leading quoted run of `s`; failing that, all of `s` with nothing after it.
pub open spec fn quote_opt_spec(s: Seq<char>) -> (Seq<char>, Seq<char>) {
    match quote_spec(s) {
        Some(r) => r,
        None => (Seq::empty(), s),
    }
}

pub open spec fn is_digit(c: char) -> bool {
    48 <= (c as u32) <= 57
}

pub open spec fn digit_value(c: char) -> nat {
    ((c as u32) - 48) as nat
}

/// The number that the decimal digits `s` write.
pub open spec fn decimal_value(s: Seq<char>) -> nat
    decreases s.len(),
{
    if s.len() == 0 {
        0
    } else {
        decimal_value(s.drop_last()) * 10 + digit_value(s.last())
    }
}

pub open spec fn all_digits(s: Seq<char>) -> bool {
    forall|j: int| 0 <= j < s.len() ==> is_digit(#[trigger] s[j])
}

/// `s` starts with exactly `n` decimal digits: what follows them, and their value.
pub open spec fn number_spec(s: Seq<char>, n: nat) -> Option<(Seq<char>, nat)> {
    if n <= s.len() && all_digits(s.subrange(0, n as int)) && (n == s.len() || !is_digit(s[n as int])) {
        Some((s.subrange(n as int, s.len() as int), decimal_value(s.subrange(0, n as int))))
    } else {
        None
    }
}

pub open spec fn pow10(n: nat) -> nat
    decreases n,
{
    if n == 0 {
        1
    } else {
        10 * pow10((n - 1) as nat)
    }
}

/// Whether `c` has Unicode's White_Space property, as `char::is_whitespace` tells.
pub fn is_white_space(c: char) -> (r: bool)
    ensures
        r == white_space(c),
{
    let v = c as u32;
    (9 <= v && v <= 13) || v == 32 || v == 0x85 || v == 0xA0 || v == 0x1680 || (0x2000 <= v && v
        <= 0x200A) || v == 0x2028 || v == 0x2029 || v == 0x202F || v == 0x205F || v == 0x3000
}

fn is_strippable(c: char, quotes: bool) -> (r: bool)
    ensures
        r == strippable(c, quotes),
{
    if quotes {
        c == '"'
    } else {
        is_white_space(c)
    }
}

fn strip_ends(s: &str, quotes: bool) -> (r: &str)
    ensures
        r@ == strip(s@, quotes),
{
    let n = s.unicode_len();
    let mut i: usize = 0;
    while i < n && is_strippable(s.get_char(i), quotes)
        invariant
            i <= n,
            n == s@.len(),
            skip_leading(s@, 0, quotes) == skip_leading(s@, i as int, quotes),
        decreases n - i,
    {
        i += 1;
    }
    let mut j: usize = n;
    while j > i && is_strippable(s.get_char(j - 1), quotes)
        invariant
            i <= j <= n,
            n == s@.len(),
            skip_leading(s@, 0, quotes) == i,
            skip_trailing(s@, i as int, n as int, quotes) == skip_trailing(s@, i as int, j as int, quotes),
        decreases j,
    {
        j -= 1;
    }
    s.substring_char(i, j)
}

/// `s` without white space at either end.
pub fn trim(s: &str) -> (r: &str)
    ensures
        r@ == trim_spec(s@),
{
    strip_ends(s, false)
}

/// `s` without `"` at either end.
pub fn unquote(s: &str) -> (r: &str)
    ensures
        r@ == unquote_spec(s@),
{
    strip_ends(s, true)
}

fn find_char(s: &str, c: char, start: usize) -> (k: usize)
    requires
        start <= s@.len(),
    ensures
        k == find_from(s@, c, start as int),
        start <= k <= s@.len(),
{
    let n = s.unicode_len();
    let mut i = start;
    while i < n && s.get_char(i) != c
        invariant
            start <= i <= n,
            n == s@.len(),
            find_from(s@, c, start as int) == find_from(s@, c, i as int),
        decreases n - i,
    {
        i += 1;
    }
    i
}

/// Whether `a` and `b` are equal but for the case of ASCII letters.
pub fn eq_ignore_case(a: &str, b: &str) -> (r: bool)
    ensures
        r == same_ignoring_case(a@, b@),
{
    let n = a.unicode_len();
    if n != b.unicode_len() {
        return false;
    }
    let mut i: usize = 0;
    while i < n
        invariant
            i <= n,
            n == a@.len(),
            n == b@.len(),
            forall|j: int| 0 <= j < i ==> fold_case(#[trigger] a@[j]) == fold_case(b@[j]),
        decreases n - i,
    {
        let x = a.get_char(i) as u32;
        let y = b.get_char(i) as u32;
        let fx = if 65 <= x && x <= 90 { x + 32 } else { x };
        let fy = if 65 <= y && y <= 90 { y + 32 } else { y };
        if fx != fy {
            assert(fold_case(a@[i as int]) != fold_case(b@[i as int]));
            return false;
        }
        i += 1;
    }
    true
}

/// Matches keyword `kd`, in any case, and one space after it; gives what follows.
pub fn keyword<'a>(kd: &str, s: &'a str) -> (r: Option<&'a str>)
    ensures
        r.is_some() == keyword_spec(kd@, s@).is_some(),
        r.is_some() ==> r.unwrap()@ == keyword_spec(kd@, s@).unwrap(),
{
    let k = kd.unicode_len();
    let n = s.unicode_len();
    if k < n && eq_ignore_case(s.substring_char(0, k), kd) && s.get_char(k) == ' ' {
        Some(s.substring_char(k + 1, n))
    } else {
        None
    }
}

/// Splits `s` at its first space: (what follows the space, what precedes it).
pub fn token<'a>(s: &'a str) -> (r: Option<(&'a str, &'a str)>)
    ensures
        r.is_some() == token_spec(s@).is_some(),
        r.is_some() ==> (r.unwrap().0@, r.unwrap().1@) == token_spec(s@).unwrap(),
{
    let n = s.unicode_len();
    let k = find_char(s, ' ', 0);
    if k < n {
        Some((s.substring_char(k + 1, n), s.substring_char(0, k)))
    } else {
        None
    }
}

/// Matches a leading `"..."`: (what follows it, what stands between the quotes).
pub fn quote<'a>(s: &'a str) -> (r: Option<(&'a str, &'a str)>)
    ensures
        r.is_some() == quote_spec(s@).is_some(),
        r.is_some() ==> (r.unwrap().0@, r.unwrap().1@) == quote_spec(s@).unwrap(),
{
    let n = s.unicode_len();
    if n == 0 || s.get_char(0) != '"' {
        return None;
    }
    let k = find_char(s, '"', 1);
    if k < n {
        Some((s.substring_char(k + 1, n), s.substring_char(1, k)))
    } else {
        None
    }
}

/// Matches a leading `"..."`, or else takes all of `s` as unquoted content.
pub fn quote_opt<'a>(s: &'a str) -> (r: (&'a str, &'a str))
    ensures
        (r.0@, r.1@) == quote_opt_spec(s@),
{
    match quote(s) {
        Some(r) => r,
        None => {
            let n = s.unicode_len();
            (s.substring_char(n, n), s)
        },
    }
}

fn is_decimal_digit(c: char) -> (r: bool)
    ensures
        r == is_digit(c),
{
    let v = c as u32;
    48 <= v && v <= 57
}

proof fn lemma_pow10_bound(n: nat)
    requires
        n <= 19,
    ensures
        pow10(n) <= 10_000_000_000_000_000_000,
{
    reveal_with_fuel(pow10, 20);
    assert(pow10(19) == 10_000_000_000_000_000_000nat);
    lemma_pow10_mono(n, 19);
}

proof fn lemma_pow10_mono(a: nat, b: nat)
    requires
        a <= b,
    ensures
        pow10(a) <= pow10(b),
        pow10(a) >= 1,
    decreases b,
{
    if a < b {
        lemma_pow10_mono(a, (b - 1) as nat);
    } else if a > 0 {
        lemma_pow10_mono((a - 1) as nat, (a - 1) as nat);
    }
}

proof fn lemma_take_step(s: Seq<char>, i: int)
    requires
        0 <= i < s.len(),
    ensures
        decimal_value(s.subrange(0, i + 1)) == decimal_value(s.subrange(0, i)) * 10 + digit_value(s[i]),
{
    assert(s.subrange(0, i + 1).drop_last() =~= s.subrange(0, i));
}

proof fn lemma_value_below(t: Seq<char>)
    requires
        all_digits(t),
    ensures
        decimal_value(t) < pow10(t.len()),
    decreases t.len(),
{
    if t.len() > 0 {
        let u = t.drop_last();
        assert forall|j: int| 0 <= j < u.len() implies is_digit(#[trigger] u[j]) by {
            assert(u[j] == t[j]);
        }
        lemma_value_below(u);
        assert(pow10(t.len()) == 10 * pow10(u.len()));
        let d = digit_value(t.last());
        assert(d < 10);
        assert(decimal_value(u) * 10 + d < 10 * pow10(u.len())) by (nonlinear_arith)
            requires
                decimal_value(u) < pow10(u.len()),
                d < 10,
        ;
    }
}

/// A number read as `n` digits is below `10^n`.
pub proof fn lemma_number_below(s: Seq<char>, n: nat)
    requires
        number_spec(s, n).is_some(),
    ensures
        number_spec(s, n).unwrap().1 < pow10(n),
{
    lemma_value_below(s.subrange(0, n as int));
}

/// Two digits make a number below a hundred.
pub proof fn lemma_two_digits_below(s: Seq<char>)
    requires
        number_spec(s, 2).is_some(),
    ensures
        number_spec(s, 2).unwrap().1 < 100,
{
    lemma_number_below(s, 2);
    reveal_with_fuel(pow10, 3);
}

/// Reads exactly `n` leading decimal digits of `s`: (what follows them, their value).
pub fn number<'a>(n: usize, s: &'a str) -> (r: Option<(&'a str, u64)>)
    requires
        n <= 19,
    ensures
        r.is_some() == number_spec(s@, n as nat).is_some(),
        r.is_some() ==> (r.unwrap().0@, r.unwrap().1 as nat) == number_spec(s@, n as nat).unwrap(),
{
    let len = s.unicode_len();
    let mut i: usize = 0;
    let mut acc: u64 = 0;
    while i < len && i < n && is_decimal_digit(s.get_char(i))
        invariant
            i <= len,
            i <= n,
            n <= 19,
            len == s@.len(),
            all_digits(s@.subrange(0, i as int)),
            acc == decimal_value(s@.subrange(0, i as int)),
            acc < pow10(i as nat),
        decreases n - i,
    {
        let d = (s.get_char(i) as u32 - 48) as u64;
        proof {
            lemma_take_step(s@, i as int);
            lemma_pow10_bound((i + 1) as nat);
            assert(acc * 10 + d < pow10((i + 1) as nat)) by (nonlinear_arith)
                requires
                    acc < pow10(i as nat),
                    d < 10,
                    pow10((i + 1) as nat) == 10 * pow10(i as nat),
            ;
            assert forall|j: int| 0 <= j < i + 1 implies is_digit(#[trigger] s@.subrange(0, i + 1)[j]) by {
                if j < i {
                    assert(s@.subrange(0, i + 1)[j] == s@.subrange(0, i as int)[j]);
                }
            }
        }
        acc = acc * 10 + d;
        i += 1;
    }
    if i == n && (i == len || !is_decimal_digit(s.get_char(i))) {
        Some((s.substring_char(i, len), acc))
    } else {
        proof {
            if i < n && n <= len {
                assert(s@.subrange(0, n as int)[i as int] == s@[i as int]);
            }
        }
        None
    }
}

/// The pieces of `s[i..]` between the occurrences of `c`, as `str::split` cuts them.
pub open spec fn split_from(s: Seq<char>, c: char, i: int) -> Seq<Seq<char>>
    decreases s.len() - i,
{
    let k = find_from(s, c, i);
    if i < 0 || i > s.len() || k < i || k >= s.len() {
        seq![s.subrange(i, s.len() as int)]
    } else {
        seq![s.subrange(i, k)] + split_from(s, c, k + 1)
    }
}

/// The pieces of `s` between the occurrences of `c`.
pub fn split_on(s: &str, c: char) -> (r: Vec<String>)
    ensures
        r@.map_values(|x: String| x@) == split_from(s@, c, 0),
{
    let n = s.unicode_len();
    let mut out: Vec<String> = Vec::new();
    let mut i: usize = 0;
    loop
        invariant
            i <= n,
            n == s@.len(),
            out@.map_values(|x: String| x@) + split_from(s@, c, i as int) == split_from(s@, c, 0),
        decreases n - i,
    {
        let k = find_char(s, c, i);
        let ghost before = out@.map_values(|x: String| x@);
        out.push(String::from_str(s.substring_char(i, k)));
        assert(out@.map_values(|x: String| x@) =~= before.push(s@.subrange(i as int, k as int)));
        if k >= n {
            assert(split_from(s@, c, i as int) == seq![s@.subrange(i as int, n as int)]);
            assert(before + split_from(s@, c, i as int) =~= before.push(s@.subrange(i as int, k as int)));
            return out;
        }
        assert(split_from(s@, c, i as int) == seq![s@.subrange(i as int, k as int)] + split_from(s@, c, k + 1));
        assert(before + split_from(s@, c, i as int) =~= before.push(s@.subrange(i as int, k as int)) + split_from(s@, c, k + 1));
        i = k + 1;
    }
}

proof fn lemma_skip_blank(s: Seq<char>, i: int)
    requires
        0 <= i <= s.len(),
        forall|j: int| i <= j < s.len() ==> white_space(#[trigger] s[j]),
    ensures
        skip_leading(s, i, false) == s.len(),
    decreases s.len() - i,
{
    if i < s.len() {
        lemma_skip_blank(s, i + 1);
    }
}

/// A text of white space alone trims to nothing.
pub proof fn lemma_trim_blank(s: Seq<char>)
    requires
        forall|j: int| 0 <= j < s.len() ==> white_space(#[trigger] s[j]),
    ensures
        trim_spec(s).len() == 0,
{
    lemma_skip_blank(s, 0);
}

/// Two digits, followed by the end or by a character that is no digit, read as their
/// number, and the matcher goes on after exactly those two characters.
pub proof fn lemma_two_digits(d: Seq<char>, rest: Seq<char>)
    requires
        d.len() == 2,
        all_digits(d),
        rest.len() == 0 || !is_digit(rest[0]),
    ensures
        number_spec(d + rest, 2) == Some((rest, digit_value(d[0]) * 10 + digit_value(d[1]))),
{
    let s = d + rest;
    assert(s.subrange(0, 2) =~= d);
    assert(s.subrange(2, s.len() as int) =~= rest);
    assert(d.drop_last().drop_last() =~= Seq::<char>::empty());
    assert(d.drop_last() =~= seq![d[0]]);
    assert(decimal_value(seq![d[0]]) == digit_value(d[0])) by {
        assert(seq![d[0]].drop_last() =~= Seq::<char>::empty());
        assert(decimal_value(Seq::<char>::empty()) == 0);
        assert(seq![d[0]].last() == d[0]);
    }
    if rest.len() > 0 {
        assert(s[2] == rest[0]);
    }
}

/// A run of digits of any other length than two, followed by the end or by a character
/// that is no digit, does not read as a two-digit number.
pub proof fn lemma_not_two_digits(d: Seq<char>, rest: Seq<char>)
    requires
        d.len() != 2,
        all_digits(d),
        rest.len() == 0 || !is_digit(rest[0]),
    ensures
        number_spec(d + rest, 2).is_none(),
{
    let s = d + rest;
    if d.len() > 2 {
        assert(s[2] == d[2]);
    } else if 2 <= s.len() {
        if d.len() == 1 {
            assert(s.subrange(0, 2)[1] == rest[0]);
        } else {
            assert(s.subrange(0, 2)[0] == rest[0]);
        }
    }
}

/// The numeral of a digit.
pub open spec fn digit_char(d: nat) -> char {
    if d == 0 {
        '0'
    } else if d == 1 {
        '1'
    } else if d == 2 {
        '2'
    } else if d == 3 {
        '3'
    } else if d == 4 {
        '4'
    } else if d == 5 {
        '5'
    } else if d == 6 {
        '6'
    } else if d == 7 {
        '7'
    } else if d == 8 {
        '8'
    } else {
        '9'
    }
}

/// The decimal numeral of `v`, without leading zeros.
pub open spec fn digits_of(v: nat) -> Seq<char>
    decreases v,
{
    if v < 10 {
        seq![digit_char(v)]
    } else {
        digits_of(v / 10).push(digit_char(v % 10))
    }
}

pub open spec fn zeros(k: nat) -> Seq<char> {
    Seq::new(k, |_i: int| '0')
}

/// The decimal numeral of `v`, padded with zeros on the left to `width` characters.
pub open spec fn decimal_text(v: nat, width: nat) -> Seq<char> {
    let d = digits_of(v);
    if d.len() < width {
        zeros((width - d.len()) as nat) + d
    } else {
        d
    }
}

fn digit_str(d: u64) -> (r: &'static str)
    requires
        d < 10,
    ensures
        r@ == seq![digit_char(d as nat)],
{
    proof {
        reveal_strlit("0");
        reveal_strlit("1");
        reveal_strlit("2");
        reveal_strlit("3");
        reveal_strlit("4");
        reveal_strlit("5");
        reveal_strlit("6");
        reveal_strlit("7");
        reveal_strlit("8");
        reveal_strlit("9");
    }
    let r = if d == 0 {
        "0"
    } else if d == 1 {
        "1"
    } else if d == 2 {
        "2"
    } else if d == 3 {
        "3"
    } else if d == 4 {
        "4"
    } else if d == 5 {
        "5"
    } else if d == 6 {
        "6"
    } else if d == 7 {
        "7"
    } else if d == 8 {
        "8"
    } else {
        "9"
    };
    assert(r@ =~= seq![digit_char(d as nat)]);
    r
}

fn push_digits(out: &mut String, v: u64)
    ensures
        final(out)@ == old(out)@ + digits_of(v as nat),
    decreases v,
{
    if v >= 10 {
        push_digits(out, v / 10);
    }
    out.append(digit_str(v % 10));
    assert(final(out)@ =~= old(out)@ + digits_of(v as nat));
}

fn digit_count(v: u64) -> (r: u64)
    ensures
        r == digits_of(v as nat).len(),
        r <= 20,
    decreases v,
{
    if v < 10 {
        1
    } else {
        let k = digit_count(v / 10);
        proof {
            lemma_digit_count_bound(v as nat);
        }
        k + 1
    }
}

proof fn lemma_digit_count_bound(v: nat)
    requires
        v < 18_446_744_073_709_551_616,
    ensures
        digits_of(v).len() <= 20,
{
    reveal_with_fuel(pow10, 21);
    assert(pow10(20) == 100_000_000_000_000_000_000nat);
    lemma_digits_len_pow(v, 20);
}

pub proof fn lemma_digits_len_pow(v: nat, k: nat)
    requires
        v < pow10(k),
        k >= 1,
    ensures
        digits_of(v).len() <= k,
    decreases v,
{
    if v >= 10 {
        assert(k > 0) by {
            if k == 0 {
                assert(pow10(0) == 1);
            }
        }
        assert(pow10(k) == 10 * pow10((k - 1) as nat));
        assert(v / 10 < pow10((k - 1) as nat)) by (nonlinear_arith)
            requires
                v < pow10(k),
                pow10(k) == 10 * pow10((k - 1) as nat),
        ;
        if k == 1 {
            assert(pow10(0) == 1);
        }
        lemma_digits_len_pow(v / 10, (k - 1) as nat);
    }
}

/// Appends the decimal numeral of `v`, padded with zeros on the left to `width` characters.
pub fn push_decimal(out: &mut String, v: u64, width: usize)
    ensures
        final(out)@ == old(out)@ + decimal_text(v as nat, width as nat),
{
    let count = digit_count(v);
    let mut k: u64 = 0;
    if count < width as u64 {
        let pad = width as u64 - count;
        while k < pad
            invariant
                k <= pad,
                out@ == old(out)@ + zeros(k as nat),
            decreases pad - k,
        {
            out.append("0");
            proof {
                reveal_strlit("0");
            }
            assert(zeros((k + 1) as nat) =~= zeros(k as nat).push('0'));
            k += 1;
        }
    }
    push_digits(out, v);
    assert(out@ =~= old(out)@ + decimal_text(v as nat, width as nat));
}

/// The value of a field of decimal digits that fits in a `u32`.
pub open spec fn field_value(s: Seq<char>) -> Option<u32> {
    if s.len() > 0 && all_digits(s) && decimal_value(s) <= u32::MAX {
        Some(decimal_value(s) as u32)
    } else {
        None
    }
}

proof fn lemma_prefix_value_grows(s: Seq<char>, i: int, j: int)
    requires
        0 <= i <= j <= s.len(),
        all_digits(s),
    ensures
        decimal_value(s.subrange(0, i)) <= decimal_value(s.subrange(0, j)),
    decreases j - i,
{
    if i < j {
        lemma_prefix_value_grows(s, i, j - 1);
        lemma_take_step(s, j - 1);
    }
}

/// Reads a field of decimal digits whose value fits in a `u32`.
pub fn parse_field(s: &str) -> (r: Option<u32>)
    ensures
        r == field_value(s@),
{
    let len = s.unicode_len();
    if len == 0 {
        return None;
    }
    let mut i: usize = 0;
    let mut acc: u64 = 0;
    while i < len
        invariant
            i <= len,
            len == s@.len(),
            all_digits(s@.subrange(0, i as int)),
            acc == decimal_value(s@.subrange(0, i as int)),
            acc <= u32::MAX,
        decreases len - i,
    {
        let c = s.get_char(i);
        if !is_decimal_digit(c) {
            return None;
        }
        proof {
            lemma_take_step(s@, i as int);
            assert forall|j: int| 0 <= j < i + 1 implies is_digit(#[trigger] s@.subrange(0, i + 1)[j]) by {
                if j < i {
                    assert(s@.subrange(0, i + 1)[j] == s@.subrange(0, i as int)[j]);
                }
            }
        }
        acc = acc * 10 + (c as u32 - 48) as u64;
        i += 1;
        if acc > 0xFFFF_FFFF {
            proof {
                if all_digits(s@) {
                    lemma_prefix_value_grows(s@, i as int, len as int);
                    assert(s@.subrange(0, len as int) =~= s@);
                }
            }
            return None;
        }
    }
    assert(s@.subrange(0, len as int) =~= s@);
    Some(acc as u32)
}

} // verus!
