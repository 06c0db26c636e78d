//! Strings as sequences of characters: splitting, trimming, decimal numbers.

use vstd::prelude::*;

verus! {

/// `String::push` appends one character.
pub assume_specification[ String::push ](s: &mut String, c: char)
    ensures
        final(s)@ == old(s)@.push(c),
;

/// `String::push_str` appends a whole string.
pub assume_specification[ String::push_str ](s: &mut String, tail: &str)
    ensures
        final(s)@ == old(s)@ + tail@,
;

/// The characters of `s`, in order.
pub fn chars_of(s: &str) -> (v: Vec<char>)
    ensures
        v@ == s@,
{
    let mut v: Vec<char> = Vec::new();
    for c in it: s.chars()
        invariant
            it.seq() == s@,
            v@ == s@.take(it.index()),
    {
        proof {
            assert(s@.take(it.index() + 1) =~= s@.take(it.index()).push(s@[it.index()]));
        }
        v.push(c);
    }
    proof {
        assert(s@.take(s@.len() as int) =~= s@);
    }
    v
}

/// Whether two strings hold the same characters.
pub fn same(a: &str, b: &str) -> (r: bool)
    ensures
        r == (a@ == b@),
{
    let x = chars_of(a);
    let y = chars_of(b);
    if x.len() != y.len() {
        return false;
    }
    let mut i: usize = 0;
    while i < x.len()
        invariant
            i <= x@.len(),
            x@.len() == y@.len(),
            x@ == a@,
            y@ == b@,
            forall|k: int| 0 <= k < i ==> a@[k] == b@[k],
        decreases x@.len() - i,
    {
        if x[i] != y[i] {
            return false;
        }
        i = i + 1;
    }
    proof {
        assert(a@ =~= b@);
    }
    true
}

/// The string made of `v[from..to]`.
pub fn string_between(v: &Vec<char>, from: usize, to: usize) -> (s: String)
    requires
        from <= to <= v@.len(),
    ensures
        s@ == v@.subrange(from as int, to as int),
{
    let mut s = String::new();
    let mut i: usize = from;
    while i < to
        invariant
            from <= i <= to <= v@.len(),
            s@ == v@.subrange(from as int, i as int),
        decreases to - i,
    {
        s.push(v[i]);
        i = i + 1;
        proof {
            assert(v@.subrange(from as int, i as int) =~= v@.subrange(from as int, i - 1).push(v@[i - 1]));
        }
    }
    s
}

/// Where `c` first occurs in `s`, or the length of `s` where it does not.
pub open spec fn position(s: Seq<char>, c: char) -> int
    decreases s.len(),
{
    if s.len() == 0 || s[0] == c {
        0
    } else {
        1 + position(s.drop_first(), c)
    }
}

/// `s` cut at the first `c`, which belongs to neither half.
pub open spec fn split_once_spec(s: Seq<char>, c: char) -> Option<(Seq<char>, Seq<char>)> {
    let i = position(s, c);
    if i < s.len() {
        Some((s.take(i), s.skip(i + 1)))
    } else {
        None
    }
}

/// The pieces of `s` between the occurrences of `c`; never empty.
pub open spec fn split_spec(s: Seq<char>, c: char) -> Seq<Seq<char>>
    decreases s.len(),
{
    let i = position(s, c);
    if 0 <= i < s.len() {
        seq![s.take(i)] + split_spec(s.skip(i + 1), c)
    } else {
        seq![s]
    }
}

/// What `position` is: no earlier occurrence, and one there unless at the end.
pub proof fn lemma_position(s: Seq<char>, c: char)
    ensures
        0 <= position(s, c) <= s.len(),
        position(s, c) < s.len() ==> s[position(s, c)] == c,
        forall|j: int| 0 <= j < position(s, c) ==> s[j] != c,
    decreases s.len(),
{
    if s.len() == 0 || s[0] == c {
    } else {
        lemma_position(s.drop_first(), c);
        assert forall|j: int| 0 <= j < position(s, c) implies s[j] != c by {
            if j > 0 {
                assert(s[j] == s.drop_first()[j - 1]);
            }
        }
    }
}

/// The first occurrence is the only index with that property.
pub proof fn lemma_position_is(s: Seq<char>, c: char, i: int)
    requires
        0 <= i <= s.len(),
        i < s.len() ==> s[i] == c,
        forall|j: int| 0 <= j < i ==> s[j] != c,
    ensures
        position(s, c) == i,
{
    lemma_position(s, c);
    let p = position(s, c);
    if p < i {
        assert(s[p] != c);
    } else if i < p {
        assert(s[i] != c);
    }
}

/// The index of the first `c` at or after `from`, or the length.
pub fn find_from(v: &Vec<char>, from: usize, c: char) -> (i: usize)
    requires
        from <= v@.len(),
    ensures
        from <= i <= v@.len(),
        i - from == position(v@.skip(from as int), c),
{
    let mut i: usize = from;
    while i < v.len() && v[i] != c
        invariant
            from <= i <= v@.len(),
            forall|j: int| from <= j < i ==> v@[j] != c,
        decreases v@.len() - i,
    {
        i = i + 1;
    }
    proof {
        let t = v@.skip(from as int);
        assert forall|j: int| 0 <= j < i - from implies t[j] != c by {
            assert(t[j] == v@[j + from]);
        }
        if i < v@.len() {
            assert(t[i - from] == v@[i as int]);
        }
        lemma_position_is(t, c, i - from);
    }
    i
}

/// Cut `s` at the first `c`.
pub fn split_once(s: &str, c: char) -> (r: Option<(String, String)>)
    ensures
        match (r, split_once_spec(s@, c)) {
            (Some(got), Some(want)) => got.0@ == want.0 && got.1@ == want.1,
            (None, None) => true,
            _ => false,
        },
{
    let v = chars_of(s);
    let i = find_from(&v, 0, c);
    proof {
        assert(v@.skip(0) =~= s@);
    }
    if i < v.len() {
        let head = string_between(&v, 0, i);
        let tail = string_between(&v, i + 1, v.len());
        proof {
            assert(v@.subrange(0, i as int) =~= s@.take(i as int));
            assert(v@.subrange(i + 1, v@.len() as int) =~= s@.skip(i + 1));
        }
        Some((head, tail))
    } else {
        None
    }
}

/// The characters of each string of `v`.
pub open spec fn views(v: Seq<String>) -> Seq<Seq<char>> {
    v.map_values(|s: String| s@)
}

/// Cut `s` at every `c`.
pub fn split(s: &str, c: char) -> (r: Vec<String>)
    ensures
        views(r@) == split_spec(s@, c),
{
    let v = chars_of(s);
    let mut out: Vec<String> = Vec::new();
    let mut from: usize = 0;
    proof {
        assert(v@.skip(0) =~= s@);
        assert(views(out@) + split_spec(s@, c) =~= split_spec(s@, c));
    }
    loop
        invariant
            from <= v@.len(),
            v@ == s@,
            views(out@) + split_spec(v@.skip(from as int), c) == split_spec(s@, c),
        decreases v@.len() - from,
    {
        let i = find_from(&v, from, c);
        let piece = string_between(&v, from, i);
        let ghost before = out@;
        let ghost rest = v@.skip(from as int);
        out.push(piece);
        proof {
            assert(views(out@) =~= views(before).push(piece@));
        }
        if i < v.len() {
            proof {
                assert(rest.take(i - from) =~= v@.subrange(from as int, i as int));
                assert(rest.skip(i - from + 1) =~= v@.skip(i + 1));
                assert(views(before) + (seq![piece@] + split_spec(v@.skip(i + 1), c))
                    =~= views(before).push(piece@) + split_spec(v@.skip(i + 1), c));
            }
            from = i + 1;
        } else {
            proof {
                assert(rest =~= v@.subrange(from as int, i as int));
                assert(views(out@) =~= views(before) + seq![piece@]);
            }
            return out;
        }
    }
}

/// Unicode white space.
pub open spec fn is_white_space(c: char) -> bool {
    ||| '\u{9}' <= c <= '\u{d}'
    ||| c == ' '
    ||| c == '\u{85}'
    ||| c == '\u{a0}'
    ||| c == '\u{1680}'
    ||| '\u{2000}' <= c <= '\u{200a}'
    ||| c == '\u{2028}'
    ||| c == '\u{2029}'
    ||| c == '\u{202f}'
    ||| c == '\u{205f}'
    ||| c == '\u{3000}'
}

/// Whether `c` is Unicode white space.
pub fn white_space(c: char) -> (r: bool)
    ensures
        r == is_white_space(c),
{
    ('\u{9}' <= c && c <= '\u{d}') || c == ' ' || c == '\u{85}' || c == '\u{a0}' || c == '\u{1680}'
        || ('\u{2000}' <= c && c <= '\u{200a}') || c == '\u{2028}' || c == '\u{2029}' || c == '\u{202f}'
        || c == '\u{205f}' || c == '\u{3000}'
}

/// How many characters of white space `s` starts with.
pub open spec fn leading_space(s: Seq<char>) -> int
    decreases s.len(),
{
    if s.len() > 0 && is_white_space(s[0]) {
        1 + leading_space(s.drop_first())
    } else {
        0
    }
}

/// How many characters `s` has before its first white space.
pub open spec fn leading_word(s: Seq<char>) -> int
    decreases s.len(),
{
    if s.len() > 0 && !is_white_space(s[0]) {
        1 + leading_word(s.drop_first())
    } else {
        0
    }
}

/// `s` without the white space at its start.
pub open spec fn trim_start_spec(s: Seq<char>) -> Seq<char> {
    s.skip(leading_space(s))
}

/// `s` without the white space at its end.
pub open spec fn trim_end_spec(s: Seq<char>) -> Seq<char>
    decreases s.len(),
{
    if s.len() > 0 && is_white_space(s.last()) {
        trim_end_spec(s.drop_last())
    } else {
        s
    }
}

/// `s` without the white space at both ends.
pub open spec fn trim_spec(s: Seq<char>) -> Seq<char> {
    trim_end_spec(trim_start_spec(s))
}

/// The first run of characters that are not white space.
pub open spec fn first_word_spec(s: Seq<char>) -> Option<Seq<char>> {
    let t = trim_start_spec(s);
    if t.len() == 0 {
        None
    } else {
        Some(t.take(leading_word(t)))
    }
}

/// The second run of characters that are not white space.
pub open spec fn second_word_spec(s: Seq<char>) -> Option<Seq<char>> {
    let t = trim_start_spec(s);
    first_word_spec(t.skip(leading_word(t)))
}

/// The length of the white space at the start is the only one with that property.
pub proof fn lemma_leading_space_is(s: Seq<char>, n: int)
    requires
        0 <= n <= s.len(),
        forall|j: int| 0 <= j < n ==> is_white_space(s[j]),
        n < s.len() ==> !is_white_space(s[n]),
    ensures
        leading_space(s) == n,
    decreases s.len(),
{
    if n > 0 {
        assert(is_white_space(s[0]));
        lemma_leading_space_is(s.drop_first(), n - 1);
    }
}

/// The length of the first word is the only one with that property.
pub proof fn lemma_leading_word_is(s: Seq<char>, n: int)
    requires
        0 <= n <= s.len(),
        forall|j: int| 0 <= j < n ==> !is_white_space(s[j]),
        n < s.len() ==> is_white_space(s[n]),
    ensures
        leading_word(s) == n,
    decreases s.len(),
{
    if n > 0 {
        assert(!is_white_space(s[0]));
        lemma_leading_word_is(s.drop_first(), n - 1);
    }
}

/// The first index at or after `from` that holds no white space.
fn skip_space(v: &Vec<char>, from: usize) -> (i: usize)
    requires
        from <= v@.len(),
    ensures
        from <= i <= v@.len(),
        i - from == leading_space(v@.skip(from as int)),
{
    let mut i: usize = from;
    while i < v.len() && white_space(v[i])
        invariant
            from <= i <= v@.len(),
            forall|j: int| from <= j < i ==> is_white_space(#[trigger] v@[j]),
        decreases v@.len() - i,
    {
        i = i + 1;
    }
    proof {
        let t = v@.skip(from as int);
        assert forall|j: int| 0 <= j < i - from implies is_white_space(t[j]) by {
            assert(t[j] == v@[j + from]);
        }
        lemma_leading_space_is(t, i - from);
    }
    i
}

/// The first index at or after `from` that holds white space.
fn skip_word(v: &Vec<char>, from: usize) -> (i: usize)
    requires
        from <= v@.len(),
    ensures
        from <= i <= v@.len(),
        i - from == leading_word(v@.skip(from as int)),
{
    let mut i: usize = from;
    while i < v.len() && !white_space(v[i])
        invariant
            from <= i <= v@.len(),
            forall|j: int| from <= j < i ==> !is_white_space(#[trigger] v@[j]),
        decreases v@.len() - i,
    {
        i = i + 1;
    }
    proof {
        let t = v@.skip(from as int);
        assert forall|j: int| 0 <= j < i - from implies !is_white_space(t[j]) by {
            assert(t[j] == v@[j + from]);
        }
        lemma_leading_word_is(t, i - from);
    }
    i
}

/// The second word of `s`.
pub fn second_word(s: &str) -> (r: Option<String>)
    ensures
        match (r, second_word_spec(s@)) {
            (Some(got), Some(want)) => got@ == want,
            (None, None) => true,
            _ => false,
        },
{
    let v = chars_of(s);
    let a = skip_space(&v, 0);
    let b = skip_word(&v, a);
    let c = skip_space(&v, b);
    proof {
        assert(v@.skip(0) =~= s@);
        assert(trim_start_spec(s@) =~= v@.skip(a as int));
        assert(v@.skip(a as int).skip(b - a) =~= v@.skip(b as int));
        assert(v@.skip(b as int).skip(c - b) =~= v@.skip(c as int));
    }
    if c == v.len() {
        None
    } else {
        let d = skip_word(&v, c);
        proof {
            assert(v@.subrange(c as int, d as int) =~= v@.skip(c as int).take(d - c));
        }
        Some(string_between(&v, c, d))
    }
}

/// `s` without white space at either end.
pub fn trim(s: &str) -> (r: String)
    ensures
        r@ == trim_spec(s@),
{
    let v = chars_of(s);
    let from = skip_space(&v, 0);
    proof {
        assert(v@.skip(0) =~= s@);
        assert(v@.subrange(from as int, v@.len() as int) =~= trim_start_spec(s@));
    }
    let mut to: usize = v.len();
    while to > from && white_space(v[to - 1])
        invariant
            from <= to <= v@.len(),
            trim_end_spec(v@.subrange(from as int, to as int)) == trim_spec(s@),
        decreases to,
    {
        proof {
            let t = v@.subrange(from as int, to as int);
            assert(t.drop_last() =~= v@.subrange(from as int, to - 1));
            assert(t.last() == v@[to - 1]);
        }
        to = to - 1;
    }
    proof {
        let t = v@.subrange(from as int, to as int);
        if to > from {
            assert(t.last() == v@[to - 1]);
        }
    }
    string_between(&v, from, to)
}

/// The decimal digit for `d`.
pub open spec fn digit(d: nat) -> char {
    ((48 + d) as u8) as char
}

/// `n` in decimal, without leading zeros.
pub open spec fn decimal_spec(n: nat) -> Seq<char>
    decreases n,
{
    if n < 10 {
        seq![digit(n)]
    } else {
        decimal_spec(n / 10).push(digit(n % 10))
    }
}

/// `n` in decimal.
pub fn decimal(n: u128) -> (s: String)
    ensures
        s@ == decimal_spec(n as nat),
    decreases n,
{
    if n < 10 {
        let mut s = String::new();
        s.push((48 + n as u8) as char);
        proof {
            assert(s@ =~= seq![digit(n as nat)]);
        }
        s
    } else {
        let mut s = decimal(n / 10);
        s.push((48 + (n % 10) as u8) as char);
        s
    }
}

/// Whether `c` is one of `0` to `9`.
pub open spec fn is_digit(c: char) -> bool {
    '0' <= c <= '9'
}

/// Whether every character of `s` is a digit.
pub open spec fn all_digits(s: Seq<char>) -> bool {
    forall|i: int| 0 <= i < s.len() ==> is_digit(#[trigger] s[i])
}

/// The number that a run of digits writes.
pub open spec fn number(s: Seq<char>) -> nat
    decreases s.len(),
{
    if s.len() == 0 {
        0
    } else {
        (number(s.drop_last()) * 10 + (s.last() as u32 - 48)) as nat
    }
}

/// A port number: digits, at most one `+` before them, and a value of 16 bits.
pub open spec fn parse_u16_spec(s: Seq<char>) -> Option<u16> {
    let digits = if s.len() > 0 && s[0] == '+' {
        s.drop_first()
    } else {
        s
    };
    if digits.len() > 0 && all_digits(digits) && number(digits) <= 0xffff {
        Some(number(digits) as u16)
    } else {
        None
    }
}

proof fn lemma_number_grows(s: Seq<char>, i: int)
    requires
        0 <= i <= s.len(),
        all_digits(s),
    ensures
        number(s.take(i)) <= number(s),
    decreases s.len() - i,
{
    if i < s.len() {
        lemma_number_grows(s, i + 1);
        assert(s.take(i + 1).drop_last() =~= s.take(i));
        assert(is_digit(s[i]));
    } else {
        assert(s.take(i) =~= s);
    }
}

/// Read a 16-bit number as `str::parse::<u16>` does.
pub fn parse_u16(s: &str) -> (r: Option<u16>)
    ensures
        r == parse_u16_spec(s@),
{
    let v = chars_of(s);
    let from: usize = if v.len() > 0 && v[0] == '+' {
        1
    } else {
        0
    };
    let ghost digits = v@.skip(from as int);
    proof {
        if from == 1 {
            assert(digits =~= s@.drop_first());
        } else {
            assert(digits =~= s@);
        }
    }
    if from == v.len() {
        return None;
    }
    let mut i: usize = from;
    let mut n: u32 = 0;
    while i < v.len()
        invariant
            from <= i <= v@.len(),
            digits == v@.skip(from as int),
            digits.len() > 0,
            parse_u16_spec(s@) == (if all_digits(digits) && number(digits) <= 0xffff {
                Some(number(digits) as u16)
            } else {
                None
            }),
            forall|j: int| 0 <= j < i - from ==> is_digit(#[trigger] digits[j]),
            n == number(digits.take(i - from)),
            n <= 0xffff,
        decreases v@.len() - i,
    {
        let c = v[i];
        proof {
            assert(digits[i - from] == c);
        }
        if !('0' <= c && c <= '9') {
            return None;
        }
        let m: u32 = n * 10 + (c as u32 - 48);
        proof {
            assert(digits.take(i - from + 1).drop_last() =~= digits.take(i - from));
            if m > 0xffff {
                if all_digits(digits) {
                    lemma_number_grows(digits, i - from + 1);
                }
            }
        }
        if m > 0xffff {
            return None;
        }
        n = m;
        i = i + 1;
    }
    proof {
        assert(digits.take(digits.len() as int) =~= digits);
    }
    Some(n as u16)
}

/// What is written in decimal reads back as the number that was written.
pub proof fn law_decimal_reads_back(n: u16)
    ensures
        parse_u16_spec(decimal_spec(n as nat)) == Some(n),
{
    lemma_decimal(n as nat);
    let s = decimal_spec(n as nat);
    assert(is_digit(s[0]));
}

/// A number in decimal is digits only, and they write that number.
pub proof fn lemma_decimal(n: nat)
    ensures
        decimal_spec(n).len() > 0,
        all_digits(decimal_spec(n)),
        number(decimal_spec(n)) == n,
    decreases n,
{
    reveal_with_fuel(number, 2);
    if n < 10 {
        assert(decimal_spec(n).drop_last() =~= Seq::<char>::empty());
    } else {
        lemma_decimal(n / 10);
        let t = decimal_spec(n / 10);
        let s = decimal_spec(n);
        assert(s.drop_last() =~= t);
        assert forall|i: int| 0 <= i < s.len() implies is_digit(#[trigger] s[i]) by {
            if i < t.len() {
                assert(s[i] == t[i]);
            }
        }
    }
}

/// The strings of `parts` with `sep` between neighbours.
pub open spec fn join_spec(parts: Seq<Seq<char>>, sep: Seq<char>) -> Seq<char>
    decreases parts.len(),
{
    if parts.len() == 0 {
        Seq::empty()
    } else if parts.len() == 1 {
        parts[0]
    } else {
        join_spec(parts.drop_last(), sep) + sep + parts.last()
    }
}

/// Join strings with a separator.
pub fn join(parts: &Vec<String>, sep: &str) -> (s: String)
    ensures
        s@ == join_spec(views(parts@), sep@),
{
    let mut s = String::new();
    let mut i: usize = 0;
    while i < parts.len()
        invariant
            i <= parts@.len(),
            s@ == join_spec(views(parts@).take(i as int), sep@),
        decreases parts@.len() - i,
    {
        proof {
            let now = views(parts@).take(i + 1);
            assert(now.drop_last() =~= views(parts@).take(i as int));
        }
        if i > 0 {
            s.push_str(sep);
        }
        s.push_str(parts[i].as_str());
        proof {
            if i == 0 {
                assert(s@ =~= parts@[0]@);
            }
        }
        i = i + 1;
    }
    proof {
        assert(views(parts@).take(i as int) =~= views(parts@));
    }
    s
}

/// `c`, in lower case if it is an ASCII letter.
pub open spec fn ascii_lower(c: char) -> char {
    if 'A' <= c <= 'Z' {
        ((c as u32 + 32) as u8) as char
    } else {
        c
    }
}

fn lower(c: char) -> (r: char)
    ensures
        r == ascii_lower(c),
{
    if 'A' <= c && c <= 'Z' {
        ((c as u32 + 32) as u8) as char
    } else {
        c
    }
}

/// The same characters, but for the case of ASCII letters.
pub open spec fn same_but_case(a: Seq<char>, b: Seq<char>) -> bool {
    a.len() == b.len() && forall|i: int| 0 <= i < a.len() ==> ascii_lower(#[trigger] a[i]) == ascii_lower(b[i])
}

/// Whether two strings are the same but for the case of ASCII letters.
pub fn eq_ignore_ascii_case(a: &str, b: &str) -> (r: bool)
    ensures
        r == same_but_case(a@, b@),
{
    let x = chars_of(a);
    let y = chars_of(b);
    if x.len() != y.len() {
        return false;
    }
    let mut i: usize = 0;
    while i < x.len()
        invariant
            i <= x@.len(),
            x@.len() == y@.len(),
            x@ == a@,
            y@ == b@,
            forall|k: int| 0 <= k < i ==> ascii_lower(#[trigger] a@[k]) == ascii_lower(b@[k]),
        decreases x@.len() - i,
    {
        if lower(x[i]) != lower(y[i]) {
            proof {
                assert(ascii_lower(a@[i as int]) != ascii_lower(b@[i as int]));
            }
            return false;
        }
        i = i + 1;
    }
    true
}

/// A whole number in decimal, with a sign where it is negative.
pub open spec fn signed_decimal_spec(n: int) -> Seq<char> {
    if n < 0 {
        "-"@ + decimal_spec((-n) as nat)
    } else {
        decimal_spec(n as nat)
    }
}

/// A whole number in decimal, with a sign where it is negative.
pub fn signed_decimal(n: i64) -> (s: String)
    ensures
        s@ == signed_decimal_spec(n as int),
{
    if n < 0 {
        let mut s = "-".to_owned();
        let magnitude: u128 = (-(n as i128)) as u128;
        s.push_str(decimal(magnitude).as_str());
        s
    } else {
        decimal(n as u128)
    }
}

/// The strings of `v`, once more.
pub fn copy_strings(v: &Vec<String>) -> (r: Vec<String>)
    ensures
        r@ == v@,
{
    let mut r: Vec<String> = Vec::new();
    let mut i: usize = 0;
    while i < v.len()
        invariant
            i <= v@.len(),
            r@ == v@.take(i as int),
        decreases v@.len() - i,
    {
        r.push(v[i].clone());
        proof {
            assert(v@.take(i + 1) =~= v@.take(i as int).push(v@[i as int]));
        }
        i = i + 1;
    }
    proof {
        assert(v@.take(i as int) =~= v@);
    }
    r
}

/// Whether `c` does not occur in `s`.
pub open spec fn free_of(s: Seq<char>, c: char) -> bool {
    forall|i: int| 0 <= i < s.len() ==> s[i] != c
}

/// A string is cut at the first `c`, wherever further ones stand: what comes
/// before it is free of `c`, and what comes after is all the rest. It is not
/// cut exactly where it is free of `c`.
pub proof fn law_cut_at_the_first(before: Seq<char>, c: char, after: Seq<char>)
    requires
        free_of(before, c),
    ensures
        split_once_spec(before + seq![c] + after, c) == Some((before, after)),
        split_once_spec(before, c) is None,
        split_spec(before + seq![c] + after, c) == seq![before] + split_spec(after, c),
        split_spec(before, c) == seq![before],
{
    let s = before + seq![c] + after;
    lemma_position_is(s, c, before.len() as int);
    lemma_position_is(before, c, before.len() as int);
    assert(s.take(before.len() as int) =~= before);
    assert(s.skip(before.len() as int + 1) =~= after);
}

/// The pieces between the occurrences of `c` are free of it, and put together
/// again with `c` they are the whole.
pub proof fn law_pieces_make_the_whole(s: Seq<char>, c: char)
    ensures
        split_spec(s, c).len() > 0,
        forall|k: int| 0 <= k < split_spec(s, c).len() ==> free_of(#[trigger] split_spec(s, c)[k], c),
        join_spec(split_spec(s, c), seq![c]) == s,
    decreases s.len(),
{
    lemma_position(s, c);
    let i = position(s, c);
    if i < s.len() {
        let rest = split_spec(s.skip(i + 1), c);
        law_pieces_make_the_whole(s.skip(i + 1), c);
        lemma_join_first(s.take(i), rest, seq![c]);
        assert(s.take(i) + seq![c] + s.skip(i + 1) =~= s);
        assert forall|k: int| 0 <= k < split_spec(s, c).len() implies free_of(#[trigger] split_spec(s, c)[k], c) by {
            if k > 0 {
                assert(split_spec(s, c)[k] == rest[k - 1]);
            }
        }
    }
}

proof fn lemma_join_first(first: Seq<char>, rest: Seq<Seq<char>>, sep: Seq<char>)
    requires
        rest.len() > 0,
    ensures
        join_spec(seq![first] + rest, sep) == first + sep + join_spec(rest, sep),
    decreases rest.len(),
{
    let all = seq![first] + rest;
    if rest.len() == 1 {
        reveal_with_fuel(join_spec, 2);
        assert(all.drop_last() =~= seq![first]);
        assert(all.last() == rest[0]);
    } else {
        lemma_join_first(first, rest.drop_last(), sep);
        assert(all.drop_last() =~= seq![first] + rest.drop_last());
        assert(all.last() == rest.last());
        assert(first + sep + join_spec(rest.drop_last(), sep) + sep + rest.last() =~= first + sep + (join_spec(
            rest.drop_last(),
            sep,
        ) + sep + rest.last()));
    }
}

/// Parts are put together in their order, with the separator between each two
/// of them and nowhere else.
pub proof fn law_joined_in_order(first: Seq<char>, rest: Seq<Seq<char>>, sep: Seq<char>)
    ensures
        rest.len() > 0 ==> join_spec(seq![first] + rest, sep) == first + sep + join_spec(rest, sep),
        join_spec(seq![first], sep) == first,
        join_spec(Seq::<Seq<char>>::empty(), sep) == Seq::<char>::empty(),
{
    if rest.len() > 0 {
        lemma_join_first(first, rest, sep);
    }
}

/// Whether `s` is white space only.
pub open spec fn blank(s: Seq<char>) -> bool {
    forall|i: int| 0 <= i < s.len() ==> is_white_space(#[trigger] s[i])
}

/// Whether `s` is a word: not empty, and free of white space.
pub open spec fn is_word(s: Seq<char>) -> bool {
    s.len() > 0 && forall|i: int| 0 <= i < s.len() ==> !is_white_space(#[trigger] s[i])
}

/// White space goes from both ends, all of it, and nothing else goes: what is
/// left is what stands between, with the white space inside it.
pub proof fn law_only_the_space_around_goes(before: Seq<char>, core: Seq<char>, after: Seq<char>)
    requires
        blank(before),
        blank(after),
        core.len() > 0,
        !is_white_space(core[0]),
        !is_white_space(core.last()),
    ensures
        trim_spec(before + core + after) == core,
        trim_spec(before) == Seq::<char>::empty(),
{
    let s = before + core + after;
    lemma_leading_space_is(s, before.len() as int);
    assert(s.skip(before.len() as int) =~= core + after);
    lemma_space_at_end(core, after);
    lemma_leading_space_is(before, before.len() as int);
    assert(before.skip(before.len() as int) =~= Seq::<char>::empty());
}

proof fn lemma_space_at_end(core: Seq<char>, after: Seq<char>)
    requires
        blank(after),
        core.len() > 0 ==> !is_white_space(core.last()),
    ensures
        trim_end_spec(core + after) == core,
    decreases after.len(),
{
    if after.len() > 0 {
        let rest = after.drop_last();
        assert(is_white_space(after[after.len() - 1]));
        assert((core + after).last() == after.last());
        assert((core + after).drop_last() =~= core + rest);
        assert forall|i: int| 0 <= i < rest.len() implies is_white_space(#[trigger] rest[i]) by {
            assert(rest[i] == after[i]);
        }
        lemma_space_at_end(core, rest);
    } else {
        assert(core + after =~= core);
    }
}

/// The second word of a text is the one that follows the first and the white
/// space after it, up to the next white space or the end.
pub proof fn law_second_word_follows_the_first(
    indent: Seq<char>,
    first: Seq<char>,
    gap: Seq<char>,
    second: Seq<char>,
    rest: Seq<char>,
)
    requires
        blank(indent),
        is_word(first),
        blank(gap),
        gap.len() > 0,
        is_word(second),
        rest.len() > 0 ==> is_white_space(rest[0]),
    ensures
        first_word_spec(indent + first + gap + second + rest) == Some(first),
        second_word_spec(indent + first + gap + second + rest) == Some(second),
        second_word_spec(indent + first + gap) is None,
        second_word_spec(indent) is None,
{
    let s = indent + first + gap + second + rest;
    let t = first + gap + second + rest;
    assert(s =~= indent + t);
    assert(is_white_space(gap[0]));
    assert(!is_white_space(first[0]));
    assert(!is_white_space(second[0]));
    lemma_leading_space_is(s, indent.len() as int);
    assert(s.skip(indent.len() as int) =~= t);
    assert(t[first.len() as int] == gap[0]);
    lemma_leading_word_is(t, first.len() as int);
    assert(t.take(first.len() as int) =~= first);
    let u = gap + second + rest;
    assert(t.skip(first.len() as int) =~= u);
    assert(u[gap.len() as int] == second[0]);
    lemma_leading_space_is(u, gap.len() as int);
    let w = second + rest;
    assert(u.skip(gap.len() as int) =~= w);
    if rest.len() > 0 {
        assert(w[second.len() as int] == rest[0]);
    }
    lemma_leading_word_is(w, second.len() as int);
    assert(w.take(second.len() as int) =~= second);
    let p = indent + first + gap;
    lemma_leading_space_is(p, indent.len() as int);
    let q = first + gap;
    assert(p.skip(indent.len() as int) =~= q);
    assert(q[first.len() as int] == gap[0]);
    lemma_leading_word_is(q, first.len() as int);
    assert(q.skip(first.len() as int) =~= gap);
    lemma_leading_space_is(gap, gap.len() as int);
    lemma_leading_space_is(indent, indent.len() as int);
    let e = indent.skip(indent.len() as int);
    assert(e =~= Seq::<char>::empty());
    assert(e.skip(0) =~= e);
}

/// The white space of a keyboard is white space; nothing that is seen of ASCII
/// is.
pub proof fn law_what_is_seen_is_no_white_space(c: char)
    ensures
        c == ' ' || c == '\t' || c == '\n' || c == '\r' ==> is_white_space(c),
        '!' <= c <= '~' ==> !is_white_space(c),
{
}

/// A number is read digit by digit, each worth ten times the next; a plus sign
/// before it changes nothing, and anything else before, in or after it makes it
/// no number.
pub proof fn law_number_is_read_digit_by_digit(s: Seq<char>, d: nat, c: char)
    requires
        d < 10,
    ensures
        number(s.push(digit(d))) == number(s) * 10 + d,
        number(Seq::<char>::empty()) == 0,
        parse_u16_spec(Seq::<char>::empty()) is None,
        parse_u16_spec(seq!['+']) is None,
        s.len() > 0 && s[0] != '+' ==> parse_u16_spec(seq!['+'] + s) == parse_u16_spec(s),
        !('0' <= c <= '9') && s.len() > 0 ==> parse_u16_spec(s.push(c)) is None,
        s.len() > 0 && all_digits(s) ==> (parse_u16_spec(s) is Some <==> number(s) <= 65535),
        parse_u16_spec(s) matches Some(n) ==> n == number(s) || n == number(s.drop_first()),
{
    assert(s.push(digit(d)).drop_last() =~= s);
    assert((seq!['+'] + s).drop_first() =~= s);
    assert(seq!['+'].drop_first() =~= Seq::<char>::empty());
    if !('0' <= c <= '9') && s.len() > 0 {
        let t = s.push(c);
        if t[0] == '+' {
            assert(t.drop_first()[t.len() - 2] == c);
        } else {
            assert(t[t.len() - 1] == c);
        }
    }
    if s.len() > 0 && all_digits(s) {
        assert(is_digit(s[0]));
    }
}

/// Upper and lower case of one letter are the same, and nothing else of two
/// different characters is; the order of the two texts does not matter.
pub proof fn law_only_case_is_overlooked(a: char, b: char, s: Seq<char>, t: Seq<char>)
    ensures
        same_but_case(s, s),
        same_but_case(s, t) == same_but_case(t, s),
        same_but_case(s, t) ==> s.len() == t.len(),
        !('A' <= a <= 'Z') && !('a' <= a <= 'z') ==> (same_but_case(seq![a], seq![b]) <==> a == b),
        'A' <= a <= 'Z' && 'A' <= b <= 'Z' ==> (same_but_case(seq![a], seq![b]) <==> a == b),
        'A' <= a <= 'Z' && b as u32 == a as u32 + 32 ==> same_but_case(seq![a], seq![b]),
        same_but_case(s.push(a), t.push(b)) <==> same_but_case(s, t) && ascii_lower(a) == ascii_lower(b),
{
    assert(seq![a][0] == a && seq![b][0] == b);
    if same_but_case(s.push(a), t.push(b)) {
        assert forall|i: int| 0 <= i < s.len() implies ascii_lower(#[trigger] s[i]) == ascii_lower(t[i]) by {
            assert(s.push(a)[i] == s[i]);
            assert(t.push(b)[i] == t[i]);
        }
        assert(s.push(a)[s.len() as int] == a);
        assert(t.push(b)[s.len() as int] == b);
    }
    assert(ascii_lower(seq![a][0]) == ascii_lower(seq![b][0]) <==> same_but_case(seq![a], seq![b]));
    if 'A' <= a <= 'Z' {
        assert(((a as u32 + 32) as u8) as char as u32 == a as u32 + 32);
    }
    if 'A' <= b <= 'Z' {
        assert(((b as u32 + 32) as u8) as char as u32 == b as u32 + 32);
    }
}

/// A number below zero is written with a sign before its magnitude, and any
/// other as it is: the sign tells the two apart.
pub proof fn law_sign_stands_before_the_magnitude(n: nat)
    ensures
        signed_decimal_spec(n as int) == decimal_spec(n),
        n > 0 ==> signed_decimal_spec(-(n as int)) == seq!['-'] + decimal_spec(n),
        signed_decimal_spec(n as int)[0] != '-',
        number(decimal_spec(n)) == n,
{
    lemma_decimal(n);
    assert(is_digit(decimal_spec(n)[0]));
    reveal_strlit("-");
    assert("-"@ =~= seq!['-']);
}

} // verus!
