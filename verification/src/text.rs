//! Text operations on `&str`, stated over sequences of characters.
use vstd::prelude::*;

verus! {

/// The position of the first `c` in `s`, or the length of `s` where there is none.
pub open spec fn position(s: Seq<char>, c: char) -> int
    decreases s.len(),
{
    if s.len() == 0 || s[0] == c {
        0
    } else {
        1 + position(s.skip(1), c)
    }
}

/// The part of `s` before the first `c`; all of `s` where there is none.
pub open spec fn before(s: Seq<char>, c: char) -> Seq<char> {
    s.take(position(s, c))
}

/// The pieces of `s` between the occurrences of `c`: one more than there are occurrences.
pub open spec fn split_on(s: Seq<char>, c: char) -> Seq<Seq<char>>
    decreases s.len(),
{
    let p = position(s, c);
    if 0 <= p < s.len() {
        seq![s.take(p)] + split_on(s.skip(p + 1), c)
    } else {
        seq![s]
    }
}

/// Whether `c` has the Unicode property `White_Space`.
pub open spec fn white_space(c: char) -> bool {
    let n = c as u32;
    ||| 0x9 <= n <= 0xd
    ||| n == 0x20
    ||| n == 0x85
    ||| n == 0xa0
    ||| n == 0x1680
    ||| 0x2000 <= n <= 0x200a
    ||| n == 0x2028
    ||| n == 0x2029
    ||| n == 0x202f
    ||| n == 0x205f
    ||| n == 0x3000
}

/// `s` without its leading white space.
pub open spec fn trimmed_start(s: Seq<char>) -> Seq<char>
    decreases s.len(),
{
    if s.len() > 0 && white_space(s[0]) {
        trimmed_start(s.skip(1))
    } else {
        s
    }
}

/// `s` without its trailing white space.
pub open spec fn trimmed_end(s: Seq<char>) -> Seq<char>
    decreases s.len(),
{
    if s.len() > 0 && white_space(s.last()) {
        trimmed_end(s.drop_last())
    } else {
        s
    }
}

/// `s` without white space at either end.
pub open spec fn trimmed(s: Seq<char>) -> Seq<char> {
    trimmed_end(trimmed_start(s))
}

/// What `position` finds: no `c` stands before it, and one stands at it unless it is the end.
pub proof fn lemma_position(s: Seq<char>, c: char)
    ensures
        0 <= position(s, c) <= s.len(),
        forall|i: int| 0 <= i < position(s, c) ==> s[i] != c,
        position(s, c) < s.len() ==> s[position(s, c)] == c,
    decreases s.len(),
{
    if s.len() > 0 && s[0] != c {
        let rest = s.skip(1);
        lemma_position(rest, c);
        assert forall|i: int| 0 <= i < position(s, c) implies s[i] != c by {
            if i > 0 {
                assert(rest[i - 1] == s[i]);
            }
        }
    }
}

/// Only the first occurrence, or the end, has the two properties of `lemma_position`.
pub proof fn lemma_position_is(s: Seq<char>, c: char, p: int)
    requires
        0 <= p <= s.len(),
        forall|i: int| 0 <= i < p ==> s[i] != c,
        p < s.len() ==> s[p] == c,
    ensures
        position(s, c) == p,
{
    lemma_position(s, c);
}

/// Compares two texts character by character.
pub fn same_text(a: &str, b: &str) -> (same: bool)
    ensures
        same == (a@ == b@),
{
    a.to_owned() == b.to_owned()
}

/// The characters of a text.
pub fn chars_of(s: &str) -> (chars: Vec<char>)
    ensures
        chars@ == s@,
{
    let mut chars: Vec<char> = Vec::new();
    for c in it: s.chars()
        invariant
            it.seq() == s@,
            chars@ == s@.take(it.index() as int),
    {
        chars.push(c);
    }
    chars
}

/// The decimal digits of `n`, without leading zeros.
pub open spec fn digits(n: nat) -> Seq<char>
    decreases n,
{
    if n < 10 {
        seq![digit(n)]
    } else {
        digits(n / 10).push(digit(n % 10))
    }
}

/// The character of a decimal digit.
pub open spec fn digit(d: nat) -> char {
    ('0' as nat + d) as char
}

/// The decimal form of an integer, with a leading `-` where it is negative.
pub open spec fn decimal(n: int) -> Seq<char> {
    if n < 0 {
        seq!['-'] + digits((-n) as nat)
    } else {
        digits(n as nat)
    }
}

/// Whether `c` is one of the ten decimal digits.
pub open spec fn is_digit(c: char) -> bool {
    '0' <= c <= '9'
}

/// The number that a sequence of decimal digits writes.
pub open spec fn number_of(s: Seq<char>) -> nat
    decreases s.len(),
{
    if s.len() == 0 {
        0
    } else {
        (number_of(s.drop_last()) * 10 + (s.last() as int - '0' as int)) as nat
    }
}

/// Whether every character of `s` is a decimal digit.
pub open spec fn all_digits(s: Seq<char>) -> bool {
    forall|i: int| 0 <= i < s.len() ==> is_digit(#[trigger] s[i])
}

/// `s` without the `+` that it may start with.
pub open spec fn after_plus(s: Seq<char>) -> Seq<char> {
    if s.len() > 0 && s[0] == '+' {
        s.skip(1)
    } else {
        s
    }
}

/// Reads a 16-bit number: an optional `+`, then decimal digits, at least one.
pub open spec fn u16_of(s: Seq<char>) -> Option<u16> {
    let ds = after_plus(s);
    if ds.len() > 0 && all_digits(ds) && number_of(ds) <= u16::MAX {
        Some(number_of(ds) as u16)
    } else {
        None
    }
}

/// Whether `c` is white space.
pub fn is_white_space(c: char) -> (yes: bool)
    ensures
        yes == white_space(c),
{
    let n: u32 = c as u32;
    (0x9 <= n && n <= 0xd) || n == 0x20 || n == 0x85 || n == 0xa0 || n == 0x1680 || (0x2000 <= n && n
        <= 0x200a) || n == 0x2028 || n == 0x2029 || n == 0x202f || n == 0x205f || n == 0x3000
}

/// The position of the first `c`, counted in characters.
pub fn find_char(s: &str, c: char) -> (p: Option<usize>)
    ensures
        match p {
            Some(p) => p == position(s@, c) && p < s@.len(),
            None => position(s@, c) == s@.len(),
        },
{
    let chars = chars_of(s);
    let mut i: usize = 0;
    while i < chars.len()
        invariant
            chars@ == s@,
            i <= chars.len(),
            forall|j: int| 0 <= j < i ==> s@[j] != c,
        decreases chars.len() - i,
    {
        if chars[i] == c {
            proof {
                lemma_position_is(s@, c, i as int);
            }
            return Some(i);
        }
        i += 1;
    }
    proof {
        lemma_position_is(s@, c, i as int);
    }
    None
}

/// The text after `prefix`, where `s` starts with it.
pub fn strip_prefix<'a>(s: &'a str, prefix: &str) -> (rest: Option<&'a str>)
    ensures
        match rest {
            Some(rest) => prefix@.is_prefix_of(s@) && rest@ == s@.skip(prefix@.len() as int),
            None => !prefix@.is_prefix_of(s@),
        },
{
    let chars = chars_of(s);
    let start = chars_of(prefix);
    if start.len() > chars.len() {
        return None;
    }
    let mut i: usize = 0;
    while i < start.len()
        invariant
            chars@ == s@,
            start@ == prefix@,
            i <= start.len() <= chars.len(),
            forall|j: int| 0 <= j < i ==> s@[j] == prefix@[j],
        decreases start.len() - i,
    {
        if chars[i] != start[i] {
            assert(s@.take(prefix@.len() as int)[i as int] != prefix@[i as int]);
            return None;
        }
        i += 1;
    }
    assert(prefix@ =~= s@.take(prefix@.len() as int));
    let rest = s.substring_char(start.len(), chars.len());
    assert(rest@ =~= s@.skip(prefix@.len() as int));
    Some(rest)
}

/// `trimmed_start` drops the first `k` characters where these are white space and the next is not.
proof fn lemma_trimmed_start_is(s: Seq<char>, k: int)
    requires
        0 <= k <= s.len(),
        forall|i: int| 0 <= i < k ==> white_space(#[trigger] s[i]),
        k < s.len() ==> !white_space(s[k]),
    ensures
        trimmed_start(s) == s.skip(k),
    decreases k,
{
    if k == 0 {
        assert(s.skip(0) =~= s);
    } else {
        let rest = s.skip(1);
        assert forall|i: int| 0 <= i < k - 1 implies white_space(#[trigger] rest[i]) by {
            assert(rest[i] == s[i + 1]);
        }
        lemma_trimmed_start_is(rest, k - 1);
        assert(rest.skip(k - 1) =~= s.skip(k));
        assert(white_space(s[0]));
    }
}

/// `trimmed_end` keeps the first `k` characters where the rest is white space and the last kept is
/// not.
proof fn lemma_trimmed_end_is(s: Seq<char>, k: int)
    requires
        0 <= k <= s.len(),
        forall|i: int| k <= i < s.len() ==> white_space(#[trigger] s[i]),
        k > 0 ==> !white_space(s[k - 1]),
    ensures
        trimmed_end(s) == s.take(k),
    decreases s.len() - k,
{
    if k == s.len() {
        assert(s.take(k) =~= s);
    } else {
        let rest = s.drop_last();
        lemma_trimmed_end_is(rest, k);
        assert(rest.take(k) =~= s.take(k));
        assert(white_space(s[s.len() - 1]));
    }
}

/// Drops leading white space.
pub fn trim_start<'a>(s: &'a str) -> (t: &'a str)
    ensures
        t@ == trimmed_start(s@),
{
    let chars = chars_of(s);
    let mut i: usize = 0;
    while i < chars.len() && is_white_space(chars[i])
        invariant
            chars@ == s@,
            i <= chars.len(),
            forall|j: int| 0 <= j < i ==> white_space(#[trigger] s@[j]),
        decreases chars.len() - i,
    {
        i += 1;
    }
    proof {
        lemma_trimmed_start_is(s@, i as int);
    }
    let t = s.substring_char(i, chars.len());
    assert(t@ =~= s@.skip(i as int));
    t
}

/// Drops white space at both ends.
pub fn trim<'a>(s: &'a str) -> (t: &'a str)
    ensures
        t@ == trimmed(s@),
{
    let start = trim_start(s);
    let chars = chars_of(start);
    let mut i: usize = chars.len();
    while i > 0 && is_white_space(chars[i - 1])
        invariant
            chars@ == start@,
            i <= chars.len(),
            forall|j: int| i <= j < chars.len() ==> white_space(#[trigger] start@[j]),
        decreases i,
    {
        i -= 1;
    }
    proof {
        lemma_trimmed_end_is(start@, i as int);
    }
    let t = start.substring_char(0, i);
    assert(t@ =~= start@.take(i as int));
    t
}

/// The texts that a vector of string slices holds.
pub open spec fn texts(v: Seq<&str>) -> Seq<Seq<char>> {
    v.map_values(|s: &str| s@)
}

/// Splits a text at each `c`.
pub fn split<'a>(s: &'a str, c: char) -> (parts: Vec<&'a str>)
    ensures
        texts(parts@) == split_on(s@, c),
{
    let mut parts: Vec<&'a str> = Vec::new();
    let mut rest = s;
    loop
        invariant
            texts(parts@) + split_on(rest@, c) == split_on(s@, c),
        decreases rest@.len(),
    {
        match find_char(rest, c) {
            Some(p) => {
                let n = rest.unicode_len();
                let part = rest.substring_char(0, p);
                let tail = rest.substring_char(p + 1, n);
                let ghost earlier = texts(parts@);
                assert(part@ =~= rest@.take(p as int));
                assert(tail@ =~= rest@.skip(p + 1));
                parts.push(part);
                assert(texts(parts@) =~= earlier.push(part@));
                assert(texts(parts@) + split_on(tail@, c) =~= earlier + split_on(rest@, c));
                rest = tail;
            },
            None => {
                let ghost earlier = texts(parts@);
                parts.push(rest);
                assert(texts(parts@) =~= earlier + seq![rest@]);
                return parts;
            },
        }
    }
}

/// The text of a decimal digit.
fn digit_text(d: u64) -> (t: &'static str)
    requires
        d < 10,
    ensures
        t@ == seq![digit(d as nat)],
{
    proof {
        reveal_strlit("0");
        reveal_strlit("1");
        reveal_strlit("2");
        reveal_strlit("3");
        reveal_strlit("4");
        reveal_strlit("5");
        reveal_strlit("6");
        reveal_strlit("7");
        reveal_strlit("8");
        reveal_strlit("9");
    }
    let t: &'static str = match d {
        0 => "0",
        1 => "1",
        2 => "2",
        3 => "3",
        4 => "4",
        5 => "5",
        6 => "6",
        7 => "7",
        8 => "8",
        _ => "9",
    };
    assert(t@ =~= seq![digit(d as nat)]);
    t
}

/// Writes a natural number in decimal.
fn natural_text(n: u64) -> (t: String)
    ensures
        t@ == digits(n as nat),
    decreases n,
{
    if n < 10 {
        digit_text(n).to_owned()
    } else {
        let mut t = natural_text(n / 10);
        t.append(digit_text(n % 10));
        assert(t@ =~= digits(n as nat / 10).push(digit(n as nat % 10)));
        t
    }
}

/// Writes an integer in decimal.
pub fn decimal_text(n: i64) -> (t: String)
    ensures
        t@ == decimal(n as int),
{
    if n < 0 {
        let mut t = "-".to_owned();
        t.append(natural_text((-(n as i128)) as u64).as_str());
        proof {
            reveal_strlit("-");
        }
        assert(t@ =~= decimal(n as int));
        t
    } else {
        natural_text(n as u64)
    }
}

/// More digits never make a number smaller.
proof fn lemma_number_of_prefix(s: Seq<char>, i: int)
    requires
        0 <= i <= s.len(),
        forall|j: int| i <= j < s.len() ==> is_digit(#[trigger] s[j]),
    ensures
        number_of(s.take(i)) <= number_of(s),
    decreases s.len(),
{
    if i == s.len() {
        assert(s.take(i) =~= s);
    } else {
        let rest = s.drop_last();
        lemma_number_of_prefix(rest, i);
        assert(rest.take(i) =~= s.take(i));
        assert(is_digit(s[s.len() - 1]));
    }
}

/// Reads a 16-bit number.
pub fn parse_u16(s: &str) -> (n: Option<u16>)
    ensures
        n == u16_of(s@),
{
    let chars = chars_of(s);
    let start: usize = if chars.len() > 0 && chars[0] == '+' {
        1
    } else {
        0
    };
    let ghost ds = after_plus(s@);
    if chars.len() == start {
        return None;
    }
    let mut i: usize = start;
    let mut n: u32 = 0;
    assert(ds.take(0) =~= Seq::<char>::empty());
    while i < chars.len()
        invariant
            chars@ == s@,
            forall|j: int| 0 <= j < ds.len() ==> ds[j] == s@[j + start],
            ds.len() == s@.len() - start,
            start <= i <= chars.len(),
            n <= u16::MAX,
            n == number_of(ds.take(i - start)),
            forall|j: int| 0 <= j < i - start ==> is_digit(#[trigger] ds[j]),
            ds == after_plus(s@),
        decreases chars.len() - i,
    {
        let c = chars[i];
        assert(ds[i - start] == c);
        if c < '0' || c > '9' {
            assert(!is_digit(ds[i - start]));
            return None;
        }
        n = n * 10 + (c as u32 - '0' as u32);
        proof {
            let more = ds.take(i - start + 1);
            assert(more.drop_last() =~= ds.take(i - start));
            assert(more.last() == c);
        }
        if n > 65535 {
            proof {
                if all_digits(ds) {
                    lemma_number_of_prefix(ds, i - start + 1);
                }
            }
            return None;
        }
        i += 1;
    }
    assert(ds.take(i - start) =~= ds);
    Some(n as u16)
}

/// Whether `c` is a letter or a digit of ASCII.
pub open spec fn ascii_alphanumeric(c: char) -> bool {
    '0' <= c <= '9' || 'A' <= c <= 'Z' || 'a' <= c <= 'z'
}

/// Whether Unicode calls a character beyond ASCII alphabetic or numeric.
pub uninterp spec fn unicode_alphanumeric(c: char) -> bool;

/// Whether `c` is a letter or a digit, of any script.
pub open spec fn alphanumeric(c: char) -> bool {
    if (c as u32) < 128 {
        ascii_alphanumeric(c)
    } else {
        unicode_alphanumeric(c)
    }
}

/// `char::is_alphanumeric`: among the characters of ASCII exactly the letters and digits; beyond
/// ASCII the answer depends on the character alone, and is named.
pub assume_specification[ char::is_alphanumeric ](c: char) -> (yes: bool)
    ensures
        yes == if (c as u32) < 128 {
            ascii_alphanumeric(c)
        } else {
            unicode_alphanumeric(c)
        },
;

/// What is trimmed at the start does not start with white space.
proof fn lemma_trimmed_start(s: Seq<char>)
    ensures
        trimmed_start(s).len() > 0 ==> !white_space(trimmed_start(s)[0]),
    decreases s.len(),
{
    if s.len() > 0 && white_space(s[0]) {
        lemma_trimmed_start(s.skip(1));
    }
}

/// What is trimmed at the end is a prefix and does not end with white space.
proof fn lemma_trimmed_end(s: Seq<char>)
    ensures
        trimmed_end(s).is_prefix_of(s),
        trimmed_end(s).len() > 0 ==> !white_space(trimmed_end(s).last()),
    decreases s.len(),
{
    if s.len() > 0 && white_space(s.last()) {
        lemma_trimmed_end(s.drop_last());
        let t = trimmed_end(s);
        assert(t =~= s.take(t.len() as int));
    } else {
        assert(s =~= s.take(s.len() as int));
    }
}

/// A trimmed text has no white space at its ends, so that trimming it again changes nothing.
pub proof fn law_trimmed(s: Seq<char>)
    ensures
        trimmed(s).len() > 0 ==> !white_space(trimmed(s)[0]) && !white_space(trimmed(s).last()),
        trimmed(trimmed(s)) == trimmed(s),
{
    let start = trimmed_start(s);
    lemma_trimmed_start(s);
    lemma_trimmed_end(start);
    let t = trimmed(s);
    if t.len() > 0 {
        assert(t[0] == start[0]);
    }
}

/// The digits of a number are digits, and write that number.
proof fn lemma_digits(n: nat)
    ensures
        digits(n).len() > 0,
        all_digits(digits(n)),
        number_of(digits(n)) == n,
    decreases n,
{
    if n < 10 {
        assert(digits(n).drop_last() =~= Seq::<char>::empty());
        assert(number_of(Seq::<char>::empty()) == 0);
    } else {
        lemma_digits(n / 10);
        let ds = digits(n);
        assert(ds.drop_last() =~= digits(n / 10));
        assert forall|i: int| 0 <= i < ds.len() implies is_digit(#[trigger] ds[i]) by {
            if i < ds.len() - 1 {
                assert(ds[i] == digits(n / 10)[i]);
            }
        }
    }
}

/// A 16-bit number that is written in decimal is read back.
pub proof fn law_decimal_is_read_back(n: u16)
    ensures
        u16_of(decimal(n as int)) == Some(n),
{
    lemma_digits(n as nat);
    assert(is_digit(decimal(n as int)[0]));
}

/// What stands before the first `c` holds none, and is all of the text, or is followed by a `c`.
pub proof fn law_before(s: Seq<char>, c: char)
    ensures
        !before(s, c).contains(c),
        before(s, c) == s || before(s, c).push(c).is_prefix_of(s),
{
    lemma_position(s, c);
    let p = position(s, c);
    if p == s.len() {
        assert(before(s, c) =~= s);
    } else {
        assert(before(s, c).push(c) =~= s.take(p + 1));
    }
}

/// Splitting: a text without `c` is one piece, and a `c` between two texts parts their pieces.
pub proof fn law_split(a: Seq<char>, b: Seq<char>, c: char)
    ensures
        !a.contains(c) ==> split_on(a, c) == seq![a],
        split_on(a + seq![c] + b, c) == split_on(a, c) + split_on(b, c),
    decreases a.len(),
{
    let whole = a + seq![c] + b;
    let p = position(a, c);
    lemma_position(a, c);
    assert forall|i: int| 0 <= i < p implies whole[i] != c by {
        assert(whole[i] == a[i]);
    }
    assert(whole[p] == c);
    lemma_position_is(whole, c, p);
    assert(whole.take(p) =~= a.take(p));
    if p < a.len() {
        assert(a.contains(a[p]));
        law_split(a.skip(p + 1), b, c);
        assert(whole.skip(p + 1) =~= a.skip(p + 1) + seq![c] + b);
        assert(split_on(whole, c) =~= split_on(a, c) + split_on(b, c));
    } else {
        assert(a.take(p) =~= a);
        assert(whole.skip(p + 1) =~= b);
    }
}

/// Whether a text is white space throughout.
pub open spec fn blank(s: Seq<char>) -> bool {
    forall|i: int| 0 <= i < s.len() ==> white_space(#[trigger] s[i])
}

/// Trimming takes away white space at the ends and leaves everything between as it is.
pub proof fn law_trimming_keeps_the_middle(lead: Seq<char>, middle: Seq<char>, tail: Seq<char>)
    requires
        blank(lead),
        blank(tail),
        middle.len() > 0 ==> !white_space(middle[0]) && !white_space(middle.last()),
    ensures
        trimmed(lead + middle + tail) == middle,
        middle.len() > 0 ==> trimmed_start(lead + middle + tail) == middle + tail,
        middle.len() == 0 ==> trimmed_start(lead + middle + tail) == Seq::<char>::empty(),
{
    let whole = lead + middle + tail;
    if middle.len() > 0 {
        assert(whole[lead.len() as int] == middle[0]);
        assert forall|i: int| 0 <= i < lead.len() implies white_space(#[trigger] whole[i]) by {
            assert(whole[i] == lead[i]);
        }
        lemma_trimmed_start_is(whole, lead.len() as int);
        let rest = middle + tail;
        assert(whole.skip(lead.len() as int) =~= rest);
        assert forall|i: int| middle.len() <= i < rest.len() implies white_space(
            #[trigger] rest[i],
        ) by {
            assert(rest[i] == tail[i - middle.len()]);
        }
        assert(rest[middle.len() - 1] == middle.last());
        lemma_trimmed_end_is(rest, middle.len() as int);
        assert(rest.take(middle.len() as int) =~= middle);
    } else {
        assert forall|i: int| 0 <= i < whole.len() implies white_space(#[trigger] whole[i]) by {
            if i < lead.len() {
                assert(whole[i] == lead[i]);
            } else {
                assert(whole[i] == tail[i - lead.len()]);
            }
        }
        lemma_trimmed_start_is(whole, whole.len() as int);
        assert(whole.skip(whole.len() as int) =~= Seq::<char>::empty());
        assert(middle =~= Seq::<char>::empty());
    }
}

/// A further digit multiplies the number by ten and adds the digit.
pub proof fn law_number_of(s: Seq<char>, c: char)
    requires
        '0' <= c <= '9',
    ensures
        number_of(Seq::<char>::empty()) == 0,
        number_of(s.push(c)) == 10 * number_of(s) + (c as int - '0' as int),
        is_digit(c),
{
    assert(s.push(c).drop_last() =~= s);
}

/// The decimal form of an integer: a `-` where it is negative, then digits that write its size,
/// without leading zeros.
pub proof fn law_decimal_writes_the_number(n: int)
    ensures
        n < 0 ==> decimal(n) == seq!['-'] + decimal(-n),
        n >= 0 ==> decimal(n).len() > 0 && number_of(decimal(n)) == n && (forall|k: int|
            0 <= k < decimal(n).len() ==> '0' <= #[trigger] decimal(n)[k] <= '9'),
        n > 0 ==> decimal(n)[0] != '0',
        n == 0 ==> decimal(n).len() == 1,
    decreases if n < 0 {
        -n
    } else {
        n
    },
{
    if n >= 0 {
        lemma_digits(n as nat);
        assert forall|k: int| 0 <= k < decimal(n).len() implies '0' <= #[trigger] decimal(n)[k]
            <= '9' by {
            assert(is_digit(decimal(n)[k]));
        }
        if n >= 10 {
            law_decimal_writes_the_number(n / 10);
            assert(digits(n as nat)[0] == digits(n as nat / 10)[0]);
        }
    }
}

/// Which texts are 16-bit numbers: digits that write one, with a `+` before them or not; nothing
/// else.
pub proof fn law_sixteen_bit_numbers(s: Seq<char>, i: int)
    ensures
        s.len() > 0 && (forall|k: int| 0 <= k < s.len() ==> '0' <= #[trigger] s[k] <= '9') ==> (
        u16_of(s) matches Some(n) ==> n == number_of(s)) && (
        u16_of(s) is Some <==> number_of(s) <= 0xffff) && u16_of(seq!['+'] + s) == u16_of(s),
        0 <= i < s.len() && !('0' <= s[i] <= '9') && !(i == 0 && s[i] == '+') ==> u16_of(s) is None,
        s.len() == 0 || s == seq!['+'] ==> u16_of(s) is None,
{
    if s.len() > 0 && (forall|k: int| 0 <= k < s.len() ==> '0' <= #[trigger] s[k] <= '9') {
        assert(all_digits(s));
        assert(is_digit(s[0]));
        assert((seq!['+'] + s).skip(1) =~= s);
    }
    if 0 <= i < s.len() && !('0' <= s[i] <= '9') && !(i == 0 && s[i] == '+') {
        let ds = after_plus(s);
        if s[0] == '+' {
            assert(ds[i - 1] == s[i]);
            assert(!is_digit(ds[i - 1]));
        } else {
            assert(!is_digit(ds[i]));
        }
    }
}

} // verus!
