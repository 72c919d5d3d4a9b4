//! Text as a sequence of characters: matching, trimming, ordering and the few
//! rewrites that the launcher makes.
use vstd::prelude::*;
use vstd::string::*;
use vstd::utf8::*;

verus! {

/// `s` begins with `prefix`.
pub open spec fn begins_with(s: Seq<char>, prefix: Seq<char>) -> bool {
    prefix.len() <= s.len() && s.take(prefix.len() as int) == prefix
}

/// `needle` stands in `s` with its first character at position `at`.
pub open spec fn occurs_at(s: Seq<char>, needle: Seq<char>, at: int) -> bool {
    0 <= at <= s.len() && begins_with(s.skip(at), needle)
}

/// `needle` stands somewhere in `s`.
pub open spec fn occurs_in(s: Seq<char>, needle: Seq<char>) -> bool {
    exists|at: int| #[trigger] occurs_at(s, needle, at)
}

/// `a` comes strictly before `b` in the order of strings: at the first place
/// where they differ `a` has the smaller code point, or `a` ends there.
pub open spec fn sorts_before(a: Seq<char>, b: Seq<char>) -> bool
    decreases a.len(),
{
    if b.len() == 0 {
        false
    } else if a.len() == 0 {
        true
    } else if a[0] != b[0] {
        a[0] < b[0]
    } else {
        sorts_before(a.skip(1), b.skip(1))
    }
}

/// The characters that Unicode gives the property `White_Space`.
pub open spec fn is_white_space(c: char) -> bool {
    let point = c as u32;
    ||| 0x9 <= point <= 0xd
    ||| point == 0x20
    ||| point == 0x85
    ||| point == 0xa0
    ||| point == 0x1680
    ||| 0x2000 <= point <= 0x200a
    ||| point == 0x2028
    ||| point == 0x2029
    ||| point == 0x202f
    ||| point == 0x205f
    ||| point == 0x3000
}

/// `s` without the white space at its two ends.
pub open spec fn trimmed(s: Seq<char>) -> Seq<char>
    decreases s.len(),
{
    if s.len() > 0 && is_white_space(s.first()) {
        trimmed(s.drop_first())
    } else if s.len() > 0 && is_white_space(s.last()) {
        trimmed(s.drop_last())
    } else {
        s
    }
}

/// `s` with every `~` replaced by `home`.
pub open spec fn tilde_expanded(s: Seq<char>, home: Seq<char>) -> Seq<char>
    decreases s.len(),
{
    if s.len() == 0 {
        s
    } else if s.last() == '~' {
        tilde_expanded(s.drop_last(), home) + home
    } else {
        tilde_expanded(s.drop_last(), home).push(s.last())
    }
}

/// The upper case form of an ASCII letter; any other character is its own.
pub open spec fn ascii_upper(c: char) -> char {
    if 'a' <= c && c <= 'z' {
        (c as u32 - 32) as char
    } else {
        c
    }
}

/// `c` is a decimal digit.
pub open spec fn is_digit(c: char) -> bool {
    '0' <= c && c <= '9'
}

/// Every character of `s` is a decimal digit.
pub open spec fn all_digits(s: Seq<char>) -> bool {
    forall|i: int| 0 <= i < s.len() ==> is_digit(#[trigger] s[i])
}

/// The number that a row of decimal digits writes.
pub open spec fn decimal_value(s: Seq<char>) -> nat
    decreases s.len(),
{
    if s.len() == 0 {
        0
    } else {
        (decimal_value(s.drop_last()) * 10 + (s.last() as u32 - '0' as u32)) as nat
    }
}

/// `s` without one leading `+`, where it has one.
pub open spec fn without_plus(s: Seq<char>) -> Seq<char> {
    if s.len() > 0 && s[0] == '+' {
        s.skip(1)
    } else {
        s
    }
}

/// The machine number that `s` writes: an optional `+`, then at least one
/// digit and nothing else, with a value that fits.
pub open spec fn number_in(s: Seq<char>) -> Option<nat> {
    let digits = without_plus(s);
    if digits.len() > 0 && all_digits(digits) && decimal_value(digits) <= usize::MAX {
        Some(decimal_value(digits))
    } else {
        None
    }
}

/// The number of bytes that `s` takes in UTF-8, as the machine counts them.
pub open spec fn byte_len(s: Seq<char>) -> usize {
    encode_utf8(s).len() as usize
}

/// The strings of a list, as sequences of characters.
pub open spec fn texts(list: Seq<String>) -> Seq<Seq<char>> {
    list.map_values(|s: String| s@)
}

/// Where one value stands in an order, as seen from another.
#[derive(Clone, Copy, Debug, PartialEq, Eq, Structural)]
pub enum Place {
    Before,
    Same,
    After,
}

/// `String::push` puts the given character behind the characters that the
/// string already holds.
pub assume_specification[ String::push ](s: &mut String, c: char)
    ensures
        final(s)@ == old(s)@.push(c),
;

/// The characters of `s`, in order.
pub fn chars_of(s: &str) -> (chars: Vec<char>)
    ensures
        chars@ == s@,
{
    let mut chars: Vec<char> = Vec::new();
    for c in it: s.chars()
        invariant
            it.seq() == s@,
            chars@ == s@.take(it.index()),
    {
        chars.push(c);
    }
    chars
}

/// Whether `needle` stands in `chars` with its first character at `at`.
fn stands_at(chars: &Vec<char>, needle: &Vec<char>, at: usize) -> (found: bool)
    requires
        at <= chars@.len(),
    ensures
        found == occurs_at(chars@, needle@, at as int),
{
    if needle.len() > chars.len() - at {
        return false;
    }
    let ghost rest = chars@.skip(at as int);
    for i in 0..needle.len()
        invariant
            at + needle@.len() <= chars@.len(),
            rest == chars@.skip(at as int),
            forall|j: int| 0 <= j < i ==> rest[j] == #[trigger] needle@[j],
    {
        assert(at + i < chars.len());
        if chars[at + i] != needle[i] {
            assert(rest.take(needle@.len() as int)[i as int] != needle@[i as int]);
            return false;
        }
    }
    assert(rest.take(needle@.len() as int) =~= needle@);
    true
}

/// Whether `s` begins with `prefix`.
pub fn starts_with(s: &str, prefix: &str) -> (found: bool)
    ensures
        found == begins_with(s@, prefix@),
{
    let chars = chars_of(s);
    let needle = chars_of(prefix);
    assert(s@.skip(0) =~= s@);
    stands_at(&chars, &needle, 0)
}

/// Whether `needle` stands somewhere in `s`.
pub fn contains(s: &str, needle: &str) -> (found: bool)
    ensures
        found == occurs_in(s@, needle@),
{
    let chars = chars_of(s);
    let wanted = chars_of(needle);
    let mut at: usize = 0;
    loop
        invariant
            chars@ == s@,
            wanted@ == needle@,
            at <= chars@.len(),
            forall|i: int| 0 <= i < at ==> !#[trigger] occurs_at(s@, needle@, i),
        decreases chars@.len() - at,
    {
        if stands_at(&chars, &wanted, at) {
            return true;
        }
        if at == chars.len() {
            return false;
        }
        at = at + 1;
    }
}

/// Whether `c` has the Unicode property `White_Space`.
fn white_space(c: char) -> (found: bool)
    ensures
        found == is_white_space(c),
{
    let point: u32 = c as u32;
    (0x9 <= point && point <= 0xd) || point == 0x20 || point == 0x85 || point == 0xa0 || point
        == 0x1680 || (0x2000 <= point && point <= 0x200a) || point == 0x2028 || point == 0x2029
        || point == 0x202f || point == 0x205f || point == 0x3000
}

/// `s` without the white space at its two ends.
pub fn trim(s: &str) -> (inner: &str)
    ensures
        inner@ == trimmed(s@),
{
    let chars = chars_of(s);
    let mut start: usize = 0;
    let mut end: usize = chars.len();
    assert(s@.subrange(0, end as int) =~= s@);
    while start < end && white_space(chars[start])
        invariant
            chars@ == s@,
            start <= end == chars@.len(),
            trimmed(s@) == trimmed(s@.subrange(start as int, end as int)),
        decreases end - start,
    {
        assert(s@.subrange(start as int, end as int).drop_first() =~= s@.subrange(
            start + 1,
            end as int,
        ));
        start = start + 1;
    }
    while start < end && white_space(chars[end - 1])
        invariant
            chars@ == s@,
            start <= end <= chars@.len(),
            start < end ==> !is_white_space(s@[start as int]),
            trimmed(s@) == trimmed(s@.subrange(start as int, end as int)),
        decreases end - start,
    {
        assert(s@.subrange(start as int, end as int).drop_last() =~= s@.subrange(
            start as int,
            end - 1,
        ));
        end = end - 1;
    }
    s.substring_char(start, end)
}

/// `s` with every `~` replaced by `home`.
pub fn expand_tilde(s: &str, home: &str) -> (expanded: String)
    ensures
        expanded@ == tilde_expanded(s@, home@),
{
    let chars = chars_of(s);
    let mut expanded = String::new();
    assert(s@.take(0) =~= Seq::<char>::empty());
    for i in 0..chars.len()
        invariant
            chars@ == s@,
            expanded@ == tilde_expanded(s@.take(i as int), home@),
    {
        assert(s@.take(i + 1).drop_last() =~= s@.take(i as int));
        if chars[i] == '~' {
            expanded.append(home);
        } else {
            expanded.append(s.substring_char(i, i + 1));
            assert(s@.subrange(i as int, i + 1) =~= seq![s@[i as int]]);
        }
    }
    assert(s@.take(chars@.len() as int) =~= s@);
    expanded
}

/// The place of `a` in the order of strings, as seen from `b`.
pub fn text_place(a: &str, b: &str) -> (place: Place)
    ensures
        place == Place::Before <==> sorts_before(a@, b@),
        place == Place::Same <==> a@ == b@,
        place == Place::After <==> sorts_before(b@, a@),
{
    proof {
        law_strings_are_ordered(a@, b@);
    }
    let left = chars_of(a);
    let right = chars_of(b);
    let mut i: usize = 0;
    assert(a@.skip(0) =~= a@);
    assert(b@.skip(0) =~= b@);
    while i < left.len() && i < right.len() && left[i] == right[i]
        invariant
            left@ == a@,
            right@ == b@,
            i <= left@.len(),
            i <= right@.len(),
            a@.take(i as int) == b@.take(i as int),
            sorts_before(a@, b@) == sorts_before(a@.skip(i as int), b@.skip(i as int)),
            sorts_before(b@, a@) == sorts_before(b@.skip(i as int), a@.skip(i as int)),
        decreases left@.len() - i,
    {
        assert(a@.skip(i as int).skip(1) =~= a@.skip(i + 1));
        assert(b@.skip(i as int).skip(1) =~= b@.skip(i + 1));
        assert(a@.take(i + 1) =~= a@.take(i as int).push(a@[i as int]));
        assert(b@.take(i + 1) =~= b@.take(i as int).push(b@[i as int]));
        i = i + 1;
    }
    let ghost rest_a = a@.skip(i as int);
    let ghost rest_b = b@.skip(i as int);
    assert(i < a@.len() ==> rest_a[0] == a@[i as int]);
    assert(i < b@.len() ==> rest_b[0] == b@[i as int]);
    if i == right.len() {
        if i == left.len() {
            assert(a@.take(i as int) =~= a@);
            assert(b@.take(i as int) =~= b@);
            Place::Same
        } else {
            Place::After
        }
    } else if i == left.len() {
        Place::Before
    } else if left[i] < right[i] {
        Place::Before
    } else {
        Place::After
    }
}

/// Whether `a` and `b` are the same string.
pub fn same_text(a: &str, b: &str) -> (same: bool)
    ensures
        same == (a@ == b@),
{
    match text_place(a, b) {
        Place::Same => true,
        Place::Before | Place::After => false,
    }
}

/// `s` with its first character in upper case; `s` begins with an ASCII
/// character.
pub fn capitalize(s: &str) -> (capital: String)
    requires
        s@.len() > 0,
        s@[0] <= '\x7f',
    ensures
        capital@ == seq![ascii_upper(s@[0])] + s@.skip(1),
{
    let first = s.get_char(0);
    let len: usize = s.unicode_len();
    let mut capital = String::new();
    if 'a' <= first && first <= 'z' {
        let code: u8 = first as u8;
        capital.push((code - 32) as char);
    } else {
        capital.push(first);
    }
    capital.append(s.substring_char(1, len));
    assert(capital@ =~= seq![ascii_upper(s@[0])] + s@.skip(1));
    capital
}

/// The machine number that `s` writes, if it writes one.
pub fn parse_number(s: &str) -> (number: Option<usize>)
    ensures
        number matches Some(n) ==> number_in(s@) == Some(n as nat),
        number is None ==> number_in(s@) is None,
{
    let chars = chars_of(s);
    let start: usize = if chars.len() > 0 && chars[0] == '+' {
        1
    } else {
        0
    };
    let ghost digits = without_plus(s@);
    assert(digits =~= s@.skip(start as int));
    if start == chars.len() {
        return None;
    }
    let mut value: usize = 0;
    assert(digits.take(0) =~= Seq::<char>::empty());
    for i in start..chars.len()
        invariant
            start <= i,
            chars@ == s@,
            digits == without_plus(s@),
            digits == s@.skip(start as int),
            all_digits(digits.take(i - start)),
            value == decimal_value(digits.take(i - start)),
    {
        let c = chars[i];
        assert(digits[i - start] == c);
        if c < '0' || '9' < c {
            assert(!is_digit(digits[i - start]));
            return None;
        }
        let digit: usize = (c as u32 - '0' as u32) as usize;
        proof {
            assert(digits.take(i - start + 1).drop_last() =~= digits.take(i - start));
            assert(digits.take(i - start + 1).last() == c);
        }
        if value > (usize::MAX - digit) / 10 {
            proof {
                if all_digits(digits) {
                    lemma_decimal_value_grows(digits, i - start + 1);
                }
            }
            return None;
        }
        value = value * 10 + digit;
    }
    assert(digits.take(digits.len() as int) =~= digits);
    Some(value)
}

/// What is left of a trimmed string stands in it in one piece, and neither
/// begins nor ends with white space.
pub proof fn law_trimmed(s: Seq<char>)
    ensures
        occurs_in(s, trimmed(s)),
        trimmed(s).len() > 0 ==> !is_white_space(trimmed(s).first()) && !is_white_space(
            trimmed(s).last(),
        ),
        trimmed(trimmed(s)) == trimmed(s),
    decreases s.len(),
{
    if s.len() > 0 && is_white_space(s.first()) {
        let rest = s.drop_first();
        law_trimmed(rest);
        let at = choose|at: int| #[trigger] occurs_at(rest, trimmed(rest), at);
        assert(rest.skip(at) =~= s.skip(at + 1));
        assert(occurs_at(s, trimmed(s), at + 1));
    } else if s.len() > 0 && is_white_space(s.last()) {
        let rest = s.drop_last();
        law_trimmed(rest);
        let at = choose|at: int| #[trigger] occurs_at(rest, trimmed(rest), at);
        let len = trimmed(s).len() as int;
        assert(rest.skip(at).take(len) =~= s.skip(at).take(len));
        assert(occurs_at(s, trimmed(s), at));
    } else {
        assert(s.skip(0).take(s.len() as int) =~= s);
        assert(occurs_at(s, s, 0));
    }
}

/// Less than two bytes hold nothing, or one ASCII character.
pub proof fn law_one_byte_is_ascii(s: Seq<char>)
    requires
        encode_utf8(s).len() <= usize::MAX,
    ensures
        byte_len(s) < 2 <==> s.len() == 0 || (s.len() == 1 && s[0] <= '\x7f'),
{
    reveal_with_fuel(encode_utf8, 3);
    if s.len() > 0 {
        lemma_char_width(s[0]);
        if s.len() > 1 {
            lemma_char_width(s.drop_first()[0]);
        }
    }
}

/// A character takes at least one byte, and only an ASCII character takes one.
proof fn lemma_char_width(c: char)
    ensures
        encode_scalar(c as u32).len() >= 1,
        encode_scalar(c as u32).len() == 1 <==> c <= '\x7f',
{
}

/// Of two strings exactly one comes before the other, or they are the same
/// string.
pub proof fn law_strings_are_ordered(a: Seq<char>, b: Seq<char>)
    ensures
        !(sorts_before(a, b) && sorts_before(b, a)),
        sorts_before(a, b) || sorts_before(b, a) <==> a != b,
    decreases a.len(),
{
    if a.len() == 0 || b.len() == 0 {
        if a.len() == b.len() {
            assert(a =~= b);
        }
    } else if a[0] == b[0] {
        law_strings_are_ordered(a.skip(1), b.skip(1));
        if a.skip(1) == b.skip(1) {
            assert(a =~= seq![a[0]] + a.skip(1));
            assert(b =~= seq![b[0]] + b.skip(1));
        }
    }
}

/// What comes before a string comes before all that the string comes before.
pub proof fn law_string_order_is_transitive(a: Seq<char>, b: Seq<char>, c: Seq<char>)
    requires
        sorts_before(a, b),
        sorts_before(b, c),
    ensures
        sorts_before(a, c),
    decreases a.len(),
{
    if a.len() > 0 && a[0] == b[0] && b[0] == c[0] {
        law_string_order_is_transitive(a.skip(1), b.skip(1), c.skip(1));
    }
}

/// A row of digits writes at least the number that its first `n` digits write.
proof fn lemma_decimal_value_grows(s: Seq<char>, n: int)
    requires
        0 <= n <= s.len(),
        all_digits(s),
    ensures
        decimal_value(s.take(n)) <= decimal_value(s),
    decreases s.len() - n,
{
    if n == s.len() {
        assert(s.take(n) =~= s);
    } else {
        assert(s.take(n + 1).drop_last() =~= s.take(n));
        assert(is_digit(s[n]));
        lemma_decimal_value_grows(s, n + 1);
    }
}

} // verus!
