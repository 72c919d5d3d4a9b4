//! What the words for text mean, character by character.
use crate::file_search_laws::law_path_without_tilde_stays;
use crate::text::{
    all_digits, ascii_upper, begins_with, byte_len, decimal_value, is_digit, is_white_space,
    number_in, occurs_at, occurs_in, sorts_before, texts, tilde_expanded, trimmed, without_plus,
};
use vstd::prelude::*;
use vstd::utf8::*;

verus! {

/// A text begins with `prefix` exactly if it is `prefix` and some more text:
/// every character of `prefix` stands at its own place.
pub proof fn law_begins_with(s: Seq<char>, prefix: Seq<char>, more: Seq<char>)
    ensures
        begins_with(prefix + more, prefix),
        begins_with(s, prefix) <==> prefix.len() <= s.len() && forall|i: int|
            0 <= i < prefix.len() ==> s[i] == #[trigger] prefix[i],
{
    assert((prefix + more).take(prefix.len() as int) =~= prefix);
    if begins_with(s, prefix) {
        assert forall|i: int| 0 <= i < prefix.len() implies s[i] == #[trigger] prefix[i] by {
            assert(s.take(prefix.len() as int)[i] == s[i]);
        }
    }
    if prefix.len() <= s.len() && forall|i: int|
        0 <= i < prefix.len() ==> s[i] == #[trigger] prefix[i] {
        assert(s.take(prefix.len() as int) =~= prefix);
    }
}

/// A text stands in every text that has it in the middle, and in no other.
pub proof fn law_occurs_in(before: Seq<char>, needle: Seq<char>, after: Seq<char>, s: Seq<char>)
    ensures
        occurs_in(before + needle + after, needle),
        occurs_in(s, needle) ==> exists|a: Seq<char>, b: Seq<char>| s == #[trigger] (a + needle + b),
{
    let whole = before + needle + after;
    assert(whole.skip(before.len() as int).take(needle.len() as int) =~= needle);
    assert(occurs_at(whole, needle, before.len() as int));
    if occurs_in(s, needle) {
        let at = choose|at: int| #[trigger] occurs_at(s, needle, at);
        let a = s.take(at);
        let b = s.skip(at + needle.len());
        law_begins_with(s.skip(at), needle, b);
        assert(s =~= a + needle + b);
    }
}

/// One text sorts before another exactly if at the first place where they differ
/// it has ended or has the smaller character.
pub proof fn law_first_difference_decides(a: Seq<char>, b: Seq<char>)
    ensures
        sorts_before(a, b) <==> exists|k: int| #[trigger] differs_first_at(a, b, k),
    decreases a.len(),
{
    if a.len() > 0 && b.len() > 0 && a[0] == b[0] {
        law_first_difference_decides(a.skip(1), b.skip(1));
        if exists|k: int| #[trigger] differs_first_at(a.skip(1), b.skip(1), k) {
            let k = choose|k: int| #[trigger] differs_first_at(a.skip(1), b.skip(1), k);
            assert forall|i: int| 0 <= i < k + 1 implies #[trigger] a[i] == b[i] by {
                if i > 0 {
                    assert(a.skip(1)[i - 1] == b.skip(1)[i - 1]);
                }
            }
            assert(differs_first_at(a, b, k + 1));
        }
        if exists|k: int| #[trigger] differs_first_at(a, b, k) {
            let k = choose|k: int| #[trigger] differs_first_at(a, b, k);
            assert forall|i: int| 0 <= i < k - 1 implies #[trigger] a.skip(1)[i] == b.skip(1)[i] by {
                assert(a[i + 1] == b[i + 1]);
            }
            assert(differs_first_at(a.skip(1), b.skip(1), k - 1));
        }
    } else {
        if b.len() > 0 && (a.len() == 0 || a[0] < b[0]) {
            assert(differs_first_at(a, b, 0));
        }
        if exists|k: int| #[trigger] differs_first_at(a, b, k) {
            let k = choose|k: int| #[trigger] differs_first_at(a, b, k);
            if k > 0 {
                assert(a[0] == b[0]);
            }
        }
    }
}

/// The texts agree before place `k`; there `a` has ended and `b` has not, or `a`
/// has the smaller character.
pub open spec fn differs_first_at(a: Seq<char>, b: Seq<char>, k: int) -> bool {
    &&& 0 <= k <= a.len()
    &&& k < b.len()
    &&& forall|i: int| 0 <= i < k ==> #[trigger] a[i] == b[i]
    &&& k == a.len() || a[k] < b[k]
}

/// The white space characters, by name.
pub proof fn law_white_space_characters(c: char)
    ensures
        is_white_space(c) <==> {
            ||| '\t' <= c && c <= '\r'
            ||| c == ' '
            ||| c == '\u{85}'
            ||| c == '\u{a0}'
            ||| c == '\u{1680}'
            ||| '\u{2000}' <= c && c <= '\u{200a}'
            ||| c == '\u{2028}'
            ||| c == '\u{2029}'
            ||| c == '\u{202f}'
            ||| c == '\u{205f}'
            ||| c == '\u{3000}'
        },
{
}

/// Every character of `s` is white space.
pub open spec fn blank(s: Seq<char>) -> bool {
    forall|i: int| 0 <= i < s.len() ==> is_white_space(#[trigger] s[i])
}

/// Trimming takes off white space and nothing else: a text is its trimmed form
/// with white space before and behind it, and the trimmed form has none at its
/// ends.
pub proof fn law_trimming_takes_off_white_space(s: Seq<char>)
    ensures
        exists|a: Seq<char>, b: Seq<char>|
            s == #[trigger] (a + trimmed(s) + b) && blank(a) && blank(b),
        trimmed(s).len() > 0 ==> !is_white_space(trimmed(s).first()) && !is_white_space(
            trimmed(s).last(),
        ),
    decreases s.len(),
{
    if s.len() > 0 && is_white_space(s.first()) {
        let rest = s.drop_first();
        law_trimming_takes_off_white_space(rest);
        let (a, b) = choose|a: Seq<char>, b: Seq<char>|
            rest == #[trigger] (a + trimmed(rest) + b) && blank(a) && blank(b);
        let first = seq![s.first()] + a;
        assert(s =~= seq![s.first()] + rest);
        assert(s =~= first + trimmed(s) + b);
        assert(blank(first)) by {
            assert forall|i: int| 0 <= i < first.len() implies is_white_space(
                #[trigger] first[i],
            ) by {
                if i > 0 {
                    assert(is_white_space(a[i - 1]));
                }
            }
        }
    } else if s.len() > 0 && is_white_space(s.last()) {
        let rest = s.drop_last();
        law_trimming_takes_off_white_space(rest);
        let (a, b) = choose|a: Seq<char>, b: Seq<char>|
            rest == #[trigger] (a + trimmed(rest) + b) && blank(a) && blank(b);
        assert(s =~= rest.push(s.last()));
        assert(s =~= a + trimmed(s) + b.push(s.last()));
        assert(blank(b.push(s.last())));
    } else {
        let none = Seq::<char>::empty();
        assert(s =~= none + trimmed(s) + none);
    }
}

/// Nothing is left of a text after trimming exactly if all of it is white space.
pub proof fn law_only_blank_text_is_trimmed_away(s: Seq<char>)
    ensures
        trimmed(s).len() == 0 <==> blank(s),
{
    law_trimming_takes_off_white_space(s);
    let (a, b) = choose|a: Seq<char>, b: Seq<char>|
        s == #[trigger] (a + trimmed(s) + b) && blank(a) && blank(b);
    if trimmed(s).len() == 0 {
        assert forall|i: int| 0 <= i < s.len() implies is_white_space(#[trigger] s[i]) by {
            if i < a.len() {
                assert(s[i] == a[i]);
            } else {
                assert(s[i] == b[i - a.len()]);
            }
        }
    } else {
        assert(s[a.len() as int] == trimmed(s).first());
    }
}

/// A `~` becomes the whole home directory, any other character stays, and the
/// two parts of a text are expanded each for itself.
pub proof fn law_tilde_expansion_goes_by_character(
    a: Seq<char>,
    b: Seq<char>,
    c: char,
    home: Seq<char>,
)
    ensures
        tilde_expanded(Seq::empty(), home) == Seq::<char>::empty(),
        tilde_expanded(seq!['~'], home) == home,
        c != '~' ==> tilde_expanded(seq![c], home) == seq![c],
        tilde_expanded(a + b, home) == tilde_expanded(a, home) + tilde_expanded(b, home),
    decreases b.len(),
{
    let none = Seq::<char>::empty();
    assert(seq!['~'].drop_last() =~= none);
    assert(seq![c].drop_last() =~= none);
    assert(tilde_expanded(none, home) =~= none);
    assert(tilde_expanded(seq!['~'], home) =~= home) by {
        assert(tilde_expanded(seq!['~'], home) == tilde_expanded(none, home) + home);
    }
    if c != '~' {
        assert(tilde_expanded(seq![c], home) == tilde_expanded(none, home).push(c));
        assert(tilde_expanded(seq![c], home) =~= seq![c]);
    }
    if b.len() == 0 {
        assert(a + b =~= a);
        assert(b =~= none);
        assert(tilde_expanded(a, home) + none =~= tilde_expanded(a, home));
    } else {
        let rest = b.drop_last();
        law_tilde_expansion_goes_by_character(a, rest, c, home);
        assert((a + b).drop_last() =~= a + rest);
        assert((a + b).last() == b.last());
        assert(tilde_expanded(a + b, home) =~= tilde_expanded(a, home) + tilde_expanded(b, home));
    }
}

/// The whole home directory stands where a path had its `~`, and the rest of the
/// path stays around it.
pub proof fn law_home_stands_for_the_tilde(a: Seq<char>, b: Seq<char>, home: Seq<char>)
    requires
        !a.contains('~'),
        !b.contains('~'),
    ensures
        tilde_expanded(a + seq!['~'] + b, home) == a + home + b,
{
    law_tilde_expansion_goes_by_character(a + seq!['~'], b, ' ', home);
    law_tilde_expansion_goes_by_character(a, seq!['~'], ' ', home);
    law_path_without_tilde_stays(a, home);
    law_path_without_tilde_stays(b, home);
}

/// The letter at a place of the small alphabet has the one at the same place of
/// the large alphabet as its upper case form; what is no small letter stays.
pub proof fn law_upper_case(i: int, c: char)
    ensures
        0 <= i < 26 ==> ascii_upper("abcdefghijklmnopqrstuvwxyz"@[i])
            == "ABCDEFGHIJKLMNOPQRSTUVWXYZ"@[i],
        c < 'a' || 'z' < c ==> ascii_upper(c) == c,
{
    reveal_strlit("abcdefghijklmnopqrstuvwxyz");
    reveal_strlit("ABCDEFGHIJKLMNOPQRSTUVWXYZ");
}

/// A digit writes its own number, and a digit more makes ten times as much and
/// the number of the digit, as long as that fits.
pub proof fn law_numbers_are_decimal(s: Seq<char>, i: int)
    requires
        0 <= i < 10,
    ensures
        number_in(seq!["0123456789"@[i]]) == Some(i as nat),
        match number_in(s) {
            Some(n) => number_in(s.push("0123456789"@[i])) == if n * 10 + i <= usize::MAX {
                Some((n * 10 + i) as nat)
            } else {
                None
            },
            None => true,
        },
{
    reveal_strlit("0123456789");
    let c = "0123456789"@[i];
    lemma_digit(i);
    let one = seq![c];
    assert(one.drop_last() =~= Seq::<char>::empty());
    assert(decimal_value(Seq::<char>::empty()) == 0);
    assert(without_plus(one) == one);
    assert(one.last() == c);
    assert(decimal_value(one) == i);
    if number_in(s) is Some {
        let digits = without_plus(s);
        assert(without_plus(s.push(c)) =~= digits.push(c));
        assert(digits.push(c).drop_last() =~= digits);
        assert(all_digits(digits.push(c)));
    }
}

proof fn lemma_digit(i: int)
    requires
        0 <= i < 10,
    ensures
        is_digit("0123456789"@[i]),
        "0123456789"@[i] as u32 == 48 + i,
{
    reveal_strlit("0123456789");
}

/// Only digits behind at most one leading `+` write a number, and there is at
/// least one of them; the `+` does not change the number.
pub proof fn law_what_writes_a_number(s: Seq<char>)
    ensures
        number_in(s) is Some ==> s.len() > 0 && s.last() != '+' && forall|i: int|
            0 <= i < s.len() ==> '0' <= #[trigger] s[i] && s[i] <= '9' || i == 0 && s[i] == '+',
        s.len() > 0 && s[0] != '+' ==> number_in(seq!['+'] + s) == number_in(s),
{
    let digits = without_plus(s);
    if number_in(s) is Some {
        assert(digits.last() == s.last());
        assert(is_digit(digits[digits.len() - 1]));
        assert forall|i: int| 0 <= i < s.len() implies '0' <= #[trigger] s[i] && s[i] <= '9' || i
            == 0 && s[i] == '+' by {
            if s[0] == '+' {
                if i > 0 {
                    assert(is_digit(digits[i - 1]));
                }
            } else {
                assert(is_digit(digits[i]));
            }
        }
    }
    if s.len() > 0 && s[0] != '+' {
        assert((seq!['+'] + s).skip(1) =~= s);
    }
}

/// A text takes as many bytes as its parts, and a character takes one to four,
/// by how large it is.
pub proof fn law_byte_length(c: char, a: Seq<char>, b: Seq<char>)
    ensures
        byte_len(Seq::empty()) == 0,
        byte_len(seq![c]) == if c <= '\u{7f}' {
            1int
        } else if c <= '\u{7ff}' {
            2
        } else if c <= '\u{ffff}' {
            3
        } else {
            4
        },
        byte_len(a) + byte_len(b) <= usize::MAX && encode_utf8(a).len() <= usize::MAX
            && encode_utf8(b).len() <= usize::MAX ==> byte_len(a + b) == byte_len(a) + byte_len(b),
{
    reveal_with_fuel(encode_utf8, 2);
    assert(seq![c].drop_first() =~= Seq::<char>::empty());
    lemma_width(c);
    lemma_bytes_of_parts(a, b);
}

proof fn lemma_width(c: char)
    ensures
        encode_scalar(c as u32).len() == if c <= '\u{7f}' {
            1int
        } else if c <= '\u{7ff}' {
            2
        } else if c <= '\u{ffff}' {
            3
        } else {
            4
        },
{
}

proof fn lemma_bytes_of_parts(a: Seq<char>, b: Seq<char>)
    ensures
        encode_utf8(a + b) == encode_utf8(a) + encode_utf8(b),
    decreases a.len(),
{
    if a.len() == 0 {
        assert(a + b =~= b);
        assert(encode_utf8(a) + encode_utf8(b) =~= encode_utf8(b));
    } else {
        lemma_bytes_of_parts(a.drop_first(), b);
        assert((a + b).drop_first() =~= a.drop_first() + b);
        assert(encode_utf8(a + b) =~= encode_utf8(a) + encode_utf8(b));
    }
}

/// The texts of a list are those of its strings, one for one.
pub proof fn law_texts_are_the_strings(list: Seq<String>, i: int)
    ensures
        texts(list).len() == list.len(),
        0 <= i < list.len() ==> texts(list)[i] == list[i]@,
{
}

} // verus!
