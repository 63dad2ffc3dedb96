//! What the small text functions do, seen from outside.
use crate::order;
use crate::rust_text;
use crate::text;
use vstd::prelude::*;

verus! {

/// Whether two texts differ first at a place: up to there they are the same.
pub open spec fn first_differ_at(a: Seq<char>, b: Seq<char>, at: int) -> bool {
    &&& 0 <= at <= a.len()
    &&& at <= b.len()
    &&& forall|i: int| 0 <= i < at ==> #[trigger] a[i] == b[i]
    &&& at == a.len() || at == b.len() || a[at] != b[at]
}

/// Texts are ordered by their first difference: the smaller character decides, and a text
/// that has none left stands first.
pub proof fn the_first_difference_decides(a: Seq<char>, b: Seq<char>, at: int)
    requires
        first_differ_at(a, b, at),
    ensures
        order::text_le(a, b) <==> at == a.len() || (at < b.len() && a[at] < b[at]),
    decreases at,
{
    if at > 0 {
        assert(a[0] == b[0]);
        let rest = a.skip(1);
        let other = b.skip(1);
        assert(first_differ_at(rest, other, at - 1)) by {
            assert forall|i: int| 0 <= i < at - 1 implies #[trigger] rest[i] == other[i] by {
                assert(a[i + 1] == b[i + 1]);
            }
        }
        the_first_difference_decides(rest, other, at - 1);
    }
}

/// Whether a character stands between words.
pub open spec fn between_words(c: char) -> bool {
    c == '-' || c == '_'
}

/// Whether a text is one word.
pub open spec fn one_word(name: Seq<char>) -> bool {
    name.len() > 0 && forall|i: int| 0 <= i < name.len() ==> !between_words(#[trigger] name[i])
}

/// A word starts with its first character in upper case, and keeps the others.
pub proof fn a_word_is_capitalized(word: Seq<char>)
    requires
        one_word(word),
    ensures
        rust_text::pascal(word) == text::uppercase_char(word[0]) + word.skip(1),
        text::capitalized(word) == rust_text::pascal(word),
    decreases word.len(),
{
    let before = word.drop_last();
    assert(!between_words(word[word.len() - 1]));
    if before.len() > 0 {
        assert forall|i: int| 0 <= i < before.len() implies !between_words(
            #[trigger] before[i],
        ) by {
            assert(before[i] == word[i]);
        }
        a_word_is_capitalized(before);
        assert(!between_words(word[before.len() - 1]));
        assert(rust_text::pascal(word) =~= text::uppercase_char(word[0]) + word.skip(1));
    } else {
        assert(rust_text::pascal(before) =~= Seq::empty());
        assert(rust_text::pascal(word) =~= text::uppercase_char(word[0]) + word.skip(1));
    }
}

/// The words of a name are put together one after the other: what stands between them is
/// gone.
pub proof fn words_are_put_together(first: Seq<char>, c: char, then: Seq<char>)
    requires
        between_words(c),
    ensures
        rust_text::pascal(first.push(c) + then) == rust_text::pascal(first) + rust_text::pascal(
            then,
        ),
    decreases then.len(),
{
    let all = first.push(c) + then;
    if then.len() == 0 {
        assert(all =~= first.push(c));
        assert(all.drop_last() =~= first);
        assert(rust_text::pascal(then) =~= Seq::empty());
        assert(rust_text::pascal(first) + rust_text::pascal(then) =~= rust_text::pascal(first));
    } else {
        let fewer = then.drop_last();
        words_are_put_together(first, c, fewer);
        assert(all.drop_last() =~= first.push(c) + fewer);
        assert(all.last() == then.last());
        if fewer.len() > 0 {
            assert(all.drop_last().last() == fewer.last());
        } else {
            assert(all.drop_last().last() == c);
        }
        assert(rust_text::pascal(all) =~= rust_text::pascal(first) + rust_text::pascal(then));
    }
}

/// A module name is the name with every dash turned into an underscore.
pub proof fn a_module_name_has_no_dashes(name: Seq<char>)
    ensures
        ({
            let made = rust_text::module_name(name);
            made.len() == name.len() && forall|i: int|
                0 <= i < name.len() ==> #[trigger] made[i] == if name[i] == '-' {
                    '_'
                } else {
                    name[i]
                }
        }),
{
}

/// A field is named as the parameter is, in its raw form where that is a keyword.
pub proof fn a_field_keeps_its_name(name: Seq<char>)
    ensures
        rust_text::plain_ident(name) ==> rust_text::field_name(name) == name,
        !rust_text::plain_ident(name) ==> rust_text::field_name(name) == seq!['r', '#'] + name,
{
    reveal_strlit("r#");
    assert("r#"@ =~= seq!['r', '#']);
}

/// Joined parts stand in their order, with the separator once between any two.
pub proof fn joining_separates_the_parts(
    first: Seq<Seq<char>>,
    then: Seq<Seq<char>>,
    separator: Seq<char>,
)
    requires
        first.len() > 0,
        then.len() > 0,
    ensures
        text::joined(first + then, separator) == text::joined(first, separator) + separator
            + text::joined(then, separator),
        then.len() == 1 ==> text::joined(then, separator) == then[0],
    decreases then.len(),
{
    let all = first + then;
    let before = then.drop_last();
    assert(all.drop_last() =~= first + before);
    assert(all.last() == then.last());
    if then.len() == 1 {
        assert(first + before =~= first);
    } else {
        joining_separates_the_parts(first, before, separator);
        assert(text::joined(all, separator) =~= text::joined(first, separator) + separator
            + text::joined(then, separator));
    }
}

/// The number that digits stand for.
pub open spec fn number(digits: Seq<char>) -> int
    decreases digits.len(),
{
    if digits.len() == 0 {
        0
    } else {
        10 * number(digits.drop_last()) + (digits.last() as int - '0' as int)
    }
}

/// The digits of a number stand for it, and do not start with a zero but for zero itself.
pub proof fn digits_stand_for_the_number(n: nat)
    ensures
        number(text::decimal(n)) == n,
        text::decimal(n).len() > 0,
        forall|i: int|
            0 <= i < text::decimal(n).len() ==> '0' <= #[trigger] text::decimal(n)[i] <= '9',
        n > 0 ==> text::decimal(n)[0] != '0',
    decreases n,
{
    let digits = text::decimal(n);
    if n < 10 {
        let c = (('0' as nat) + n) as char;
        assert(digits == seq![c]);
        assert(digits.drop_last() =~= Seq::empty());
        assert(number(digits.drop_last()) == 0);
    } else {
        digits_stand_for_the_number(n / 10);
        let before = text::decimal(n / 10);
        assert(digits.drop_last() =~= before);
        assert(10 * (n / 10) + n % 10 == n);
        assert(digits[0] == before[0]);
        assert forall|i: int| 0 <= i < digits.len() implies '0' <= #[trigger] digits[i] <= '9' by {
            if i < before.len() {
                assert(digits[i] == before[i]);
            }
        }
    }
}

} // verus!
