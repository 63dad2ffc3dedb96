//! Text as a sequence of characters: the small string operations that the rest of
//! the library is written with, each stated over `Seq<char>`.
use vstd::prelude::*;
use vstd::string::*;

verus! {

/// `str` equality compares the two texts.
pub assume_specification[ <str as PartialEq>::eq ](a: &str, b: &str) -> (equal: bool)
    ensures
        equal == (a@ == b@),
;

/// `String::push` appends one character.
pub assume_specification[ String::push ](s: &mut String, c: char)
    ensures
        final(s)@ == old(s)@.push(c),
;

/// What `str::to_lowercase` makes of a text.
pub uninterp spec fn lowercase(text: Seq<char>) -> Seq<char>;

/// What `str::to_uppercase` makes of a text.
pub uninterp spec fn uppercase(text: Seq<char>) -> Seq<char>;

/// What `char::to_uppercase` makes of a character: one character or several.
pub uninterp spec fn uppercase_char(c: char) -> Seq<char>;

/// What the `Debug` format makes of a text: quoted, with its escapes.
pub uninterp spec fn debug_format(text: Seq<char>) -> Seq<char>;

pub open spec fn is_ascii_char(c: char) -> bool {
    c as u32 <= 0x7f
}

/// The ASCII letters `a` to `z` go to `A` to `Z`; every other character stays.
pub open spec fn ascii_upper(c: char) -> char {
    if 'a' <= c && c <= 'z' {
        (c as u32 - 0x20) as char
    } else {
        c
    }
}

/// The ASCII letters `A` to `Z` go to `a` to `z`; every other character stays.
pub open spec fn ascii_lower(c: char) -> char {
    if 'A' <= c && c <= 'Z' {
        (c as u32 + 0x20) as char
    } else {
        c
    }
}

pub open spec fn all_ascii(text: Seq<char>) -> bool {
    forall|i: int| 0 <= i < text.len() ==> is_ascii_char(#[trigger] text[i])
}

/// `str::to_lowercase`: the result depends on the text alone, and an ASCII text is
/// lowered letter by letter.
pub assume_specification[ str::to_lowercase ](s: &str) -> (lowered: String)
    ensures
        lowered@ == lowercase(s@),
        all_ascii(s@) ==> lowered@ == s@.map_values(|c: char| ascii_lower(c)),
;

/// `str::to_uppercase`: the result depends on the text alone, and an ASCII text is
/// raised letter by letter.
pub assume_specification[ str::to_uppercase ](s: &str) -> (raised: String)
    ensures
        raised@ == uppercase(s@),
        all_ascii(s@) ==> raised@ == s@.map_values(|c: char| ascii_upper(c)),
;

/// `char::to_uppercase`: the result depends on the character alone, and an ASCII
/// character has exactly one upper-case form.
#[verifier::external_body]
pub(crate) fn char_to_uppercase(c: char) -> (raised: String)
    ensures
        raised@ == uppercase_char(c),
        is_ascii_char(c) ==> raised@ == seq![ascii_upper(c)],
{
    c.to_uppercase().collect()
}

/// The `Debug` format of a `str`: the result depends on the text alone.
#[verifier::external_body]
pub(crate) fn debug_quoted(text: &str) -> (quoted: String)
    ensures
        quoted@ == debug_format(text@),
{
    format!("{:?}", text)
}

/// The texts of a sequence of strings.
pub open spec fn texts(strings: Seq<String>) -> Seq<Seq<char>> {
    strings.map_values(|s: String| s@)
}

/// The text of an optional string.
pub open spec fn opt_text(string: Option<String>) -> Option<Seq<char>> {
    match string {
        Some(s) => Some(s@),
        None => None,
    }
}

/// Whether two texts are equal.
pub fn same(a: &str, b: &str) -> (equal: bool)
    ensures
        equal == (a@ == b@),
{
    *a == *b
}

/// The characters of a text.
pub fn chars_of(text: &str) -> (chars: Vec<char>)
    ensures
        chars@ == text@,
{
    let mut chars: Vec<char> = Vec::new();
    for c in it: text.chars()
        invariant
            it.seq() == text@,
            chars@ == text@.take(it.index() as int),
    {
        chars.push(c);
    }
    chars
}

/// The text made of `chars[from..to]`.
pub fn text_of(chars: &Vec<char>, from: usize, to: usize) -> (text: String)
    requires
        from <= to <= chars@.len(),
    ensures
        text@ == chars@.subrange(from as int, to as int),
{
    let mut text = String::new();
    for i in from..to
        invariant
            from <= to <= chars@.len(),
            text@ == chars@.subrange(from as int, i as int),
    {
        text.push(chars[i]);
        assert(text@ =~= chars@.subrange(from as int, i + 1));
    }
    text
}

/// A copy of a list of strings.
pub fn copy_strings(strings: &Vec<String>) -> (copy: Vec<String>)
    ensures
        texts(copy@) == texts(strings@),
{
    let mut copy: Vec<String> = Vec::new();
    for i in 0..strings.len()
        invariant
            copy@.len() == i,
            forall|j: int| 0 <= j < i ==> (#[trigger] copy@[j])@ == strings@[j]@,
    {
        copy.push(strings[i].clone());
    }
    assert(texts(copy@) =~= texts(strings@));
    copy
}

/// A list that is one name longer holds one name more.
pub proof fn lemma_push_contains(names: Seq<Seq<char>>, name: Seq<char>)
    ensures
        forall|other: Seq<char>| #[trigger]
            names.push(name).contains(other) <==> names.contains(other) || other == name,
{
    assert forall|other: Seq<char>| #[trigger] names.push(name).contains(other) <==> names.contains(
        other,
    ) || other == name by {
        if names.contains(other) {
            let i = choose|i: int| 0 <= i < names.len() && names[i] == other;
            assert(names.push(name)[i] == other);
        }
        if other == name {
            assert(names.push(name)[names.len() as int] == other);
        }
    }
}

/// Whether `names` holds `name`.
pub fn has_name(names: &[String], name: &str) -> (found: bool)
    ensures
        found == texts(names@).contains(name@),
{
    for i in 0..names.len()
        invariant
            forall|j: int| 0 <= j < i ==> texts(names@)[j] != name@,
    {
        if same(names[i].as_str(), name) {
            assert(texts(names@)[i as int] == name@);
            return true;
        }
    }
    false
}

/// What is left of `text` behind `prefix`, where it starts with it.
pub open spec fn without_prefix(text: Seq<char>, prefix: Seq<char>) -> Option<Seq<char>> {
    if prefix.is_prefix_of(text) {
        Some(text.skip(prefix.len() as int))
    } else {
        None
    }
}

/// Strips `prefix` off `text`.
pub fn strip_prefix(text: &str, prefix: &str) -> (rest: Option<String>)
    ensures
        opt_text(rest) == without_prefix(text@, prefix@),
{
    let chars = chars_of(text);
    let head = chars_of(prefix);
    if chars.len() < head.len() {
        return None;
    }
    for i in 0..head.len()
        invariant
            chars@ == text@,
            head@ == prefix@,
            head@.len() <= chars@.len(),
            forall|j: int| 0 <= j < i ==> chars@[j] == head@[j],
    {
        if chars[i] != head[i] {
            assert(text@.subrange(0, prefix@.len() as int)[i as int] != prefix@[i as int]);
            return None;
        }
    }
    assert(text@.subrange(0, prefix@.len() as int) =~= prefix@);
    Some(text_of(&chars, head.len(), chars.len()))
}

/// Whether `c` occurs in `text`.
pub fn has_char(text: &str, c: char) -> (found: bool)
    ensures
        found == text@.contains(c),
{
    let chars = chars_of(text);
    for i in 0..chars.len()
        invariant
            chars@ == text@,
            forall|j: int| 0 <= j < i ==> chars@[j] != c,
    {
        if chars[i] == c {
            return true;
        }
    }
    false
}

/// `text` with every `from` turned into `to`.
pub open spec fn replaced(text: Seq<char>, from: char, to: char) -> Seq<char> {
    text.map_values(|c: char| if c == from { to } else { c })
}

/// Turns every `from` in `text` into `to`.
pub fn replace_char(text: &str, from: char, to: char) -> (result: String)
    ensures
        result@ == replaced(text@, from, to),
{
    let chars = chars_of(text);
    let mut result = String::new();
    for i in 0..chars.len()
        invariant
            chars@ == text@,
            result@ == replaced(text@, from, to).take(i as int),
    {
        let c: char = chars[i];
        result.push(if c == from { to } else { c });
        assert(result@ =~= replaced(text@, from, to).take(i + 1));
    }
    assert(replaced(text@, from, to).take(text@.len() as int) =~= replaced(text@, from, to));
    result
}

/// `text` without any `unwanted`.
pub open spec fn without_char(text: Seq<char>, unwanted: char) -> Seq<char> {
    text.filter(|c: char| c != unwanted)
}

/// Drops every `unwanted` from `text`.
pub fn remove_char(text: &str, unwanted: char) -> (result: String)
    ensures
        result@ == without_char(text@, unwanted),
{
    let chars = chars_of(text);
    let mut result = String::new();
    for i in 0..chars.len()
        invariant
            chars@ == text@,
            result@ == without_char(text@.take(i as int), unwanted),
    {
        proof {
            reveal(Seq::filter);
            assert(text@.take(i + 1).drop_last() =~= text@.take(i as int));
        }
        if chars[i] != unwanted {
            result.push(chars[i]);
        }
    }
    assert(text@.take(text@.len() as int) =~= text@);
    result
}

/// `text` without the run of `c` at its end.
pub open spec fn trimmed_end(text: Seq<char>, c: char) -> Seq<char>
    decreases text.len(),
{
    if text.len() > 0 && text.last() == c {
        trimmed_end(text.drop_last(), c)
    } else {
        text
    }
}

/// What is left after trimming is the beginning of the text.
pub proof fn trimming_adds_nothing(text: Seq<char>, c: char)
    ensures
        trimmed_end(text, c).len() <= text.len(),
        forall|i: int|
            0 <= i < trimmed_end(text, c).len() ==> #[trigger] trimmed_end(text, c)[i] == text[i],
    decreases text.len(),
{
    if text.len() > 0 && text.last() == c {
        trimming_adds_nothing(text.drop_last(), c);
    }
}

/// Drops the run of `c` at the end of `text`.
pub fn trim_end(text: &str, c: char) -> (result: String)
    ensures
        result@ == trimmed_end(text@, c),
{
    let chars = chars_of(text);
    let mut end: usize = chars.len();
    assert(text@.take(end as int) =~= text@);
    while end > 0 && chars[end - 1] == c
        invariant
            chars@ == text@,
            end <= chars@.len(),
            trimmed_end(text@.take(end as int), c) == trimmed_end(text@, c),
        ensures
            end <= chars@.len(),
            end == 0 || chars@[end - 1] != c,
            trimmed_end(text@.take(end as int), c) == trimmed_end(text@, c),
        decreases end,
    {
        assert(text@.take(end as int).drop_last() =~= text@.take(end - 1));
        end = end - 1;
    }
    assert(chars@.subrange(0, end as int) =~= text@.take(end as int));
    text_of(&chars, 0, end)
}

/// The part of `text` behind its last `c`; all of it where there is none.
pub open spec fn after_last(text: Seq<char>, c: char) -> Seq<char>
    decreases text.len(),
{
    if text.len() == 0 || text.last() == c {
        Seq::empty()
    } else {
        after_last(text.drop_last(), c).push(text.last())
    }
}

/// The last segment of `text`, whose segments `c` separates.
pub fn last_segment(text: &str, c: char) -> (segment: String)
    ensures
        segment@ == after_last(text@, c),
{
    let chars = chars_of(text);
    let mut segment = String::new();
    for i in 0..chars.len()
        invariant
            chars@ == text@,
            segment@ == after_last(text@.take(i as int), c),
    {
        assert(text@.take(i + 1).drop_last() =~= text@.take(i as int));
        if chars[i] == c {
            segment = String::new();
        } else {
            segment.push(chars[i]);
        }
    }
    assert(text@.take(text@.len() as int) =~= text@);
    segment
}

/// Whether `needle` stands in `text` at position `at`.
pub open spec fn occurs_at(text: Seq<char>, needle: Seq<char>, at: int) -> bool {
    0 <= at && at + needle.len() <= text.len() && text.subrange(at, at + needle.len()) == needle
}

/// The first position from `from` on at which `needle` stands in `text`.
pub open spec fn first_occurrence(text: Seq<char>, needle: Seq<char>, from: int) -> Option<int>
    decreases text.len() + 1 - from,
{
    if from < 0 || from + needle.len() > text.len() {
        None
    } else if occurs_at(text, needle, from) {
        Some(from)
    } else {
        first_occurrence(text, needle, from + 1)
    }
}

/// `text` split around the first `needle`: what stands before it and what stands
/// behind it.
pub open spec fn split_around(text: Seq<char>, needle: Seq<char>) -> Option<
    (Seq<char>, Seq<char>),
> {
    match first_occurrence(text, needle, 0) {
        Some(at) => Some((text.take(at), text.skip(at + needle.len()))),
        None => None,
    }
}

/// Whether `needle` stands anywhere in `text`.
pub open spec fn occurs(text: Seq<char>, needle: Seq<char>) -> bool {
    exists|at: int| #[trigger] occurs_at(text, needle, at)
}

pub(crate) fn stands_at(chars: &Vec<char>, needle: &Vec<char>, at: usize) -> (found: bool)
    requires
        at + needle@.len() <= chars@.len(),
    ensures
        found == occurs_at(chars@, needle@, at as int),
{
    let length: usize = chars.len();
    for i in 0..needle.len()
        invariant
            length == chars@.len(),
            at + needle@.len() <= length,
            forall|j: int| 0 <= j < i ==> chars@[at + j] == needle@[j],
    {
        if chars[at + i] != needle[i] {
            assert(chars@.subrange(at as int, at + needle@.len())[i as int] != needle@[i as int]);
            return false;
        }
    }
    assert(chars@.subrange(at as int, at + needle@.len()) =~= needle@);
    true
}

/// Splits `text` around the first `needle` in it.
pub fn split_once(text: &str, needle: &str) -> (parts: Option<(String, String)>)
    ensures
        match parts {
            Some((before, behind)) => split_around(text@, needle@) == Some((before@, behind@)),
            None => split_around(text@, needle@) is None,
        },
{
    let chars = chars_of(text);
    let wanted = chars_of(needle);
    if wanted.len() > chars.len() {
        return None;
    }
    let length: usize = chars.len();
    let last: usize = length - wanted.len();
    let mut at: usize = 0;
    loop
        invariant
            chars@ == text@,
            wanted@ == needle@,
            length == chars@.len(),
            wanted@.len() <= length,
            last == length - wanted@.len(),
            at <= last,
            first_occurrence(text@, needle@, 0) == first_occurrence(text@, needle@, at as int),
        decreases last - at,
    {
        if stands_at(&chars, &wanted, at) {
            let before = text_of(&chars, 0, at);
            let behind = text_of(&chars, at + wanted.len(), length);
            assert(before@ =~= text@.take(at as int));
            assert(behind@ =~= text@.skip(at + needle@.len()));
            return Some((before, behind));
        }
        if at == last {
            assert(first_occurrence(text@, needle@, at + 1) is None);
            return None;
        }
        at = at + 1;
    }
}

proof fn lemma_no_occurrence(text: Seq<char>, needle: Seq<char>, from: int, at: int)
    requires
        first_occurrence(text, needle, from) is None,
        0 <= from <= at,
    ensures
        !occurs_at(text, needle, at),
    decreases at - from,
{
    if from < at && from + needle.len() <= text.len() {
        lemma_no_occurrence(text, needle, from + 1, at);
    }
}

proof fn lemma_found_occurs(text: Seq<char>, needle: Seq<char>, from: int)
    requires
        first_occurrence(text, needle, from) is Some,
    ensures
        occurs(text, needle),
    decreases text.len() + 1 - from,
{
    if !occurs_at(text, needle, from) {
        lemma_found_occurs(text, needle, from + 1);
    }
}

/// Whether `needle` stands anywhere in `text`.
pub fn has_text(text: &str, needle: &str) -> (found: bool)
    ensures
        found == occurs(text@, needle@),
{
    let found = split_once(text, needle).is_some();
    proof {
        if found {
            lemma_found_occurs(text@, needle@, 0);
        } else {
            assert forall|at: int| !(#[trigger] occurs_at(text@, needle@, at)) by {
                if at >= 0 {
                    lemma_no_occurrence(text@, needle@, 0, at);
                }
            }
        }
    }
    found
}

/// The parts one after the other, with `separator` between any two.
pub open spec fn joined(parts: Seq<Seq<char>>, separator: Seq<char>) -> Seq<char>
    decreases parts.len(),
{
    if parts.len() == 0 {
        Seq::empty()
    } else if parts.len() == 1 {
        parts[0]
    } else {
        joined(parts.drop_last(), separator) + separator + parts.last()
    }
}

/// Joins `parts` with `separator` between any two.
pub fn join(parts: &Vec<String>, separator: &str) -> (result: String)
    ensures
        result@ == joined(texts(parts@), separator@),
{
    let mut result = String::new();
    for i in 0..parts.len()
        invariant
            result@ == joined(texts(parts@).take(i as int), separator@),
    {
        proof {
            let next = texts(parts@).take(i + 1);
            assert(next.drop_last() =~= texts(parts@).take(i as int));
            assert(next.last() == parts@[i as int]@);
        }
        if i > 0 {
            result.append(separator);
            result.append(parts[i].as_str());
        } else {
            result = parts[i].clone();
        }
    }
    assert(texts(parts@).take(parts@.len() as int) =~= texts(parts@));
    result
}

/// `text` with its first character in upper case.
pub open spec fn capitalized(text: Seq<char>) -> Seq<char> {
    if text.len() == 0 {
        text
    } else {
        uppercase_char(text[0]) + text.skip(1)
    }
}

/// Puts the first character of `text` in upper case.
pub fn capitalize(text: &str) -> (result: String)
    ensures
        result@ == capitalized(text@),
{
    let chars = chars_of(text);
    if chars.len() == 0 {
        return String::new();
    }
    let rest = text_of(&chars, 1, chars.len());
    assert(rest@ =~= text@.skip(1));
    char_to_uppercase(chars[0]).concat(rest.as_str())
}

/// The decimal digits of a number.
pub open spec fn decimal(n: nat) -> Seq<char>
    decreases n,
{
    if n < 10 {
        seq![(('0' as nat) + n) as char]
    } else {
        decimal(n / 10).push((('0' as nat) + n % 10) as char)
    }
}

fn digit(n: usize) -> (c: char)
    requires
        n < 10,
    ensures
        c == (('0' as nat) + n as nat) as char,
{
    (0x30 + n as u8) as char
}

/// Writes a number in decimal.
pub fn decimal_text(n: usize) -> (text: String)
    ensures
        text@ == decimal(n as nat),
    decreases n,
{
    if n < 10 {
        let mut text = String::new();
        text.push(digit(n));
        assert(text@ =~= decimal(n as nat));
        text
    } else {
        let mut text = decimal_text(n / 10);
        text.push(digit(n % 10));
        text
    }
}

} // verus!
