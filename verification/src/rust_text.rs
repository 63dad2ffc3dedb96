//! Pieces of Rust source text: string literals, identifiers and types, as
//! `proc_macro2` and `syn` write and read them.
use crate::text;
use crate::text::same;
use vstd::prelude::*;
use vstd::string::*;

verus! {

/// The text of a string literal token, as `proc_macro2::Literal::string` writes it:
/// quoted, with its escapes.
pub uninterp spec fn literal_text(value: Seq<char>) -> Seq<char>;

/// The identifier or keyword that a text is, as `syn` reads it.
pub uninterp spec fn ident_in(source: Seq<char>) -> Option<Seq<char>>;

/// Whether `syn` reads a text as an identifier that is no keyword.
pub uninterp spec fn plain_ident(source: Seq<char>) -> bool;

/// The tokens of the type that a text is, as `syn` reads it; else what it says is wrong.
pub uninterp spec fn type_tokens(source: Seq<char>) -> Result<Seq<char>, Seq<char>>;

/// The tree of the type that a text is, as `syn` reads it and its `Debug` shows it.
pub uninterp spec fn type_tree(source: Seq<char>) -> Option<Seq<char>>;

/// The tokens of a text, as `proc_macro2` reads and prints them, where it can read it.
pub uninterp spec fn tokens_in(source: Seq<char>) -> Option<Seq<char>>;

/// `proc_macro2::Literal::string`, printed: the result depends on the value alone.
#[verifier::external_body]
pub(crate) fn string_literal(value: &str) -> (literal: String)
    ensures
        literal@ == literal_text(value@),
{
    proc_macro2::Literal::string(value).to_string()
}

/// `syn::ext::IdentExt::parse_any` on a text, which takes keywords too: the identifier
/// that it reads, printed, or `None`. The result depends on the text alone.
#[verifier::external_body]
pub(crate) fn read_ident(source: &str) -> (ident: Option<String>)
    ensures
        text::opt_text(ident) == ident_in(source@),
{
    let parser = <syn::Ident as syn::ext::IdentExt>::parse_any;
    syn::parse::Parser::parse_str(parser, source).ok().map(|ident| ident.to_string())
}

/// `syn::parse_str` into a `syn::Ident`, which refuses keywords: whether it succeeds
/// depends on the text alone.
#[verifier::external_body]
pub(crate) fn reads_as_plain_ident(source: &str) -> (plain: bool)
    ensures
        plain == plain_ident(source@),
{
    syn::parse_str::<syn::Ident>(source).is_ok()
}

/// `syn::parse_str` into a `syn::Type`, printed as tokens; else the words of its error.
/// The result depends on the text alone.
#[verifier::external_body]
pub(crate) fn read_type(source: &str) -> (tokens: Result<String, String>)
    ensures
        match tokens {
            Ok(shown) => type_tokens(source@) == Ok::<Seq<char>, Seq<char>>(shown@),
            Err(reason) => type_tokens(source@) == Err::<Seq<char>, Seq<char>>(reason@),
        },
{
    match syn::parse_str::<syn::Type>(source) {
        Ok(ty) => Ok(quote::ToTokens::to_token_stream(&ty).to_string()),
        Err(error) => Err(error.to_string()),
    }
}

/// `syn::parse_str` into a `syn::Type`, and the `Debug` form of the tree that it reads;
/// `None` where it fails. The result depends on the text alone: the trees are built without
/// source positions.
#[verifier::external_body]
pub(crate) fn read_type_tree(source: &str) -> (tree: Option<String>)
    ensures
        text::opt_text(tree) == type_tree(source@),
{
    syn::parse_str::<syn::Type>(source).ok().map(|ty| format!("{ty:?}"))
}

/// `str::parse` into a `proc_macro2::TokenStream`, printed; `None` where it fails. The
/// result depends on the text alone.
#[verifier::external_body]
pub(crate) fn read_tokens(source: &str) -> (tokens: Option<String>)
    ensures
        text::opt_text(tokens) == tokens_in(source@),
{
    source.parse::<proc_macro2::TokenStream>().ok().map(|tokens| tokens.to_string())
}

/// A source as a list of tokens; as it is where it is none.
pub open spec fn shown_source(source: Seq<char>) -> Seq<char> {
    match tokens_in(source) {
        Some(tokens) => tokens,
        None => source,
    }
}

/// Shows a source as a list of tokens.
pub fn show_source(source: &str) -> (shown: String)
    ensures
        shown@ == shown_source(source@),
{
    match read_tokens(source) {
        Some(tokens) => tokens,
        None => source.to_string(),
    }
}

/// Whether a text is exactly one identifier or keyword.
pub open spec fn is_ident(name: Seq<char>) -> bool {
    ident_in(name) == Some(name)
}

/// Tests whether a text is exactly one identifier or keyword.
pub fn valid_ident(name: &str) -> (valid: bool)
    ensures
        valid == is_ident(name@),
{
    match read_ident(name) {
        Some(ident) => same(ident.as_str(), name),
        None => false,
    }
}

/// The identifier for a name that the schema supplies: the name itself, or its raw form
/// (`r#type`) where it is a keyword.
pub open spec fn field_name(name: Seq<char>) -> Seq<char> {
    if plain_ident(name) {
        name
    } else {
        "r#"@ + name
    }
}

/// The identifier for a schema-supplied name, raw-escaped where it collides with a
/// keyword. The query parameter on the wire stays the plain name.
pub fn field_ident(name: &str) -> (ident: String)
    ensures
        ident@ == field_name(name@),
{
    if reads_as_plain_ident(name) {
        name.to_string()
    } else {
        "r#".to_string().concat(name)
    }
}

/// The literals of a list of texts.
pub open spec fn literal_texts(values: Seq<Seq<char>>) -> Seq<Seq<char>> {
    values.map_values(|value: Seq<char>| literal_text(value))
}

/// The literals of a list of texts, one after the other between commas.
pub fn literal_list(values: &Vec<String>) -> (list: String)
    ensures
        list@ == text::joined(literal_texts(text::texts(values@)), ", "@),
{
    let mut literals: Vec<String> = Vec::new();
    for i in 0..values.len()
        invariant
            literals@.len() == i,
            forall|j: int| 0 <= j < i ==> (#[trigger] literals@[j])@ == literal_text(values@[j]@),
    {
        literals.push(string_literal(values[i].as_str()));
    }
    assert(text::texts(literals@) =~= literal_texts(text::texts(values@)));
    text::join(&literals, ", ")
}

/// Whether `c` separates the words of a kebab- or snake-case name.
pub open spec fn is_separator(c: char) -> bool {
    c == '-' || c == '_'
}

/// The words of a kebab- or snake-case name run together, each with its first character
/// in upper case.
pub open spec fn pascal(name: Seq<char>) -> Seq<char>
    decreases name.len(),
{
    if name.len() == 0 {
        Seq::empty()
    } else {
        let before = name.drop_last();
        let c = name.last();
        if is_separator(c) {
            pascal(before)
        } else if before.len() == 0 || is_separator(before.last()) {
            pascal(before) + text::uppercase_char(c)
        } else {
            pascal(before).push(c)
        }
    }
}

/// Turns a kebab- or snake-case name into a Pascal-case one.
pub fn pascal_case(kebab_or_snake: &str) -> (result: String)
    ensures
        result@ == pascal(kebab_or_snake@),
{
    let chars = text::chars_of(kebab_or_snake);
    let mut result = String::new();
    let mut starts_word = true;
    assert(kebab_or_snake@.take(0) =~= Seq::<char>::empty());
    for i in 0..chars.len()
        invariant
            chars@ == kebab_or_snake@,
            starts_word == (i == 0 || is_separator(chars@[i - 1])),
            result@ == pascal(kebab_or_snake@.take(i as int)),
    {
        let c: char = chars[i];
        proof {
            let now = kebab_or_snake@.take(i + 1);
            assert(now.drop_last() =~= kebab_or_snake@.take(i as int));
            assert(now.last() == c);
        }
        if c == '-' || c == '_' {
            starts_word = true;
        } else if starts_word {
            result.append(text::char_to_uppercase(c).as_str());
            starts_word = false;
        } else {
            result.push(c);
        }
    }
    assert(kebab_or_snake@.take(kebab_or_snake@.len() as int) =~= kebab_or_snake@);
    result
}

/// The module name of a kebab- or snake-case name.
pub open spec fn module_name(name: Seq<char>) -> Seq<char> {
    text::replaced(name, '-', '_')
}

/// Turns a kebab-case name into a snake-case one.
pub fn snake_name(kebab_or_snake: &str) -> (result: String)
    ensures
        result@ == module_name(kebab_or_snake@),
{
    text::replace_char(kebab_or_snake, '-', '_')
}

} // verus!
