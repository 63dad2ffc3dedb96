//! Method signatures of rs-client's `HttpClient`, read from its source.
use crate::table::Table;
use crate::text;
use crate::text::{chars_of, join, remove_char, same, strip_prefix, text_of};
use vstd::prelude::*;
use vstd::string::*;

verus! {

/// How a single method parameter maps onto the generated command line. `S` is how a text
/// is held: a `String` in a value, a sequence of characters in a contract.
#[derive(Debug, PartialEq, Eq)]
pub enum ParamKind<S = String> {
    /// `impl AsRef<str>`: always the required path parameter.
    RequiredStr,
    /// `Option<impl AsRef<str>>`: an optional string filter.
    OptionalStr,
    RequiredBool,
    OptionalBool,
    RequiredI64,
    OptionalI64,
    /// A bare named type (e.g. `CustomerRequest`): the JSON request body.
    JsonBody(S),
    /// `Option<SomeNamedType>`: an optional JSON body.
    OptionalJsonBody(S),
    /// A filter that is not exposed, safe to leave out of the call.
    SkippedOptional,
    /// A required parameter of a shape for which there is no value.
    SkippedRequired,
}

#[derive(Debug)]
pub struct ExtractedParam {
    pub name: String,
    pub kind: ParamKind,
}

#[derive(Debug)]
pub struct ExtractedMethod {
    pub name: String,
    pub params: Vec<ExtractedParam>,
}

/// An `ExtractedParam` as contracts see it.
#[verifier::ext_equal]
pub struct Param {
    pub name: Seq<char>,
    pub kind: ParamKind<Seq<char>>,
}

/// An `ExtractedMethod` as contracts see it.
#[verifier::ext_equal]
pub struct Method {
    pub name: Seq<char>,
    pub params: Seq<Param>,
}

impl ParamKind<String> {
    pub open spec fn model(self) -> ParamKind<Seq<char>> {
        match self {
            ParamKind::RequiredStr => ParamKind::RequiredStr,
            ParamKind::OptionalStr => ParamKind::OptionalStr,
            ParamKind::RequiredBool => ParamKind::RequiredBool,
            ParamKind::OptionalBool => ParamKind::OptionalBool,
            ParamKind::RequiredI64 => ParamKind::RequiredI64,
            ParamKind::OptionalI64 => ParamKind::OptionalI64,
            ParamKind::JsonBody(name) => ParamKind::JsonBody(name@),
            ParamKind::OptionalJsonBody(name) => ParamKind::OptionalJsonBody(name@),
            ParamKind::SkippedOptional => ParamKind::SkippedOptional,
            ParamKind::SkippedRequired => ParamKind::SkippedRequired,
        }
    }
}

impl View for ExtractedParam {
    type V = Param;

    open spec fn view(&self) -> Param {
        Param { name: self.name@, kind: self.kind.model() }
    }
}

impl View for ExtractedMethod {
    type V = Method;

    open spec fn view(&self) -> Method {
        Method {
            name: self.name@,
            params: self.params@.map_values(|param: ExtractedParam| param@),
        }
    }
}

/// A top-level item of a source file, as far as it is read.
#[derive(Debug)]
pub enum SourceItem {
    /// An `impl` block: whether it implements a trait, the tokens of its self type, and
    /// what stands in it.
    Impl { of_trait: bool, self_type: String, members: Vec<ImplMember> },
    Other,
}

/// What stands in an `impl` block, as far as it is read.
#[derive(Debug)]
pub enum ImplMember {
    Method { name: String, inputs: Vec<MethodInput> },
    Other,
}

/// An input of a method.
#[derive(Debug)]
pub enum MethodInput {
    /// `self` in any of its forms.
    Receiver,
    /// An argument: its name, where its pattern is one, and the tokens of its type.
    Argument { name: Option<String>, argument_type: String },
}

/// A `SourceItem` as contracts see it.
pub enum Item {
    Impl { of_trait: bool, self_type: Seq<char>, members: Seq<Member> },
    Other,
}

/// An `ImplMember` as contracts see it.
pub enum Member {
    Method { name: Seq<char>, inputs: Seq<Input> },
    Other,
}

/// A `MethodInput` as contracts see it.
pub enum Input {
    Receiver,
    Argument { name: Option<Seq<char>>, argument_type: Seq<char> },
}

impl View for MethodInput {
    type V = Input;

    open spec fn view(&self) -> Input {
        match self {
            MethodInput::Receiver => Input::Receiver,
            MethodInput::Argument { name, argument_type } => Input::Argument {
                name: text::opt_text(*name),
                argument_type: argument_type@,
            },
        }
    }
}

impl View for ImplMember {
    type V = Member;

    open spec fn view(&self) -> Member {
        match self {
            ImplMember::Method { name, inputs } => Member::Method {
                name: name@,
                inputs: inputs@.map_values(|input: MethodInput| input@),
            },
            ImplMember::Other => Member::Other,
        }
    }
}

impl View for SourceItem {
    type V = Item;

    open spec fn view(&self) -> Item {
        match self {
            SourceItem::Impl { of_trait, self_type, members } => Item::Impl {
                of_trait: *of_trait,
                self_type: self_type@,
                members: members@.map_values(|member: ImplMember| member@),
            },
            SourceItem::Other => Item::Other,
        }
    }
}

pub open spec fn items_of(items: Seq<SourceItem>) -> Seq<Item> {
    items.map_values(|item: SourceItem| item@)
}

/// `syn::ImplItemFn`, a method of an `impl` block.
#[verifier::external_type_specification]
#[verifier::external_body]
pub struct ExImplItemFn(syn::ImplItemFn);

/// The signature that a `syn::ImplItemFn` holds.
pub uninterp spec fn signature_of(method: syn::ImplItemFn) -> Member;

/// The items of a source file, as `syn` reads it; else what it says is wrong.
pub uninterp spec fn parsed_source(source: Seq<char>) -> Result<Seq<Item>, Seq<char>>;

/// A top-level item whose methods were not looked at yet.
enum RawItem {
    Impl { of_trait: bool, self_type: String, members: Vec<Option<syn::ImplItemFn>> },
    Other,
}

/// What stands in an `impl` block, of a member whose signature was not looked at yet.
spec fn raw_member(member: Option<syn::ImplItemFn>) -> Member {
    match member {
        Some(method) => signature_of(method),
        None => Member::Other,
    }
}

spec fn raw_item(item: RawItem) -> Item {
    match item {
        RawItem::Impl { of_trait, self_type, members } => Item::Impl {
            of_trait,
            self_type: self_type@,
            members: members@.map_values(|member: Option<syn::ImplItemFn>| raw_member(member)),
        },
        RawItem::Other => Item::Other,
    }
}

/// `syn::parse_file`: the items of the file one for one, with self types printed as
/// tokens; else the words of its error. The result depends on the text alone.
#[verifier::external_body]
fn read_raw_items(source: &str) -> (result: Result<Vec<RawItem>, String>)
    ensures
        match result {
            Ok(items) => parsed_source(source@) == Ok::<Seq<Item>, Seq<char>>(
                items@.map_values(|item: RawItem| raw_item(item)),
            ),
            Err(reason) => parsed_source(source@) == Err::<Seq<Item>, Seq<char>>(reason@),
        },
{
    let member = |member: syn::ImplItem| match member {
        syn::ImplItem::Fn(method) => Some(method),
        _ => None,
    };
    let item = |item: syn::Item| match item {
        syn::Item::Impl(block) => RawItem::Impl {
            of_trait: block.trait_.is_some(),
            self_type: quote::ToTokens::to_token_stream(&block.self_ty).to_string(),
            members: block.items.into_iter().map(member).collect(),
        },
        _ => RawItem::Other,
    };
    syn::parse_file(source).map(|f| f.items.into_iter().map(item).collect()).map_err(|e| e.to_string())
}

/// The fields `sig.ident` and `sig.inputs` of a `syn::ImplItemFn`: the name, and the
/// inputs one for one, with types printed as tokens.
#[verifier::external_body]
fn read_signature(method: &syn::ImplItemFn) -> (member: ImplMember)
    ensures
        member@ == signature_of(*method),
        member is Method,
{
    let name = |pat: &syn::Pat| match pat {
        syn::Pat::Ident(pat) => Some(pat.ident.to_string()),
        _ => None,
    };
    let input = |arg: &syn::FnArg| match arg {
        syn::FnArg::Receiver(_) => MethodInput::Receiver,
        syn::FnArg::Typed(arg) => MethodInput::Argument {
            name: name(&arg.pat),
            argument_type: quote::ToTokens::to_token_stream(&arg.ty).to_string(),
        },
    };
    let inputs = method.sig.inputs.iter().map(input).collect();
    ImplMember::Method { name: method.sig.ident.to_string(), inputs }
}

fn read_members(members: &Vec<Option<syn::ImplItemFn>>) -> (read: Vec<ImplMember>)
    ensures
        read@.map_values(|member: ImplMember| member@) == members@.map_values(
            |member: Option<syn::ImplItemFn>| raw_member(member),
        ),
{
    let mut read: Vec<ImplMember> = Vec::new();
    for i in 0..members.len()
        invariant
            read@.len() == i,
            forall|j: int| 0 <= j < i ==> (#[trigger] read@[j])@ == raw_member(members@[j]),
    {
        match &members[i] {
            Some(method) => {
                read.push(read_signature(method));
            },
            None => {
                read.push(ImplMember::Other);
            },
        }
    }
    assert(read@.map_values(|member: ImplMember| member@) =~= members@.map_values(
        |member: Option<syn::ImplItemFn>| raw_member(member),
    ));
    read
}

/// Reads a source file.
fn read_source(source: &str) -> (result: Result<Vec<SourceItem>, String>)
    ensures
        match result {
            Ok(items) => parsed_source(source@) == Ok::<Seq<Item>, Seq<char>>(items_of(items@)),
            Err(reason) => parsed_source(source@) == Err::<Seq<Item>, Seq<char>>(reason@),
        },
{
    let raw = match read_raw_items(source) {
        Ok(raw) => raw,
        Err(reason) => {
            return Err(reason);
        },
    };
    let mut items: Vec<SourceItem> = Vec::new();
    for i in 0..raw.len()
        invariant
            items@.len() == i,
            forall|j: int| 0 <= j < i ==> (#[trigger] items@[j])@ == raw_item(raw@[j]),
    {
        match &raw[i] {
            RawItem::Impl { of_trait, self_type, members } => {
                items.push(
                    SourceItem::Impl {
                        of_trait: *of_trait,
                        self_type: self_type.clone(),
                        members: read_members(members),
                    },
                );
            },
            RawItem::Other => {
                items.push(SourceItem::Other);
            },
        }
    }
    assert(items_of(items@) =~= raw@.map_values(|item: RawItem| raw_item(item)));
    Ok(items)
}

/// An error in extracting methods.
#[derive(Debug)]
pub enum ExtractError<S = String> {
    /// The source does not parse; `reason` is what the parser says.
    Unparsable { reason: S },
    /// Wanted methods do not exist; `names` is the list of them.
    MissingMethods { names: S },
}

pub const MISSING_METHODS: &'static str =
    "commands.toml references method(s) not found on HttpClient in rs-client's \
    client.rs (typo, or rs-client's API surface changed): ";

impl ExtractError<String> {
    pub open spec fn model(self) -> ExtractError<Seq<char>> {
        match self {
            ExtractError::Unparsable { reason } => ExtractError::Unparsable { reason: reason@ },
            ExtractError::MissingMethods { names } => {
                ExtractError::MissingMethods { names: names@ }
            },
        }
    }

    /// The error in words.
    pub fn message(&self) -> (message: String)
        ensures
            message@ == extract_error_text(self.model()),
    {
        match self {
            ExtractError::Unparsable { .. } => {
                "failed to parse rs-client's client.rs".to_string()
            },
            ExtractError::MissingMethods { names } => {
                MISSING_METHODS.to_string().concat(names.as_str())
            },
        }
    }
}

/// An extraction error in words.
pub open spec fn extract_error_text(error: ExtractError<Seq<char>>) -> Seq<char> {
    match error {
        ExtractError::Unparsable { .. } => "failed to parse rs-client's client.rs"@,
        ExtractError::MissingMethods { names } => MISSING_METHODS@ + names,
    }
}

pub open spec fn is_upper(c: char) -> bool {
    'A' <= c && c <= 'Z'
}

/// Whether a character can stand in a bare type name.
pub open spec fn in_name(c: char) -> bool {
    ('a' <= c && c <= 'z') || ('A' <= c && c <= 'Z') || ('0' <= c && c <= '9') || c == '_'
}

/// Whether a text is a bare CamelCase type name like `CustomerRequest`, with neither a
/// path nor type arguments.
pub open spec fn is_bare_name(name: Seq<char>) -> bool {
    name.len() > 0 && is_upper(name[0]) && forall|i: int|
        0 <= i < name.len() ==> in_name(#[trigger] name[i])
}

/// True for a bare CamelCase type name.
pub fn is_simple_type_name(s: &str) -> (simple: bool)
    ensures
        simple == is_bare_name(s@),
{
    let chars = chars_of(s);
    if chars.len() == 0 {
        return false;
    }
    let first: char = chars[0];
    if !('A' <= first && first <= 'Z') {
        return false;
    }
    for i in 0..chars.len()
        invariant
            chars@ == s@,
            forall|j: int| 0 <= j < i ==> in_name(#[trigger] s@[j]),
    {
        let c: char = chars[i];
        if !(('a' <= c && c <= 'z') || ('A' <= c && c <= 'Z') || ('0' <= c && c <= '9') || c
            == '_') {
            assert(!in_name(s@[i as int]));
            return false;
        }
    }
    true
}

/// What stands inside `Option<` and `>`, where a text has that form.
pub open spec fn option_inner(name: Seq<char>) -> Option<Seq<char>> {
    match text::without_prefix(name, "Option<"@) {
        Some(rest) => if rest.len() > 0 && rest.last() == '>' {
            Some(rest.drop_last())
        } else {
            None
        },
        None => None,
    }
}

fn inside_option(name: &str) -> (inner: Option<String>)
    ensures
        text::opt_text(inner) == option_inner(name@),
{
    match strip_prefix(name, "Option<") {
        Some(rest) => {
            let chars = chars_of(rest.as_str());
            if chars.len() > 0 && chars[chars.len() - 1] == '>' {
                let inner = text_of(&chars, 0, chars.len() - 1);
                assert(inner@ =~= rest@.drop_last());
                Some(inner)
            } else {
                None
            }
        },
        None => None,
    }
}

/// The kind of a parameter whose type has these tokens.
pub open spec fn type_kind(tokens: Seq<char>) -> ParamKind<Seq<char>> {
    let name = text::without_char(tokens, ' ');
    if name == "implAsRef<str>"@ {
        ParamKind::RequiredStr
    } else if name == "Option<implAsRef<str>>"@ {
        ParamKind::OptionalStr
    } else if name == "bool"@ {
        ParamKind::RequiredBool
    } else if name == "Option<bool>"@ {
        ParamKind::OptionalBool
    } else if name == "i64"@ {
        ParamKind::RequiredI64
    } else if name == "Option<i64>"@ {
        ParamKind::OptionalI64
    } else if option_inner(name) is Some {
        if is_bare_name(option_inner(name)->0) {
            ParamKind::OptionalJsonBody(option_inner(name)->0)
        } else {
            ParamKind::SkippedOptional
        }
    } else if is_bare_name(name) {
        ParamKind::JsonBody(name)
    } else {
        ParamKind::SkippedRequired
    }
}

/// Classifies a type by its tokens.
pub fn classify_type(tokens: &str) -> (kind: ParamKind)
    ensures
        kind.model() == type_kind(tokens@),
{
    let name = remove_char(tokens, ' ');
    let s = name.as_str();
    if same(s, "implAsRef<str>") {
        ParamKind::RequiredStr
    } else if same(s, "Option<implAsRef<str>>") {
        ParamKind::OptionalStr
    } else if same(s, "bool") {
        ParamKind::RequiredBool
    } else if same(s, "Option<bool>") {
        ParamKind::OptionalBool
    } else if same(s, "i64") {
        ParamKind::RequiredI64
    } else if same(s, "Option<i64>") {
        ParamKind::OptionalI64
    } else {
        match inside_option(s) {
            Some(inner) => if is_simple_type_name(inner.as_str()) {
                ParamKind::OptionalJsonBody(inner)
            } else {
                ParamKind::SkippedOptional
            },
            None => if is_simple_type_name(s) {
                ParamKind::JsonBody(name)
            } else {
                ParamKind::SkippedRequired
            },
        }
    }
}

/// Whether an input is an argument with a name of its own.
pub open spec fn is_named(input: Input) -> bool {
    input is Argument && input->name is Some
}

/// What is kept of an argument.
pub open spec fn kept_input(input: Input) -> Param {
    Param { name: input->name->0, kind: type_kind(input->argument_type) }
}

/// The parameters of a method: its named arguments, in order. The receiver is none.
pub open spec fn params_in(inputs: Seq<Input>) -> Seq<Param> {
    inputs.filter(|input: Input| is_named(input)).map_values(|input: Input| kept_input(input))
}

fn read_params(inputs: &Vec<MethodInput>) -> (params: Vec<ExtractedParam>)
    ensures
        params@.map_values(|param: ExtractedParam| param@) == params_in(
            inputs@.map_values(|input: MethodInput| input@),
        ),
{
    let ghost all = inputs@.map_values(|input: MethodInput| input@);
    let ghost view = |param: ExtractedParam| param@;
    let mut params: Vec<ExtractedParam> = Vec::new();
    proof {
        reveal(Seq::filter);
        assert(params@.map_values(view) =~= params_in(all.take(0)));
    }
    for i in 0..inputs.len()
        invariant
            all == inputs@.map_values(|input: MethodInput| input@),
            view == |param: ExtractedParam| param@,
            params@.map_values(view) == params_in(all.take(i as int)),
    {
        let ghost before = params@.map_values(view);
        proof {
            reveal(Seq::filter);
            assert(all.take(i + 1).drop_last() =~= all.take(i as int));
            assert(all.take(i + 1).last() == inputs@[i as int]@);
        }
        match &inputs[i] {
            MethodInput::Argument { name: Some(name), argument_type } => {
                let param = ExtractedParam {
                    name: name.clone(),
                    kind: classify_type(argument_type.as_str()),
                };
                params.push(param);
                assert(params@.map_values(view) =~= before.push(param@));
                assert(params_in(all.take(i + 1)) =~= before.push(param@));
            },
            _ => {
                assert(params_in(all.take(i + 1)) =~= before);
            },
        }
    }
    assert(all.take(all.len() as int) =~= all);
    params
}

/// Whether an item is an `impl HttpClient` block.
pub open spec fn is_client_impl(item: Item) -> bool {
    item is Impl && !item->of_trait && text::without_char(item->self_type, ' ') == "HttpClient"@
}

/// The last method of that name in a block.
pub open spec fn last_in_block(members: Seq<Member>, name: Seq<char>) -> Option<Method>
    decreases members.len(),
{
    if members.len() == 0 {
        None
    } else if members.last() is Method && members.last()->Method_name == name {
        Some(Method { name, params: params_in(members.last()->inputs) })
    } else {
        last_in_block(members.drop_last(), name)
    }
}

/// The method of that name on `HttpClient`: where there are several, the last one.
pub open spec fn client_method(items: Seq<Item>, name: Seq<char>) -> Option<Method>
    decreases items.len(),
{
    if items.len() == 0 {
        None
    } else if is_client_impl(items.last()) && last_in_block(items.last()->members, name) is Some {
        last_in_block(items.last()->members, name)
    } else {
        client_method(items.drop_last(), name)
    }
}

fn find_in_block(members: &Vec<ImplMember>, name: &str) -> (found: Option<ExtractedMethod>)
    ensures
        ({
            let all = members@.map_values(|member: ImplMember| member@);
            match found {
                Some(method) => last_in_block(all, name@) == Some(method@),
                None => last_in_block(all, name@) is None,
            }
        }),
{
    let ghost all = members@.map_values(|member: ImplMember| member@);
    let mut left: usize = members.len();
    assert(all.take(left as int) =~= all);
    while left > 0
        invariant
            all == members@.map_values(|member: ImplMember| member@),
            left <= members@.len(),
            last_in_block(all.take(left as int), name@) == last_in_block(all, name@),
        decreases left,
    {
        proof {
            assert(all.take(left as int).drop_last() =~= all.take(left - 1));
            assert(all.take(left as int).last() == members@[left - 1]@);
        }
        if let ImplMember::Method { name: own, inputs } = &members[left - 1] {
            if same(own.as_str(), name) {
                return Some(
                    ExtractedMethod { name: name.to_string(), params: read_params(inputs) },
                );
            }
        }
        left = left - 1;
    }
    None
}

fn find_method(items: &Vec<SourceItem>, name: &str) -> (found: Option<ExtractedMethod>)
    ensures
        match found {
            Some(method) => client_method(items_of(items@), name@) == Some(method@),
            None => client_method(items_of(items@), name@) is None,
        },
{
    let ghost all = items_of(items@);
    let mut left: usize = items.len();
    assert(all.take(left as int) =~= all);
    while left > 0
        invariant
            all == items_of(items@),
            left <= items@.len(),
            client_method(all.take(left as int), name@) == client_method(all, name@),
        decreases left,
    {
        proof {
            assert(all.take(left as int).drop_last() =~= all.take(left - 1));
            assert(all.take(left as int).last() == items@[left - 1]@);
        }
        if let SourceItem::Impl { of_trait, self_type, members } = &items[left - 1] {
            let self_name = remove_char(self_type.as_str(), ' ');
            if !*of_trait && same(self_name.as_str(), "HttpClient") {
                if let Some(method) = find_in_block(members, name) {
                    return Some(method);
                }
            }
        }
        left = left - 1;
    }
    None
}

/// The wanted methods that do not exist, in the order in which they are wanted.
pub open spec fn missing_methods(items: Seq<Item>, wanted: Seq<Seq<char>>) -> Seq<Seq<char>> {
    wanted.filter(|name: Seq<char>| client_method(items, name) is None)
}

/// The wanted methods by name.
pub open spec fn wanted_methods(items: Seq<Item>, wanted: Seq<Seq<char>>) -> Map<
    Seq<char>,
    Method,
> {
    Map::new(
        |name: Seq<char>| wanted.contains(name) && client_method(items, name) is Some,
        |name: Seq<char>| client_method(items, name)->0,
    )
}

/// What the methods of a table are.
pub open spec fn methods_of(methods: Map<Seq<char>, ExtractedMethod>) -> Map<Seq<char>, Method> {
    methods.map_values(|method: ExtractedMethod| method@)
}

/// Looks up the wanted methods in a source that was read. Any that does not exist is an
/// error: a typo in a method name must not silently drop a command.
pub fn select_methods(items: &Vec<SourceItem>, wanted: &[String]) -> (result: Result<
    Table<ExtractedMethod>,
    ExtractError,
>)
    ensures
        ({
            let all = items_of(items@);
            let names = text::texts(wanted@);
            match result {
                Ok(methods) => missing_methods(all, names).len() == 0 && methods_of(methods@)
                    == wanted_methods(all, names),
                Err(error) => missing_methods(all, names).len() > 0 && error.model()
                    == (ExtractError::MissingMethods {
                    names: text::joined(missing_methods(all, names), ", "@),
                }),
            }
        }),
{
    let ghost all = items_of(items@);
    let ghost names = text::texts(wanted@);
    let mut methods: Table<ExtractedMethod> = Table::new();
    let mut missing: Vec<String> = Vec::new();
    proof {
        reveal(Seq::filter);
        assert(text::texts(missing@) =~= missing_methods(all, names.take(0)));
        assert(methods_of(methods@) =~= wanted_methods(all, names.take(0)));
    }
    for i in 0..wanted.len()
        invariant
            all == items_of(items@),
            names == text::texts(wanted@),
            text::texts(missing@) == missing_methods(all, names.take(i as int)),
            methods_of(methods@) == wanted_methods(all, names.take(i as int)),
    {
        let ghost before = text::texts(missing@);
        let ghost earlier = methods@;
        let ghost name = names[i as int];
        proof {
            reveal(Seq::filter);
            assert(names.take(i + 1).drop_last() =~= names.take(i as int));
            assert(names.take(i + 1).last() == name);
            assert(names.take(i + 1) =~= names.take(i as int).push(name));
            text::lemma_push_contains(names.take(i as int), name);
        }
        match find_method(items, wanted[i].as_str()) {
            Some(method) => {
                methods.insert(wanted[i].clone(), method);
                assert(methods_of(methods@) =~= methods_of(earlier).insert(name, method@));
                assert(methods_of(methods@) =~= wanted_methods(all, names.take(i + 1)));
            },
            None => {
                missing.push(wanted[i].clone());
                assert(text::texts(missing@) =~= before.push(name));
                assert(methods_of(methods@) =~= wanted_methods(all, names.take(i + 1)));
            },
        }
    }
    assert(names.take(names.len() as int) =~= names);
    assert(missing@.len() == text::texts(missing@).len());
    if missing.len() > 0 {
        return Err(ExtractError::MissingMethods { names: join(&missing, ", ") });
    }
    Ok(methods)
}

/// Reads `client.rs` and pulls out the signatures of exactly the wanted methods, from
/// `impl HttpClient` blocks.
pub fn extract_methods(source: &str, wanted: &[String]) -> (result: Result<
    Table<ExtractedMethod>,
    ExtractError,
>)
    ensures
        match parsed_source(source@) {
            Err(reason) => result is Err && result->Err_0.model() == (ExtractError::Unparsable {
                reason,
            }),
            Ok(items) => {
                let names = text::texts(wanted@);
                match result {
                    Ok(methods) => missing_methods(items, names).len() == 0 && methods_of(methods@)
                        == wanted_methods(items, names),
                    Err(error) => missing_methods(items, names).len() > 0 && error.model()
                        == (ExtractError::MissingMethods {
                        names: text::joined(missing_methods(items, names), ", "@),
                    }),
                }
            },
        },
{
    match read_source(source) {
        Ok(items) => select_methods(&items, wanted),
        Err(reason) => Err(ExtractError::Unparsable { reason }),
    }
}

/// Extraction gives exactly the wanted methods: each of them, and no other.
pub proof fn exactly_the_wanted_methods(
    items: Seq<Item>,
    wanted: Seq<Seq<char>>,
    name: Seq<char>,
)
    requires
        missing_methods(items, wanted).len() == 0,
    ensures
        wanted_methods(items, wanted).contains_key(name) <==> wanted.contains(name),
{
    if wanted.contains(name) {
        lemma_none_missing(items, wanted, name);
    }
}

proof fn lemma_none_missing(items: Seq<Item>, wanted: Seq<Seq<char>>, name: Seq<char>)
    requires
        missing_methods(items, wanted).len() == 0,
        wanted.contains(name),
    ensures
        client_method(items, name) is Some,
    decreases wanted.len(),
{
    reveal(Seq::filter);
    let i = choose|i: int| 0 <= i < wanted.len() && wanted[i] == name;
    let before = wanted.drop_last();
    if i < before.len() {
        assert(before[i] == name);
        lemma_none_missing(items, before, name);
    }
}

} // verus!
