//! What is read of the methods of the API client.
use crate::extract;
use crate::extract::{Input, Item, Member, Method, Param, ParamKind};
use crate::text;
use vstd::prelude::*;

verus! {

/// A text without its spaces.
pub open spec fn spaceless(all: Seq<char>) -> Seq<char>
    decreases all.len(),
{
    if all.len() == 0 {
        all
    } else if all.last() == ' ' {
        spaceless(all.drop_last())
    } else {
        spaceless(all.drop_last()).push(all.last())
    }
}

proof fn lemma_spaceless(all: Seq<char>)
    ensures
        text::without_char(all, ' ') == spaceless(all),
    decreases all.len(),
{
    reveal(Seq::filter);
    if all.len() > 0 {
        lemma_spaceless(all.drop_last());
    } else {
        assert(text::without_char(all, ' ') =~= spaceless(all));
    }
}

/// Whether a text is the name of a request type: it starts with a capital letter, and has
/// nothing but letters, digits and underscores.
pub open spec fn names_a_type(name: Seq<char>) -> bool {
    &&& name.len() > 0
    &&& 'A' <= name[0] <= 'Z'
    &&& forall|i: int|
        0 <= i < name.len() ==> {
            let c = #[trigger] name[i];
            'a' <= c <= 'z' || 'A' <= c <= 'Z' || '0' <= c <= '9' || c == '_'
        }
}

/// Whether a type is an optional one.
pub open spec fn is_optional(shown: Seq<char>, inner: Seq<char>) -> bool {
    shown == "Option<"@ + inner + ">"@
}

/// Whether a type is one of the three that have an optional scalar kind.
pub open spec fn is_optional_scalar(shown: Seq<char>) -> bool {
    shown == "Option<implAsRef<str>>"@ || shown == "Option<bool>"@ || shown == "Option<i64>"@
}

/// Whether a type is one of the three that have a required scalar kind.
pub open spec fn is_required_scalar(shown: Seq<char>) -> bool {
    shown == "implAsRef<str>"@ || shown == "bool"@ || shown == "i64"@
}

/// Whether a kind is the one of a type: texts, truth values and whole numbers, required or
/// optional; a request type, which is a JSON body; and nothing else has a flag.
pub open spec fn is_kind_of(shown: Seq<char>, kind: ParamKind<Seq<char>>) -> bool {
    match kind {
        ParamKind::RequiredStr => shown == "implAsRef<str>"@,
        ParamKind::OptionalStr => shown == "Option<implAsRef<str>>"@,
        ParamKind::RequiredBool => shown == "bool"@,
        ParamKind::OptionalBool => shown == "Option<bool>"@,
        ParamKind::RequiredI64 => shown == "i64"@,
        ParamKind::OptionalI64 => shown == "Option<i64>"@,
        ParamKind::JsonBody(name) => shown == name && names_a_type(name) && !is_required_scalar(
            shown,
        ) && !is_optional_scalar(shown),
        ParamKind::OptionalJsonBody(name) => is_optional(shown, name) && names_a_type(name)
            && !is_optional_scalar(shown),
        ParamKind::SkippedOptional => !is_optional_scalar(shown) && exists|inner: Seq<char>|
            #[trigger] is_optional(shown, inner) && !names_a_type(inner),
        ParamKind::SkippedRequired => !is_required_scalar(shown) && !names_a_type(shown)
            && forall|inner: Seq<char>| !(#[trigger] is_optional(shown, inner)),
    }
}

proof fn lemma_option_inner(shown: Seq<char>, inner: Seq<char>)
    ensures
        extract::option_inner(shown) == Some(inner) <==> is_optional(shown, inner),
{
    let start = "Option<"@;
    reveal_strlit(">");
    assert(">"@ =~= seq!['>']);
    if is_optional(shown, inner) {
        assert(shown =~= start + inner.push('>'));
        assert(shown.skip(start.len() as int) =~= inner.push('>'));
        assert(start.is_prefix_of(shown));
        assert(inner.push('>').drop_last() =~= inner);
    }
    if extract::option_inner(shown) == Some(inner) {
        let rest = text::without_prefix(shown, start)->0;
        assert(shown =~= start + rest);
        assert(rest =~= inner.push('>'));
        assert(shown =~= start + inner + ">"@);
    }
}

/// A type has the kind that it says, however it is spaced.
pub proof fn a_type_has_its_kind(tokens: Seq<char>)
    ensures
        is_kind_of(spaceless(tokens), extract::type_kind(tokens)),
{
    lemma_spaceless(tokens);
    let shown = spaceless(tokens);
    assert forall|inner: Seq<char>| #[trigger]
        is_optional(shown, inner) <==> extract::option_inner(shown) == Some(inner) by {
        lemma_option_inner(shown, inner);
    }
    if extract::option_inner(shown) is Some {
        assert(is_optional(shown, extract::option_inner(shown)->0));
    }
    assert forall|name: Seq<char>| #[trigger]
        extract::is_bare_name(name) == names_a_type(name) by {
        if extract::is_bare_name(name) {
            assert forall|i: int| 0 <= i < name.len() implies {
                let c = #[trigger] name[i];
                'a' <= c <= 'z' || 'A' <= c <= 'Z' || '0' <= c <= '9' || c == '_'
            } by {
                assert(extract::in_name(name[i]));
            }
        }
    }
    assert(extract::is_bare_name(shown) == names_a_type(shown));
    if extract::option_inner(shown) is Some {
        let inner = extract::option_inner(shown)->0;
        assert(extract::is_bare_name(inner) == names_a_type(inner));
    }
}

/// Whether an item is a block of the client's own methods.
pub open spec fn is_own_block(item: Item) -> bool {
    item is Impl && !item->of_trait && spaceless(item->self_type) == "HttpClient"@
}

/// Whether a member is a method of that name.
pub open spec fn is_method(member: Member, name: Seq<char>) -> bool {
    member is Method && member->Method_name == name
}

/// Whether a method of that name stands at a place in the client's own blocks.
pub open spec fn stands_in(items: Seq<Item>, name: Seq<char>, i: int, j: int) -> bool {
    &&& 0 <= i < items.len()
    &&& is_own_block(items[i])
    &&& 0 <= j < items[i]->members.len()
    &&& is_method(items[i]->members[j], name)
}

/// Whether parameters are the named arguments of a method, in their order, each with the
/// kind of its type.
pub open spec fn are_arguments(inputs: Seq<Input>, params: Seq<Param>) -> bool {
    let named = inputs.filter(|input: Input| input is Argument && input->name is Some);
    &&& params.len() == named.len()
    &&& forall|k: int|
        0 <= k < params.len() ==> (#[trigger] params[k]).name == named[k]->name->0 && is_kind_of(
            spaceless(named[k]->argument_type),
            params[k].kind,
        )
}

proof fn lemma_arguments(inputs: Seq<Input>)
    ensures
        are_arguments(inputs, extract::params_in(inputs)),
    decreases inputs.len(),
{
    reveal(Seq::filter);
    let wanted = |input: Input| input is Argument && input->name is Some;
    let kept = |input: Input| extract::is_named(input);
    let named = inputs.filter(wanted);
    let params = extract::params_in(inputs);
    if inputs.len() > 0 {
        let before = inputs.drop_last();
        let last = inputs.last();
        lemma_arguments(before);
        assert(kept(last) == wanted(last));
        if wanted(last) {
            assert(params =~= extract::params_in(before).push(extract::kept_input(last)));
            assert(named =~= before.filter(wanted).push(last));
            a_type_has_its_kind(last->argument_type);
        } else {
            assert(params =~= extract::params_in(before));
            assert(named =~= before.filter(wanted));
        }
    }
}

proof fn lemma_last_in_block(members: Seq<Member>, name: Seq<char>)
    ensures
        match extract::last_in_block(members, name) {
            Some(method) => method.name == name && exists|j: int|
                0 <= j < members.len() && is_method(#[trigger] members[j], name) && are_arguments(
                    members[j]->inputs,
                    method.params,
                ) && forall|k: int|
                    j < k < members.len() ==> !is_method(#[trigger] members[k], name),
            None => forall|k: int|
                0 <= k < members.len() ==> !is_method(#[trigger] members[k], name),
        },
    decreases members.len(),
{
    if members.len() > 0 {
        let before = members.drop_last();
        let last = members.len() - 1;
        lemma_last_in_block(before, name);
        if is_method(members[last], name) {
            lemma_arguments(members.last()->inputs);
        } else {
            match extract::last_in_block(before, name) {
                Some(method) => {
                    let j = choose|j: int|
                        0 <= j < before.len() && is_method(#[trigger] before[j], name)
                            && are_arguments(before[j]->inputs, method.params) && forall|k: int|
                            j < k < before.len() ==> !is_method(#[trigger] before[k], name);
                    assert(is_method(members[j], name));
                    assert forall|k: int| j < k < members.len() implies !is_method(
                        #[trigger] members[k],
                        name,
                    ) by {
                        if k < last {
                            assert(before[k] == members[k]);
                        }
                    }
                },
                None => {
                    assert forall|k: int| 0 <= k < members.len() implies !is_method(
                        #[trigger] members[k],
                        name,
                    ) by {
                        if k < last {
                            assert(before[k] == members[k]);
                        }
                    }
                },
            }
        }
    }
}

/// A method is found exactly where the client has it in a block of its own methods, and not
/// where it only has it through a trait. Its parameters are its named arguments, each with
/// the kind of its type; where the name repeats, those of the last one.
pub proof fn a_method_is_read_where_it_stands(items: Seq<Item>, name: Seq<char>)
    ensures
        match extract::client_method(items, name) {
            Some(method) => method.name == name && exists|i: int, j: int| #[trigger]
                stands_in(items, name, i, j) && are_arguments(
                    items[i]->members[j]->inputs,
                    method.params,
                ) && forall|k: int, l: int| #[trigger]
                    stands_in(items, name, k, l) ==> k < i || (k == i && l <= j),
            None => forall|i: int, j: int| !(#[trigger] stands_in(items, name, i, j)),
        },
    decreases items.len(),
{
    if items.len() > 0 {
        let before = items.drop_last();
        let last = items.len() - 1;
        a_method_is_read_where_it_stands(before, name);
        assert forall|i: int, j: int| i < last implies #[trigger] stands_in(items, name, i, j)
            == stands_in(before, name, i, j) by {
            if 0 <= i < last {
                assert(before[i] == items[i]);
            }
        }
        if items.last() is Impl {
            lemma_spaceless(items.last()->self_type);
        }
        if is_own_block(items.last()) {
            let members = items.last()->members;
            lemma_last_in_block(members, name);
            match extract::last_in_block(members, name) {
                Some(method) => {
                    let j = choose|j: int|
                        0 <= j < members.len() && is_method(#[trigger] members[j], name)
                            && are_arguments(members[j]->inputs, method.params) && forall|k: int|
                            j < k < members.len() ==> !is_method(#[trigger] members[k], name);
                    assert(stands_in(items, name, last, j));
                    assert forall|k: int, l: int| #[trigger]
                        stands_in(items, name, k, l) implies k < last || (k == last && l <= j) by {
                        if k == last && l > j {
                            assert(!is_method(members[l], name));
                        }
                    }
                },
                None => {
                    assert forall|j: int| !(#[trigger] stands_in(items, name, last, j)) by {
                        if 0 <= j < members.len() {
                            assert(!is_method(members[j], name));
                        }
                    }
                    lemma_found_before(items, name);
                },
            }
        } else {
            assert forall|j: int| !(#[trigger] stands_in(items, name, last, j)) by {}
            lemma_found_before(items, name);
        }
    }
}

proof fn lemma_found_before(items: Seq<Item>, name: Seq<char>)
    requires
        items.len() > 0,
        forall|j: int| !(#[trigger] stands_in(items, name, items.len() - 1, j)),
        forall|i: int, j: int|
            i < items.len() - 1 ==> #[trigger] stands_in(items, name, i, j) == stands_in(
                items.drop_last(),
                name,
                i,
                j,
            ),
        match extract::client_method(items.drop_last(), name) {
            Some(method) => method.name == name && exists|i: int, j: int| #[trigger]
                stands_in(items.drop_last(), name, i, j) && are_arguments(
                    items.drop_last()[i]->members[j]->inputs,
                    method.params,
                ) && forall|k: int, l: int| #[trigger]
                    stands_in(items.drop_last(), name, k, l) ==> k < i || (k == i && l <= j),
            None => forall|i: int, j: int|
                !(#[trigger] stands_in(items.drop_last(), name, i, j)),
        },
    ensures
        match extract::client_method(items.drop_last(), name) {
            Some(method) => method.name == name && exists|i: int, j: int| #[trigger]
                stands_in(items, name, i, j) && are_arguments(
                    items[i]->members[j]->inputs,
                    method.params,
                ) && forall|k: int, l: int| #[trigger]
                    stands_in(items, name, k, l) ==> k < i || (k == i && l <= j),
            None => forall|i: int, j: int| !(#[trigger] stands_in(items, name, i, j)),
        },
{
    let before = items.drop_last();
    let last = items.len() - 1;
    match extract::client_method(before, name) {
        Some(method) => {
            let (i, j) = choose|i: int, j: int| #[trigger]
                stands_in(before, name, i, j) && are_arguments(
                    before[i]->members[j]->inputs,
                    method.params,
                ) && forall|k: int, l: int| #[trigger]
                    stands_in(before, name, k, l) ==> k < i || (k == i && l <= j);
            assert(stands_in(items, name, i, j));
            assert(items[i] == before[i]);
            assert forall|k: int, l: int| #[trigger] stands_in(items, name, k, l) implies k < i || (
            k == i && l <= j) by {
                if k < last {
                    assert(stands_in(before, name, k, l));
                } else {
                    assert(!stands_in(items, name, last, l));
                }
            }
        },
        None => {
            assert forall|i: int, j: int| !(#[trigger] stands_in(items, name, i, j)) by {
                if i < last {
                    assert(!stands_in(before, name, i, j));
                } else if i == last {
                    assert(!stands_in(items, name, last, j));
                }
            }
        },
    }
}

/// The methods that are missing are exactly the wanted ones that the client does not have;
/// the others are all there, each as the client has it.
pub proof fn wanted_methods_are_found_or_missing(
    items: Seq<Item>,
    wanted: Seq<Seq<char>>,
    name: Seq<char>,
)
    ensures
        extract::missing_methods(items, wanted).contains(name) <==> wanted.contains(name)
            && extract::client_method(items, name) is None,
        extract::wanted_methods(items, wanted).contains_key(name) <==> wanted.contains(name)
            && extract::client_method(items, name) is Some,
        extract::wanted_methods(items, wanted).contains_key(name) ==> Some(
            extract::wanted_methods(items, wanted)[name],
        ) == extract::client_method(items, name),
    decreases wanted.len(),
{
    reveal(Seq::filter);
    if wanted.len() > 0 {
        let before = wanted.drop_last();
        let last = wanted.last();
        wanted_methods_are_found_or_missing(items, before, name);
        text::lemma_push_contains(before, last);
        assert(before.push(last) =~= wanted);
        let missing = extract::missing_methods(items, before);
        text::lemma_push_contains(missing, last);
        if extract::client_method(items, last) is None {
            assert(extract::missing_methods(items, wanted) =~= missing.push(last));
        } else {
            assert(extract::missing_methods(items, wanted) =~= missing);
        }
    }
}

} // verus!
