//! What holds of what is generated for services and proxies.

use crate::derive::{
    arg_idents, args_field, args_struct, attribute_note, callable, deprecation_warning, last_named,
    list_note, malformed_note, match_arm, not_named, proxy_method, rpc_method, typed_params,
    Attribute, FnArg, Meta, MetaValue, NestedMeta, ParamView, Pat, RpcMethodView,
    Signature,
};
use crate::rename::{
    kebab_case, lower_camel_case, rename_all_of, renamed, shouty_snake_case, snake_case,
    upper_camel_case, wire_name, RenameAll,
};
use crate::service::{
    all_arms, all_proxies, all_structs, proxy_methods, proxy_name, rename_option, rpc_methods,
    service_methods, Method,
};
use crate::text::bare;
use vstd::prelude::*;

verus! {

/// The arguments of a method are those of its inputs that have a type, in their order. Each keeps its
/// name and its type, and goes by its name on the wire, which is renamed like all names are.
pub proof fn lemma_arguments_of_a_method(
    a: Seq<FnArg>,
    x: FnArg,
    rename_all: Option<RenameAll>,
)
    ensures
        typed_params(Seq::empty(), rename_all) == Seq::<ParamView>::empty(),
        x is Receiver ==> typed_params(a.push(x), rename_all) == typed_params(a, rename_all),
        x matches FnArg::Typed(Pat::Ident(ident), ty) ==> typed_params(a.push(x), rename_all)
            == typed_params(a, rename_all).push(
            ParamView {
                ident: ident@,
                ty: ty.text@,
                optional: ty.optional,
                wire: match rename_all {
                    None => bare(ident@),
                    Some(r) => renamed(r, bare(ident@)),
                },
            },
        ),
{
    assert(a.push(x).drop_last() =~= a);
}

/// A method is known by its own name, renamed if names are, and is called by its own name; it
/// returns a stream if it has the attribute `stream`, and is deprecated if it has the attribute
/// `deprecated`, with the note of the last one.
pub proof fn lemma_what_a_method_is(
    sig: Signature,
    prefix: Seq<char>,
    attrs: Seq<Attribute>,
    rename_all: Option<RenameAll>,
)
    ensures
        ({
            let m = rpc_method(sig, prefix, attrs, rename_all);
            &&& m.ident == sig.ident@
            &&& m.output == sig.output@
            &&& m.args == typed_params(sig.inputs@, rename_all)
            &&& m.name == match rename_all {
                None => sig.ident@,
                Some(r) => renamed(r, sig.ident@),
            }
            &&& m.args_struct == prefix + "_"@ + bare(sig.ident@)
            &&& m.stream <==> exists|i: int|
                0 <= i < attrs.len() && (#[trigger] attrs[i]).path@ == "stream"@
            &&& m.deprecated is Some <==> exists|i: int|
                0 <= i < attrs.len() && (#[trigger] attrs[i]).path@ == "deprecated"@
            &&& forall|i: int|
                0 <= i < attrs.len() && (#[trigger] attrs[i]).path@ == "deprecated"@ && (forall|
                    j: int,
                |
                    i < j < attrs.len() ==> (#[trigger] attrs[j]).path@ != "deprecated"@)
                    ==> m.deprecated == Some(attribute_note(attrs[i]))
        }),
{
    lemma_last_named(attrs, "stream"@);
    lemma_last_named(attrs, "deprecated"@);
}

/// The last attribute with a name is one of them and has it, and none behind it does; and none does,
/// where there is no last.
pub proof fn lemma_last_named(attrs: Seq<Attribute>, name: Seq<char>)
    ensures
        match last_named(attrs, name) {
            Some(a) => exists|i: int|
                0 <= i < attrs.len() && #[trigger] attrs[i] == a && a.path@ == name && forall|
                    j: int,
                |
                    i < j < attrs.len() ==> (#[trigger] attrs[j]).path@ != name,
            None => forall|i: int| 0 <= i < attrs.len() ==> (#[trigger] attrs[i]).path@ != name,
        },
    decreases attrs.len(),
{
    if attrs.len() > 0 {
        let before = attrs.drop_last();
        lemma_last_named(before, name);
        assert(attrs.last() == attrs[attrs.len() - 1]);
        assert(forall|i: int| 0 <= i < before.len() ==> #[trigger] attrs[i] == before[i]);
        if attrs.last().path@ != name {
            if let Some(a) = last_named(before, name) {
                let i = choose|i: int|
                    0 <= i < before.len() && #[trigger] before[i] == a && a.path@ == name && forall|
                        j: int,
                    |
                        i < j < before.len() ==> (#[trigger] before[j]).path@ != name;
                assert(attrs[i] == a);
            }
        }
    }
}

/// Of the attributes just those with the name are taken out; the others stay, in their order.
pub proof fn lemma_attributes_are_taken_out(a: Seq<Attribute>, x: Attribute, name: Seq<char>)
    ensures
        not_named(Seq::empty(), name) == Seq::<Attribute>::empty(),
        not_named(a.push(x), name) == if x.path@ == name {
            not_named(a, name)
        } else {
            not_named(a, name).push(x)
        },
{
    assert(a.push(x).drop_last() =~= a);
}

/// The note of an attribute is its value, or the value of `note` in its list, if that is a text: the
/// last of several, up to one that is no text.
pub proof fn lemma_notes(attr: Attribute, items: Seq<NestedMeta>, x: NestedMeta)
    requires
        forall|i: int| 0 <= i < items.len() ==> !malformed_note(#[trigger] items[i]),
    ensures
        attr.meta is Path ==> attribute_note(attr) is None,
        attr.meta matches Meta::NameValue(MetaValue::Text(s)) ==> attribute_note(attr) == Some(s@),
        attr.meta matches Meta::NameValue(MetaValue::Other) ==> attribute_note(attr) is None,
        attr.meta matches Meta::List(list) ==> attribute_note(attr) == list_note(list@),
        list_note(Seq::empty()) is None,
        x.name@ != "note"@ ==> list_note(items.push(x)) == list_note(items),
        x.name@ == "note"@ ==> (x.value matches Some(MetaValue::Text(s)) ==> list_note(
            items.push(x),
        ) == Some(s@)),
        x.name@ == "note"@ && !(x.value matches Some(MetaValue::Text(_))) ==> list_note(
            items.push(x),
        ) == list_note(items),
        malformed_note(x) <==> x.name@ == "note"@ && !(x.value matches Some(MetaValue::Text(_))),
{
    assert(items.push(x).drop_last() =~= items);
}

/// What follows a note that is no text does not count.
pub proof fn lemma_notes_end(items: Seq<NestedMeta>, more: Seq<NestedMeta>, k: int)
    requires
        0 <= k < items.len(),
        items[k].name@ == "note"@,
        !(items[k].value matches Some(MetaValue::Text(_))),
    ensures
        list_note(items + more) == list_note(items),
    decreases more.len(),
{
    if more.len() == 0 {
        assert(items + more =~= items);
    } else {
        let before = items + more.drop_last();
        assert((items + more).drop_last() =~= before);
        lemma_notes_end(items, more.drop_last(), k);
        assert(malformed_note(before[k]));
    }
}

/// A method can be called over JSON-RPC just if it takes `self` and no argument is a pattern.
pub proof fn lemma_which_methods_can_be_called(inputs: Seq<FnArg>)
    ensures
        callable(inputs) <==> inputs.contains(FnArg::Receiver) && forall|i: int|
            0 <= i < inputs.len() ==> !(#[trigger] inputs[i] matches FnArg::Typed(Pat::Other, _)),
{
    if callable(inputs) {
        let i = choose|i: int| 0 <= i < inputs.len() && #[trigger] inputs[i] is Receiver;
        assert(inputs[i] == FnArg::Receiver);
    }
    if inputs.contains(FnArg::Receiver) {
        let i = choose|i: int| 0 <= i < inputs.len() && inputs[i] == FnArg::Receiver;
        assert(inputs[i] is Receiver);
    }
}

/// The struct for the arguments of a method has a field for each argument, in their order; a field is
/// renamed where its name on the wire is another than its own, which it is then accepted under too.
pub proof fn lemma_struct_for_arguments(m: RpcMethodView, p: ParamView)
    ensures
        args_struct(m).ident == m.args_struct,
        args_struct(m).fields.len() == m.args.len(),
        forall|i: int|
            0 <= i < m.args.len() ==> #[trigger] args_struct(m).fields[i] == args_field(m.args[i]),
        args_field(p).ident == p.ident,
        args_field(p).ty == p.ty,
        args_field(p).optional == p.optional,
        p.wire == bare(p.ident) ==> args_field(p).rename is None && args_field(p).alias is None,
        p.wire != bare(p.ident) ==> args_field(p).rename == Some(p.wire) && args_field(p).alias
            == Some(bare(p.ident)),
{
}

/// The arm of a method calls it by its own name, with all of its arguments in their order; the
/// method of a proxy has its arguments with their types, in their order.
pub proof fn lemma_arm_and_proxy_of_a_method(m: RpcMethodView)
    ensures
        match_arm(m).name == m.name,
        match_arm(m).method == m.ident,
        match_arm(m).args_struct == m.args_struct,
        match_arm(m).stream == m.stream,
        match_arm(m).args.len() == m.args.len(),
        forall|i: int| 0 <= i < m.args.len() ==> #[trigger] match_arm(m).args[i] == m.args[i].ident,
        arg_idents(m) == match_arm(m).args,
        match m.deprecated {
            Some(note) => match_arm(m).warning == Some((m.name, note)),
            None => match_arm(m).warning is None,
        },
        deprecation_warning(m) == match_arm(m).warning,
        proxy_method(m).method == m.ident,
        proxy_method(m).name == m.name,
        proxy_method(m).output == m.output,
        proxy_method(m).args_struct == m.args_struct,
        proxy_method(m).stream == m.stream,
        proxy_method(m).args.len() == m.args.len(),
        forall|i: int|
            0 <= i < m.args.len() ==> #[trigger] proxy_method(m).args[i] == (
                m.args[i].ident,
                m.args[i].ty,
            ),
{
}

/// The case names and what they stand for; there are no others.
pub proof fn lemma_case_names(s: Seq<char>, name: Seq<char>)
    ensures
        rename_all_of("CamelCase"@) == Some(RenameAll::Camel),
        rename_all_of("kebab-case"@) == Some(RenameAll::Kebab),
        rename_all_of("mixedCase"@) == Some(RenameAll::Mixed),
        rename_all_of("camelCase"@) == Some(RenameAll::Mixed),
        rename_all_of("SHOUTY_SNAKE_CASE"@) == Some(RenameAll::ShoutySnake),
        rename_all_of("snake_case"@) == Some(RenameAll::Snake),
        rename_all_of(s) is Some ==> s == "CamelCase"@ || s == "kebab-case"@ || s == "mixedCase"@
            || s == "camelCase"@ || s == "SHOUTY_SNAKE_CASE"@ || s == "snake_case"@,
        renamed(RenameAll::Camel, name) == upper_camel_case(name),
        renamed(RenameAll::Kebab, name) == kebab_case(name),
        renamed(RenameAll::Mixed, name) == lower_camel_case(name),
        renamed(RenameAll::ShoutySnake, name) == shouty_snake_case(name),
        renamed(RenameAll::Snake, name) == snake_case(name),
        wire_name(None, name) == name,
        wire_name(Some(RenameAll::Kebab), name) == kebab_case(name),
{
    reveal_strlit("CamelCase");
    reveal_strlit("kebab-case");
    reveal_strlit("mixedCase");
    reveal_strlit("camelCase");
    reveal_strlit("SHOUTY_SNAKE_CASE");
    reveal_strlit("snake_case");
    assert("CamelCase"@[0] == 'C' && "kebab-case"@[0] == 'k' && "mixedCase"@[0] == 'm'
        && "camelCase"@[0] == 'c' && "SHOUTY_SNAKE_CASE"@[0] == 'S' && "snake_case"@[0] == 's');
}

/// The methods of a service and of a proxy are those that are given, one for one and in their order,
/// renamed as the service says and in a proxy not.
pub proof fn lemma_methods_one_for_one(
    struct_name: Seq<char>,
    trait_name: Seq<char>,
    rename_all: Option<String>,
    methods: Seq<Method>,
    i: int,
)
    requires
        0 <= i < methods.len(),
    ensures
        service_methods(struct_name, rename_all, methods).len() == methods.len(),
        service_methods(struct_name, rename_all, methods)[i] == rpc_method(
            methods[i].sig,
            "ServiceArgs_"@ + struct_name,
            methods[i].attrs@,
            match rename_all {
                Some(name) => rename_all_of(name@),
                None => None,
            },
        ),
        proxy_methods(trait_name, methods).len() == methods.len(),
        proxy_methods(trait_name, methods)[i] == rpc_method(
            methods[i].sig,
            "ProxyArgs_"@ + trait_name,
            methods[i].attrs@,
            None,
        ),
        rpc_methods(methods, struct_name, rename_option(rename_all)).len() == methods.len(),
{
}

/// A proxy has the name that it is given, or else that of its trait with `Proxy` behind it.
pub proof fn lemma_name_of_a_proxy(trait_name: Seq<char>, name: String)
    ensures
        proxy_name(trait_name, Some(name)) == name@,
        proxy_name(trait_name, None) == bare(trait_name) + "Proxy"@,
{
}

/// What is generated for methods is generated for each, in their order.
pub proof fn lemma_generated_one_for_one(methods: Seq<RpcMethodView>)
    ensures
        all_structs(methods).len() == methods.len(),
        all_arms(methods).len() == methods.len(),
        all_proxies(methods).len() == methods.len(),
        forall|i: int|
            0 <= i < methods.len() ==> #[trigger] all_structs(methods)[i] == args_struct(methods[i]),
        forall|i: int|
            0 <= i < methods.len() ==> #[trigger] all_arms(methods)[i] == match_arm(methods[i]),
        forall|i: int|
            0 <= i < methods.len() ==> #[trigger] all_proxies(methods)[i] == proxy_method(methods[i]),
{
}

} // verus!
