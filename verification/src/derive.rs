//! What is generated for the methods of a service and of its proxy.

use crate::error::{copy_text, text_view};
use crate::rename::{wire_name, RenameAll};
use crate::text::{bare, same, texts_view, unraw};
use vstd::prelude::*;

verus! {

/// The value of an attribute.
#[derive(Debug, PartialEq, Eq)]
pub enum MetaValue {
    /// A string literal.
    Text(String),
    /// Any other expression.
    Other,
}

/// An item of the list in an attribute, such as `note = "text"` or `flag`.
#[derive(Debug, PartialEq, Eq)]
pub struct NestedMeta {
    /// The name.
    pub name: String,
    /// The value, if there is one.
    pub value: Option<MetaValue>,
}

/// What an attribute holds besides its name.
#[derive(Debug, PartialEq, Eq)]
pub enum Meta {
    /// Nothing: `#[name]`.
    Path,
    /// A value: `#[name = "text"]`.
    NameValue(MetaValue),
    /// A list: `#[name(item, ..)]`.
    List(Vec<NestedMeta>),
}

/// An attribute of a method.
#[derive(Debug, PartialEq, Eq)]
pub struct Attribute {
    /// The name.
    pub path: String,
    /// What it holds besides.
    pub meta: Meta,
}

/// The pattern of an argument.
#[derive(Debug, PartialEq, Eq)]
pub enum Pat {
    /// A plain name.
    Ident(String),
    /// Any other pattern.
    Other,
}

/// The type of an argument.
#[derive(Debug, PartialEq, Eq)]
pub struct Type {
    /// The type as it is written.
    pub text: String,
    /// Whether the argument can be left out, as an `Option` can.
    pub optional: bool,
}

/// An argument of a method.
#[derive(Debug, PartialEq, Eq)]
pub enum FnArg {
    /// A form of `self`.
    Receiver,
    /// An argument with a type.
    Typed(Pat, Type),
}

/// The signature of a method.
#[derive(Debug, PartialEq, Eq)]
pub struct Signature {
    /// The name of the method.
    pub ident: String,
    /// The arguments.
    pub inputs: Vec<FnArg>,
    /// The return type as it is written, with the arrow before it.
    pub output: String,
}

/// Information extracted from a `#[deprecated]` attribute on an RPC method.
#[derive(Debug, PartialEq, Eq)]
pub struct Deprecation {
    /// The optional note (e.g. `#[deprecated = "use foo instead"]` or
    /// `#[deprecated(note = "...")]`).
    pub note: Option<String>,
}

/// Whether an item in the list of an attribute is a note without a text.
pub open spec fn malformed_note(item: NestedMeta) -> bool {
    item.name@ == "note"@ && !(item.value matches Some(MetaValue::Text(_)))
}

/// The text of a note in the list of an attribute: that of the last item `note = "text"` before the
/// first note without a text.
pub open spec fn list_note(items: Seq<NestedMeta>) -> Option<Seq<char>>
    decreases items.len(),
{
    if items.len() == 0 {
        None
    } else {
        let before = items.drop_last();
        if exists|i: int| 0 <= i < before.len() && malformed_note(#[trigger] before[i]) {
            list_note(before)
        } else {
            match (items.last().name@ == "note"@, items.last().value) {
                (true, Some(MetaValue::Text(s))) => Some(s@),
                _ => list_note(before),
            }
        }
    }
}

/// What follows a note without a text does not count.
proof fn lemma_malformed_note_ends(items: Seq<NestedMeta>, k: int)
    requires
        0 <= k < items.len(),
        malformed_note(items[k]),
    ensures
        list_note(items) == list_note(items.take(k)),
    decreases items.len(),
{
    let before = items.drop_last();
    if k == before.len() {
        assert(items.take(k) =~= before);
    } else {
        assert(malformed_note(before[k]));
        lemma_malformed_note_ends(before, k);
        assert(before.take(k) =~= items.take(k));
    }
}

/// The note of an attribute.
pub open spec fn attribute_note(attr: Attribute) -> Option<Seq<char>> {
    match attr.meta {
        Meta::NameValue(MetaValue::Text(s)) => Some(s@),
        Meta::List(items) => list_note(items@),
        _ => None,
    }
}

/// Extracts the optional `note` from the list of an attribute.
fn find_note(items: &Vec<NestedMeta>) -> (r: Option<String>)
    ensures
        text_view(r) == list_note(items@),
{
    let mut note: Option<String> = None;
    for i in 0..items.len()
        invariant
            text_view(note) == list_note(items@.take(i as int)),
            forall|j: int| 0 <= j < i ==> !malformed_note(#[trigger] items@[j]),
    {
        proof {
            let before = items@.take(i as int);
            assert(items@.take(i + 1).drop_last() =~= before);
            assert(items@.take(i + 1).last() == items@[i as int]);
            assert(forall|j: int| 0 <= j < i ==> #[trigger] before[j] == items@[j]);
        }
        if same(items[i].name.as_str(), "note") {
            match &items[i].value {
                Some(MetaValue::Text(s)) => {
                    note = Some(s.clone());
                },
                _ => {
                    proof {
                        lemma_malformed_note_ends(items@, i as int);
                    }
                    return note;
                },
            }
        }
    }
    assert(items@.take(items@.len() as int) =~= items@);
    note
}

/// Extracts the optional `note` from a `#[deprecated]` attribute in any of its supported forms:
/// `#[deprecated]`, `#[deprecated = "..."]`, or `#[deprecated(note = "...", since = "...")]`.
fn parse_deprecation(attr: &Attribute) -> (r: Deprecation)
    ensures
        text_view(r.note) == attribute_note(*attr),
{
    let note = match &attr.meta {
        Meta::NameValue(MetaValue::Text(s)) => Some(s.clone()),
        Meta::List(items) => find_note(items),
        _ => None,
    };
    Deprecation { note }
}

/// What the attributes of a method say of it.
#[derive(Debug, PartialEq, Eq)]
pub struct MethodAttributes {
    /// The `#[stream]` attribute, if there is one.
    pub stream: Option<Attribute>,
    /// What the `#[deprecated]` attribute says, if there is one.
    pub deprecated: Option<Deprecation>,
}

/// The last of the attributes that has the given name.
pub open spec fn last_named(attrs: Seq<Attribute>, name: Seq<char>) -> Option<Attribute>
    decreases attrs.len(),
{
    if attrs.len() == 0 {
        None
    } else if attrs.last().path@ == name {
        Some(attrs.last())
    } else {
        last_named(attrs.drop_last(), name)
    }
}

/// The attributes that have not the given name.
pub open spec fn not_named(attrs: Seq<Attribute>, name: Seq<char>) -> Seq<Attribute>
    decreases attrs.len(),
{
    if attrs.len() == 0 {
        Seq::empty()
    } else if attrs.last().path@ == name {
        not_named(attrs.drop_last(), name)
    } else {
        not_named(attrs.drop_last(), name).push(attrs.last())
    }
}

/// Whether `d` is what an attribute `attr` says, if there is one.
pub open spec fn deprecation_of(d: Option<Deprecation>, attr: Option<Attribute>) -> bool {
    match attr {
        Some(attr) => d matches Some(d) && text_view(d.note) == attribute_note(attr),
        None => d is None,
    }
}

impl MethodAttributes {
    /// Takes the `#[stream]` attributes out of `input`, and reads the `#[deprecated]` attribute,
    /// which stays there. Of several attributes with one name the last is read.
    pub fn parse(input: &mut Vec<Attribute>) -> (r: MethodAttributes)
        ensures
            final(input)@ == not_named(old(input)@, "stream"@),
            r.stream == last_named(old(input)@, "stream"@),
            deprecation_of(r.deprecated, last_named(old(input)@, "deprecated"@)),
    {
        proof {
            reveal_strlit("stream");
            reveal_strlit("deprecated");
            assert("stream"@.len() == 6 && "deprecated"@.len() == 10);
        }
        let ghost all = input@;
        let mut rest: Vec<Attribute> = Vec::new();
        std::mem::swap(&mut rest, input);
        let mut stream: Option<Attribute> = None;
        let mut deprecated: Option<Deprecation> = None;
        for attr in it: rest
            invariant
                it.seq() == all,
                "stream"@ != "deprecated"@,
                input@ == not_named(all.take(it.index() as int), "stream"@),
                stream == last_named(all.take(it.index() as int), "stream"@),
                deprecation_of(
                    deprecated,
                    last_named(all.take(it.index() as int), "deprecated"@),
                ),
        {
            let ghost i = it.index();
            assert(all.take(i + 1).drop_last() =~= all.take(i as int));
            assert(all.take(i + 1).last() == all[i as int]);
            if same(attr.path.as_str(), "stream") {
                stream = Some(attr);
            } else {
                if same(attr.path.as_str(), "deprecated") {
                    deprecated = Some(parse_deprecation(&attr));
                }
                input.push(attr);
            }
        }
        assert(all.take(all.len() as int) =~= all);
        MethodAttributes { stream, deprecated }
    }
}

/// An argument of an RPC method.
#[derive(Debug, PartialEq, Eq)]
pub struct Param {
    /// The name of the argument, as it is written.
    pub ident: String,
    /// The type of the argument.
    pub ty: String,
    /// Whether the argument can be left out.
    pub optional: bool,
    /// The name of the argument on the wire.
    pub wire: String,
}

/// What an argument is.
#[verifier::ext_equal]
pub struct ParamView {
    /// The name of the argument.
    pub ident: Seq<char>,
    /// The type of the argument.
    pub ty: Seq<char>,
    /// Whether the argument can be left out.
    pub optional: bool,
    /// The name of the argument on the wire.
    pub wire: Seq<char>,
}

impl View for Param {
    type V = ParamView;

    open spec fn view(&self) -> ParamView {
        ParamView {
            ident: self.ident@,
            ty: self.ty@,
            optional: self.optional,
            wire: self.wire@,
        }
    }
}

/// What a list of arguments is.
pub open spec fn params_view(params: Seq<Param>) -> Seq<ParamView> {
    params.map_values(|p: Param| p@)
}

/// Whether a method with these arguments can be an RPC method: it takes `self`, and no argument is
/// a pattern.
pub open spec fn callable(inputs: Seq<FnArg>) -> bool {
    &&& exists|i: int| 0 <= i < inputs.len() && #[trigger] inputs[i] is Receiver
    &&& forall|i: int|
        0 <= i < inputs.len() ==> (#[trigger] inputs[i] matches FnArg::Typed(pat, _)
            ==> pat is Ident)
}

/// The arguments besides `self`.
pub open spec fn typed_params(inputs: Seq<FnArg>, rename_all: Option<RenameAll>) -> Seq<ParamView>
    decreases inputs.len(),
{
    if inputs.len() == 0 {
        Seq::empty()
    } else {
        let rest = typed_params(inputs.drop_last(), rename_all);
        match inputs.last() {
            FnArg::Typed(Pat::Ident(ident), ty) => rest.push(
                ParamView {
                    ident: ident@,
                    ty: ty.text@,
                    optional: ty.optional,
                    wire: wire_name(rename_all, bare(ident@)),
                },
            ),
            _ => rest,
        }
    }
}

/// A method that can be called over JSON-RPC.
pub struct RpcMethod {
    ident: String,
    output: String,
    args: Vec<Param>,
    method_name: String,
    args_struct_ident: String,
    attrs: MethodAttributes,
}

/// What a method is that can be called over JSON-RPC.
#[verifier::ext_equal]
pub struct RpcMethodView {
    /// The name of the method, as it is written.
    pub ident: Seq<char>,
    /// The return type.
    pub output: Seq<char>,
    /// The arguments besides `self`.
    pub args: Seq<ParamView>,
    /// The name of the method on the wire.
    pub name: Seq<char>,
    /// The name of the struct that holds the arguments.
    pub args_struct: Seq<char>,
    /// Whether the method returns a stream.
    pub stream: bool,
    /// Whether the method is deprecated, and with which note.
    pub deprecated: Option<Option<Seq<char>>>,
}

/// What a deprecation says.
pub open spec fn deprecation_view(d: Option<Deprecation>) -> Option<Option<Seq<char>>> {
    match d {
        Some(d) => Some(text_view(d.note)),
        None => None,
    }
}

impl View for RpcMethod {
    type V = RpcMethodView;

    closed spec fn view(&self) -> RpcMethodView {
        RpcMethodView {
            ident: self.ident@,
            output: self.output@,
            args: params_view(self.args@),
            name: self.method_name@,
            args_struct: self.args_struct_ident@,
            stream: self.attrs.stream is Some,
            deprecated: deprecation_view(self.attrs.deprecated),
        }
    }
}

/// The RPC method with a given signature and attributes.
pub open spec fn rpc_method(
    signature: Signature,
    args_struct_prefix: Seq<char>,
    attrs: Seq<Attribute>,
    rename_all: Option<RenameAll>,
) -> RpcMethodView {
    RpcMethodView {
        ident: signature.ident@,
        output: signature.output@,
        args: typed_params(signature.inputs@, rename_all),
        name: wire_name(rename_all, signature.ident@),
        args_struct: args_struct_prefix + "_"@ + bare(signature.ident@),
        stream: last_named(attrs, "stream"@) is Some,
        deprecated: match last_named(attrs, "deprecated"@) {
            Some(attr) => Some(attribute_note(attr)),
            None => None,
        },
    }
}

/// The wire name of `name`.
fn rename(rename_all: &Option<RenameAll>, name: &str) -> (r: String)
    ensures
        r@ == wire_name(*rename_all, name@),
{
    match rename_all {
        Some(x) => x.rename(name),
        None => name.to_owned(),
    }
}

/// The field of a generated struct that holds the arguments of a method.
#[derive(Debug, PartialEq, Eq)]
pub struct ArgsField {
    /// The name of the field, as it is written.
    pub ident: String,
    /// The type of the field.
    pub ty: String,
    /// Whether the field can be left out.
    pub optional: bool,
    /// The name of the field on the wire, where it is another than that of the field.
    pub rename: Option<String>,
    /// The other name under which the field is accepted, if there is one.
    pub alias: Option<String>,
}

/// What a field is.
#[verifier::ext_equal]
pub struct ArgsFieldView {
    /// The name of the field.
    pub ident: Seq<char>,
    /// The type of the field.
    pub ty: Seq<char>,
    /// Whether the field can be left out.
    pub optional: bool,
    /// The name of the field on the wire, where it is another than that of the field.
    pub rename: Option<Seq<char>>,
    /// The other name under which the field is accepted, if there is one.
    pub alias: Option<Seq<char>>,
}

impl View for ArgsField {
    type V = ArgsFieldView;

    open spec fn view(&self) -> ArgsFieldView {
        ArgsFieldView {
            ident: self.ident@,
            ty: self.ty@,
            optional: self.optional,
            rename: text_view(self.rename),
            alias: text_view(self.alias),
        }
    }
}

/// The generated struct that holds the arguments of a method.
#[derive(Debug, PartialEq, Eq)]
pub struct ArgsStruct {
    /// The name of the struct.
    pub ident: String,
    /// The fields.
    pub fields: Vec<ArgsField>,
}

/// What a struct for arguments is.
#[verifier::ext_equal]
pub struct ArgsStructView {
    /// The name of the struct.
    pub ident: Seq<char>,
    /// The fields.
    pub fields: Seq<ArgsFieldView>,
}

impl View for ArgsStruct {
    type V = ArgsStructView;

    open spec fn view(&self) -> ArgsStructView {
        ArgsStructView {
            ident: self.ident@,
            fields: self.fields@.map_values(|f: ArgsField| f@),
        }
    }
}

/// The field for an argument. An argument that is renamed is still accepted under its own name.
pub open spec fn args_field(p: ParamView) -> ArgsFieldView {
    ArgsFieldView {
        ident: p.ident,
        ty: p.ty,
        optional: p.optional,
        rename: if p.wire == bare(p.ident) {
            None
        } else {
            Some(p.wire)
        },
        alias: if p.wire == bare(p.ident) {
            None
        } else {
            Some(bare(p.ident))
        },
    }
}

/// The struct for the arguments of a method.
pub open spec fn args_struct(m: RpcMethodView) -> ArgsStructView {
    ArgsStructView {
        ident: m.args_struct,
        fields: m.args.map_values(|p: ParamView| args_field(p)),
    }
}

/// The generated arm that calls a method by its name.
#[derive(Debug, PartialEq, Eq)]
pub struct MatchArm {
    /// The name of the method on the wire.
    pub name: String,
    /// The warning to be logged: the name of the method and the note.
    pub warning: Option<(String, Option<String>)>,
    /// The struct that holds the arguments.
    pub args_struct: String,
    /// The method to be called.
    pub method: String,
    /// The fields of the struct that are handed to the method.
    pub args: Vec<String>,
    /// Whether the method returns a stream, so that it needs a client that can be notified.
    pub stream: bool,
}

/// What an arm is.
#[verifier::ext_equal]
pub struct MatchArmView {
    /// The name of the method on the wire.
    pub name: Seq<char>,
    /// The warning to be logged: the name of the method and the note.
    pub warning: Option<(Seq<char>, Option<Seq<char>>)>,
    /// The struct that holds the arguments.
    pub args_struct: Seq<char>,
    /// The method to be called.
    pub method: Seq<char>,
    /// The fields of the struct that are handed to the method.
    pub args: Seq<Seq<char>>,
    /// Whether the method returns a stream.
    pub stream: bool,
}

/// What a warning says.
pub open spec fn warning_view(w: Option<(String, Option<String>)>) -> Option<
    (Seq<char>, Option<Seq<char>>),
> {
    match w {
        Some((name, note)) => Some((name@, text_view(note))),
        None => None,
    }
}

impl View for MatchArm {
    type V = MatchArmView;

    open spec fn view(&self) -> MatchArmView {
        MatchArmView {
            name: self.name@,
            warning: warning_view(self.warning),
            args_struct: self.args_struct@,
            method: self.method@,
            args: texts_view(self.args@),
            stream: self.stream,
        }
    }
}

/// The warning that a method is deprecated, if it is.
pub open spec fn deprecation_warning(m: RpcMethodView) -> Option<(Seq<char>, Option<Seq<char>>)> {
    match m.deprecated {
        Some(note) => Some((m.name, note)),
        None => None,
    }
}

/// The names of the arguments of a method.
pub open spec fn arg_idents(m: RpcMethodView) -> Seq<Seq<char>> {
    m.args.map_values(|p: ParamView| p.ident)
}

/// The arm that calls a method.
pub open spec fn match_arm(m: RpcMethodView) -> MatchArmView {
    MatchArmView {
        name: m.name,
        warning: deprecation_warning(m),
        args_struct: m.args_struct,
        method: m.ident,
        args: arg_idents(m),
        stream: m.stream,
    }
}

/// The generated method of a proxy.
#[derive(Debug, PartialEq, Eq)]
pub struct ProxyMethod {
    /// The name of the method.
    pub method: String,
    /// The names and types of the arguments.
    pub args: Vec<(String, String)>,
    /// The return type.
    pub output: String,
    /// The struct that holds the arguments.
    pub args_struct: String,
    /// The name of the method on the wire.
    pub name: String,
    /// Whether the return value is the ID of a stream to which the client connects.
    pub stream: bool,
}

/// What the method of a proxy is.
#[verifier::ext_equal]
pub struct ProxyMethodView {
    /// The name of the method.
    pub method: Seq<char>,
    /// The names and types of the arguments.
    pub args: Seq<(Seq<char>, Seq<char>)>,
    /// The return type.
    pub output: Seq<char>,
    /// The struct that holds the arguments.
    pub args_struct: Seq<char>,
    /// The name of the method on the wire.
    pub name: Seq<char>,
    /// Whether the return value is the ID of a stream to which the client connects.
    pub stream: bool,
}

impl View for ProxyMethod {
    type V = ProxyMethodView;

    open spec fn view(&self) -> ProxyMethodView {
        ProxyMethodView {
            method: self.method@,
            args: self.args@.map_values(|a: (String, String)| (a.0@, a.1@)),
            output: self.output@,
            args_struct: self.args_struct@,
            name: self.name@,
            stream: self.stream,
        }
    }
}

/// The method of a proxy.
pub open spec fn proxy_method(m: RpcMethodView) -> ProxyMethodView {
    ProxyMethodView {
        method: m.ident,
        args: m.args.map_values(|p: ParamView| (p.ident, p.ty)),
        output: m.output,
        args_struct: m.args_struct,
        name: m.name,
        stream: m.stream,
    }
}

impl Param {
    /// The field for the argument. An argument that is renamed is still accepted under its own
    /// name.
    pub fn args_field(&self) -> (r: ArgsField)
        ensures
            r@ == args_field(self@),
    {
        let plain = same(self.wire.as_str(), unraw(self.ident.as_str()));
        ArgsField {
            ident: self.ident.clone(),
            ty: self.ty.clone(),
            optional: self.optional,
            rename: if plain {
                None
            } else {
                Some(self.wire.clone())
            },
            alias: if plain {
                None
            } else {
                Some(unraw(self.ident.as_str()).to_owned())
            },
        }
    }
}

impl RpcMethod {
    /// Reads a method from its signature and its attributes, of which `#[stream]` is taken out.
    pub fn new(
        signature: &Signature,
        args_struct_prefix: &str,
        attrs: &mut Vec<Attribute>,
        rename_all: &Option<RenameAll>,
    ) -> (r: Self)
        requires
            callable(signature.inputs@),
        ensures
            r@ == rpc_method(*signature, args_struct_prefix@, old(attrs)@, *rename_all),
            final(attrs)@ == not_named(old(attrs)@, "stream"@),
    {
        let mut args: Vec<Param> = Vec::new();
        let inputs = &signature.inputs;
        for i in 0..inputs.len()
            invariant
                callable(inputs@),
                params_view(args@) == typed_params(inputs@.take(i as int), *rename_all),
        {
            assert(inputs@.take(i + 1).drop_last() =~= inputs@.take(i as int));
            assert(inputs@.take(i + 1).last() == inputs@[i as int]);
            let ghost before = args@;
            if let FnArg::Typed(Pat::Ident(ident), ty) = &inputs[i] {
                let param = Param {
                    ident: ident.clone(),
                    ty: ty.text.clone(),
                    optional: ty.optional,
                    wire: rename(rename_all, unraw(ident.as_str())),
                };
                args.push(param);
                assert(params_view(args@) =~= params_view(before).push(param@));
            }
        }
        assert(inputs@.take(inputs@.len() as int) =~= inputs@);
        let attrs = MethodAttributes::parse(attrs);
        let mut args_struct_ident = args_struct_prefix.to_owned();
        args_struct_ident.append("_");
        args_struct_ident.append(unraw(signature.ident.as_str()));
        RpcMethod {
            ident: signature.ident.clone(),
            output: signature.output.clone(),
            args,
            method_name: rename(rename_all, signature.ident.as_str()),
            args_struct_ident,
            attrs,
        }
    }

    /// The name of the method on the wire.
    pub fn method_name(&self) -> (r: &String)
        ensures
            r@ == self@.name,
    {
        &self.method_name
    }

    /// The struct that holds the arguments.
    pub fn generate_args_struct(&self) -> (r: ArgsStruct)
        ensures
            r@ == args_struct(self@),
    {
        let mut fields: Vec<ArgsField> = Vec::new();
        for i in 0..self.args.len()
            invariant
                fields@.len() == i,
                forall|j: int|
                    0 <= j < i ==> (#[trigger] fields@[j])@ == args_field(self.args@[j]@),
        {
            fields.push(self.args[i].args_field());
        }
        let r = ArgsStruct { ident: self.args_struct_ident.clone(), fields };
        assert(r@.fields =~= args_struct(self@).fields);
        r
    }

    /// Returns `true` if this method is marked with `#[deprecated]`.
    pub fn is_deprecated(&self) -> (r: bool)
        ensures
            r == (self@.deprecated is Some),
    {
        self.attrs.deprecated.is_some()
    }

    /// The warning to be logged when a deprecated method is dispatched. There is none for methods
    /// that aren't deprecated.
    pub fn generate_deprecation_warning(&self) -> (r: Option<(String, Option<String>)>)
        ensures
            warning_view(r) == deprecation_warning(self@),
    {
        match &self.attrs.deprecated {
            Some(deprecation) => Some((self.method_name.clone(), copy_text(&deprecation.note))),
            None => None,
        }
    }

    /// The arm that calls the method by its name.
    pub fn generate_dispatcher_match_arm(&self) -> (r: MatchArm)
        ensures
            r@ == match_arm(self@),
    {
        let mut args: Vec<String> = Vec::new();
        for i in 0..self.args.len()
            invariant
                args@.len() == i,
                forall|j: int| 0 <= j < i ==> (#[trigger] args@[j])@ == self.args@[j]@.ident,
        {
            args.push(self.args[i].ident.clone());
        }
        let r = MatchArm {
            name: self.method_name.clone(),
            warning: self.generate_deprecation_warning(),
            args_struct: self.args_struct_ident.clone(),
            method: self.ident.clone(),
            args,
            stream: self.attrs.stream.is_some(),
        };
        assert(r@.args =~= match_arm(self@).args);
        r
    }

    /// The name by which the method is matched.
    pub fn generate_dispatcher_method_matcher(&self) -> (r: String)
        ensures
            r@ == self@.name,
    {
        self.method_name.clone()
    }

    /// The method of a proxy that calls this method.
    pub fn generate_proxy_method(&self) -> (r: ProxyMethod)
        ensures
            r@ == proxy_method(self@),
    {
        let mut args: Vec<(String, String)> = Vec::new();
        for i in 0..self.args.len()
            invariant
                args@.len() == i,
                forall|j: int|
                    0 <= j < i ==> (#[trigger] args@[j]).0@ == self.args@[j]@.ident && args@[j].1@
                        == self.args@[j]@.ty,
        {
            args.push((self.args[i].ident.clone(), self.args[i].ty.clone()));
        }
        let r = ProxyMethod {
            method: self.ident.clone(),
            args,
            output: self.output.clone(),
            args_struct: self.args_struct_ident.clone(),
            name: self.method_name.clone(),
            stream: self.attrs.stream.is_some(),
        };
        assert(r@.args =~= proxy_method(self@).args);
        r
    }
}

} // verus!
