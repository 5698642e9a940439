//! What holds of the arguments that the parameters of a request give to a method.

use crate::args::{
    accepts, before_repeat, bound, field_for, field_wire, given, given_order, given_twice, left_out,
    lemma_field_for, lemma_given_is_read_once, unexpected,
};
use crate::derive::{args_field, ArgsFieldView, ArgsStructView, ParamView};
use crate::json::Tree;
use crate::text::{bare, decimal};
use vstd::prelude::*;

verus! {

/// Whether the members `j` and `k` of `m` give the same field.
pub open spec fn same_field(
    fields: Seq<ArgsFieldView>,
    m: Seq<(Seq<char>, Tree)>,
    j: int,
    k: int,
) -> bool {
    field_for(fields, m[j].0) is Some && field_for(fields, m[j].0) == field_for(fields, m[k].0)
}

/// Whether no two of the members give the same field.
pub open spec fn none_repeated(fields: Seq<ArgsFieldView>, m: Seq<(Seq<char>, Tree)>) -> bool {
    forall|j: int, k: int| 0 <= j < k < m.len() ==> !#[trigger] same_field(fields, m, j, k)
}

/// Members of which no two give the same field give no field twice.
proof fn lemma_not_twice(fields: Seq<ArgsFieldView>, m: Seq<(Seq<char>, Tree)>)
    requires
        none_repeated(fields, m),
    ensures
        given_twice(fields, m) is None,
    decreases m.len(),
{
    if m.len() > 0 {
        let before = m.drop_last();
        let n = before.len() as int;
        assert forall|j: int, k: int| 0 <= j < k < before.len() implies !#[trigger] same_field(
            fields,
            before,
            j,
            k,
        ) by {
            assert(!same_field(fields, m, j, k));
        }
        lemma_not_twice(fields, before);
        match field_for(fields, m.last().0) {
            Some(i) => {
                if given(fields, before, i) is Some {
                    let j = lemma_giver(fields, before, i);
                    assert(same_field(fields, m, j, n));
                }
            },
            None => {},
        }
    }
}

/// What is given, a member gives, and none behind it.
proof fn lemma_giver(fields: Seq<ArgsFieldView>, m: Seq<(Seq<char>, Tree)>, i: int) -> (j: int)
    requires
        given(fields, m, i) is Some,
    ensures
        0 <= j < m.len(),
        field_for(fields, m[j].0) == Some(i),
        given(fields, m, i) == Some(m[j].1),
    decreases m.len(),
{
    if field_for(fields, m.last().0) == Some(i) {
        m.len() - 1
    } else {
        let j = lemma_giver(fields, m.drop_last(), i);
        assert(m.drop_last()[j] == m[j]);
        j
    }
}

/// What a member gives is given, where no other gives the same field.
proof fn lemma_gives(fields: Seq<ArgsFieldView>, m: Seq<(Seq<char>, Tree)>, k: int, i: int)
    requires
        0 <= k < m.len(),
        field_for(fields, m[k].0) == Some(i),
        none_repeated(fields, m),
    ensures
        given(fields, m, i) == Some(m[k].1),
    decreases m.len(),
{
    let n = m.len() - 1;
    if k < n {
        let before = m.drop_last();
        assert(!same_field(fields, m, k, n));
        assert forall|a: int, b: int| 0 <= a < b < before.len() implies !#[trigger] same_field(
            fields,
            before,
            a,
            b,
        ) by {
            assert(!same_field(fields, m, a, b));
        }
        assert(before[k] == m[k]);
        lemma_gives(fields, before, k, i);
    }
}

/// Arguments are given by name: each member of an object gives its value to the argument that goes
/// by its name, wherever the member stands, unless an argument is given twice. An argument that no
/// member names has no value.
pub proof fn lemma_arguments_by_name(s: ArgsStructView, m: Seq<(Seq<char>, Tree)>)
    requires
        none_repeated(s.fields, m),
    ensures
        bound(s, Tree::Object(m)).args.len() == s.fields.len(),
        forall|k: int, i: int|
            0 <= k < m.len() && #[trigger] field_for(s.fields, m[k].0) == Some(i) ==> (
            #[trigger] bound(s, Tree::Object(m)).args[i]) == Some(m[k].1),
        forall|i: int|
            0 <= i < s.fields.len() && (forall|k: int|
                0 <= k < m.len() ==> #[trigger] field_for(s.fields, m[k].0) != Some(i)) ==> (
            #[trigger] bound(s, Tree::Object(m)).args[i]) is None,
{
    let b = bound(s, Tree::Object(m));
    lemma_not_twice(s.fields, m);
    assert forall|k: int, i: int|
        0 <= k < m.len() && #[trigger] field_for(s.fields, m[k].0) == Some(i) implies (
    #[trigger] b.args[i]) == Some(m[k].1) by {
        lemma_field_for(s.fields, m[k].0);
        lemma_gives(s.fields, m, k, i);
    }
    assert forall|i: int|
        0 <= i < s.fields.len() && (forall|k: int|
            0 <= k < m.len() ==> #[trigger] field_for(s.fields, m[k].0) != Some(i)) implies (
    #[trigger] b.args[i]) is None by {
        if given(s.fields, m, i) is Some {
            let j = lemma_giver(s.fields, m, i);
            assert(field_for(s.fields, m[j].0) == Some(i));
        }
    }
}

/// The order of the members of an object makes no difference to the arguments: objects with the
/// same members give the same.
pub proof fn lemma_order_of_members_is_free(
    s: ArgsStructView,
    m: Seq<(Seq<char>, Tree)>,
    n: Seq<(Seq<char>, Tree)>,
)
    requires
        none_repeated(s.fields, m),
        none_repeated(s.fields, n),
        forall|k: int| 0 <= k < m.len() ==> n.contains(#[trigger] m[k]),
        forall|k: int| 0 <= k < n.len() ==> m.contains(#[trigger] n[k]),
    ensures
        bound(s, Tree::Object(m)).args == bound(s, Tree::Object(n)).args,
        bound(s, Tree::Object(m)).fault == bound(s, Tree::Object(n)).fault,
{
    let a = bound(s, Tree::Object(m));
    let b = bound(s, Tree::Object(n));
    lemma_arguments_by_name(s, m);
    lemma_arguments_by_name(s, n);
    lemma_not_twice(s.fields, m);
    lemma_not_twice(s.fields, n);
    assert forall|i: int| 0 <= i < s.fields.len() implies a.args[i] == b.args[i] by {
        if given(s.fields, m, i) is Some {
            let j = lemma_giver(s.fields, m, i);
            assert(n.contains(m[j]));
            let k = choose|k: int| 0 <= k < n.len() && n[k] == m[j];
            assert(field_for(s.fields, n[k].0) == Some(i));
            assert(b.args[i] == Some(n[k].1));
        } else if given(s.fields, n, i) is Some {
            let j = lemma_giver(s.fields, n, i);
            assert(m.contains(n[j]));
            let k = choose|k: int| 0 <= k < m.len() && m[k] == n[j];
            assert(field_for(s.fields, m[k].0) == Some(i));
            assert(a.args[i] == Some(m[k].1));
        }
    }
    assert(a.args =~= b.args);
    assert forall|i: int| 0 <= i < s.fields.len() implies given(s.fields, m, i) == given(
        s.fields,
        n,
        i,
    ) by {
        assert(a.args[i] == given(s.fields, m, i));
        assert(b.args[i] == given(s.fields, n, i));
    }
    lemma_left_out_same(s.fields, m, n, 0);
}

proof fn lemma_left_out_same(
    fields: Seq<ArgsFieldView>,
    m: Seq<(Seq<char>, Tree)>,
    n: Seq<(Seq<char>, Tree)>,
    i: int,
)
    requires
        forall|i: int| 0 <= i < fields.len() ==> given(fields, m, i) == given(fields, n, i),
    ensures
        left_out(fields, m, i) == left_out(fields, n, i),
    decreases fields.len() - i,
{
    if 0 <= i < fields.len() {
        lemma_left_out_same(fields, m, n, i + 1);
    }
}

/// Nothing is wrong with an object as a whole just if each argument is given that has to be, and
/// none twice. One that is not given is named, and of several the first.
pub proof fn lemma_what_must_be_given(s: ArgsStructView, m: Seq<(Seq<char>, Tree)>)
    requires
        none_repeated(s.fields, m),
    ensures
        ({
            let b = bound(s, Tree::Object(m));
            &&& b.fault is None <==> forall|i: int|
                0 <= i < s.fields.len() ==> s.fields[i].optional || (#[trigger] b.args[i]) is Some
            &&& forall|i: int|
                0 <= i < s.fields.len() && !s.fields[i].optional && (#[trigger] b.args[i]) is None
                    && (forall|j: int|
                    0 <= j < i ==> s.fields[j].optional || (#[trigger] b.args[j]) is Some)
                    ==> b.fault == Some("missing field `"@ + field_wire(s.fields[i]) + "`"@)
        }),
{
    let b = bound(s, Tree::Object(m));
    lemma_not_twice(s.fields, m);
    lemma_left_out_first(s.fields, m, 0);
    let fields = s.fields;
    assert forall|i: int| 0 <= i < fields.len() implies #[trigger] b.args[i] == given(
        fields,
        m,
        i,
    ) by {}
    match left_out(fields, m, 0) {
        Some(k) => {
            assert(b.args[k] is None);
            assert forall|i: int|
                0 <= i < fields.len() && !fields[i].optional && (#[trigger] b.args[i]) is None && (
                forall|j: int| 0 <= j < i ==> fields[j].optional || (#[trigger] b.args[j]) is Some)
                implies i == k by {
                if k < i {
                    assert(b.args[k] is Some);
                }
                if i < k {
                    assert(given(fields, m, i) is Some);
                }
            }
        },
        None => {
            assert forall|i: int| 0 <= i < fields.len() implies fields[i].optional || (
            #[trigger] b.args[i]) is Some by {
                assert(fields[i].optional || given(fields, m, i) is Some);
            }
        },
    }
}

proof fn lemma_left_out_first(fields: Seq<ArgsFieldView>, m: Seq<(Seq<char>, Tree)>, i: int)
    requires
        0 <= i <= fields.len(),
    ensures
        match left_out(fields, m, i) {
            Some(k) => i <= k < fields.len() && !fields[k].optional && given(fields, m, k) is None
                && forall|j: int|
                i <= j < k ==> fields[j].optional || #[trigger] given(fields, m, j) is Some,
            None => forall|j: int|
                i <= j < fields.len() ==> fields[j].optional || #[trigger] given(
                    fields,
                    m,
                    j,
                ) is Some,
        },
    decreases fields.len() - i,
{
    if i < fields.len() {
        lemma_left_out_first(fields, m, i + 1);
    }
}

/// The arguments are read in the order of the members that give them.
pub proof fn lemma_read_in_the_order_of_members(s: ArgsStructView, m: Seq<(Seq<char>, Tree)>)
    requires
        none_repeated(s.fields, m),
    ensures
        forall|j: int, k: int, a: int, b: int|
            0 <= j < k < m.len() && field_for(s.fields, (#[trigger] m[j]).0) == Some(
                #[trigger] bound(s, Tree::Object(m)).order[a],
            ) && field_for(s.fields, (#[trigger] m[k]).0) == Some(
                #[trigger] bound(s, Tree::Object(m)).order[b],
            ) && 0 <= a < bound(s, Tree::Object(m)).order.len() && 0 <= b < bound(
                s,
                Tree::Object(m),
            ).order.len() ==> a < b,
        forall|i: int| #[trigger]
            bound(s, Tree::Object(m)).order.contains(i) <==> exists|k: int|
                0 <= k < m.len() && #[trigger] field_for(s.fields, m[k].0) == Some(i),
{
    let order = bound(s, Tree::Object(m)).order;
    lemma_not_twice(s.fields, m);
    lemma_order_follows(s.fields, m);
    lemma_given_is_read_once(s, Tree::Object(m));
    assert forall|i: int| #[trigger] order.contains(i) <==> exists|k: int|
        0 <= k < m.len() && #[trigger] field_for(s.fields, m[k].0) == Some(i) by {
        if order.contains(i) {
            let j = lemma_giver(s.fields, m, i);
            assert(field_for(s.fields, m[j].0) == Some(i));
        }
        if exists|k: int| 0 <= k < m.len() && #[trigger] field_for(s.fields, m[k].0) == Some(i) {
            let k = choose|k: int|
                0 <= k < m.len() && #[trigger] field_for(s.fields, m[k].0) == Some(i);
            lemma_field_for(s.fields, m[k].0);
            lemma_gives(s.fields, m, k, i);
            assert(bound(s, Tree::Object(m)).args[i] is Some);
        }
    }
}

proof fn lemma_order_follows(fields: Seq<ArgsFieldView>, m: Seq<(Seq<char>, Tree)>)
    requires
        none_repeated(fields, m),
    ensures
        forall|j: int, k: int, a: int, b: int|
            0 <= j < k < m.len() && field_for(fields, (#[trigger] m[j]).0) == Some(
                #[trigger] given_order(fields, m)[a],
            ) && field_for(fields, (#[trigger] m[k]).0) == Some(
                #[trigger] given_order(fields, m)[b],
            ) && 0 <= a < given_order(fields, m).len() && 0 <= b < given_order(fields, m).len()
                ==> a < b,
        forall|a: int|
            0 <= a < given_order(fields, m).len() ==> exists|k: int|
                0 <= k < m.len() && field_for(fields, (#[trigger] m[k]).0) == Some(
                    #[trigger] given_order(fields, m)[a],
                ),
    decreases m.len(),
{
    if m.len() > 0 {
        let before = m.drop_last();
        let n = before.len() as int;
        assert forall|j: int, k: int| 0 <= j < k < before.len() implies !#[trigger] same_field(
            fields,
            before,
            j,
            k,
        ) by {
            assert(!same_field(fields, m, j, k));
        }
        lemma_order_follows(fields, before);
        let o = given_order(fields, before);
        let all = given_order(fields, m);
        assert(m.last() == m[n]);
        assert forall|a: int| 0 <= a < all.len() implies exists|k: int|
            0 <= k < m.len() && field_for(fields, (#[trigger] m[k]).0) == Some(
                #[trigger] all[a],
            ) by {
            if a < o.len() {
                assert(all[a] == o[a]);
                let k = choose|k: int|
                    0 <= k < before.len() && field_for(fields, (#[trigger] before[k]).0) == Some(
                        o[a],
                    );
                assert(m[k] == before[k]);
            } else {
                assert(field_for(fields, m[n].0) == Some(all[a]));
            }
        }
        assert forall|j: int, k: int, a: int, b: int|
            0 <= j < k < m.len() && field_for(fields, (#[trigger] m[j]).0) == Some(
                #[trigger] all[a],
            ) && field_for(fields, (#[trigger] m[k]).0) == Some(#[trigger] all[b]) && 0 <= a
                < all.len() && 0 <= b < all.len() implies a < b by {
            assert(!same_field(fields, m, j, k));
            assert(m[j] == before[j]);
            if a >= o.len() {
                assert(same_field(fields, m, j, n));
            }
            assert(a < o.len());
            assert(all[a] == o[a]);
            if b < o.len() {
                assert(all[b] == o[b]);
                if k < n {
                    assert(m[k] == before[k]);
                } else {
                    let l = choose|l: int|
                        0 <= l < before.len() && field_for(fields, (#[trigger] before[l]).0)
                            == Some(o[b]);
                    assert(m[l] == before[l]);
                    assert(same_field(fields, m, l, n));
                }
            }
        }
    }
}

/// An argument that is given twice is the fault, whatever follows: the arguments up to there are
/// those of the members before, and the error names the argument.
pub proof fn lemma_repeated_argument(s: ArgsStructView, m: Seq<(Seq<char>, Tree)>, j: int, k: int)
    requires
        0 <= j < k < m.len(),
        none_repeated(s.fields, m.take(k)),
        same_field(s.fields, m, j, k),
    ensures
        ({
            let b = bound(s, Tree::Object(m));
            let before = bound(s, Tree::Object(m.take(k)));
            let i = field_for(s.fields, m[k].0)->0;
            &&& b.args == before.args
            &&& b.order == before.order
            &&& b.fault == Some("duplicate field `"@ + field_wire(s.fields[i]) + "`"@)
        }),
    decreases m.len(),
{
    let fields = s.fields;
    let before = m.take(k);
    let upto = m.take(k + 1);
    let i = field_for(fields, m[k].0)->0;
    lemma_not_twice(fields, before);
    assert(upto.drop_last() =~= before);
    assert(upto.last() == m[k]);
    assert(before[j] == m[j]);
    lemma_gives(fields, before, j, i);
    assert(given_twice(fields, upto) == Some(i));
    lemma_repeat_ends(fields, m, k);
    assert(bound(s, Tree::Object(m)).args =~= bound(s, Tree::Object(before)).args);
}

proof fn lemma_repeat_ends(fields: Seq<ArgsFieldView>, m: Seq<(Seq<char>, Tree)>, k: int)
    requires
        0 <= k < m.len(),
        given_twice(fields, m.take(k)) is None,
        given_twice(fields, m.take(k + 1)) is Some,
    ensures
        given_twice(fields, m) == given_twice(fields, m.take(k + 1)),
        before_repeat(fields, m) == m.take(k),
        before_repeat(fields, m.take(k)) == m.take(k),
    decreases m.len(),
{
    let before = m.drop_last();
    if k == before.len() {
        assert(m.take(k) =~= before);
        assert(m.take(k + 1) =~= m);
        assert(before_repeat(fields, before) == before);
    } else {
        assert(before.take(k) =~= m.take(k));
        assert(before.take(k + 1) =~= m.take(k + 1));
        lemma_repeat_ends(fields, before, k);
    }
}

/// A list gives the arguments in their order. It must have one item for each: where it is short or
/// long the error says how many there are, after those were read for which there is an argument.
/// What is neither a list nor an object gives nothing.
pub proof fn lemma_arguments_in_a_list(s: ArgsStructView, v: Seq<Tree>, t: Tree)
    requires
        t !is Array && t !is Object,
    ensures
        ({
            let b = bound(s, Tree::Array(v));
            let n = s.fields.len();
            &&& b.args.len() == n
            &&& forall|i: int| 0 <= i < n && i < v.len() ==> #[trigger] b.args[i] == Some(v[i])
            &&& forall|i: int| v.len() <= i < n ==> #[trigger] b.args[i] is None
            &&& b.order.len() == if v.len() < n {
                v.len()
            } else {
                n
            }
            &&& forall|i: int| 0 <= i < b.order.len() ==> #[trigger] b.order[i] == i
            &&& b.fault is None <==> v.len() == n
            &&& v.len() < n ==> b.fault == Some(
                "invalid length "@ + decimal(v.len()) + ", expected struct "@ + s.ident + (if n
                    == 1 {
                    " with 1 element"@
                } else {
                    " with "@ + decimal(n) + " elements"@
                }),
            )
            &&& v.len() > n ==> b.fault == Some(
                "invalid length "@ + decimal(v.len()) + ", expected fewer elements in array"@,
            )
        }),
        bound(s, t).fault == Some("invalid type: "@ + unexpected(t) + ", expected struct "@ + s.ident),
        bound(s, t).order.len() == 0,
        forall|i: int| 0 <= i < s.fields.len() ==> #[trigger] bound(s, t).args[i] is None,
        unexpected(Tree::Null) == "null"@,
        unexpected(Tree::Bool(true)) == "boolean `true`"@,
        unexpected(Tree::Bool(false)) == "boolean `false`"@,
{
}

/// An argument goes by its name on the wire, and by its own, and by no other. The first argument
/// that goes by a name is the one that it stands for.
pub proof fn lemma_names_of_an_argument(p: ParamView, params: Seq<ParamView>, name: Seq<char>)
    ensures
        field_wire(args_field(p)) == p.wire,
        accepts(args_field(p), name) <==> name == p.wire || name == bare(p.ident),
        ({
            let fields = params.map_values(|p: ParamView| args_field(p));
            match field_for(fields, name) {
                Some(i) => 0 <= i < params.len() && (name == params[i].wire || name == bare(
                    params[i].ident,
                )) && forall|j: int|
                    0 <= j < i ==> name != (#[trigger] params[j]).wire && name != bare(
                        params[j].ident,
                    ),
                None => forall|j: int|
                    0 <= j < params.len() ==> name != (#[trigger] params[j]).wire && name != bare(
                        params[j].ident,
                    ),
            }
        }),
{
    let fields = params.map_values(|p: ParamView| args_field(p));
    lemma_field_for(fields, name);
    assert forall|j: int| 0 <= j < params.len() implies (accepts(fields[j], name) <==> name == (
    #[trigger] params[j]).wire || name == bare(params[j].ident)) by {
        assert(fields[j] == args_field(params[j]));
    }
}

/// An identifier keeps its name without the prefix of a raw one.
pub proof fn lemma_bare_name(name: Seq<char>)
    ensures
        bare("r#"@ + name) == name,
        !(name.len() >= 2 && name[0] == 'r' && name[1] == '#') ==> bare(name) == name,
{
    reveal_strlit("r#");
    assert(bare("r#"@ + name) =~= name);
}

} // verus!
