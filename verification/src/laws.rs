//! The general laws of the assignability relation, stated once for all inputs
//! and proved from the definitions in [`crate::types`] and [`crate::graph`].

use vstd::prelude::*;

use crate::graph::graph_wf;
use crate::graph::lemma_supers_reach_witness;
use crate::graph::lemma_trait_reaches_trans;
use crate::graph::lemma_trait_reaches_upper;
use crate::types::Function;
use crate::types::Primitive;
use crate::types::Type;
use crate::types::assignable;
use crate::types::lemma_args_size_elem;
use crate::types::lemma_params_assignable_pointwise;
use crate::types::size;

verus! {

/// Reflexivity: every type is assignable to itself.
pub proof fn lemma_assignable_reflexive(g: Seq<Seq<usize>>, t: Type)
    ensures
        assignable(g, t, t),
    decreases size(t),
{
    match t {
        Type::Primitive(_) => {},
        Type::Trait(_) => {},
        Type::Function(f) => {
            lemma_assignable_reflexive(g, *f.return_type);
            assert forall|k: int| 0 <= k < f.args@.len() implies #[trigger] assignable(
                g,
                f.args@[k].arg_type,
                f.args@[k].arg_type,
            ) by {
                lemma_args_size_elem(f.args@, k);
                lemma_assignable_reflexive(g, f.args@[k].arg_type);
            }
            lemma_params_assignable_pointwise(g, f.args@, f.args@);
        },
    }
}

/// Primitive exactness: one primitive is assignable to another iff the two
/// are exactly equal (same variant, same width). No widening, no narrowing.
pub proof fn lemma_primitive_exact(g: Seq<Seq<usize>>, p: Primitive, q: Primitive)
    ensures
        assignable(g, Type::Primitive(p), Type::Primitive(q)) <==> p == q,
{
}

/// Trait transitivity: a trait assignable to a second trait, itself
/// assignable to a third, is assignable to the third. Together with
/// [`lemma_supertrait_assignable`] this makes every trait assignable to the
/// union of its supertraits' ancestors.
pub proof fn lemma_trait_assignable_transitive(g: Seq<Seq<usize>>, a: usize, b: usize, c: usize)
    requires
        assignable(g, Type::Trait(a), Type::Trait(b)),
        assignable(g, Type::Trait(b), Type::Trait(c)),
    ensures
        assignable(g, Type::Trait(a), Type::Trait(c)),
{
    lemma_trait_reaches_trans(g, a as int, b as int, c as int);
}

/// Trait assignability is not symmetric: two traits assignable to each other
/// are the same node, so a proper ancestor is never assignable back to a
/// descendant.
pub proof fn lemma_trait_assignable_antisymmetric(g: Seq<Seq<usize>>, a: usize, b: usize)
    requires
        assignable(g, Type::Trait(a), Type::Trait(b)),
        assignable(g, Type::Trait(b), Type::Trait(a)),
    ensures
        a == b,
{
    lemma_trait_reaches_upper(g, a as int, b as int);
    lemma_trait_reaches_upper(g, b as int, a as int);
}

/// A trait is assignable to each of its direct supertraits, however many it
/// declares; with [`lemma_trait_assignable_transitive`] it is assignable to
/// every ancestor reachable through any of them.
pub proof fn lemma_supertrait_assignable(g: Seq<Seq<usize>>, i: usize, k: int)
    requires
        graph_wf(g),
        (i as int) < g.len(),
        0 <= k < g[i as int].len(),
    ensures
        assignable(g, Type::Trait(i), Type::Trait(g[i as int][k])),
{
    let j = g[i as int][k] as int;
    lemma_supers_reach_witness(g, g[i as int], i as int, j, k);
}

/// Function variance, characterized: one function signature is assignable to
/// another iff the arities match exactly, the return types relate covariantly
/// (the candidate may promise a more specific return), and every parameter
/// pair relates contravariantly (the target's parameter type must be
/// assignable into the candidate's). Parameter names play no part.
pub proof fn lemma_function_variance(g: Seq<Seq<usize>>, f: Function, h: Function)
    ensures
        assignable(g, Type::Function(f), Type::Function(h)) <==> {
            &&& f.args@.len() == h.args@.len()
            &&& assignable(g, *f.return_type, *h.return_type)
            &&& forall|k: int|
                0 <= k < f.args@.len() ==> #[trigger] assignable(
                    g,
                    h.args@[k].arg_type,
                    f.args@[k].arg_type,
                )
        },
{
    if f.args@.len() == h.args@.len() {
        lemma_params_assignable_pointwise(g, f.args@, h.args@);
    }
}

/// Arity mismatch: two function signatures with different parameter counts
/// are mutually non-assignable, whatever their component types.
pub proof fn lemma_function_arity_mismatch(g: Seq<Seq<usize>>, f: Function, h: Function)
    requires
        f.args@.len() != h.args@.len(),
    ensures
        !assignable(g, Type::Function(f), Type::Function(h)),
        !assignable(g, Type::Function(h), Type::Function(f)),
{
}

} // verus!
