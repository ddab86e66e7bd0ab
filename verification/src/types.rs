//! The type representations and the assignability relation over them.
//!
//! Three shapes exist: primitive scalars (nominal, value-equality based),
//! trait references (nominal, identity is an arena index, see
//! [`crate::graph`]), and function signatures (structural, compared by shape
//! with contravariant parameters and a covariant return).
//!
//! A query `a.is_assignable_to(b, g)` follows a two-phase protocol: `b` is
//! first offered the chance to claim the relation through the
//! [`Type::is_supertype_of`] hook; only when it declines does `a` narrow `b`
//! to its own representation and apply its representation-specific rule. A
//! failed narrowing is not an error but the ordinary "representation
//! mismatch, no relation" outcome.

use vstd::prelude::*;

use crate::graph::TraitGraph;
use crate::graph::trait_reaches;

verus! {

/// A primitive scalar type: nominal and value-equality based. Integer
/// variants carry their bit width; no widening or narrowing relation exists
/// between distinct widths.
#[derive(Clone, Copy, Debug, PartialEq, Eq, Structural)]
pub enum Primitive {
    Void,
    Boolean,
    Int(usize),
    UInt(usize),
}

/// One parameter of a function signature: a name and a type. The name is
/// carried for documentation only; the assignability relation is purely
/// positional and never reads it.
pub struct FunctionArgument {
    pub name: String,
    pub arg_type: Type,
}

/// A structural function signature: an ordered parameter list and a return
/// type. Two function types are compared by shape, never by construction
/// identity.
pub struct Function {
    pub args: Vec<FunctionArgument>,
    pub return_type: Box<Type>,
}

/// A type representation: the closed sum of the shapes this library knows.
/// A trait is carried as its node index in the owning [`TraitGraph`].
pub enum Type {
    Primitive(Primitive),
    Trait(usize),
    Function(Function),
}

/// The structural size of a type term: the termination measure for the
/// assignability recursion, which descends into function components.
pub open spec fn size(t: Type) -> nat
    decreases t,
{
    match t {
        Type::Primitive(_) => 1,
        Type::Trait(_) => 1,
        Type::Function(f) => 1 + size(*f.return_type) + args_size(f.args@),
    }
}

/// The summed size of a parameter list.
pub open spec fn args_size(s: Seq<FunctionArgument>) -> nat
    decreases s,
{
    if s.len() == 0 {
        0
    } else {
        size(s[0].arg_type) + args_size(s.subrange(1, s.len() as int))
    }
}

/// Every type term has positive size.
pub proof fn lemma_size_pos(t: Type)
    ensures
        1 <= size(t),
{
    match t {
        Type::Primitive(_) => {},
        Type::Trait(_) => {},
        Type::Function(_) => {},
    }
}

/// Each parameter's type is no larger than the whole parameter list.
pub proof fn lemma_args_size_elem(s: Seq<FunctionArgument>, k: int)
    requires
        0 <= k < s.len(),
    ensures
        size(s[k].arg_type) <= args_size(s),
    decreases k,
{
    if k > 0 {
        let tail = s.subrange(1, s.len() as int);
        lemma_args_size_elem(tail, k - 1);
        assert(tail[k - 1] == s[k]);
    }
}

/// Well-formedness of a type term against a trait-graph model: every trait
/// reference it contains names a registered node.
pub open spec fn type_wf(g: Seq<Seq<usize>>, t: Type) -> bool
    decreases t,
{
    match t {
        Type::Primitive(_) => true,
        Type::Trait(i) => (i as int) < g.len(),
        Type::Function(f) => {
            &&& type_wf(g, *f.return_type)
            &&& forall|k: int|
                0 <= k < f.args@.len() ==> type_wf(g, #[trigger] f.args@[k].arg_type)
        },
    }
}

/// The assignability relation, read as "a value of type `a` can be used
/// wherever a value of type `b` is required", against the trait-graph model
/// `g`:
/// - primitives relate iff they are exactly equal (same variant, same width);
/// - trait references relate iff the target node is reachable from the source
///   node through supertrait edges (reflexive-transitive closure);
/// - function signatures relate iff the arities match exactly, the return
///   types relate covariantly, and the parameter lists relate contravariantly
///   (see [`params_assignable`]);
/// - distinct shapes never relate.
pub open spec fn assignable(g: Seq<Seq<usize>>, a: Type, b: Type) -> bool
    decreases size(a) + size(b), 0int,
{
    match a {
        Type::Primitive(p) => b matches Type::Primitive(q) && q == p,
        Type::Trait(i) => b matches Type::Trait(j) && trait_reaches(g, i as int, j as int),
        Type::Function(f) => match b {
            Type::Function(h) => {
                &&& f.args@.len() == h.args@.len()
                &&& assignable(g, *f.return_type, *h.return_type)
                &&& params_assignable(g, f.args@, h.args@)
            },
            _ => false,
        },
    }
}

/// Contravariant comparison of parameter lists, position by position: the
/// target's parameter type `qs[k]` must be assignable into the candidate's
/// corresponding parameter type `ps[k]` — reversed relative to the return
/// rule, because the candidate's parameter must accept everything the
/// target's callers might pass.
pub open spec fn params_assignable(
    g: Seq<Seq<usize>>,
    ps: Seq<FunctionArgument>,
    qs: Seq<FunctionArgument>,
) -> bool
    decreases args_size(ps) + args_size(qs), 1int,
    via params_assignable_decreases
{
    ps.len() == 0 || qs.len() == 0 || {
        &&& assignable(g, qs[0].arg_type, ps[0].arg_type)
        &&& params_assignable(
            g,
            ps.subrange(1, ps.len() as int),
            qs.subrange(1, qs.len() as int),
        )
    }
}

#[via_fn]
proof fn params_assignable_decreases(
    g: Seq<Seq<usize>>,
    ps: Seq<FunctionArgument>,
    qs: Seq<FunctionArgument>,
) {
    if ps.len() > 0 && qs.len() > 0 {
        lemma_size_pos(ps[0].arg_type);
        lemma_size_pos(qs[0].arg_type);
    }
}

/// On lists of equal length, the positional rule [`params_assignable`] says
/// exactly that every parameter pair relates contravariantly.
pub proof fn lemma_params_assignable_pointwise(
    g: Seq<Seq<usize>>,
    ps: Seq<FunctionArgument>,
    qs: Seq<FunctionArgument>,
)
    requires
        ps.len() == qs.len(),
    ensures
        params_assignable(g, ps, qs) <==> (forall|k: int|
            0 <= k < ps.len() ==> #[trigger] assignable(g, qs[k].arg_type, ps[k].arg_type)),
    decreases ps.len(),
{
    if ps.len() > 0 {
        let pt = ps.subrange(1, ps.len() as int);
        let qt = qs.subrange(1, qs.len() as int);
        lemma_params_assignable_pointwise(g, pt, qt);
        assert(forall|k: int| 0 <= k < pt.len() ==> pt[k] == ps[k + 1] && qt[k] == qs[k + 1]);
        if params_assignable(g, ps, qs) {
            assert forall|k: int| 0 <= k < ps.len() implies #[trigger] assignable(
                g,
                qs[k].arg_type,
                ps[k].arg_type,
            ) by {
                if k > 0 {
                    assert(assignable(g, qt[k - 1].arg_type, pt[k - 1].arg_type));
                }
            }
        } else {
            if assignable(g, qs[0].arg_type, ps[0].arg_type) {
                let k = choose|k: int|
                    0 <= k < pt.len() && !assignable(g, #[trigger] qt[k].arg_type, pt[k].arg_type);
                assert(!assignable(g, qs[k + 1].arg_type, ps[k + 1].arg_type));
            }
        }
    }
}

impl Type {
    /// The open-extension hook of the two-phase dispatch protocol: before a
    /// query falls back to the left type's own rule, the right type may
    /// unilaterally claim or deny the relation here, without the two sides
    /// needing mutual knowledge of each other's representation. Every current
    /// representation declines (has no opinion); a newly added variant can
    /// decide in its own arm without touching the existing rules.
    pub fn is_supertype_of(&self, _candidate: &Type) -> (r: Option<bool>)
        ensures
            r is None,
    {
        None
    }

    /// Safe, failable narrowing to the primitive representation. Failure is a
    /// normal outcome, never an error.
    pub fn cast_primitive(&self) -> (r: Option<Primitive>)
        ensures
            r matches Some(p) ==> *self == Type::Primitive(p),
            r is None ==> !(*self is Primitive),
    {
        match self {
            Type::Primitive(p) => Some(*p),
            _ => None,
        }
    }

    /// Safe, failable narrowing to a trait reference (the node's index).
    pub fn cast_trait(&self) -> (r: Option<usize>)
        ensures
            r matches Some(i) ==> *self == Type::Trait(i),
            r is None ==> !(*self is Trait),
    {
        match self {
            Type::Trait(i) => Some(*i),
            _ => None,
        }
    }

    /// Safe, failable narrowing to the function representation.
    pub fn cast_function(&self) -> (r: Option<&Function>)
        ensures
            r matches Some(f) ==> *self == Type::Function(*f),
            r is None ==> !(*self is Function),
    {
        match self {
            Type::Function(f) => Some(f),
            _ => None,
        }
    }

    /// Whether every trait reference in this type names a node of `g`.
    pub open spec fn wf(&self, g: TraitGraph) -> bool {
        type_wf(g@, *self)
    }

    /// The assignability query: can a value of type `self` be used wherever a
    /// value of type `other` is required? `other` is first offered the
    /// relation through [`Type::is_supertype_of`]; when it has no opinion the
    /// query falls back to `self`'s representation-specific rule.
    pub fn is_assignable_to(&self, other: &Type, g: &TraitGraph) -> (r: bool)
        requires
            g.wf(),
            self.wf(*g),
            other.wf(*g),
        ensures
            r == assignable(g@, *self, *other),
        decreases size(*self) + size(*other), 2int,
    {
        if let Some(decision) = other.is_supertype_of(self) {
            return decision;
        }
        match self {
            Type::Primitive(p) => p.is_assignable_to(other),
            Type::Trait(i) => match other.cast_trait() {
                Some(j) => g.reaches(*i, j),
                None => false,
            },
            Type::Function(f) => f.is_assignable_to(other, g),
        }
    }
}

impl Primitive {
    /// The primitive rule: assignable iff the target narrows to a primitive
    /// that is exactly equal (same variant, same width). Primitives form a
    /// flat, equivalence-only relation.
    pub fn is_assignable_to(&self, other: &Type) -> (r: bool)
        ensures
            r == (*other == Type::Primitive(*self)),
    {
        match other.cast_primitive() {
            Some(q) => q == *self,
            None => false,
        }
    }
}

impl Function {
    /// Builds a function signature from its ordered parameter list and return
    /// type.
    pub fn new(args: Vec<FunctionArgument>, return_type: Type) -> (f: Function)
        ensures
            f.args == args,
            *f.return_type == return_type,
    {
        Function { args, return_type: Box::new(return_type) }
    }

    /// The function rule: assignable iff the target narrows to a function,
    /// the arities match exactly, the return types relate covariantly, and
    /// every parameter pair relates contravariantly. Parameter names play no
    /// part. Any mismatch short-circuits to false.
    pub fn is_assignable_to(&self, other: &Type, g: &TraitGraph) -> (r: bool)
        requires
            g.wf(),
            type_wf(g@, Type::Function(*self)),
            other.wf(*g),
        ensures
            r == assignable(g@, Type::Function(*self), *other),
        decreases size(Type::Function(*self)) + size(*other), 1int,
    {
        let h = match other.cast_function() {
            Some(h) => h,
            None => {
                return false;
            },
        };
        if self.args.len() != h.args.len() {
            return false;
        }
        if !(&*self.return_type).is_assignable_to(&*h.return_type, g) {
            return false;
        }
        let mut k: usize = 0;
        while k < self.args.len()
            invariant
                g.wf(),
                type_wf(g@, Type::Function(*self)),
                type_wf(g@, Type::Function(*h)),
                *other == Type::Function(*h),
                self.args@.len() == h.args@.len(),
                k <= self.args@.len(),
                assignable(g@, *self.return_type, *h.return_type),
                forall|m: int|
                    0 <= m < k ==> #[trigger] assignable(
                        g@,
                        h.args@[m].arg_type,
                        self.args@[m].arg_type,
                    ),
            decreases self.args@.len() - k,
        {
            proof {
                lemma_args_size_elem(self.args@, k as int);
                lemma_args_size_elem(h.args@, k as int);
            }
            if !h.args[k].arg_type.is_assignable_to(&self.args[k].arg_type, g) {
                proof {
                    lemma_params_assignable_pointwise(g@, self.args@, h.args@);
                }
                return false;
            }
            k += 1;
        }
        proof {
            lemma_params_assignable_pointwise(g@, self.args@, h.args@);
        }
        true
    }
}

} // verus!
