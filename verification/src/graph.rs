//! Nominal trait types: an arena of trait nodes and the reachability relation
//! over their supertrait edges.
//!
//! A trait is a nominal type node owning a list of supertrait references.
//! Identity is the node itself, never structural content: two independently
//! registered nodes with identical supertrait lists are distinct types. Nodes
//! are addressed by stable integer index into a [`TraitGraph`], and a node may
//! only list already-registered nodes (strictly smaller indices) as
//! supertraits, so the graph is acyclic by construction and reachability
//! queries terminate.

use vstd::prelude::*;

verus! {

/// A nominal trait node: an ordered list of supertrait references, each the
/// index of an earlier node in the owning [`TraitGraph`].
pub struct Trait {
    pub supertraits: Vec<usize>,
}

/// The arena that owns every trait node. A node's index is its identity.
pub struct TraitGraph {
    nodes: Vec<Trait>,
}

/// The mathematical model of a trait graph: for each node, in registration
/// order, the list of its supertrait indices.
impl View for TraitGraph {
    type V = Seq<Seq<usize>>;

    closed spec fn view(&self) -> Seq<Seq<usize>> {
        Seq::new(self.nodes@.len(), |i: int| self.nodes@[i].supertraits@)
    }
}

/// Well-formedness of a trait graph model: every supertrait edge points
/// strictly downward, to a node registered earlier. This is the acyclicity
/// invariant; it makes the supertrait relation a directed acyclic graph.
pub open spec fn graph_wf(g: Seq<Seq<usize>>) -> bool {
    forall|i: int, k: int|
        0 <= i < g.len() && 0 <= k < g[i].len() ==> (#[trigger] g[i][k]) < i
}

/// Reflexive-transitive reachability over supertrait edges: trait `i` is
/// assignable to trait `j` iff `i == j` or some supertrait of `i` reaches `j`.
/// The edge guard `s < i` mirrors the downward-edge invariant, so the
/// definition is total; on a well-formed graph the guard is always satisfied.
pub open spec fn trait_reaches(g: Seq<Seq<usize>>, i: int, j: int) -> bool
    decreases i, 1int, 0int,
{
    i == j || supers_reach(g, g[i], i, j)
}

/// Does any entry of `supers` (a suffix of node `i`'s supertrait list, each
/// entry guarded to lie strictly below `i`) reach `j`?
pub open spec fn supers_reach(g: Seq<Seq<usize>>, supers: Seq<usize>, i: int, j: int) -> bool
    decreases i, 0int, supers.len(),
{
    supers.len() > 0 && {
        ||| ((supers[0] as int) < i && trait_reaches(g, supers[0] as int, j))
        ||| supers_reach(g, supers.subrange(1, supers.len() as int), i, j)
    }
}

/// Reachability is transitive: a path from `a` to `b` and a path from `b` to
/// `c` compose to a path from `a` to `c`.
pub proof fn lemma_trait_reaches_trans(g: Seq<Seq<usize>>, a: int, b: int, c: int)
    requires
        trait_reaches(g, a, b),
        trait_reaches(g, b, c),
    ensures
        trait_reaches(g, a, c),
    decreases a, 1int, 0int,
{
    if a != b {
        lemma_supers_reach_trans(g, g[a], a, b, c);
    }
}

proof fn lemma_supers_reach_trans(g: Seq<Seq<usize>>, s: Seq<usize>, a: int, b: int, c: int)
    requires
        supers_reach(g, s, a, b),
        trait_reaches(g, b, c),
    ensures
        supers_reach(g, s, a, c),
    decreases a, 0int, s.len(),
{
    if (s[0] as int) < a && trait_reaches(g, s[0] as int, b) {
        lemma_trait_reaches_trans(g, s[0] as int, b, c);
    } else {
        lemma_supers_reach_trans(g, s.subrange(1, s.len() as int), a, b, c);
    }
}

/// Every supertrait edge points strictly downward, so a reachable node never
/// lies above its source: reachability can only descend the registration
/// order.
pub proof fn lemma_trait_reaches_upper(g: Seq<Seq<usize>>, i: int, j: int)
    requires
        trait_reaches(g, i, j),
    ensures
        j <= i,
    decreases i, 1int, 0int,
{
    if i != j {
        lemma_supers_reach_upper(g, g[i], i, j);
    }
}

proof fn lemma_supers_reach_upper(g: Seq<Seq<usize>>, s: Seq<usize>, i: int, j: int)
    requires
        supers_reach(g, s, i, j),
    ensures
        j < i,
    decreases i, 0int, s.len(),
{
    if (s[0] as int) < i && trait_reaches(g, s[0] as int, j) {
        lemma_trait_reaches_upper(g, s[0] as int, j);
    } else {
        lemma_supers_reach_upper(g, s.subrange(1, s.len() as int), i, j);
    }
}

/// A list reaches `j` as soon as one of its entries does.
pub proof fn lemma_supers_reach_witness(g: Seq<Seq<usize>>, s: Seq<usize>, i: int, j: int, k: int)
    requires
        0 <= k < s.len(),
        (s[k] as int) < i,
        trait_reaches(g, s[k] as int, j),
    ensures
        supers_reach(g, s, i, j),
    decreases k,
{
    if k > 0 {
        let tail = s.subrange(1, s.len() as int);
        lemma_supers_reach_witness(g, tail, i, j, k - 1);
    }
}

impl Trait {
    /// Builds a trait node from the supertrait references it is declared with.
    pub fn new(supertraits: Vec<usize>) -> (t: Trait)
        ensures
            t.supertraits == supertraits,
    {
        Trait { supertraits }
    }

    /// Builds a trait node and registers it in the graph, returning the new
    /// node's shared identity (its index). Registration fails, leaving the
    /// graph unchanged, iff some supertrait reference names no existing node.
    pub fn new_arc(g: &mut TraitGraph, supertraits: Vec<usize>) -> (r: Option<usize>)
        ensures
            r is Some <==> (forall|k: int|
                0 <= k < supertraits@.len() ==> (#[trigger] supertraits@[k]) < old(g)@.len()),
            r is Some ==> r->0 == old(g)@.len() && final(g)@ == old(g)@.push(supertraits@),
            r is None ==> final(g)@ == old(g)@,
            old(g).wf() ==> final(g).wf(),
    {
        g.add(Trait::new(supertraits))
    }
}

impl TraitGraph {
    /// The acyclicity invariant, stated of the graph's model.
    pub open spec fn wf(&self) -> bool {
        graph_wf(self@)
    }

    /// An empty arena: no trait has been registered yet.
    pub fn new() -> (g: TraitGraph)
        ensures
            g@ =~= Seq::<Seq<usize>>::empty(),
            g.wf(),
    {
        TraitGraph { nodes: Vec::new() }
    }

    /// How many trait nodes have been registered.
    pub fn len(&self) -> (n: usize)
        ensures
            n == self@.len(),
    {
        self.nodes.len()
    }

    /// Registers a trait node, returning its index, which becomes the node's
    /// identity. Fails, leaving the graph unchanged, iff some supertrait
    /// reference names no existing node; a registered node therefore only ever
    /// points at earlier nodes, which keeps the graph acyclic.
    pub fn add(&mut self, t: Trait) -> (r: Option<usize>)
        ensures
            r is Some <==> (forall|k: int|
                0 <= k < t.supertraits@.len() ==> (#[trigger] t.supertraits@[k]) < old(self)@.len()),
            r is Some ==> r->0 == old(self)@.len() && final(self)@ == old(self)@.push(
                t.supertraits@,
            ),
            r is None ==> final(self)@ == old(self)@,
            old(self).wf() ==> final(self).wf(),
    {
        let n = self.nodes.len();
        let mut k: usize = 0;
        while k < t.supertraits.len()
            invariant
                k <= t.supertraits@.len(),
                n == self@.len(),
                forall|m: int| 0 <= m < k ==> (#[trigger] t.supertraits@[m]) < n,
            decreases t.supertraits@.len() - k,
        {
            if t.supertraits[k] >= n {
                return None;
            }
            k += 1;
        }
        let ghost old_view = self@;
        let ghost supers = t.supertraits@;
        self.nodes.push(t);
        proof {
            assert(self@ =~= old_view.push(supers));
        }
        Some(n)
    }

    /// The trait-representation assignability rule: node `i` is assignable to
    /// node `j` iff they are the same node or `j` is reachable from `i`
    /// through any chain of supertrait edges (any path suffices).
    pub fn reaches(&self, i: usize, j: usize) -> (r: bool)
        requires
            self.wf(),
            i < self@.len(),
        ensures
            r == trait_reaches(self@, i as int, j as int),
        decreases i,
    {
        if i == j {
            return true;
        }
        let supers = &self.nodes[i].supertraits;
        proof {
            assert(self@[i as int] == supers@);
            assert(supers@.subrange(0, supers@.len() as int) =~= supers@);
            assert(trait_reaches(self@, i as int, j as int) == supers_reach(
                self@,
                supers@,
                i as int,
                j as int,
            ));
        }
        let mut k: usize = 0;
        while k < supers.len()
            invariant
                self.wf(),
                i < self@.len(),
                i != j,
                supers@ == self@[i as int],
                k <= supers@.len(),
                trait_reaches(self@, i as int, j as int) == supers_reach(
                    self@,
                    supers@.subrange(k as int, supers@.len() as int),
                    i as int,
                    j as int,
                ),
            decreases supers@.len() - k,
        {
            let s = supers[k];
            proof {
                assert(self@[i as int][k as int] == s);
                assert((s as int) < i);
            }
            let ghost tail = supers@.subrange(k as int, supers@.len() as int);
            let hit = self.reaches(s, j);
            proof {
                assert(tail[0] == s);
                assert(tail.subrange(1, tail.len() as int) =~= supers@.subrange(
                    k as int + 1,
                    supers@.len() as int,
                ));
            }
            if hit {
                return true;
            }
            k += 1;
        }
        proof {
            assert(supers@.subrange(k as int, supers@.len() as int).len() == 0);
        }
        false
    }
}

} // verus!
