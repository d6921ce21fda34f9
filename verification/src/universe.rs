//! The galaxy at large: a placeholder for the map of systems, and the
//! random graph that stands in for it.

use vstd::prelude::*;

verus! {

/// The probability that is certainty, in millionths.
pub const CERTAIN: u32 = 1_000_000;

/// The systems of a galaxy, by number.
#[derive(Debug, Default)]
pub struct Galaxy(Vec<u32>);

/// A star and what circles it.
#[allow(dead_code)]
#[derive(Debug, Default)]
pub struct SolarSystem {
    star: String,
    planets: Vec<Planet>,
}

/// A planet by name, with its stations if it has any.
#[derive(Debug, Default)]
pub struct Planet((String, Option<Vec<Station>>));

/// A station by name.
#[derive(Debug, Default)]
pub struct Station(String);

/// The probability of an edge, in millionths, never above [`CERTAIN`].
#[derive(Clone, Copy, Debug, Default)]
pub struct EdgeProbability(u32);

/// Petgraph's marker for a graph whose edges have no direction. It has no
/// values.
#[verifier::external_type_specification]
#[verifier::external_body]
pub struct ExUndirected(petgraph::Undirected);

/// Petgraph's `Graph`, carried through as it is: what a graph holds is
/// named by [`graph_edges`] and [`graph_nodes`].
#[verifier::external_type_specification]
#[verifier::external_body]
#[verifier::reject_recursive_types(N)]
#[verifier::reject_recursive_types(E)]
#[verifier::reject_recursive_types(Ty)]
#[verifier::reject_recursive_types(Ix)]
pub struct ExGraph<N, E, Ty, Ix>(petgraph::graph::Graph<N, E, Ty, Ix>);

/// The end points of the edges of a graph, in the order of the edges'
/// indices.
pub uninterp spec fn graph_edges(g: petgraph::graph::UnGraph<u32, ()>) -> Seq<(u32, u32)>;

/// The number of nodes of a graph.
pub uninterp spec fn graph_nodes(g: petgraph::graph::UnGraph<u32, ()>) -> nat;

impl View for Galaxy {
    type V = Seq<u32>;

    closed spec fn view(&self) -> Seq<u32> {
        self.0@
    }
}

impl Galaxy {
    /// The galaxy without systems.
    pub fn new() -> (g: Galaxy)
        ensures
            g@ == Seq::<u32>::empty(),
    {
        Galaxy(Vec::new())
    }

    /// The galaxy described at `_file_path`. No description is read yet:
    /// every path gives the galaxy without systems.
    pub fn from_file(_file_path: &str) -> (g: Galaxy)
        ensures
            g@ == Seq::<u32>::empty(),
    {
        Galaxy::new()
    }
}

impl EdgeProbability {
    #[verifier::type_invariant]
    spec fn within_certainty(self) -> bool {
        self.0 <= CERTAIN
    }

    /// The probability that this value stands for, in millionths.
    pub closed spec fn millionths(self) -> u32 {
        self.0
    }

    /// A probability of `p` millionths; anything above certainty is
    /// certainty.
    pub fn new(p: u32) -> (e: EdgeProbability)
        ensures
            e.millionths() == (if p > CERTAIN {
                CERTAIN
            } else {
                p
            }),
    {
        if p > CERTAIN {
            EdgeProbability(CERTAIN)
        } else {
            EdgeProbability(p)
        }
    }

    /// The probability in millionths.
    pub fn get(&self) -> (p: u32)
        ensures
            p == self.millionths(),
            p <= CERTAIN,
    {
        proof {
            use_type_invariant(self);
        }
        self.0
    }
}

/// The pairs that begin with node `i` in a graph on the nodes `0 ..= order`:
/// `(i, i + 1)` up to `(i, order)`.
pub open spec fn row(order: nat, i: nat) -> Seq<(u32, u32)> {
    Seq::new((order - i) as nat, |k: int| (i as u32, (i + 1 + k) as u32))
}

/// The pairs that begin with a node below `rows`, row after row.
pub open spec fn pairs_upto(order: nat, rows: nat) -> Seq<(u32, u32)>
    decreases rows,
{
    if rows == 0 {
        Seq::empty()
    } else {
        pairs_upto(order, (rows - 1) as nat) + row(order, (rows - 1) as nat)
    }
}

/// Every pair `(i, j)` with `i < j <= order`, ordered by `i` and, for the
/// same `i`, by `j`: the edges that a graph on the nodes `0 ..= order` can
/// have.
pub open spec fn pairs(order: nat) -> Seq<(u32, u32)> {
    pairs_upto(order, order)
}

/// How many pairs there are.
pub open spec fn pair_count(order: nat) -> nat {
    order * (order + 1) / 2
}

/// Those of the pairs `ps` whose draw came out true, in their order. The
/// draw of a pair is the one at the pair's position; a pair without a draw
/// is left out.
pub open spec fn selected(ps: Seq<(u32, u32)>, draws: Seq<bool>) -> Seq<(u32, u32)>
    decreases ps.len(),
{
    if ps.len() == 0 {
        Seq::empty()
    } else {
        let rest = selected(ps.drop_last(), draws);
        if ps.len() - 1 < draws.len() && draws[ps.len() - 1] {
            rest.push(ps.last())
        } else {
            rest
        }
    }
}

/// One more than the greatest end point of the edges: the number of nodes
/// that the edges need. Zero for no edges.
pub open spec fn node_span(edges: Seq<(u32, u32)>) -> nat
    decreases edges.len(),
{
    if edges.len() == 0 {
        0
    } else {
        let rest = node_span(edges.drop_last());
        let a = edges.last().0 as nat + 1;
        let b = edges.last().1 as nat + 1;
        let top = if a >= b {
            a
        } else {
            b
        };
        if rest >= top {
            rest
        } else {
            top
        }
    }
}

/// Twice the number of pairs in the first `rows` rows.
pub proof fn lemma_pairs_upto_len(order: nat, rows: nat)
    requires
        rows <= order,
    ensures
        2 * pairs_upto(order, rows).len() == rows * (2 * order - rows + 1),
    decreases rows,
{
    if rows > 0 {
        let r = (rows - 1) as nat;
        lemma_pairs_upto_len(order, r);
        assert(pairs_upto(order, rows).len() == pairs_upto(order, r).len() + (order - r));
        assert(rows * (2 * order - rows + 1) == r * (2 * order - r + 1) + 2 * (order - r))
            by (nonlinear_arith)
            requires
                r == rows - 1,
        ;
    } else {
        assert(rows * (2 * order - rows + 1) == 0) by (nonlinear_arith)
            requires
                rows == 0,
        ;
    }
}

/// There are `order * (order + 1) / 2` pairs.
pub proof fn lemma_pairs_len(order: nat)
    ensures
        pairs(order).len() == pair_count(order),
{
    lemma_pairs_upto_len(order, order);
    assert(order * (2 * order - order + 1) == order * (order + 1)) by (nonlinear_arith);
}

/// Every pair goes from a node to a higher one, and none beyond `order`.
pub proof fn lemma_pairs_bounds(order: nat, rows: nat, k: int)
    requires
        rows <= order,
        order <= u32::MAX,
        0 <= k < pairs_upto(order, rows).len(),
    ensures
        pairs_upto(order, rows)[k].0 < pairs_upto(order, rows)[k].1 <= order,
        pairs_upto(order, rows)[k].0 < rows,
    decreases rows,
{
    if rows > 0 {
        let r = (rows - 1) as nat;
        if k < pairs_upto(order, r).len() {
            lemma_pairs_bounds(order, r, k);
        }
    }
}

/// Rows only add pairs.
pub proof fn lemma_pairs_upto_grows(order: nat, a: nat, b: nat)
    requires
        a <= b,
    ensures
        pairs_upto(order, a).len() <= pairs_upto(order, b).len(),
    decreases b,
{
    if a < b {
        lemma_pairs_upto_grows(order, a, (b - 1) as nat);
    }
}

/// What is selected is no longer than what it is selected from, and each
/// of it is one of the pairs.
pub proof fn lemma_selected_within(ps: Seq<(u32, u32)>, draws: Seq<bool>, k: int)
    ensures
        selected(ps, draws).len() <= ps.len(),
        0 <= k < selected(ps, draws).len() ==> ps.contains(selected(ps, draws)[k]),
    decreases ps.len(),
{
    if ps.len() > 0 {
        lemma_selected_within(ps.drop_last(), draws, k);
        let rest = selected(ps.drop_last(), draws);
        if 0 <= k < selected(ps, draws).len() {
            if k < rest.len() {
                let j = choose|j: int|
                    0 <= j < ps.drop_last().len() && ps.drop_last()[j] == rest[k];
                assert(ps[j] == rest[k]);
            } else {
                assert(ps[ps.len() - 1] == selected(ps, draws)[k]);
            }
        }
    }
}

/// Where no draw came out true, nothing is selected.
pub proof fn lemma_selected_none(ps: Seq<(u32, u32)>, draws: Seq<bool>)
    requires
        forall|k: int| 0 <= k < draws.len() ==> !draws[k],
    ensures
        selected(ps, draws) == Seq::<(u32, u32)>::empty(),
    decreases ps.len(),
{
    if ps.len() > 0 {
        lemma_selected_none(ps.drop_last(), draws);
    }
}

/// Where every pair has a draw and every draw came out true, every pair is
/// selected.
pub proof fn lemma_selected_all(ps: Seq<(u32, u32)>, draws: Seq<bool>)
    requires
        ps.len() <= draws.len(),
        forall|k: int| 0 <= k < draws.len() ==> draws[k],
    ensures
        selected(ps, draws) == ps,
    decreases ps.len(),
{
    if ps.len() > 0 {
        lemma_selected_all(ps.drop_last(), draws);
        assert(ps.drop_last().push(ps.last()) =~= ps);
    } else {
        assert(ps =~= Seq::<(u32, u32)>::empty());
    }
}

/// How many pairs a graph on the nodes `0 ..= order` can have.
pub fn count_pairs(order: u32) -> (n: u64)
    ensures
        n == pair_count(order as nat),
        n == pairs(order as nat).len(),
{
    proof {
        lemma_pairs_len(order as nat);
    }
    let o: u64 = order as u64;
    assert(o * (o + 1) <= 0xffff_ffff * 0x1_0000_0000) by (nonlinear_arith)
        requires
            0 <= o <= 0xffff_ffff,
    ;
    (o * (o + 1)) / 2
}

/// The edges that the draws choose among the pairs of a graph on the nodes
/// `0 ..= order`: the pair at position `k` of [`pairs`] is an edge when
/// `draws[k]` is true.
pub fn chosen_edges(order: u32, draws: &Vec<bool>) -> (edges: Vec<(u32, u32)>)
    ensures
        edges@ == selected(pairs(order as nat), draws@),
        edges@.len() <= pair_count(order as nat),
        forall|k: int| 0 <= k < edges@.len() ==> (#[trigger] edges@[k]).0 < edges@[k].1 <= order,
{
    let ghost top = order as nat;
    let mut edges: Vec<(u32, u32)> = Vec::new();
    let mut k: u64 = 0;
    let mut i: u32 = 0;
    proof {
        lemma_pairs_len(top);
        assert(top * (top + 1) <= 0xffff_ffff * 0x1_0000_0000) by (nonlinear_arith)
            requires
                0 <= top <= 0xffff_ffff,
        ;
    }
    while i < order
        invariant
            i <= order,
            top == order,
            k == pairs_upto(top, i as nat).len(),
            pairs(top).len() < u64::MAX,
            edges@ == selected(pairs_upto(top, i as nat), draws@),
        decreases order - i,
    {
        let ghost done = pairs_upto(top, i as nat);
        let mut j: u32 = i;
        proof {
            assert(done + row(top, i as nat).take(0) =~= done);
            lemma_pairs_upto_grows(top, (i + 1) as nat, top);
        }
        while j < order
            invariant
                i <= j <= order,
                i < order,
                top == order,
                done == pairs_upto(top, i as nat),
                k == done.len() + (j - i),
                done.len() + (top - i) <= pairs(top).len(),
                pairs(top).len() < u64::MAX,
                edges@ == selected(done + row(top, i as nat).take(j - i), draws@),
            decreases order - j,
        {
            let ghost before = done + row(top, i as nat).take(j - i);
            j = j + 1;
            proof {
                assert(before.push((i, j)) =~= done + row(top, i as nat).take(j - i));
                assert(before.push((i, j)).drop_last() =~= before);
            }
            if k < draws.len() as u64 && draws[k as usize] {
                edges.push((i, j));
            }
            k = k + 1;
        }
        proof {
            assert(row(top, i as nat).take(order - i) =~= row(top, i as nat));
        }
        i = i + 1;
    }
    proof {
        lemma_pairs_len(top);
        lemma_selected_within(pairs(top), draws@, 0);
        assert forall|n: int| 0 <= n < edges@.len() implies (#[trigger] edges@[n]).0
            < edges@[n].1 <= order by {
            lemma_selected_within(pairs(top), draws@, n);
            let at = choose|at: int| 0 <= at < pairs(top).len() && pairs(top)[at] == edges@[n];
            lemma_pairs_bounds(top, top, at);
        }
    }
    edges
}

/// Draws `count` times with the given probability.
fn draw_many(count: usize, probability: EdgeProbability) -> (draws: Vec<bool>)
    ensures
        draws@.len() == count,
        probability.millionths() == 0 ==> forall|k: int| 0 <= k < count ==> !draws@[k],
        probability.millionths() == CERTAIN ==> forall|k: int| 0 <= k < count ==> draws@[k],
{
    let p: u32 = probability.get();
    let mut draws: Vec<bool> = Vec::new();
    let mut n: usize = 0;
    while n < count
        invariant
            n <= count,
            draws@.len() == n,
            p == probability.millionths(),
            p <= CERTAIN,
            p == 0 ==> forall|k: int| 0 <= k < n ==> !draws@[k],
            p == CERTAIN ==> forall|k: int| 0 <= k < n ==> draws@[k],
        decreases count - n,
    {
        let hit = random_chance(p, CERTAIN);
        draws.push(hit);
        n = n + 1;
    }
    draws
}

/// A random graph on the nodes `0 ..= order`: each pair of different nodes
/// is an edge with the given probability, drawn for each pair on its own.
///
/// Whatever the draws, the edges are some selection of [`pairs`] in their
/// order, and the graph has just the nodes that its edges need. With
/// probability zero there is no edge and no node; with certainty every
/// pair is an edge.
pub fn random_graph(order: u32, probability: EdgeProbability) -> (g: petgraph::graph::UnGraph<
    u32,
    (),
>)
    requires
        pair_count(order as nat) <= u32::MAX,
    ensures
        exists|draws: Seq<bool>|
            draws.len() == pair_count(order as nat) && graph_edges(g) == #[trigger] selected(
                pairs(order as nat),
                draws,
            ),
        graph_nodes(g) == node_span(graph_edges(g)),
        probability.millionths() == 0 ==> graph_edges(g) == Seq::<(u32, u32)>::empty(),
        probability.millionths() == CERTAIN ==> graph_edges(g) == pairs(order as nat),
{
    let count: u64 = count_pairs(order);
    let draws = draw_many(count as usize, probability);
    let edges = chosen_edges(order, &draws);
    proof {
        if probability.millionths() == 0 {
            lemma_selected_none(pairs(order as nat), draws@);
        }
        if probability.millionths() == CERTAIN {
            lemma_selected_all(pairs(order as nat), draws@);
        }
        assert(order < u32::MAX) by (nonlinear_arith)
            requires
                order * (order + 1) / 2 <= u32::MAX,
                order <= u32::MAX,
        ;
    }
    graph_from_edges(edges)
}

/// `Rng::gen_ratio` of rand, on the generator of the calling thread: true
/// with a chance of `numerator` in `denominator`. Rand promises the
/// outcome only at the two ends: never true for a numerator of zero, always
/// true where numerator and denominator are equal. It panics on a zero
/// denominator and on a numerator above the denominator.
#[verifier::external_body]
fn random_chance(numerator: u32, denominator: u32) -> (hit: bool)
    requires
        denominator > 0,
        numerator <= denominator,
    ensures
        numerator == 0 ==> !hit,
        numerator == denominator ==> hit,
{
    rand::Rng::gen_ratio(&mut rand::thread_rng(), numerator, denominator)
}

/// `Graph::from_edges` of petgraph: a graph with one edge for each pair, in
/// the order of the pairs, and with as many nodes as the greatest end point
/// asks for. Petgraph panics beyond `u32::MAX` edges and on the end point
/// `u32::MAX`.
#[verifier::external_body]
fn graph_from_edges(edges: Vec<(u32, u32)>) -> (g: petgraph::graph::UnGraph<u32, ()>)
    requires
        edges@.len() <= u32::MAX,
        forall|k: int| 0 <= k < edges@.len() ==> (#[trigger] edges@[k]).0 < u32::MAX && edges@[k].1
            < u32::MAX,
    ensures
        graph_edges(g) == edges@,
        graph_nodes(g) == node_span(edges@),
{
    petgraph::graph::UnGraph::from_edges(edges)
}

} // verus!
