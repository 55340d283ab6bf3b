//! The inclusion graph: one node per file path (created when the path is
//! first discovered, attributes filled in once the file is parsed), and one
//! edge per include relation "parent includes child". After the whole graph
//! is known it reports, for every file that uses the custom-gates feature,
//! exemplar chains of includers on which some file fails to declare the
//! feature pragma.

use vstd::prelude::*;

use crate::report::Report;

verus! {

/// One file in the inclusion graph, identified by its path text.
pub struct GraphNode {
    pub path: String,
    /// The file declares the custom-gates feature pragma.
    pub declares_feature: bool,
    /// The file uses custom gate definitions.
    pub uses_feature: bool,
}

/// The inclusion graph. `edges` holds pairs of node positions
/// `(includer, included)`; duplicates are never stored, so the edges form a
/// set even when a file includes the same path twice.
pub struct IncludesGraph {
    pub nodes: Vec<GraphNode>,
    pub edges: Vec<(usize, usize)>,
}

/// Some node already carries this path text.
pub open spec fn has_node(nodes: Seq<GraphNode>, path: Seq<char>) -> bool {
    exists|i: int| 0 <= i < nodes.len() && (#[trigger] nodes[i]).path@ == path
}

/// The position of the node carrying this path text.
pub open spec fn node_index(nodes: Seq<GraphNode>, path: Seq<char>) -> int {
    choose|i: int| 0 <= i < nodes.len() && (#[trigger] nodes[i]).path@ == path
}

/// Registering a discovered path: a fresh node with both feature flags off,
/// unless the path already has a node.
pub open spec fn spec_ensure_node(nodes: Seq<GraphNode>, path: String) -> Seq<GraphNode> {
    if has_node(nodes, path@) {
        nodes
    } else {
        nodes.push(GraphNode { path, declares_feature: false, uses_feature: false })
    }
}

/// Recording a parsed file: its node gets the parsed feature flags, keeping
/// its position if the path was already discovered.
pub open spec fn spec_add_node(
    nodes: Seq<GraphNode>,
    path: String,
    declares_feature: bool,
    uses_feature: bool,
) -> Seq<GraphNode> {
    let node = GraphNode { path, declares_feature, uses_feature };
    if has_node(nodes, path@) {
        nodes.update(node_index(nodes, path@), node)
    } else {
        nodes.push(node)
    }
}

/// Recording an include relation. An empty child path cannot be interpreted
/// as a reference and is an include error; otherwise both endpoints get
/// nodes if they lack them and the edge is stored unless already present.
pub open spec fn spec_add_edge(
    nodes: Seq<GraphNode>,
    edges: Seq<(usize, usize)>,
    parent: String,
    child: String,
) -> Result<(Seq<GraphNode>, Seq<(usize, usize)>), Report> {
    if child@.len() == 0 {
        Err(Report::IncludeError { path: child })
    } else {
        let nodes1 = spec_ensure_node(nodes, parent);
        let nodes2 = spec_ensure_node(nodes1, child);
        let edge = (node_index(nodes2, parent@) as usize, node_index(nodes2, child@) as usize);
        if edges.contains(edge) {
            Ok((nodes2, edges))
        } else {
            Ok((nodes2, edges.push(edge)))
        }
    }
}

/// A rendered chain of includes: the path segments in order, joined by
/// arrows; one segment stands alone and no segments render as nothing.
pub open spec fn spec_display_path(paths: Seq<String>) -> Seq<char>
    decreases paths.len(),
{
    if paths.len() == 0 {
        Seq::<char>::empty()
    } else if paths.len() == 1 {
        paths[0]@
    } else {
        spec_display_path(paths.drop_last()) + " -> "@ + paths.last()@
    }
}

impl IncludesGraph {
    /// Node paths are pairwise distinct and every edge endpoint is a node.
    pub open spec fn wf(self) -> bool {
        &&& forall|i: int, j: int|
            0 <= i < j < self.nodes@.len() ==> (#[trigger] self.nodes@[i]).path@ != (
            #[trigger] self.nodes@[j]).path@
        &&& forall|k: int|
            0 <= k < self.edges@.len()
                ==> (#[trigger] self.edges@[k]).0 < self.nodes@.len() && self.edges@[k].1
                < self.nodes@.len()
    }

    /// The node at position `p` includes the node at position `c`.
    pub open spec fn has_edge(self, p: usize, c: usize) -> bool {
        exists|k: int| 0 <= k < self.edges@.len() && #[trigger] self.edges@[k] == (p, c)
    }

    /// `idxs` walks from a file up through its includers: every position is
    /// a node and each element includes the one before it.
    pub open spec fn chain_linked(self, idxs: Seq<usize>) -> bool {
        &&& forall|k: int| 0 <= k < idxs.len() ==> (#[trigger] idxs[k]) < self.nodes@.len()
        &&& forall|k: int| 1 <= k < idxs.len() ==> self.has_edge(#[trigger] idxs[k], idxs[k - 1])
    }

    /// `idxs` witnesses that `paths` is a real chain of includes starting at
    /// a file that uses the custom-gates feature, on which some file does
    /// not declare the feature pragma.
    pub open spec fn chain_witness(self, paths: Seq<String>, idxs: Seq<usize>) -> bool {
        &&& idxs.len() == paths.len()
        &&& idxs.len() > 0
        &&& self.chain_linked(idxs)
        &&& forall|k: int|
            0 <= k < idxs.len() ==> (#[trigger] paths[k])@ == self.nodes@[idxs[k] as int].path@
        &&& self.nodes@[idxs[0] as int].uses_feature
        &&& exists|k: int|
            0 <= k < idxs.len() && !self.nodes@[(#[trigger] idxs[k]) as int].declares_feature
    }

    /// `paths` names, in order from the feature-using file up through its
    /// includers, a chain on which the feature pragma does not hold
    /// throughout.
    pub open spec fn problematic_chain(self, paths: Seq<String>) -> bool {
        exists|idxs: Seq<usize>| self.chain_witness(paths, idxs)
    }

    /// Renders a chain of includes for a diagnostic: its path segments in
    /// order, joined by arrows.
    pub fn display_path(paths: &Vec<String>) -> (r: String)
        ensures
            r@ == spec_display_path(paths@),
    {
        let mut r = String::new();
        let n = paths.len();
        let mut i: usize = 0;
        while i < n
            invariant
                0 <= i <= n,
                n == paths@.len(),
                r@ == spec_display_path(paths@.subrange(0, i as int)),
            decreases n - i,
        {
            if i > 0 {
                r.append(" -> ");
            }
            r.append(paths[i].as_str());
            proof {
                let pre = paths@.subrange(0, i as int);
                let pre1 = paths@.subrange(0, i as int + 1);
                assert(pre1.drop_last() =~= pre);
                assert(pre1.last() == paths@[i as int]);
                if i == 0 {
                    assert(r@ =~= paths@[0]@);
                }
            }
            i += 1;
        }
        proof {
            assert(paths@.subrange(0, n as int) =~= paths@);
        }
        r
    }

    /// An empty graph.
    pub fn new() -> (r: Self)
        ensures
            r.wf(),
            r.nodes@ =~= Seq::<GraphNode>::empty(),
            r.edges@ =~= Seq::<(usize, usize)>::empty(),
    {
        IncludesGraph { nodes: Vec::new(), edges: Vec::new() }
    }

    /// The position of the node carrying this path, if any.
    fn find_node(&self, path: &String) -> (r: Option<usize>)
        ensures
            (match r {
                Some(i) => i < self.nodes@.len() && self.nodes@[i as int].path@ == path@,
                None => !has_node(self.nodes@, path@),
            }),
    {
        let n = self.nodes.len();
        let mut i: usize = 0;
        while i < n
            invariant
                n == self.nodes@.len(),
                0 <= i <= n,
                forall|m: int| 0 <= m < i ==> (#[trigger] self.nodes@[m]).path@ != path@,
            decreases n - i,
        {
            if self.nodes[i].path == *path {
                return Some(i);
            }
            i += 1;
        }
        None
    }

    /// Ensures the path has a node, with both flags off when freshly
    /// discovered, and returns its position.
    fn ensure_node(&mut self, path: &String) -> (i: usize)
        requires
            old(self).wf(),
        ensures
            final(self).wf(),
            final(self).nodes@ == spec_ensure_node(old(self).nodes@, *path),
            final(self).edges@ == old(self).edges@,
            i == node_index(final(self).nodes@, path@),
            i < final(self).nodes@.len(),
            final(self).nodes@[i as int].path@ == path@,
    {
        let found = self.find_node(path);
        match found {
            Some(i) => {
                proof {
                    let c = node_index(self.nodes@, path@);
                    assert(0 <= c < self.nodes@.len() && self.nodes@[c].path@ == path@);
                    if c != i {
                        assert(self.nodes@[c].path@ != self.nodes@[i as int].path@);
                    }
                }
                i
            },
            None => {
                let i = self.nodes.len();
                self.nodes.push(
                    GraphNode { path: path.clone(), declares_feature: false, uses_feature: false },
                );
                proof {
                    let c = node_index(self.nodes@, path@);
                    assert(self.nodes@[i as int].path@ == path@);
                    assert(0 <= c < self.nodes@.len() && self.nodes@[c].path@ == path@);
                    if c != i {
                        assert(self.nodes@[c].path@ != self.nodes@[i as int].path@);
                    }
                }
                i
            },
        }
    }

    /// Registers or updates the node of a parsed file with its feature flags.
    pub fn add_node(&mut self, path: String, declares_feature: bool, uses_feature: bool)
        requires
            old(self).wf(),
        ensures
            final(self).wf(),
            final(self).nodes@ == spec_add_node(
                old(self).nodes@,
                path,
                declares_feature,
                uses_feature,
            ),
            final(self).edges@ == old(self).edges@,
    {
        let found = self.find_node(&path);
        match found {
            Some(i) => {
                proof {
                    let c = node_index(self.nodes@, path@);
                    assert(0 <= c < self.nodes@.len() && self.nodes@[c].path@ == path@);
                    if c != i {
                        assert(self.nodes@[c].path@ != self.nodes@[i as int].path@);
                    }
                }
                self.nodes[i] = GraphNode { path, declares_feature, uses_feature };
            },
            None => {
                self.nodes.push(GraphNode { path, declares_feature, uses_feature });
            },
        }
    }

    /// Records that `parent` includes `child`. An empty child path is an
    /// include error; otherwise both paths get nodes if they lack them, and
    /// the edge is stored once.
    pub fn add_edge(&mut self, parent: String, child: String) -> (r: Result<(), Report>)
        requires
            old(self).wf(),
        ensures
            final(self).wf(),
            (match spec_add_edge(old(self).nodes@, old(self).edges@, parent, child) {
                Ok(state) => {
                    &&& r is Ok
                    &&& final(self).nodes@ == state.0
                    &&& final(self).edges@ == state.1
                },
                Err(rep) => {
                    &&& r matches Err(e) && e == rep
                    &&& *final(self) == *old(self)
                },
            }),
    {
        if child.as_str().is_empty() {
            return Err(Report::IncludeError { path: child });
        }
        let p = self.ensure_node(&parent);
        let ghost nodes1 = self.nodes@;
        let c = self.ensure_node(&child);
        proof {
            assert(self.nodes@ == spec_ensure_node(
                spec_ensure_node(old(self).nodes@, parent),
                child,
            ));
            // the parent's node keeps its position when the child's node is
            // appended, so `p` is still the parent's index afterwards
            assert(self.nodes@[p as int].path@ == parent@) by {
                if !has_node(nodes1, child@) {
                    assert(self.nodes@[p as int] == nodes1[p as int]);
                }
            }
            assert(p == node_index(self.nodes@, parent@)) by {
                assert(0 <= (p as int) < self.nodes@.len() && (self.nodes@[p as int]).path@
                    == parent@);
                assert(has_node(self.nodes@, parent@));
                let c0 = node_index(self.nodes@, parent@);
                assert(0 <= c0 < self.nodes@.len() && self.nodes@[c0].path@ == parent@);
                if c0 != p as int {
                    assert(self.nodes@[c0].path@ != self.nodes@[p as int].path@);
                }
            }
        }
        let ghost mid = *self;
        let n = self.edges.len();
        let mut k: usize = 0;
        while k < n
            invariant
                *self == mid,
                mid.wf(),
                mid.edges@ == old(self).edges@,
                child@.len() != 0,
                n == self.edges@.len(),
                0 <= k <= n,
                forall|m: int| 0 <= m < k ==> #[trigger] self.edges@[m] != (p, c),
                p < self.nodes@.len(),
                c < self.nodes@.len(),
                p == node_index(self.nodes@, parent@),
                c == node_index(self.nodes@, child@),
                self.nodes@ == spec_ensure_node(spec_ensure_node(old(self).nodes@, parent), child),
            decreases n - k,
        {
            let e = self.edges[k];
            if e.0 == p && e.1 == c {
                assert(self.edges@.contains((p, c)));
                return Ok(());
            }
            k += 1;
        }
        assert(!self.edges@.contains((p, c))) by {
            if self.edges@.contains((p, c)) {
                let m = choose|m: int| 0 <= m < self.edges@.len() && self.edges@[m] == (p, c);
                assert(self.edges@[m] == (p, c));
            }
        }
        self.edges.push((p, c));
        Ok(())
    }

    /// Walks from `at` up through its includers, extending the chain held in
    /// `chain`, and appends to `out` every completed chain on which some file
    /// fails to declare the feature pragma. The visited set keeps the walk
    /// terminating even on cyclic include graphs; a node already visited for
    /// the current feature-using file is not walked again, so one exemplar
    /// chain is reported per violation rather than every chain.
    #[verifier::loop_isolation(false)]
    fn traverse(
        &self,
        at: usize,
        chain: &mut Vec<usize>,
        visited: Vec<bool>,
        out: &mut Vec<Vec<String>>,
    ) -> (vis: Vec<bool>)
        requires
            self.wf(),
            at < self.nodes@.len(),
            visited@.len() == self.nodes@.len(),
            !visited@[at as int],
            self.chain_linked(old(chain)@.push(at)),
            self.nodes@[old(chain)@.push(at)[0] as int].uses_feature,
        ensures
            final(chain)@ == old(chain)@,
            vis@.len() == visited@.len(),
            forall|i: int| 0 <= i < visited@.len() ==> ((#[trigger] visited@[i]) ==> vis@[i]),
            final(out)@.len() >= old(out)@.len(),
            forall|i: int| 0 <= i < old(out)@.len() ==> final(out)@[i] == old(out)@[i],
            forall|i: int|
                old(out)@.len() <= i < final(out)@.len() ==> self.problematic_chain(
                    #[trigger] final(out)@[i]@,
                ),
            (exists|k: int|
                0 <= k < old(chain)@.push(at).len() && !self.nodes@[(#[trigger] old(
                    chain,
                )@.push(at)[k]) as int].declares_feature) ==> final(out)@.len() > old(out)@.len(),
        decreases count_false(visited@),
    {
        let ghost vis0 = visited@;
        let ghost chain0 = chain@;
        let ghost out0 = out@;
        let mut vis = visited;
        vis[at] = true;
        chain.push(at);
        let mut extended = false;
        let n = self.edges.len();
        let mut k: usize = 0;
        while k < n
            invariant
                self.wf(),
                at < self.nodes@.len(),
                n == self.edges@.len(),
                0 <= k <= n,
                chain@ == chain0.push(at),
                self.chain_linked(chain@),
                self.nodes@[chain@[0] as int].uses_feature,
                vis@.len() == self.nodes@.len(),
                vis0.len() == self.nodes@.len(),
                vis@[at as int],
                !vis0[at as int],
                forall|i: int| 0 <= i < vis0.len() ==> ((#[trigger] vis0[i]) ==> vis@[i]),
                out@.len() >= out0.len(),
                forall|i: int| 0 <= i < out0.len() ==> out@[i] == out0[i],
                forall|i: int|
                    out0.len() <= i < out@.len() ==> self.problematic_chain(#[trigger] out@[i]@),
                (extended && exists|m: int|
                    0 <= m < chain@.len() && !self.nodes@[(#[trigger] chain@[m]) as int].declares_feature)
                    ==> out@.len() > out0.len(),
            decreases n - k,
        {
            let e = self.edges[k];
            if e.1 == at && !vis[e.0] {
                extended = true;
                proof {
                    lemma_count_false_lt(vis0, vis@, at as int);
                    assert(self.edges@[k as int] == (e.0, at));
                    assert(self.has_edge(e.0, at));
                    let ext = chain@.push(e.0);
                    assert forall|m: int| 0 <= m < ext.len() implies (#[trigger] ext[m])
                        < self.nodes@.len() by {
                        if m < chain@.len() {
                            assert(ext[m] == chain@[m]);
                        } else {
                            assert(ext[m] == e.0);
                        }
                    }
                    assert forall|m: int| 1 <= m < ext.len() implies self.has_edge(
                        #[trigger] ext[m],
                        ext[m - 1],
                    ) by {
                        if m < chain@.len() {
                            assert(ext[m] == chain@[m] && ext[m - 1] == chain@[m - 1]);
                        } else {
                            assert(ext[m] == e.0 && ext[m - 1] == chain@.last());
                        }
                    }
                    assert(self.chain_linked(ext));
                    assert(ext[0] == chain@[0]);
                }
                let ghost vis_pre = vis@;
                proof {
                    if exists|m: int|
                        0 <= m < chain@.len() && !self.nodes@[(#[trigger] chain@[m]) as int].declares_feature {
                        let m = choose|m: int|
                            0 <= m < chain@.len() && !self.nodes@[(
                            #[trigger] chain@[m]) as int].declares_feature;
                        assert(chain@.push(e.0)[m] == chain@[m]);
                    }
                }
                vis = self.traverse(e.0, chain, vis, out);
                proof {
                    assert forall|i: int| 0 <= i < vis0.len() && vis0[i] implies vis@[i] by {
                        assert(vis_pre[i]);
                    }
                }
            }
            k += 1;
        }
        if !extended {
            // the chain is maximal for this walk: report it when some file
            // on it does not declare the feature pragma
            let len = chain.len();
            let mut missing = false;
            let mut t: usize = 0;
            while t < len
                invariant
                    self.wf(),
                    len == chain@.len(),
                    chain@ == chain0.push(at),
                    self.chain_linked(chain@),
                    0 <= t <= len,
                    missing ==> exists|i: int|
                        0 <= i < chain@.len() && !self.nodes@[(#[trigger] chain@[i]) as int].declares_feature,
                    !missing ==> forall|i: int|
                        0 <= i < t ==> self.nodes@[(#[trigger] chain@[i]) as int].declares_feature,
                decreases len - t,
            {
                if !self.nodes[chain[t]].declares_feature {
                    missing = true;
                }
                t += 1;
            }
            if missing {
                let mut paths: Vec<String> = Vec::new();
                let mut t2: usize = 0;
                while t2 < len
                    invariant
                        self.wf(),
                        len == chain@.len(),
                        chain@ == chain0.push(at),
                        self.chain_linked(chain@),
                        0 <= t2 <= len,
                        paths@.len() == t2,
                        forall|i: int|
                            0 <= i < t2 ==> (#[trigger] paths@[i])@ == self.nodes@[chain@[i] as int].path@,
                    decreases len - t2,
                {
                    paths.push(self.nodes[chain[t2]].path.clone());
                    t2 += 1;
                }
                proof {
                    assert(self.chain_witness(paths@, chain@));
                    assert(self.problematic_chain(paths@));
                }
                out.push(paths);
            }
        }
        let _ = chain.pop();
        proof {
            assert(chain@ =~= chain0);
        }
        vis
    }

    /// Returns one exemplar chain of includes for every violation of the
    /// feature-pragma rule: a chain from a file that uses the custom-gates
    /// feature up through its includers on which some file does not declare
    /// the pragma. Every returned chain is a real chain of the graph, and a
    /// file that uses the feature without declaring it itself is always
    /// reported.
    pub fn get_problematic_paths(&self) -> (r: Vec<Vec<String>>)
        requires
            self.wf(),
        ensures
            forall|ci: int| 0 <= ci < r@.len() ==> self.problematic_chain(#[trigger] r@[ci]@),
            (exists|i: int|
                0 <= i < self.nodes@.len() && (#[trigger] self.nodes@[i]).uses_feature
                    && !self.nodes@[i].declares_feature) ==> r@.len() > 0,
    {
        let mut out: Vec<Vec<String>> = Vec::new();
        let n = self.nodes.len();
        let mut u: usize = 0;
        while u < n
            invariant
                self.wf(),
                n == self.nodes@.len(),
                0 <= u <= n,
                forall|ci: int| 0 <= ci < out@.len() ==> self.problematic_chain(#[trigger] out@[ci]@),
                (exists|i: int|
                    0 <= i < u && (#[trigger] self.nodes@[i]).uses_feature
                        && !self.nodes@[i].declares_feature) ==> out@.len() > 0,
            decreases n - u,
        {
            if self.nodes[u].uses_feature {
                let mut chain: Vec<usize> = Vec::new();
                let visited = make_unvisited(n);
                proof {
                    let start = chain@.push(u);
                    assert(start.len() == 1 && start[0] == u);
                    assert(self.chain_linked(start));
                }
                let _ = self.traverse(u, &mut chain, visited, &mut out);
            }
            u += 1;
        }
        out
    }
}

/// A fresh all-false visited set of the given size.
fn make_unvisited(n: usize) -> (v: Vec<bool>)
    ensures
        v@.len() == n,
        forall|i: int| 0 <= i < n ==> !(#[trigger] v@[i]),
{
    let mut v: Vec<bool> = Vec::new();
    let mut i: usize = 0;
    while i < n
        invariant
            0 <= i <= n,
            v@.len() == i,
            forall|m: int| 0 <= m < i ==> !(#[trigger] v@[m]),
        decreases n - i,
    {
        v.push(false);
        i += 1;
    }
    v
}

/// How many entries of a visited set are still false.
pub open spec fn count_false(v: Seq<bool>) -> nat
    decreases v.len(),
{
    if v.len() == 0 {
        0
    } else {
        count_false(v.drop_last()) + (if v.last() {
            0nat
        } else {
            1nat
        })
    }
}

/// Marking entries never raises the number of unvisited ones.
proof fn lemma_count_false_le(v1: Seq<bool>, v2: Seq<bool>)
    requires
        v1.len() == v2.len(),
        forall|i: int| 0 <= i < v1.len() ==> ((#[trigger] v1[i]) ==> v2[i]),
    ensures
        count_false(v2) <= count_false(v1),
    decreases v1.len(),
{
    if v1.len() > 0 {
        assert(v1[v1.len() - 1] ==> v2[v2.len() - 1]);
        assert forall|i: int|
            0 <= i < v1.drop_last().len() && (#[trigger] v1.drop_last()[i]) implies v2.drop_last()[i] by {
            assert(v1.drop_last()[i] == v1[i] && v2.drop_last()[i] == v2[i]);
        }
        lemma_count_false_le(v1.drop_last(), v2.drop_last());
    }
}

/// Marking a previously unvisited entry strictly lowers the number of
/// unvisited ones.
proof fn lemma_count_false_lt(v1: Seq<bool>, v2: Seq<bool>, j: int)
    requires
        v1.len() == v2.len(),
        0 <= j < v1.len(),
        !v1[j],
        v2[j],
        forall|i: int| 0 <= i < v1.len() ==> ((#[trigger] v1[i]) ==> v2[i]),
    ensures
        count_false(v2) < count_false(v1),
    decreases v1.len(),
{
    assert forall|i: int|
        0 <= i < v1.drop_last().len() && (#[trigger] v1.drop_last()[i]) implies v2.drop_last()[i] by {
        assert(v1.drop_last()[i] == v1[i] && v2.drop_last()[i] == v2[i]);
    }
    if j == v1.len() - 1 {
        lemma_count_false_le(v1.drop_last(), v2.drop_last());
    } else {
        assert(v1[v1.len() - 1] ==> v2[v2.len() - 1]);
        assert(v1.drop_last()[j] == v1[j] && v2.drop_last()[j] == v2[j]);
        lemma_count_false_lt(v1.drop_last(), v2.drop_last(), j);
    }
}

/// Law: in a graph where every file declares the feature pragma, no chain of
/// includes is problematic, so the pragma check reports nothing.
pub proof fn lemma_all_declared_no_problematic_chain(g: IncludesGraph, paths: Seq<String>)
    requires
        forall|i: int| 0 <= i < g.nodes@.len() ==> (#[trigger] g.nodes@[i]).declares_feature,
    ensures
        !g.problematic_chain(paths),
{
    if g.problematic_chain(paths) {
        let idxs = choose|idxs: Seq<usize>| g.chain_witness(paths, idxs);
        assert(exists|k: int|
            0 <= k < idxs.len() && !g.nodes@[(#[trigger] idxs[k]) as int].declares_feature);
        let k = choose|k: int|
            0 <= k < idxs.len() && !g.nodes@[(#[trigger] idxs[k]) as int].declares_feature;
        assert(idxs[k] < g.nodes@.len());
        assert(g.nodes@[idxs[k] as int].declares_feature);
    }
}

/// Law: in a graph where no file uses the custom-gates feature, no chain of
/// includes is problematic, so the pragma check reports nothing.
pub proof fn lemma_no_user_no_problematic_chain(g: IncludesGraph, paths: Seq<String>)
    requires
        forall|i: int| 0 <= i < g.nodes@.len() ==> !(#[trigger] g.nodes@[i]).uses_feature,
    ensures
        !g.problematic_chain(paths),
{
    if g.problematic_chain(paths) {
        let idxs = choose|idxs: Seq<usize>| g.chain_witness(paths, idxs);
        assert(idxs[0] < g.nodes@.len());
        assert(!g.nodes@[idxs[0] as int].uses_feature);
    }
}

} // verus!
