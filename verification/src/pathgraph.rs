//! A dependency graph between files, with cycle detection and topological
//! ordering.
use vstd::prelude::*;
use vstd::string::StringExecFns;

verus! {

// ---------------------------------------------------------------------------
// The mathematical graph: each file maps to the set of its direct
// dependencies.
// ---------------------------------------------------------------------------

/// An edge `a -> b`: `a` is a file that depends directly on `b`.
pub open spec fn g_edge(g: Map<Seq<char>, Set<Seq<char>>>, a: Seq<char>, b: Seq<char>) -> bool {
    g.contains_key(a) && g[a].contains(b)
}

/// Step `k` of `p` is an edge.
pub open spec fn g_step(g: Map<Seq<char>, Set<Seq<char>>>, p: Seq<Seq<char>>, k: int) -> bool {
    g_edge(g, p[k], p[k + 1])
}

/// A non-empty walk along edges.
pub open spec fn g_is_path(g: Map<Seq<char>, Set<Seq<char>>>, p: Seq<Seq<char>>) -> bool {
    p.len() >= 1 && forall|k: int| 0 <= k < p.len() - 1 ==> #[trigger] g_step(g, p, k)
}

/// `b` can be reached from `a` by following one or more edges.
pub open spec fn g_reaches(g: Map<Seq<char>, Set<Seq<char>>>, a: Seq<char>, b: Seq<char>) -> bool {
    exists|p: Seq<Seq<char>>| #[trigger]
        g_is_path(g, p) && p.len() >= 2 && p[0] == a && p[p.len() - 1] == b
}

/// A closed walk of at least one edge.
pub open spec fn g_is_cycle(g: Map<Seq<char>, Set<Seq<char>>>, p: Seq<Seq<char>>) -> bool {
    g_is_path(g, p) && p.len() >= 2 && p[0] == p[p.len() - 1]
}

/// No file reaches itself.
pub open spec fn g_acyclic(g: Map<Seq<char>, Set<Seq<char>>>) -> bool {
    forall|a: Seq<char>| !#[trigger] g_reaches(g, a, a)
}

/// The files of the graph together with all their dependencies.
pub open spec fn g_nodes(g: Map<Seq<char>, Set<Seq<char>>>) -> Set<Seq<char>> {
    Set::new(|n: Seq<char>| g.contains_key(n) || exists|a: Seq<char>| #[trigger] g_edge(g, a, n))
}

/// Every node exactly once, each file before all of its dependencies.
pub open spec fn g_is_topological_order(
    g: Map<Seq<char>, Set<Seq<char>>>,
    s: Seq<Seq<char>>,
) -> bool {
    &&& s.no_duplicates()
    &&& s.to_set() == g_nodes(g)
    &&& forall|i: int, j: int|
        0 <= i < s.len() && 0 <= j < s.len() && #[trigger] g_edge(g, s[i], s[j]) ==> i < j
}

/// The graph after recording that `file` depends on each of `deps`.
pub open spec fn g_add_deps(
    g: Map<Seq<char>, Set<Seq<char>>>,
    file: Seq<char>,
    deps: Set<Seq<char>>,
) -> Map<Seq<char>, Set<Seq<char>>> {
    g.insert(file, (if g.contains_key(file) { g[file] } else { Set::empty() }).union(deps))
}

// ---------------------------------------------------------------------------
// The representation: every name mentioned once, edges by index.
// ---------------------------------------------------------------------------

/// Edge `i -> j` between node indices.
pub open spec fn iedge(a: Seq<Seq<usize>>, i: usize, j: usize) -> bool {
    0 <= i < a.len() && a[i as int].contains(j)
}

/// Step `k` of an index walk is an edge.
pub open spec fn istep(a: Seq<Seq<usize>>, p: Seq<usize>, k: int) -> bool {
    iedge(a, p[k], p[k + 1])
}

/// A non-empty walk along index edges.
pub open spec fn ipath(a: Seq<Seq<usize>>, p: Seq<usize>) -> bool {
    p.len() >= 1 && forall|k: int| 0 <= k < p.len() - 1 ==> #[trigger] istep(a, p, k)
}

/// `j` is reachable from `i` by one or more index edges.
pub open spec fn ireach(a: Seq<Seq<usize>>, i: usize, j: usize) -> bool {
    exists|p: Seq<usize>| #[trigger] ipath(a, p) && p.len() >= 2 && p[0] == i && p[p.len() - 1] == j
}

/// Tracks files and the files they depend on.
#[derive(Debug, Clone)]
pub struct PathGraph {
    /// Every name mentioned, as a file or as a dependency; no name twice.
    nodes: Vec<String>,
    /// Whether the node at the same index is a file of the graph.
    is_file: Vec<bool>,
    /// The direct dependencies of each node, by index; no index twice.
    adj: Vec<Vec<usize>>,
}

/// The outcome of [PathGraph::check_for_cycles].
#[derive(Debug, Clone, PartialEq)]
pub enum CycleCheckResult {
    NoCycle,
    /// The files along the cycle, first and last equal.
    Cycle(Vec<String>),
}

/// Errors of the dependency graph.
#[derive(Debug)]
pub enum PathGraphError {
    CircularDependency(Vec<String>),
    FileNotFound(String),
}

pub open spec fn seq_of_strings(v: Seq<String>) -> Seq<Seq<char>> {
    v.map_values(|s: String| s@)
}

pub open spec fn index_of(names: Seq<Seq<char>>, k: Seq<char>) -> int {
    choose|i: int| 0 <= i < names.len() && names[i] == k
}

impl PathGraph {
    pub closed spec fn names(&self) -> Seq<Seq<char>> {
        seq_of_strings(self.nodes@)
    }

    pub closed spec fn adjs(&self) -> Seq<Seq<usize>> {
        self.adj@.map_values(|v: Vec<usize>| v@)
    }

    /// The structural invariant, except that names that are not files have a
    /// dependent.
    pub closed spec fn wf_core(&self) -> bool {
        let n = self.nodes@.len();
        &&& n <= usize::MAX
        &&& self.is_file@.len() == n
        &&& self.adj@.len() == n
        &&& self.names().no_duplicates()
        &&& forall|i: int| 0 <= i < n ==> (#[trigger] self.adj@[i])@.no_duplicates()
        &&& forall|i: int, t: int|
            0 <= i < n && 0 <= t < self.adj@[i]@.len() ==> (#[trigger] self.adj@[i]@[t]) < n
        &&& forall|i: int| 0 <= i < n && !(#[trigger] self.is_file@[i]) ==> self.adj@[i]@.len() == 0
    }

    /// Well-formedness: the core invariant, and every name that is not a
    /// dependency of some file.
    pub closed spec fn wf(&self) -> bool {
        &&& self.wf_core()
        &&& forall|j: int|
            0 <= j < self.nodes@.len() && !(#[trigger] self.is_file@[j]) ==> exists|i: int|
                0 <= i < self.nodes@.len() && self.adj@[i]@.contains(j as usize)
    }

    /// The graph: each file mapped to its direct dependencies.
    pub closed spec fn view(&self) -> Map<Seq<char>, Set<Seq<char>>> {
        let names = self.names();
        Map::new(
            |k: Seq<char>| exists|i: int| 0 <= i < names.len() && self.is_file@[i] && names[i] == k,
            |k: Seq<char>|
                {
                    let i = index_of(names, k);
                    Set::new(
                        |d: Seq<char>|
                            exists|t: int|
                                0 <= t < self.adj@[i]@.len() && names[self.adj@[i]@[t] as int]
                                    == d,
                    )
                },
        )
    }
}


impl PathGraph {
    proof fn lemma_index_of(&self, i: int)
        requires
            self.wf_core(),
            0 <= i < self.nodes@.len(),
        ensures
            index_of(self.names(), self.names()[i]) == i,
    {
        let names = self.names();
        let k = index_of(names, names[i]);
        assert(0 <= k < names.len() && names[k] == names[i]);
        if k != i {
            assert(names.no_duplicates());
        }
    }

    /// Edges of the graph are exactly the index edges, read by name.
    proof fn lemma_view_edge(&self, i: usize, j: usize)
        requires
            self.wf_core(),
            i < self.nodes@.len(),
            j < self.nodes@.len(),
        ensures
            g_edge(self@, self.names()[i as int], self.names()[j as int]) <==> self.adj@[i as int]@.contains(j),
            iedge(self.adjs(), i, j) <==> self.adj@[i as int]@.contains(j),
    {
        let names = self.names();
        self.lemma_index_of(i as int);
        assert(self.adjs()[i as int] == self.adj@[i as int]@);
        if self.adj@[i as int]@.contains(j) {
            let t = choose|t: int| 0 <= t < self.adj@[i as int]@.len() && self.adj@[i as int]@[t] == j;
            assert(self.is_file@[i as int]);
            assert(self@.contains_key(names[i as int]));
            assert(names[self.adj@[i as int]@[t] as int] == names[j as int]);
        }
        if g_edge(self@, names[i as int], names[j as int]) {
            let t = choose|t: int|
                0 <= t < self.adj@[i as int]@.len() && names[self.adj@[i as int]@[t] as int] == names[j as int];
            let jj = self.adj@[i as int]@[t];
            assert(jj < self.nodes@.len());
            if jj != j {
                assert(names.no_duplicates());
            }
        }
    }

    /// Both ends of an edge are names of the graph.
    proof fn lemma_edge_indices(&self, a: Seq<char>, b: Seq<char>) -> (r: (usize, usize))
        requires
            self.wf_core(),
            g_edge(self@, a, b),
        ensures
            r.0 < self.nodes@.len(),
            r.1 < self.nodes@.len(),
            self.names()[r.0 as int] == a,
            self.names()[r.1 as int] == b,
            self.adj@[r.0 as int]@.contains(r.1),
    {
        let names = self.names();
        let i = choose|i: int| 0 <= i < names.len() && self.is_file@[i] && names[i] == a;
        self.lemma_index_of(i);
        let t = choose|t: int| 0 <= t < self.adj@[i]@.len() && names[self.adj@[i]@[t] as int] == b;
        let j = self.adj@[i]@[t];
        assert(self.adj@[i]@.contains(j));
        (i as usize, j)
    }

    /// Index reachability is reachability in the graph.
    proof fn lemma_ireach_to_greach(&self, i: usize, j: usize)
        requires
            self.wf_core(),
            ireach(self.adjs(), i, j),
        ensures
            g_reaches(self@, self.names()[i as int], self.names()[j as int]),
    {
        let a = self.adjs();
        let names = self.names();
        let p = choose|p: Seq<usize>| #[trigger] ipath(a, p) && p.len() >= 2 && p[0] == i && p[p.len() - 1] == j;
        assert(istep(a, p, 0));
        let q = p.map_values(|x: usize| names[x as int]);
        assert forall|k: int| 0 <= k < q.len() - 1 implies #[trigger] g_step(self@, q, k) by {
            assert(istep(a, p, k));
            assert(a[p[k] as int] == self.adj@[p[k] as int]@);
            self.lemma_view_edge(p[k], p[k + 1]);
        }
        assert(g_is_path(self@, q));
    }

    /// Reachability in the graph is index reachability.
    proof fn lemma_greach_to_ireach(&self, x: Seq<char>, y: Seq<char>) -> (r: (usize, usize))
        requires
            self.wf_core(),
            g_reaches(self@, x, y),
        ensures
            r.0 < self.nodes@.len(),
            r.1 < self.nodes@.len(),
            self.names()[r.0 as int] == x,
            self.names()[r.1 as int] == y,
            ireach(self.adjs(), r.0, r.1),
    {
        let a = self.adjs();
        let names = self.names();
        let p = choose|p: Seq<Seq<char>>| #[trigger] g_is_path(self@, p) && p.len() >= 2 && p[0] == x && p[p.len() - 1] == y;
        let idx = p.map_values(|s: Seq<char>| index_of(names, s) as usize);
        assert forall|k: int| 0 <= k < p.len() implies idx[k] < names.len()
            && names[idx[k] as int] == p[k] by {
            if k < p.len() - 1 {
                assert(g_step(self@, p, k));
                let e = self.lemma_edge_indices(p[k], p[k + 1]);
                self.lemma_index_of(e.0 as int);
            } else {
                assert(g_step(self@, p, k - 1));
                let e = self.lemma_edge_indices(p[k - 1], p[k]);
                self.lemma_index_of(e.1 as int);
            }
        }
        assert forall|k: int| 0 <= k < idx.len() - 1 implies #[trigger] istep(a, idx, k) by {
            assert(g_step(self@, p, k));
            let e = self.lemma_edge_indices(p[k], p[k + 1]);
            self.lemma_index_of(e.0 as int);
            self.lemma_index_of(e.1 as int);
            assert(idx[k] == e.0);
            assert(idx[k + 1] == e.1);
            self.lemma_view_edge(e.0, e.1);
        }
        assert(ipath(a, idx));
        (idx[0], idx[idx.len() - 1])
    }
}


impl PathGraph {
    /// The names of the direct dependencies of node `i`.
    pub closed spec fn row_set(&self, i: int) -> Set<Seq<char>> {
        Set::new(
            |d: Seq<char>|
                exists|t: int| 0 <= t < self.adj@[i]@.len() && self.names()[self.adj@[i]@[t] as int] == d,
        )
    }

    /// How the graph reads off the representation.
    proof fn lemma_view_char(&self)
        requires
            self.wf_core(),
        ensures
            forall|i: int|
                0 <= i < self.nodes@.len() ==> (#[trigger] self@.contains_key(self.names()[i])
                    <==> self.is_file@[i]),
            forall|i: int|
                0 <= i < self.nodes@.len() && self.is_file@[i] ==> #[trigger] self@[self.names()[i]]
                    == self.row_set(i),
            forall|k: Seq<char>|
                #[trigger] self@.contains_key(k) ==> exists|i: int|
                    0 <= i < self.nodes@.len() && self.is_file@[i] && self.names()[i] == k,
    {
        assert forall|i: int| 0 <= i < self.nodes@.len() implies (#[trigger] self@.contains_key(
            self.names()[i],
        ) <==> self.is_file@[i]) by {
            self.lemma_index_of(i);
            if self@.contains_key(self.names()[i]) {
                let i2 = choose|i2: int|
                    0 <= i2 < self.names().len() && self.is_file@[i2] && self.names()[i2]
                        == self.names()[i];
                self.lemma_index_of(i2);
            }
        }
        assert forall|i: int| 0 <= i < self.nodes@.len() && self.is_file@[i] implies #[trigger] self@[self.names()[i]]
            == self.row_set(i) by {
            self.lemma_index_of(i);
            assert(self@[self.names()[i]] =~= self.row_set(i));
        }
    }

    /// The empty graph.
    pub fn new() -> (g: Self)
        ensures
            g.wf(),
            g@ == Map::<Seq<char>, Set<Seq<char>>>::empty(),
    {
        let g = PathGraph { nodes: Vec::new(), is_file: Vec::new(), adj: Vec::new() };
        assert(g.names() =~= Seq::<Seq<char>>::empty());
        assert(g@ =~= Map::<Seq<char>, Set<Seq<char>>>::empty());
        g
    }

    /// The index of the node named `name`, if any.
    fn find(&self, name: &String) -> (r: Option<usize>)
        requires
            self.wf_core(),
        ensures
            match r {
                Some(i) => i < self.nodes@.len() && self.names()[i as int] == name@,
                None => forall|i: int| 0 <= i < self.nodes@.len() ==> self.names()[i] != name@,
            },
    {
        let mut i: usize = 0;
        while i < self.nodes.len()
            invariant
                self.wf_core(),
                i <= self.nodes@.len(),
                forall|k: int| 0 <= k < i ==> self.names()[k] != name@,
            decreases self.nodes@.len() - i,
        {
            if self.nodes[i] == *name {
                return Some(i);
            }
            i = i + 1;
        }
        None
    }
}

/// Whether `j` is one of the indices of `row`.
fn row_contains(row: &Vec<usize>, j: usize) -> (b: bool)
    ensures
        b == row@.contains(j),
{
    let mut t: usize = 0;
    while t < row.len()
        invariant
            t <= row@.len(),
            forall|u: int| 0 <= u < t ==> row@[u] != j,
        decreases row@.len() - t,
    {
        if row[t] == j {
            return true;
        }
        t = t + 1;
    }
    false
}

/// A copy of `row`.
fn copy_row(row: &Vec<usize>) -> (r: Vec<usize>)
    ensures
        r@ == row@,
{
    let mut r: Vec<usize> = Vec::new();
    let mut t: usize = 0;
    while t < row.len()
        invariant
            t <= row@.len(),
            r@ == row@.subrange(0, t as int),
        decreases row@.len() - t,
    {
        r.push(row[t]);
        t = t + 1;
    }
    r
}

impl PathGraph {
    /// `self` keeps every node of `old` as it was and only adds names that
    /// are not files and have no dependencies.
    pub closed spec fn extends(&self, old: &Self) -> bool {
        let n = old.nodes@.len();
        &&& self.nodes@.len() >= n
        &&& forall|k: int| 0 <= k < n ==> #[trigger] self.names()[k] == old.names()[k]
        &&& forall|k: int| 0 <= k < n ==> #[trigger] self.is_file@[k] == old.is_file@[k]
        &&& forall|k: int| 0 <= k < n ==> #[trigger] self.adj@[k]@ == old.adj@[k]@
        &&& forall|k: int| n <= k < self.nodes@.len() ==> !(#[trigger] self.is_file@[k])
    }

    proof fn lemma_extends_view(&self, old: &Self)
        requires
            self.wf_core(),
            old.wf_core(),
            self.extends(old),
        ensures
            self@ == old@,
    {
        self.lemma_view_char();
        old.lemma_view_char();
        let n = old.nodes@.len();
        assert forall|k: Seq<char>| #[trigger] self@.contains_key(k) <==> old@.contains_key(k) by {
            if self@.contains_key(k) {
                let i = choose|i: int| 0 <= i < self.nodes@.len() && self.is_file@[i] && self.names()[i] == k;
                assert(i < n);
                assert(old@.contains_key(old.names()[i]));
            }
            if old@.contains_key(k) {
                let i = choose|i: int| 0 <= i < old.nodes@.len() && old.is_file@[i] && old.names()[i] == k;
                assert(self@.contains_key(self.names()[i]));
            }
        }
        assert forall|k: Seq<char>| #[trigger] self@.contains_key(k) implies self@[k] == old@[k] by {
            let i = choose|i: int| 0 <= i < self.nodes@.len() && self.is_file@[i] && self.names()[i] == k;
            assert(i < n);
            assert(self@[self.names()[i]] == self.row_set(i));
            assert(old@[old.names()[i]] == old.row_set(i));
            assert forall|d: Seq<char>| #[trigger] self.row_set(i).contains(d) <==> old.row_set(i).contains(d) by {
                if self.row_set(i).contains(d) {
                    let t = choose|t: int| 0 <= t < self.adj@[i]@.len() && self.names()[self.adj@[i]@[t] as int] == d;
                    assert(old.adj@[i]@[t] < n);
                }
                if old.row_set(i).contains(d) {
                    let t = choose|t: int| 0 <= t < old.adj@[i]@.len() && old.names()[old.adj@[i]@[t] as int] == d;
                    assert(old.adj@[i]@[t] < n);
                }
            }
            assert(self.row_set(i) =~= old.row_set(i));
        }
        assert(self@ =~= old@);
    }

    /// Updating the dependencies of node `i` updates the graph at its name.
    proof fn lemma_view_update(&self, old: &Self, i: int, deps: Set<Seq<char>>)
        requires
            self.wf_core(),
            old.wf_core(),
            0 <= i < old.nodes@.len(),
            self.nodes@.len() == old.nodes@.len(),
            self.names() == old.names(),
            forall|k: int| 0 <= k < old.nodes@.len() && k != i ==> #[trigger] self.is_file@[k] == old.is_file@[k],
            forall|k: int| 0 <= k < old.nodes@.len() && k != i ==> #[trigger] self.adj@[k]@ == old.adj@[k]@,
            self.is_file@[i],
            self.row_set(i) == old.row_set(i).union(deps),
        ensures
            self@ == g_add_deps(old@, old.names()[i], deps),
    {
        self.lemma_view_char();
        old.lemma_view_char();
        let f = old.names()[i];
        let expected = g_add_deps(old@, f, deps);
        if !old.is_file@[i] {
            assert(old.row_set(i) =~= Set::<Seq<char>>::empty());
        }
        assert forall|k: Seq<char>| #[trigger] self@.contains_key(k) <==> expected.contains_key(k) by {
            if self@.contains_key(k) {
                let m = choose|m: int| 0 <= m < self.nodes@.len() && self.is_file@[m] && self.names()[m] == k;
                if m != i {
                    assert(old@.contains_key(old.names()[m]));
                }
            }
            if old@.contains_key(k) {
                let m = choose|m: int| 0 <= m < old.nodes@.len() && old.is_file@[m] && old.names()[m] == k;
                if m != i {
                    assert(self@.contains_key(self.names()[m]));
                } else {
                    assert(self@.contains_key(self.names()[i]));
                }
            }
            if k == f {
                assert(self@.contains_key(self.names()[i]));
            }
        }
        assert forall|k: Seq<char>| #[trigger] self@.contains_key(k) implies self@[k] == expected[k] by {
            let m = choose|m: int| 0 <= m < self.nodes@.len() && self.is_file@[m] && self.names()[m] == k;
            if m == i {
                assert(self@[self.names()[i]] == self.row_set(i));
            } else {
                assert(k != f) by {
                    if k == f {
                        assert(old.names().no_duplicates());
                    }
                }
                assert(old@.contains_key(old.names()[m]));
                assert(self.row_set(m) =~= old.row_set(m));
            }
        }
        assert(self@ =~= expected);
    }

    /// The index of the node named `name`, adding it as a name that is not
    /// a file if it is new.
    fn intern(&mut self, name: &String) -> (i: usize)
        requires
            old(self).wf_core(),
        ensures
            final(self).wf_core(),
            final(self).extends(&*old(self)),
            i < final(self).nodes@.len(),
            final(self).names()[i as int] == name@,
            final(self).nodes@.len() <= old(self).nodes@.len() + 1,
            final(self).nodes@.len() > old(self).nodes@.len() ==> i == old(self).nodes@.len(),
    {
        match self.find(name) {
            Some(i) => {
                assert(self.extends(&*old(self)));
                i
            },
            None => {
                let ghost old_names = self.names();
                self.nodes.push(name.clone());
                self.is_file.push(false);
                self.adj.push(Vec::new());
                let n = self.nodes.len();
                assert(self.names() =~= old_names.push(name@));
                assert(self.names().no_duplicates());
                assert forall|k: int| 0 <= k < n implies (#[trigger] self.adj@[k])@.no_duplicates() by {
                    if k < n - 1 {
                        assert(self.adj@[k] == old(self).adj@[k]);
                    }
                }
                assert(self.wf_core());
                assert(self.extends(&*old(self)));
                n - 1
            },
        }
    }
}

/// Adding dependencies in two steps adds their union.
pub proof fn lemma_add_deps_compose(
    g: Map<Seq<char>, Set<Seq<char>>>,
    f: Seq<char>,
    a: Set<Seq<char>>,
    b: Set<Seq<char>>,
)
    ensures
        g_add_deps(g_add_deps(g, f, a), f, b) == g_add_deps(g, f, a.union(b)),
{
    let l = g_add_deps(g_add_deps(g, f, a), f, b);
    let r = g_add_deps(g, f, a.union(b));
    assert(l[f] =~= r[f]);
    assert(l =~= r);
}

impl PathGraph {
    /// Records `file` with the dependencies `deps`.
    fn record(&mut self, file: &String, deps: &Vec<String>)
        requires
            old(self).wf(),
        ensures
            final(self).wf(),
            final(self)@ == g_add_deps(old(self)@, file@, seq_of_strings(deps@).to_set()),
    {
        let ghost s0 = *self;
        let i = self.intern(file);
        proof {
            self.lemma_extends_view(&s0);
        }
        let ghost s1 = *self;
        self.is_file.set(i, true);
        proof {
            assert(self.row_set(i as int) =~= s1.row_set(i as int).union(Set::empty()));
            self.lemma_view_update(&s1, i as int, Set::empty());
            assert(seq_of_strings(deps@.subrange(0, 0)).to_set() =~= Set::<Seq<char>>::empty());
            assert forall|j: int|
                0 <= j < self.nodes@.len() && !(#[trigger] self.is_file@[j]) implies exists|m: int|
                    0 <= m < self.nodes@.len() && self.adj@[m]@.contains(j as usize) by {
                assert(j != i);
                assert(j < s0.nodes@.len());
                assert(!s0.is_file@[j]);
                let m = choose|m: int| 0 <= m < s0.nodes@.len() && s0.adj@[m]@.contains(j as usize);
                assert(self.adj@[m]@ == s0.adj@[m]@);
            }
        }
        let mut t: usize = 0;
        while t < deps.len()
            invariant
                self.wf_core(),
                i < self.nodes@.len(),
                self.names()[i as int] == file@,
                self.is_file@[i as int],
                t <= deps@.len(),
                self@ == g_add_deps(s0@, file@, seq_of_strings(deps@.subrange(0, t as int)).to_set()),
                forall|j: int|
                    0 <= j < self.nodes@.len() && !(#[trigger] self.is_file@[j]) ==> exists|m: int|
                        0 <= m < self.nodes@.len() && self.adj@[m]@.contains(j as usize),
            decreases deps@.len() - t,
        {
            let ghost p = *self;
            let ghost before = seq_of_strings(deps@.subrange(0, t as int)).to_set();
            let j = self.intern(&deps[t]);
            proof {
                self.lemma_extends_view(&p);
                assert forall|k: int|
                    0 <= k < self.nodes@.len() && !(#[trigger] self.is_file@[k]) && k != j implies exists|m: int|
                        0 <= m < self.nodes@.len() && self.adj@[m]@.contains(k as usize) by {
                    assert(k < p.nodes@.len());
                    let m = choose|m: int| 0 <= m < p.nodes@.len() && p.adj@[m]@.contains(k as usize);
                    assert(self.adj@[m]@ == p.adj@[m]@);
                }
            }
            let ghost q = *self;
            let d = deps[t].clone();
            if !row_contains(&self.adj[i], j) {
                let mut row = copy_row(&self.adj[i]);
                row.push(j);
                self.adj.set(i, row);
                proof {
                    assert(self.names() == q.names());
                    assert forall|k: int| 0 <= k < self.nodes@.len() implies (#[trigger] self.adj@[k])@.no_duplicates() by {
                        if k != i {
                            assert(self.adj@[k] == q.adj@[k]);
                        }
                    }
                    assert forall|k: int, u: int|
                        0 <= k < self.nodes@.len() && 0 <= u < self.adj@[k]@.len() implies (#[trigger] self.adj@[k]@[u]) < self.nodes@.len() by {
                        if k != i {
                            assert(self.adj@[k] == q.adj@[k]);
                        } else if u < q.adj@[k]@.len() {
                            assert(self.adj@[k]@[u] == q.adj@[k]@[u]);
                        }
                    }
                    assert(self.wf_core());
                    assert forall|x: Seq<char>| #[trigger] self.row_set(i as int).contains(x) <==> q.row_set(i as int).union(set![d@]).contains(x) by {
                        if self.row_set(i as int).contains(x) {
                            let u = choose|u: int| 0 <= u < self.adj@[i as int]@.len() && self.names()[self.adj@[i as int]@[u] as int] == x;
                            if u < q.adj@[i as int]@.len() {
                                assert(q.adj@[i as int]@[u] == self.adj@[i as int]@[u]);
                            }
                        }
                        if q.row_set(i as int).contains(x) {
                            let u = choose|u: int| 0 <= u < q.adj@[i as int]@.len() && q.names()[q.adj@[i as int]@[u] as int] == x;
                            assert(self.adj@[i as int]@[u] == q.adj@[i as int]@[u]);
                        }
                        if x == d@ {
                            assert(self.adj@[i as int]@[q.adj@[i as int]@.len() as int] == j);
                        }
                    }
                    assert(self.row_set(i as int) =~= q.row_set(i as int).union(set![d@]));
                    self.lemma_view_update(&q, i as int, set![d@]);
                    assert(self.adj@[i as int]@ == q.adj@[i as int]@.push(j));
                    assert(self.adj@[i as int]@[q.adj@[i as int]@.len() as int] == j);
                    assert(self.adj@[i as int]@.contains(j));
                    assert forall|k: int|
                        0 <= k < self.nodes@.len() && !(#[trigger] self.is_file@[k]) implies exists|m: int|
                            0 <= m < self.nodes@.len() && self.adj@[m]@.contains(k as usize) by {
                        if k == j {
                            assert(self.adj@[i as int]@.contains(k as usize));
                        } else {
                            let m = choose|m: int| 0 <= m < q.nodes@.len() && q.adj@[m]@.contains(k as usize);
                            if m == i {
                                let u = choose|u: int| 0 <= u < q.adj@[m]@.len() && q.adj@[m]@[u] == k as usize;
                                assert(self.adj@[m]@[u] == k as usize);
                                assert(self.adj@[m]@.contains(k as usize));
                            } else {
                                assert(self.adj@[m] == q.adj@[m]);
                                assert(self.adj@[m]@.contains(k as usize));
                            }
                        }
                    }
                }
            } else {
                proof {
                    let u = choose|u: int| 0 <= u < q.adj@[i as int]@.len() && q.adj@[i as int]@[u] == j;
                    q.lemma_view_char();
                    assert(q.row_set(i as int).contains(d@));
                    assert(q@[file@].contains(d@));
                    let g = g_add_deps(q@, file@, set![d@]);
                    assert(g[file@] =~= q@[file@]);
                    assert(g =~= q@);
                }
            }
            proof {
                lemma_add_deps_compose(s0@, file@, before, set![d@]);
                let after = seq_of_strings(deps@.subrange(0, t + 1));
                assert(after =~= seq_of_strings(deps@.subrange(0, t as int)).push(d@));
                assert forall|x: Seq<char>| #[trigger] after.to_set().contains(x) <==> before.union(set![d@]).contains(x) by {
                    let pre = seq_of_strings(deps@.subrange(0, t as int));
                    if after.contains(x) {
                        let u = choose|u: int| 0 <= u < after.len() && after[u] == x;
                        if u < pre.len() {
                            assert(pre[u] == x);
                            assert(pre.contains(x));
                        }
                    }
                    if pre.contains(x) {
                        let u = choose|u: int| 0 <= u < pre.len() && pre[u] == x;
                        assert(after[u] == x);
                    }
                    if x == d@ {
                        assert(after[pre.len() as int] == x);
                    }
                }
                assert(after.to_set() =~= before.union(set![d@]));
            }
            t = t + 1;
        }
        proof {
            assert(deps@.subrange(0, deps@.len() as int) =~= deps@);
            assert forall|j: int|
                0 <= j < self.nodes@.len() && !(#[trigger] self.is_file@[j]) implies exists|i: int|
                    0 <= i < self.nodes@.len() && self.adj@[i]@.contains(j as usize) by {
            }
        }
    }
}

/// The number of `false` entries.
pub open spec fn count_false(v: Seq<bool>) -> nat
    decreases v.len(),
{
    if v.len() == 0 {
        0
    } else {
        count_false(v.drop_last()) + (if v.last() { 0nat } else { 1nat })
    }
}

proof fn lemma_count_false_set(v: Seq<bool>, i: int)
    requires
        0 <= i < v.len(),
        !v[i],
    ensures
        count_false(v.update(i, true)) + 1 == count_false(v),
    decreases v.len(),
{
    let w = v.update(i, true);
    if i == v.len() - 1 {
        assert(w.drop_last() =~= v.drop_last());
    } else {
        assert(w.drop_last() =~= v.drop_last().update(i, true));
        lemma_count_false_set(v.drop_last(), i);
    }
}

/// A walk extended by an edge from its end.
proof fn lemma_ipath_push(a: Seq<Seq<usize>>, p: Seq<usize>, j: usize)
    requires
        ipath(a, p),
        iedge(a, p[p.len() - 1], j),
    ensures
        ipath(a, p.push(j)),
{
    let q = p.push(j);
    assert forall|k: int| 0 <= k < q.len() - 1 implies #[trigger] istep(a, q, k) by {
        if k < p.len() - 1 {
            assert(istep(a, p, k));
        }
    }
}

/// Reaching `v` (or being at the start) and an edge `v -> d` reaches `d`.
proof fn lemma_ireach_step(a: Seq<Seq<usize>>, s: usize, v: usize, d: usize)
    requires
        v == s || ireach(a, s, v),
        iedge(a, v, d),
    ensures
        ireach(a, s, d),
{
    if v == s {
        let p = seq![s, d];
        assert(istep(a, p, 0));
        assert(ipath(a, p));
    } else {
        let p = choose|p: Seq<usize>| #[trigger] ipath(a, p) && p.len() >= 2 && p[0] == s && p[p.len() - 1] == v;
        lemma_ipath_push(a, p, d);
        assert(ipath(a, p.push(d)));
    }
}

/// A set closed under edges that holds the start of a walk holds all of it.
proof fn lemma_closed_walk(a: Seq<Seq<usize>>, p: Seq<usize>, vis: Seq<bool>, k: int)
    requires
        ipath(a, p),
        0 <= k < p.len(),
        (p[0] as int) < vis.len(),
        vis[p[0] as int],
        vis.len() == a.len(),
        forall|v: int, t: int|
            0 <= v < vis.len() && vis[v] && 0 <= t < a[v].len() ==> (a[v][t] as int) < vis.len() && vis[#[trigger] a[v][t] as int],
    ensures
        (p[k] as int) < vis.len(),
        vis[p[k] as int],
    decreases k,
{
    if k > 0 {
        lemma_closed_walk(a, p, vis, k - 1);
        assert(istep(a, p, k - 1));
        let v = p[k - 1] as int;
        let t = choose|t: int| 0 <= t < a[v].len() && a[v][t] == p[k];
    }
}

impl PathGraph {
    /// The nodes reachable from node `s` by one or more edges.
    fn reach_from(&self, s: usize) -> (r: Vec<usize>)
        requires
            self.wf_core(),
            s < self.nodes@.len(),
        ensures
            r@.no_duplicates(),
            forall|x: usize| #[trigger] r@.contains(x) <==> (x < self.nodes@.len() && ireach(self.adjs(), s, x)),
    {
        let n = self.nodes.len();
        let ghost a = self.adjs();
        let mut visited: Vec<bool> = Vec::new();
        let mut in_all: Vec<bool> = Vec::new();
        let mut k: usize = 0;
        while k < n
            invariant
                k <= n,
                visited@.len() == k,
                in_all@.len() == k,
                forall|j: int| 0 <= j < k ==> !visited@[j] && !in_all@[j],
            decreases n - k,
        {
            visited.push(false);
            in_all.push(false);
            k = k + 1;
        }
        let mut all: Vec<usize> = Vec::new();
        let mut stack: Vec<usize> = Vec::new();
        stack.push(s);
        proof {
            assert(stack@[0] == s);
            assert forall|v: int| 0 <= v < n implies #[trigger] a[v] == self.adj@[v]@ by {}
        }
        while stack.len() > 0
            invariant
                self.wf_core(),
                n == self.nodes@.len(),
                s < n,
                a == self.adjs(),
                forall|v: int| 0 <= v < n ==> #[trigger] a[v] == self.adj@[v]@,
                visited@.len() == n,
                in_all@.len() == n,
                forall|v: int| 0 <= v < n && #[trigger] visited@[v] ==> v == s || ireach(a, s, v as usize),
                forall|t: int| 0 <= t < stack@.len() ==> (#[trigger] stack@[t]) < n && (stack@[t] == s || ireach(a, s, stack@[t])),
                all@.no_duplicates(),
                forall|v: int| 0 <= v < n ==> (#[trigger] in_all@[v] <==> all@.contains(v as usize)),
                forall|t: int| 0 <= t < all@.len() ==> (#[trigger] all@[t]) < n && ireach(a, s, all@[t]),
                forall|v: int, t: int|
                    0 <= v < n && visited@[v] && 0 <= t < a[v].len() ==> in_all@[#[trigger] a[v][t] as int]
                        && (visited@[a[v][t] as int] || stack@.contains(a[v][t])),
                visited@[s as int] || stack@.contains(s),
            decreases count_false(visited@), stack@.len(),
        {
            let ghost old_stack = stack@;
            let cur = stack.pop().unwrap();
            proof {
                assert(old_stack == stack@.push(cur));
                assert(old_stack[old_stack.len() - 1] == cur);
                assert forall|x: usize| x != cur && old_stack.contains(x) implies stack@.contains(x) by {
                    let t = choose|t: int| 0 <= t < old_stack.len() && old_stack[t] == x;
                    assert(t < stack@.len());
                    assert(stack@[t] == x);
                }
            }
            if !visited[cur] {
                let ghost vis0 = visited@;
                visited.set(cur, true);
                proof {
                    lemma_count_false_set(vis0, cur as int);
                }
                let ghost count_after = count_false(visited@);
                let ghost cur_reach = cur == s || ireach(a, s, cur);
                let mut t: usize = 0;
                let row_len = self.adj[cur].len();
                while t < row_len
                    invariant
                        self.wf_core(),
                        n == self.nodes@.len(),
                        s < n,
                        cur < n,
                        a == self.adjs(),
                        row_len == a[cur as int].len(),
                        forall|v: int| 0 <= v < n ==> #[trigger] a[v] == self.adj@[v]@,
                        cur == s || ireach(a, s, cur),
                        visited@.len() == n,
                        in_all@.len() == n,
                        visited@[cur as int],
                        count_false(visited@) == count_after,
                        t <= row_len,
                        forall|v: int| 0 <= v < n && #[trigger] visited@[v] ==> v == s || ireach(a, s, v as usize),
                        forall|u: int| 0 <= u < stack@.len() ==> (#[trigger] stack@[u]) < n && (stack@[u] == s || ireach(a, s, stack@[u])),
                        all@.no_duplicates(),
                        forall|v: int| 0 <= v < n ==> (#[trigger] in_all@[v] <==> all@.contains(v as usize)),
                        forall|u: int| 0 <= u < all@.len() ==> (#[trigger] all@[u]) < n && ireach(a, s, all@[u]),
                        forall|v: int, u: int|
                            0 <= v < n && visited@[v] && v != cur && 0 <= u < a[v].len() ==> in_all@[#[trigger] a[v][u] as int]
                                && (visited@[a[v][u] as int] || stack@.contains(a[v][u])),
                        forall|u: int|
                            0 <= u < t ==> in_all@[#[trigger] a[cur as int][u] as int]
                                && (visited@[a[cur as int][u] as int] || stack@.contains(a[cur as int][u])),
                        visited@[s as int] || stack@.contains(s),
                    decreases row_len - t,
                {
                    let d = self.adj[cur][t];
                    proof {
                        assert(a[cur as int][t as int] == d);
                        assert(iedge(a, cur, d));
                        lemma_ireach_step(a, s, cur, d);
                    }
                    if !in_all[d] {
                        let ghost all0 = all@;
                        in_all.set(d, true);
                        all.push(d);
                        proof {
                            assert(all@ == all0.push(d));
                            assert forall|v: int| 0 <= v < n implies (#[trigger] in_all@[v] <==> all@.contains(v as usize)) by {
                                if all0.contains(v as usize) {
                                    let u = choose|u: int| 0 <= u < all0.len() && all0[u] == v as usize;
                                    assert(all@[u] == v as usize);
                                }
                                if all@.contains(v as usize) && v as usize != d {
                                    let u = choose|u: int| 0 <= u < all@.len() && all@[u] == v as usize;
                                    assert(u < all0.len());
                                    assert(all0[u] == v as usize);
                                }
                                if v as usize == d {
                                    assert(all@[all0.len() as int] == d);
                                }
                            }
                        }
                    }
                    let ghost st0 = stack@;
                    stack.push(d);
                    proof {
                        assert forall|x: usize| st0.contains(x) implies stack@.contains(x) by {
                            let u = choose|u: int| 0 <= u < st0.len() && st0[u] == x;
                            assert(stack@[u] == x);
                        }
                        assert(stack@[stack@.len() - 1] == d);
                    }
                    t = t + 1;
                }
            }
        }
        proof {
            assert forall|x: usize| x < n && ireach(a, s, x) implies #[trigger] all@.contains(x) by {
                let p = choose|p: Seq<usize>| #[trigger] ipath(a, p) && p.len() >= 2 && p[0] == s && p[p.len() - 1] == x;
                assert forall|v: int, t: int|
                    0 <= v < visited@.len() && visited@[v] && 0 <= t < a[v].len() implies (a[v][t] as int) < visited@.len() && visited@[#[trigger] a[v][t] as int] by {
                    assert(!stack@.contains(a[v][t]));
                }
                lemma_closed_walk(a, p, visited@, p.len() - 2);
                assert(istep(a, p, p.len() - 2));
                let v = p[p.len() - 2] as int;
                let t = choose|t: int| 0 <= t < a[v].len() && a[v][t] == x;
                assert(in_all@[a[v][t] as int]);
            }
            assert forall|x: usize| #[trigger] all@.contains(x) implies (x < n && ireach(a, s, x)) by {
                let t = choose|t: int| 0 <= t < all@.len() && all@[t] == x;
            }
        }
        all
    }
}

impl PathGraph {
    /// The names of the nodes at `idx`, in order.
    fn names_at(&self, idx: &Vec<usize>) -> (r: Vec<String>)
        requires
            self.wf_core(),
            forall|t: int| 0 <= t < idx@.len() ==> (#[trigger] idx@[t]) < self.nodes@.len(),
        ensures
            r@.len() == idx@.len(),
            forall|t: int| 0 <= t < idx@.len() ==> (#[trigger] r@[t])@ == self.names()[idx@[t] as int],
            idx@.no_duplicates() ==> seq_of_strings(r@).no_duplicates(),
    {
        let mut r: Vec<String> = Vec::new();
        let mut t: usize = 0;
        while t < idx.len()
            invariant
                self.wf_core(),
                forall|u: int| 0 <= u < idx@.len() ==> (#[trigger] idx@[u]) < self.nodes@.len(),
                t <= idx@.len(),
                r@.len() == t,
                forall|u: int| 0 <= u < t ==> (#[trigger] r@[u])@ == self.names()[idx@[u] as int],
            decreases idx@.len() - t,
        {
            r.push(self.nodes[idx[t]].clone());
            t = t + 1;
        }
        proof {
            if idx@.no_duplicates() {
                let rs = seq_of_strings(r@);
                assert forall|u: int, w: int| 0 <= u < rs.len() && 0 <= w < rs.len() && u != w implies rs[u] != rs[w] by {
                    assert(rs[u] == self.names()[idx@[u] as int]);
                    assert(rs[w] == self.names()[idx@[w] as int]);
                    assert(idx@[u] != idx@[w]);
                }
            }
        }
        r
    }

    /// All files that `file` depends on, directly or through other files.
    pub fn get_all_dependencies(&self, file: &str) -> (r: Vec<String>)
        requires
            self.wf(),
        ensures
            seq_of_strings(r@).no_duplicates(),
            forall|b: Seq<char>| #[trigger] seq_of_strings(r@).contains(b) <==> g_reaches(self@, file@, b),
    {
        let f = file.to_owned();
        match self.find(&f) {
            None => {
                let r: Vec<String> = Vec::new();
                proof {
                    assert forall|b: Seq<char>| #[trigger] seq_of_strings(r@).contains(b) <==> g_reaches(self@, file@, b) by {
                        if g_reaches(self@, file@, b) {
                            let e = self.lemma_greach_to_ireach(file@, b);
                        }
                    }
                }
                r
            },
            Some(i) => {
                let idx = self.reach_from(i);
                proof {
                    assert forall|t: int| 0 <= t < idx@.len() implies (#[trigger] idx@[t]) < self.nodes@.len() by {
                        assert(idx@.contains(idx@[t]));
                    }
                }
                let r = self.names_at(&idx);
                proof {
                    let rs = seq_of_strings(r@);
                    assert forall|b: Seq<char>| #[trigger] rs.contains(b) <==> g_reaches(self@, file@, b) by {
                        if rs.contains(b) {
                            let t = choose|t: int| 0 <= t < rs.len() && rs[t] == b;
                            assert(idx@.contains(idx@[t]));
                            self.lemma_ireach_to_greach(i, idx@[t]);
                        }
                        if g_reaches(self@, file@, b) {
                            let e = self.lemma_greach_to_ireach(file@, b);
                            self.lemma_index_of(e.0 as int);
                            self.lemma_index_of(i as int);
                            assert(e.0 == i);
                            assert(idx@.contains(e.1));
                            let t = choose|t: int| 0 <= t < idx@.len() && idx@[t] == e.1;
                            assert(rs[t] == b);
                        }
                    }
                }
                r
            },
        }
    }

    /// Whether recording that `file` depends on `new_dep` would close a
    /// cycle: `new_dep` already depends on `file`, directly or not.
    pub fn would_create_cycle(&self, file: &str, new_dep: &str) -> (b: bool)
        requires
            self.wf(),
        ensures
            b == g_reaches(self@, new_dep@, file@),
    {
        let deps = self.get_all_dependencies(new_dep);
        let f = file.to_owned();
        let mut t: usize = 0;
        while t < deps.len()
            invariant
                t <= deps@.len(),
                f@ == file@,
                forall|u: int| 0 <= u < t ==> deps@[u]@ != file@,
                forall|b: Seq<char>| #[trigger] seq_of_strings(deps@).contains(b) <==> g_reaches(self@, new_dep@, b),
            decreases deps@.len() - t,
        {
            if deps[t] == f {
                proof {
                    assert(seq_of_strings(deps@)[t as int] == file@);
                    assert(seq_of_strings(deps@).contains(file@));
                    assert(g_reaches(self@, new_dep@, file@));
                }
                return true;
            }
            t = t + 1;
        }
        proof {
            if seq_of_strings(deps@).contains(file@) {
                let u = choose|u: int| 0 <= u < deps@.len() && seq_of_strings(deps@)[u] == file@;
            }
        }
        false
    }
}

/// The number of `true` entries.
pub open spec fn count_true(v: Seq<bool>) -> nat
    decreases v.len(),
{
    if v.len() == 0 {
        0
    } else {
        count_true(v.drop_last()) + (if v.last() { 1nat } else { 0nat })
    }
}

/// The error that reports the dependency `file -> dep` as closing a cycle.
pub open spec fn is_cycle_error(e: PathGraphError, file: Seq<char>, dep: Seq<char>) -> bool {
    match e {
        PathGraphError::CircularDependency(c) => seq_of_strings(c@) == seq![file, dep, file],
        PathGraphError::FileNotFound(_) => false,
    }
}

fn cycle_error(file: &String, dep: &String) -> (e: PathGraphError)
    ensures
        is_cycle_error(e, file@, dep@),
{
    let mut c: Vec<String> = Vec::new();
    c.push(file.clone());
    c.push(dep.clone());
    c.push(file.clone());
    assert(seq_of_strings(c@) =~= seq![file@, dep@, file@]);
    PathGraphError::CircularDependency(c)
}

impl PathGraph {
    /// The files among the first `m` nodes.
    closed spec fn files_prefix(&self, m: int) -> Set<Seq<char>> {
        Set::new(|k: Seq<char>| exists|i: int| 0 <= i < m && self.is_file@[i] && self.names()[i] == k)
    }

    proof fn lemma_files_prefix(&self, m: int)
        requires
            self.wf_core(),
            0 <= m <= self.nodes@.len(),
        ensures
            self.files_prefix(m).finite(),
            self.files_prefix(m).len() == count_true(self.is_file@.subrange(0, m)),
        decreases m,
    {
        if m == 0 {
            assert(self.files_prefix(0) =~= Set::empty());
        } else {
            self.lemma_files_prefix(m - 1);
            let prev = self.files_prefix(m - 1);
            assert(self.is_file@.subrange(0, m).drop_last() =~= self.is_file@.subrange(0, m - 1));
            if self.is_file@[m - 1] {
                assert(!prev.contains(self.names()[m - 1])) by {
                    if prev.contains(self.names()[m - 1]) {
                        let i = choose|i: int| 0 <= i < m - 1 && self.is_file@[i] && self.names()[i] == self.names()[m - 1];
                        assert(self.names().no_duplicates());
                    }
                }
                assert(self.files_prefix(m) =~= prev.insert(self.names()[m - 1]));
            } else {
                assert(self.files_prefix(m) =~= prev);
            }
        }
    }

    /// Also records `file`, with no dependencies if it is new.
    pub fn add_file(&mut self, file: &str)
        requires
            old(self).wf(),
        ensures
            final(self).wf(),
            final(self)@ == g_add_deps(old(self)@, file@, Set::empty()),
    {
        let f = file.to_owned();
        let none: Vec<String> = Vec::new();
        assert(seq_of_strings(none@).to_set() =~= Set::<Seq<char>>::empty());
        self.record(&f, &none);
    }

    /// Records that `file` depends on `dependency`, unless `dependency`
    /// already depends on `file`, in which case nothing changes and the cycle
    /// `file -> dependency -> file` is reported.
    pub fn add_dependency(&mut self, file: &str, dependency: &str) -> (r: Result<(), PathGraphError>)
        requires
            old(self).wf(),
        ensures
            final(self).wf(),
            r is Ok <==> !g_reaches(old(self)@, dependency@, file@),
            r is Ok ==> final(self)@ == g_add_deps(old(self)@, file@, set![dependency@]),
            r matches Err(e) ==> final(self)@ == old(self)@ && is_cycle_error(e, file@, dependency@),
    {
        let f = file.to_owned();
        let d = dependency.to_owned();
        if self.would_create_cycle(file, dependency) {
            return Err(cycle_error(&f, &d));
        }
        let mut deps: Vec<String> = Vec::new();
        deps.push(d);
        assert(seq_of_strings(deps@) =~= seq![dependency@]);
        assert(seq![dependency@].to_set() =~= set![dependency@]) by {
            assert forall|x: Seq<char>| #[trigger] seq![dependency@].to_set().contains(x) <==> set![dependency@].contains(x) by {
                if x == dependency@ {
                    assert(seq![dependency@][0] == x);
                }
            }
        }
        self.record(&f, &deps);
        Ok(())
    }

    /// Records that `file` depends on each of `deps`, unless one of them
    /// already depends on `file`: then nothing changes and the first such
    /// dependency is reported in the cycle `file -> dependency -> file`.
    pub fn add_fileset(&mut self, file: &str, deps: Vec<String>) -> (r: Result<(), PathGraphError>)
        requires
            old(self).wf(),
        ensures
            final(self).wf(),
            r is Ok <==> forall|k: int| 0 <= k < deps@.len() ==> !g_reaches(old(self)@, #[trigger] deps@[k]@, file@),
            r is Ok ==> final(self)@ == g_add_deps(old(self)@, file@, seq_of_strings(deps@).to_set()),
            r matches Err(e) ==> final(self)@ == old(self)@ && exists|k: int|
                0 <= k < deps@.len() && g_reaches(old(self)@, #[trigger] deps@[k]@, file@)
                    && is_cycle_error(e, file@, deps@[k]@)
                    && forall|j: int| 0 <= j < k ==> !g_reaches(old(self)@, #[trigger] deps@[j]@, file@),
    {
        let f = file.to_owned();
        let mut k: usize = 0;
        while k < deps.len()
            invariant
                self.wf(),
                f@ == file@,
                k <= deps@.len(),
                forall|j: int| 0 <= j < k ==> !g_reaches(self@, #[trigger] deps@[j]@, file@),
            decreases deps@.len() - k,
        {
            if self.would_create_cycle(file, deps[k].as_str()) {
                return Err(cycle_error(&f, &deps[k]));
            }
            k = k + 1;
        }
        self.record(&f, &deps);
        Ok(())
    }

    /// The direct dependencies of `file`, if it is a file of the graph.
    pub fn get_dependencies(&self, file: &str) -> (r: Option<Vec<String>>)
        requires
            self.wf(),
        ensures
            match r {
                None => !self@.contains_key(file@),
                Some(v) => self@.contains_key(file@) && seq_of_strings(v@).no_duplicates()
                    && seq_of_strings(v@).to_set() == self@[file@],
            },
    {
        let f = file.to_owned();
        match self.find(&f) {
            None => {
                proof {
                    self.lemma_view_char();
                    if self@.contains_key(file@) {
                        let i = choose|i: int| 0 <= i < self.nodes@.len() && self.is_file@[i] && self.names()[i] == file@;
                    }
                }
                None
            },
            Some(i) => {
                if !self.is_file[i] {
                    proof {
                        self.lemma_view_char();
                    }
                    return None;
                }
                let r = self.names_at(&self.adj[i]);
                proof {
                    self.lemma_view_char();
                    let rs = seq_of_strings(r@);
                    assert forall|x: Seq<char>| #[trigger] rs.to_set().contains(x) <==> self.row_set(i as int).contains(x) by {
                        if rs.contains(x) {
                            let t = choose|t: int| 0 <= t < rs.len() && rs[t] == x;
                        }
                        if self.row_set(i as int).contains(x) {
                            let t = choose|t: int| 0 <= t < self.adj@[i as int]@.len() && self.names()[self.adj@[i as int]@[t] as int] == x;
                            assert(rs[t] == x);
                        }
                    }
                    assert(rs.to_set() =~= self.row_set(i as int));
                }
                Some(r)
            },
        }
    }

    /// Forgets every file and dependency.
    pub fn clear(&mut self)
        ensures
            final(self).wf(),
            final(self)@ == Map::<Seq<char>, Set<Seq<char>>>::empty(),
    {
        *self = PathGraph::new();
    }

    /// The files of the graph, each once.
    pub fn files(&self) -> (r: Vec<String>)
        requires
            self.wf(),
        ensures
            seq_of_strings(r@).no_duplicates(),
            seq_of_strings(r@).to_set() == self@.dom(),
    {
        let mut out: Vec<String> = Vec::new();
        let mut i: usize = 0;
        while i < self.nodes.len()
            invariant
                self.wf(),
                i <= self.nodes@.len(),
                seq_of_strings(out@).no_duplicates(),
                forall|s: Seq<char>|
                    #[trigger] seq_of_strings(out@).contains(s) <==> exists|k: int|
                        0 <= k < i && self.is_file@[k] && self.names()[k] == s,
            decreases self.nodes@.len() - i,
        {
            if self.is_file[i] {
                let ghost before = seq_of_strings(out@);
                let name = self.nodes[i].clone();
                out.push(name);
                proof {
                    let names = self.names();
                    assert(names[i as int] == self.nodes@[i as int]@);
                    assert(seq_of_strings(out@) =~= before.push(names[i as int]));
                    if before.contains(names[i as int]) {
                        let k = choose|k: int| 0 <= k < i && self.is_file@[k] && names[k] == names[i as int];
                        assert(names.no_duplicates());
                    }
                    assert forall|s: Seq<char>| #[trigger] seq_of_strings(out@).contains(s) <==> exists|k: int|
                        0 <= k < i + 1 && self.is_file@[k] && names[k] == s by {
                        if seq_of_strings(out@).contains(s) {
                            let t = choose|t: int| 0 <= t < seq_of_strings(out@).len() && seq_of_strings(out@)[t] == s;
                            if t < before.len() {
                                assert(before.contains(s));
                            }
                        }
                        if exists|k: int| 0 <= k < i + 1 && self.is_file@[k] && names[k] == s {
                            let k = choose|k: int| 0 <= k < i + 1 && self.is_file@[k] && names[k] == s;
                            if k < i {
                                assert(before.contains(s));
                                let t = choose|t: int| 0 <= t < before.len() && before[t] == s;
                                assert(seq_of_strings(out@)[t] == s);
                            } else {
                                assert(seq_of_strings(out@)[before.len() as int] == s);
                            }
                        }
                    }
                }
            } else {
                proof {
                    let names = self.names();
                    assert forall|s: Seq<char>| #[trigger] seq_of_strings(out@).contains(s) <==> exists|k: int|
                        0 <= k < i + 1 && self.is_file@[k] && names[k] == s by {
                        if exists|k: int| 0 <= k < i + 1 && self.is_file@[k] && names[k] == s {
                            let k = choose|k: int| 0 <= k < i + 1 && self.is_file@[k] && names[k] == s;
                            assert(k < i);
                        }
                    }
                }
            }
            i = i + 1;
        }
        proof {
            self.lemma_view_char();
            let names = self.names();
            assert forall|s: Seq<char>| #[trigger] seq_of_strings(out@).to_set().contains(s) <==> self@.dom().contains(s) by {
                if self@.dom().contains(s) {
                    let k = choose|k: int| 0 <= k < self.nodes@.len() && self.is_file@[k] && names[k] == s;
                    assert(seq_of_strings(out@).contains(s));
                }
                if seq_of_strings(out@).contains(s) {
                    let k = choose|k: int| 0 <= k < self.nodes@.len() && self.is_file@[k] && names[k] == s;
                    assert(self@.contains_key(names[k]));
                }
            }
            assert(seq_of_strings(out@).to_set() =~= self@.dom());
        }
        out
    }

    /// The number of files of the graph.
    pub fn file_count(&self) -> (n: usize)
        requires
            self.wf(),
        ensures
            n == self@.dom().len(),
    {
        let mut c: usize = 0;
        let mut i: usize = 0;
        while i < self.is_file.len()
            invariant
                self.wf(),
                i <= self.is_file@.len(),
                c == count_true(self.is_file@.subrange(0, i as int)),
                c <= i,
            decreases self.is_file@.len() - i,
        {
            proof {
                assert(self.is_file@.subrange(0, i + 1).drop_last() =~= self.is_file@.subrange(0, i as int));
            }
            if self.is_file[i] {
                c = c + 1;
            }
            i = i + 1;
        }
        proof {
            self.lemma_files_prefix(self.nodes@.len() as int);
            self.lemma_view_char();
            assert(self.is_file@.subrange(0, self.nodes@.len() as int) =~= self.is_file@);
            assert(self@.dom() =~= self.files_prefix(self.nodes@.len() as int));
        }
        c
    }
}

proof fn lemma_count_false_mono(v: Seq<bool>, w: Seq<bool>)
    requires
        v.len() == w.len(),
        forall|i: int| 0 <= i < v.len() && #[trigger] v[i] ==> w[i],
    ensures
        count_false(w) <= count_false(v),
    decreases v.len(),
{
    if v.len() > 0 {
        lemma_count_false_mono(v.drop_last(), w.drop_last());
    }
}

/// A node that has been explored completely.
pub open spec fn finished(vis: Seq<bool>, st: Seq<bool>, v: int) -> bool {
    vis[v] && !st[v]
}

/// Finished nodes only depend on finished nodes, which finished earlier.
pub open spec fn dfs_closed(a: Seq<Seq<usize>>, vis: Seq<bool>, st: Seq<bool>, fin: Seq<int>, clock: int) -> bool {
    forall|v: int|
        0 <= v < vis.len() && #[trigger] finished(vis, st, v) ==> fin[v] < clock && forall|t: int|
            0 <= t < a[v].len() ==> finished(vis, st, #[trigger] a[v][t] as int) && fin[a[v][t] as int]
                < fin[v]
}

/// The stack of the search: a walk of visited nodes, each once, exactly
/// the nodes marked as on the stack.
pub open spec fn dfs_stack(a: Seq<Seq<usize>>, vis: Seq<bool>, st: Seq<bool>, path: Seq<usize>) -> bool {
    &&& path.no_duplicates()
    &&& forall|t: int| 0 <= t < path.len() ==> (#[trigger] path[t] as int) < vis.len() && vis[path[t] as int]
    &&& forall|v: int| 0 <= v < st.len() ==> (#[trigger] st[v] <==> path.contains(v as usize))
    &&& forall|v: int| 0 <= v < st.len() && #[trigger] st[v] ==> vis[v]
    &&& path.len() > 0 ==> ipath(a, path)
}

/// A closed walk of at least one index edge.
pub open spec fn icycle(a: Seq<Seq<usize>>, c: Seq<usize>) -> bool {
    ipath(a, c) && c.len() >= 2 && c[0] == c[c.len() - 1]
}

proof fn lemma_ipath_suffix(a: Seq<Seq<usize>>, p: Seq<usize>, k: int)
    requires
        ipath(a, p),
        0 <= k < p.len(),
    ensures
        ipath(a, p.subrange(k, p.len() as int)),
{
    let q = p.subrange(k, p.len() as int);
    assert forall|j: int| 0 <= j < q.len() - 1 implies #[trigger] istep(a, q, j) by {
        assert(istep(a, p, k + j));
    }
}

/// Along a walk from a finished node, finish times strictly decrease.
proof fn lemma_finished_walk(a: Seq<Seq<usize>>, vis: Seq<bool>, st: Seq<bool>, fin: Seq<int>, clock: int, p: Seq<usize>, k: int)
    requires
        ipath(a, p),
        forall|v: int, t: int| 0 <= v < a.len() && 0 <= t < a[v].len() ==> (#[trigger] a[v][t] as int) < a.len(),
        dfs_closed(a, vis, st, fin, clock),
        vis.len() == a.len(),
        st.len() == a.len(),
        (p[0] as int) < vis.len(),
        finished(vis, st, p[0] as int),
        1 <= k < p.len(),
    ensures
        (p[k] as int) < vis.len(),
        finished(vis, st, p[k] as int),
        fin[p[k] as int] < fin[p[0] as int],
    decreases k,
{
    if k > 1 {
        lemma_finished_walk(a, vis, st, fin, clock, p, k - 1);
    }
    assert(istep(a, p, k - 1));
    let v = p[k - 1] as int;
    let t = choose|t: int| 0 <= t < a[v].len() && a[v][t] == p[k];
    assert(finished(vis, st, a[v][t] as int));
}

impl PathGraph {
    /// Depth-first search from `node`; on success `node` and everything it
    /// reaches is finished, otherwise a cycle is returned.
    fn dfs_find_cycle(
        &self,
        node: usize,
        visited: &mut Vec<bool>,
        on_stack: &mut Vec<bool>,
        path: &mut Vec<usize>,
        fin: Ghost<Seq<int>>,
        clock: Ghost<int>,
    ) -> (r: (Option<Vec<usize>>, Ghost<Seq<int>>, Ghost<int>))
        requires
            self.wf_core(),
            node < self.nodes@.len(),
            old(visited)@.len() == self.nodes@.len(),
            old(on_stack)@.len() == self.nodes@.len(),
            fin@.len() == self.nodes@.len(),
            !old(visited)@[node as int],
            old(path)@.len() > 0 ==> iedge(self.adjs(), old(path)@[old(path)@.len() - 1], node),
            dfs_closed(self.adjs(), old(visited)@, old(on_stack)@, fin@, clock@),
            dfs_stack(self.adjs(), old(visited)@, old(on_stack)@, old(path)@),
        ensures
            match r.0 {
                Some(c) => icycle(self.adjs(), c@) && forall|t: int| 0 <= t < c@.len() ==> (#[trigger] c@[t]) < self.nodes@.len(),
                None => {
                    &&& final(visited)@.len() == self.nodes@.len()
                    &&& final(on_stack)@ == old(on_stack)@
                    &&& final(path)@ == old(path)@
                    &&& r.1@.len() == self.nodes@.len()
                    &&& finished(final(visited)@, final(on_stack)@, node as int)
                    &&& forall|v: int| 0 <= v < self.nodes@.len() && #[trigger] old(visited)@[v] ==> final(visited)@[v]
                    &&& forall|v: int| 0 <= v < self.nodes@.len() && #[trigger] finished(old(visited)@, old(on_stack)@, v) ==> r.1@[v] == fin@[v]
                    &&& r.2@ >= clock@
                    &&& dfs_closed(self.adjs(), final(visited)@, final(on_stack)@, r.1@, r.2@)
                    &&& dfs_stack(self.adjs(), final(visited)@, final(on_stack)@, final(path)@)
                },
            },
        decreases count_false(old(visited)@),
    {
        let ghost a = self.adjs();
        let ghost n = self.nodes@.len();
        let ghost vis0 = visited@;
        let ghost st0 = on_stack@;
        let ghost path0 = path@;
        visited.set(node, true);
        on_stack.set(node, true);
        path.push(node);
        proof {
            lemma_count_false_set(vis0, node as int);
            assert(a[node as int] == self.adj@[node as int]@);
            assert(!path0.contains(node)) by {
                if path0.contains(node) {
                    let t = choose|t: int| 0 <= t < path0.len() && path0[t] == node;
                }
            }
            assert(path@ == path0.push(node));
            assert forall|v: int| 0 <= v < on_stack@.len() implies (#[trigger] on_stack@[v] <==> path@.contains(v as usize)) by {
                if v as usize == node {
                    assert(path@[path0.len() as int] == node);
                } else {
                    if path0.contains(v as usize) {
                        let t = choose|t: int| 0 <= t < path0.len() && path0[t] == v as usize;
                        assert(path@[t] == v as usize);
                    }
                    if path@.contains(v as usize) {
                        let t = choose|t: int| 0 <= t < path@.len() && path@[t] == v as usize;
                        assert(path0[t] == v as usize);
                    }
                }
            }
            if path0.len() > 0 {
                lemma_ipath_push(a, path0, node);
            } else {
                assert(ipath(a, path@));
            }
            assert(dfs_stack(a, visited@, on_stack@, path@));
            assert forall|v: int| 0 <= v < n && #[trigger] finished(visited@, on_stack@, v) implies finished(vis0, st0, v) by {}
            assert(dfs_closed(a, visited@, on_stack@, fin@, clock@));
        }
        let ghost mut fin_cur = fin@;
        let ghost mut clock_cur = clock@;
        let row_len = self.adj[node].len();
        let mut t: usize = 0;
        while t < row_len
            invariant
                self.wf_core(),
                a == self.adjs(),
                n == self.nodes@.len(),
                node < n,
                a[node as int] == self.adj@[node as int]@,
                row_len == a[node as int].len(),
                t <= row_len,
                visited@.len() == n,
                on_stack@.len() == n,
                vis0.len() == n,
                vis0 == old(visited)@,
                !vis0[node as int],
                st0.len() == n,
                fin@.len() == n,
                fin_cur.len() == n,
                visited@[node as int],
                on_stack@ == st0.update(node as int, true),
                path@ == path0.push(node),
                count_false(visited@) < count_false(vis0),
                forall|v: int| 0 <= v < n && #[trigger] vis0[v] ==> visited@[v],
                forall|v: int| 0 <= v < n && #[trigger] finished(vis0, st0, v) ==> fin_cur[v] == fin@[v],
                clock_cur >= clock@,
                dfs_closed(a, visited@, on_stack@, fin_cur, clock_cur),
                dfs_stack(a, visited@, on_stack@, path@),
                forall|u: int| 0 <= u < t ==> finished(visited@, on_stack@, #[trigger] a[node as int][u] as int) && fin_cur[a[node as int][u] as int] < clock_cur,
            decreases row_len - t,
        {
            let dep = self.adj[node][t];
            proof {
                assert(a[node as int][t as int] == dep);
                assert(dep < n);
            }
            if !visited[dep] {
                let ghost vis1 = visited@;
                let ghost st1 = on_stack@;
                proof {
                    assert(path@[path@.len() - 1] == node);
                    assert(iedge(a, node, dep));
                }
                let (res, fin2, clock2) = self.dfs_find_cycle(dep, visited, on_stack, path, Ghost(fin_cur), Ghost(clock_cur));
                match res {
                    Some(c) => {
                        return (Some(c), fin2, clock2);
                    },
                    None => {
                        proof {
                            lemma_count_false_mono(vis1, visited@);
                            assert forall|u: int| 0 <= u < t + 1 implies finished(visited@, on_stack@, #[trigger] a[node as int][u] as int) && fin2@[a[node as int][u] as int] < clock2@ by {
                                if u < t {
                                    let w = a[node as int][u] as int;
                                    assert(finished(vis1, st1, w));
                                }
                            }
                            assert forall|v: int| 0 <= v < n && #[trigger] finished(vis0, st0, v) implies fin2@[v] == fin@[v] by {
                                assert(vis1[v]);
                                assert(v != node as int);
                                assert(st1[v] == st0[v]);
                                assert(finished(vis1, st1, v));
                            }
                            fin_cur = fin2@;
                            clock_cur = clock2@;
                        }
                    },
                }
            } else if on_stack[dep] {
                // `dep` is on the stack: the stack from `dep` on, back to `dep`, is a cycle.
                let mut k: usize = 0;
                while k < path.len() && path[k] != dep
                    invariant
                        path@.contains(dep),
                        k <= path@.len(),
                        forall|u: int| 0 <= u < k ==> path@[u] != dep,
                    decreases path@.len() - k,
                {
                    k = k + 1;
                }
                proof {
                    if k == path@.len() {
                        let u = choose|u: int| 0 <= u < path@.len() && path@[u] == dep;
                    }
                }
                let mut c: Vec<usize> = Vec::new();
                let mut m: usize = k;
                while m < path.len()
                    invariant
                        k <= m <= path@.len(),
                        c@ == path@.subrange(k as int, m as int),
                    decreases path@.len() - m,
                {
                    c.push(path[m]);
                    m = m + 1;
                }
                let ghost suffix = c@;
                c.push(dep);
                proof {
                    assert(path@.len() > 0);
                    lemma_ipath_suffix(a, path@, k as int);
                    assert(suffix == path@.subrange(k as int, path@.len() as int));
                    assert(suffix[suffix.len() - 1] == node);
                    assert(iedge(a, node, dep));
                    lemma_ipath_push(a, suffix, dep);
                    assert(c@ == suffix.push(dep));
                    assert(c@[0] == dep);
                    assert forall|u: int| 0 <= u < c@.len() implies (#[trigger] c@[u]) < self.nodes@.len() by {
                        if u < suffix.len() {
                            assert(c@[u] == path@[k + u]);
                        }
                    }
                }
                return (Some(c), Ghost(fin_cur), Ghost(clock_cur));
            } else {
                proof {
                    assert(finished(visited@, on_stack@, dep as int));
                }
            }
            t = t + 1;
        }
        path.pop();
        on_stack.set(node, false);
        proof {
            assert(on_stack@ =~= st0);
            assert(path@ =~= path0);
            let fin_new = fin_cur.update(node as int, clock_cur);
            let clock_new = clock_cur + 1;
            assert forall|v: int| 0 <= v < n && #[trigger] finished(visited@, on_stack@, v) implies fin_new[v] < clock_new && forall|u: int|
                0 <= u < a[v].len() ==> finished(visited@, on_stack@, #[trigger] a[v][u] as int) && fin_new[a[v][u] as int] < fin_new[v] by {
                if v == node as int {
                    assert forall|u: int| 0 <= u < a[v].len() implies finished(visited@, on_stack@, #[trigger] a[v][u] as int) && fin_new[a[v][u] as int] < fin_new[v] by {
                        let w = a[v][u] as int;
                        assert(finished(visited@, st0.update(node as int, true), w));
                    }
                } else {
                    assert(finished(visited@, st0.update(node as int, true), v));
                    assert forall|u: int| 0 <= u < a[v].len() implies finished(visited@, on_stack@, #[trigger] a[v][u] as int) && fin_new[a[v][u] as int] < fin_new[v] by {
                        let w = a[v][u] as int;
                        assert(finished(visited@, st0.update(node as int, true), w));
                    }
                }
            }
            assert(dfs_closed(a, visited@, on_stack@, fin_new, clock_new));
            assert forall|v: int| 0 <= v < n && #[trigger] finished(vis0, st0, v) implies fin_new[v] == fin@[v] by {
                assert(v != node as int);
            }
            assert(dfs_stack(a, visited@, on_stack@, path@));
        }
        (None, Ghost(fin_cur.update(node as int, clock_cur)), Ghost(clock_cur + 1))
    }
}

impl PathGraph {
    /// An index walk read by name is a walk of the graph.
    proof fn lemma_ipath_to_gpath(&self, p: Seq<usize>)
        requires
            self.wf_core(),
            ipath(self.adjs(), p),
            forall|t: int| 0 <= t < p.len() ==> (#[trigger] p[t]) < self.nodes@.len(),
        ensures
            g_is_path(self@, p.map_values(|x: usize| self.names()[x as int])),
    {
        let a = self.adjs();
        let q = p.map_values(|x: usize| self.names()[x as int]);
        assert forall|k: int| 0 <= k < q.len() - 1 implies #[trigger] g_step(self@, q, k) by {
            assert(istep(a, p, k));
            assert(a[p[k] as int] == self.adj@[p[k] as int]@);
            self.lemma_view_edge(p[k], p[k + 1]);
        }
    }

    proof fn lemma_adjs_bounded(&self)
        requires
            self.wf_core(),
        ensures
            forall|v: int, t: int|
                0 <= v < self.adjs().len() && 0 <= t < self.adjs()[v].len() ==> (#[trigger] self.adjs()[v][t] as int) < self.adjs().len(),
            self.adjs().len() == self.nodes@.len(),
            forall|v: int| 0 <= v < self.nodes@.len() ==> #[trigger] self.adjs()[v] == self.adj@[v]@,
    {
    }

    /// Looks for a cycle among the files and their dependencies.
    pub fn check_for_cycles(&self) -> (r: CycleCheckResult)
        requires
            self.wf(),
        ensures
            match r {
                CycleCheckResult::NoCycle => g_acyclic(self@),
                CycleCheckResult::Cycle(c) => g_is_cycle(self@, seq_of_strings(c@)),
            },
    {
        let n = self.nodes.len();
        let ghost a = self.adjs();
        let mut visited: Vec<bool> = Vec::new();
        let mut on_stack: Vec<bool> = Vec::new();
        let mut k: usize = 0;
        while k < n
            invariant
                k <= n,
                visited@.len() == k,
                on_stack@.len() == k,
                forall|j: int| 0 <= j < k ==> !visited@[j] && !on_stack@[j],
            decreases n - k,
        {
            visited.push(false);
            on_stack.push(false);
            k = k + 1;
        }
        let mut path: Vec<usize> = Vec::new();
        let ghost mut fin: Seq<int> = Seq::new(n as nat, |i: int| 0int);
        let ghost mut clock: int = 0;
        proof {
            self.lemma_adjs_bounded();
        }
        let mut i: usize = 0;
        while i < n
            invariant
                self.wf(),
                a == self.adjs(),
                n == self.nodes@.len(),
                i <= n,
                visited@.len() == n,
                on_stack@.len() == n,
                fin.len() == n,
                path@.len() == 0,
                forall|j: int| 0 <= j < n ==> !(#[trigger] on_stack@[j]),
                forall|j: int| 0 <= j < i && #[trigger] self.is_file@[j] ==> visited@[j],
                dfs_closed(a, visited@, on_stack@, fin, clock),
                dfs_stack(a, visited@, on_stack@, path@),
            decreases n - i,
        {
            if self.is_file[i] && !visited[i] {
                let ghost vis1 = visited@;
                proof {
                    assert(path@ =~= Seq::<usize>::empty());
                }
                let (res, fin2, clock2) = self.dfs_find_cycle(i, &mut visited, &mut on_stack, &mut path, Ghost(fin), Ghost(clock));
                match res {
                    Some(c) => {
                        let names = self.names_at(&c);
                        proof {
                            self.lemma_ipath_to_gpath(c@);
                            assert(seq_of_strings(names@) =~= c@.map_values(|x: usize| self.names()[x as int]));
                        }
                        return CycleCheckResult::Cycle(names);
                    },
                    None => {
                        proof {
                            fin = fin2@;
                            clock = clock2@;
                        }
                    },
                }
            }
            i = i + 1;
        }
        proof {
            assert forall|x: Seq<char>| !#[trigger] g_reaches(self@, x, x) by {
                if g_reaches(self@, x, x) {
                    let e = self.lemma_greach_to_ireach(x, x);
                    self.lemma_index_of(e.0 as int);
                    self.lemma_index_of(e.1 as int);
                    assert(e.0 == e.1);
                    let p = choose|p: Seq<usize>| #[trigger] ipath(a, p) && p.len() >= 2 && p[0] == e.0 && p[p.len() - 1] == e.1;
                    assert(istep(a, p, 0));
                    let v = p[0] as int;
                    assert(self.adj@[v]@.len() > 0);
                    assert(self.is_file@[v]);
                    assert(finished(visited@, on_stack@, v));
                    lemma_finished_walk(a, visited@, on_stack@, fin, clock, p, p.len() - 1);
                }
            }
        }
        CycleCheckResult::NoCycle
    }
}

/// The number of nodes among the first `m` that have the edge `x -> w` and
/// are not yet output.
pub open spec fn pred_count(a: Seq<Seq<usize>>, w: usize, out: Seq<bool>, m: int) -> nat
    decreases m,
{
    if m <= 0 {
        0
    } else {
        pred_count(a, w, out, m - 1) + (if !out[m - 1] && a[m - 1].contains(w) { 1nat } else { 0nat })
    }
}

proof fn lemma_pred_count_le(a: Seq<Seq<usize>>, w: usize, out: Seq<bool>, m: int)
    requires
        m >= 0,
    ensures
        pred_count(a, w, out, m) <= m,
    decreases m,
{
    if m > 0 {
        lemma_pred_count_le(a, w, out, m - 1);
    }
}

proof fn lemma_pred_count_output(a: Seq<Seq<usize>>, w: usize, out: Seq<bool>, u: int, m: int)
    requires
        0 <= u < out.len(),
        !out[u],
        0 <= m <= out.len(),
    ensures
        pred_count(a, w, out.update(u, true), m) + (if u < m && a[u].contains(w) { 1nat } else { 0nat })
            == pred_count(a, w, out, m),
    decreases m,
{
    if m > 0 {
        lemma_pred_count_output(a, w, out, u, m - 1);
    }
}

proof fn lemma_pred_count_zero(a: Seq<Seq<usize>>, w: usize, out: Seq<bool>, m: int, x: int)
    requires
        pred_count(a, w, out, m) == 0,
        0 <= x < m,
        a[x].contains(w),
    ensures
        out[x],
    decreases m,
{
    if x < m - 1 {
        lemma_pred_count_zero(a, w, out, m - 1, x);
    }
}

proof fn lemma_pred_count_pos(a: Seq<Seq<usize>>, w: usize, out: Seq<bool>, m: int) -> (x: int)
    requires
        pred_count(a, w, out, m) > 0,
    ensures
        0 <= x < m,
        !out[x],
        a[x].contains(w),
    decreases m,
{
    if !out[m - 1] && a[m - 1].contains(w) {
        m - 1
    } else {
        lemma_pred_count_pos(a, w, out, m - 1)
    }
}

/// A walk of `len` edges into `w` through nodes not yet output, when every
/// node that is not output has such a predecessor.
proof fn lemma_backward_walk(a: Seq<Seq<usize>>, out: Seq<bool>, n: int, w: usize, len: nat) -> (q: Seq<usize>)
    requires
        a.len() == n,
        n <= usize::MAX,
        out.len() == n,
        (w as int) < n,
        !out[w as int],
        forall|y: usize| (y as int) < n && !out[y as int] ==> #[trigger] pred_count(a, y, out, n) > 0,
    ensures
        q.len() == len + 1,
        ipath(a, q),
        q[q.len() - 1] == w,
        forall|t: int| 0 <= t < q.len() ==> (#[trigger] q[t] as int) < n && !out[q[t] as int],
    decreases len,
{
    if len == 0 {
        seq![w]
    } else {
        let q0 = lemma_backward_walk(a, out, n, w, (len - 1) as nat);
        let y = q0[0];
        assert((y as int) < n && !out[y as int]);
        assert(pred_count(a, y, out, n) > 0);
        let x = lemma_pred_count_pos(a, y, out, n);
        let q = seq![x as usize].add(q0);
        assert forall|k: int| 0 <= k < q.len() - 1 implies #[trigger] istep(a, q, k) by {
            if k > 0 {
                assert(istep(a, q0, k - 1));
                assert(q[k] == q0[k - 1]);
                assert(q[k + 1] == q0[k]);
            } else {
                assert(q[0] == x as usize);
                assert(q[1] == y);
                assert(iedge(a, x as usize, y));
            }
        }
        assert forall|t: int| 0 <= t < q.len() implies (#[trigger] q[t] as int) < n && !out[q[t] as int] by {
            if t > 0 {
                assert(q[t] == q0[t - 1]);
            }
        }
        q
    }
}

/// A sequence longer than `m` of numbers below `m` repeats a number.
proof fn lemma_pigeonhole(q: Seq<usize>, m: int) -> (r: (int, int))
    requires
        q.len() > m,
        m >= 0,
        forall|t: int| 0 <= t < q.len() ==> (#[trigger] q[t] as int) < m,
    ensures
        0 <= r.0 < r.1 < q.len(),
        q[r.0] == q[r.1],
{
    let qi = q.map_values(|x: usize| x as int);
    if qi.no_duplicates() {
        qi.unique_seq_to_set();
        assert(qi.to_set().subset_of(vstd::set_lib::set_int_range(0, m)));
        vstd::set_lib::lemma_int_range(0, m);
        vstd::set_lib::lemma_len_subset(qi.to_set(), vstd::set_lib::set_int_range(0, m));
        assert(false);
        (0, 0)
    } else {
        let (i, j) = choose|i: int, j: int| 0 <= i < qi.len() && 0 <= j < qi.len() && i != j && qi[i] == qi[j];
        if i < j { (i, j) } else { (j, i) }
    }
}

impl PathGraph {
    /// Without cycles in the graph there are no index cycles.
    proof fn lemma_acyclic_index(&self, i: usize)
        requires
            self.wf_core(),
            g_acyclic(self@),
            i < self.nodes@.len(),
        ensures
            !ireach(self.adjs(), i, i),
    {
        if ireach(self.adjs(), i, i) {
            self.lemma_ireach_to_greach(i, i);
            assert(g_reaches(self@, self.names()[i as int], self.names()[i as int]));
        }
    }

    /// Kahn's algorithm on the index graph, given that it has no cycle.
    fn kahn(&self) -> (r: Vec<usize>)
        requires
            self.wf_core(),
            forall|i: usize| i < self.nodes@.len() ==> !#[trigger] ireach(self.adjs(), i, i),
        ensures
            r@.no_duplicates(),
            forall|t: int| 0 <= t < r@.len() ==> (#[trigger] r@[t]) < self.nodes@.len(),
            forall|w: usize| w < self.nodes@.len() ==> #[trigger] r@.contains(w),
            forall|i: int, j: int|
                0 <= i < r@.len() && 0 <= j < r@.len() && #[trigger] iedge(self.adjs(), r@[i], r@[j]) ==> i < j,
    {
        let n = self.nodes.len();
        let ghost a = self.adjs();
        proof {
            self.lemma_adjs_bounded();
        }
        let ghost none: Seq<bool> = Seq::new(n as nat, |i: int| false);
        let mut in_deg: Vec<usize> = Vec::new();
        let mut out: Vec<bool> = Vec::new();
        let mut k: usize = 0;
        while k < n
            invariant
                k <= n,
                in_deg@.len() == k,
                out@.len() == k,
                forall|j: int| 0 <= j < k ==> in_deg@[j] == 0 && !out@[j],
            decreases n - k,
        {
            in_deg.push(0);
            out.push(false);
            k = k + 1;
        }
        assert(out@ =~= none);
        let mut v: usize = 0;
        while v < n
            invariant
                self.wf_core(),
                a == self.adjs(),
                n == self.nodes@.len(),
                a.len() == n,
                forall|x: int| 0 <= x < n ==> #[trigger] a[x] == self.adj@[x]@,
                forall|x: int, t: int| 0 <= x < a.len() && 0 <= t < a[x].len() ==> (#[trigger] a[x][t] as int) < a.len(),
                v <= n,
                in_deg@.len() == n,
                none.len() == n,
                forall|i: int| 0 <= i < n ==> !(#[trigger] none[i]),
                forall|w: int| 0 <= w < n ==> #[trigger] in_deg@[w] == pred_count(a, w as usize, none, v as int),
            decreases n - v,
        {
            let row_len = self.adj[v].len();
            let mut t: usize = 0;
            while t < row_len
                invariant
                    self.wf_core(),
                    a == self.adjs(),
                    n == self.nodes@.len(),
                    a.len() == n,
                    forall|x: int| 0 <= x < n ==> #[trigger] a[x] == self.adj@[x]@,
                    forall|x: int, t2: int| 0 <= x < a.len() && 0 <= t2 < a[x].len() ==> (#[trigger] a[x][t2] as int) < a.len(),
                    v < n,
                    row_len == a[v as int].len(),
                    t <= row_len,
                    in_deg@.len() == n,
                    none.len() == n,
                    forall|w: int| 0 <= w < n ==> #[trigger] in_deg@[w] == pred_count(a, w as usize, none, v as int)
                        + (if a[v as int].subrange(0, t as int).contains(w as usize) { 1nat } else { 0nat }),
                decreases row_len - t,
            {
                let d = self.adj[v][t];
                proof {
                    assert(a[v as int][t as int] == d);
                    lemma_pred_count_le(a, d, none, v as int);
                    assert(!a[v as int].subrange(0, t as int).contains(d)) by {
                        if a[v as int].subrange(0, t as int).contains(d) {
                            let u = choose|u: int| 0 <= u < t && a[v as int].subrange(0, t as int)[u] == d;
                            assert(a[v as int][u] == a[v as int][t as int]);
                            assert(self.adj@[v as int]@.no_duplicates());
                        }
                    }
                }
                let cur = in_deg[d];
                in_deg.set(d, cur + 1);
                proof {
                    assert forall|w: int| 0 <= w < n implies #[trigger] in_deg@[w] == pred_count(a, w as usize, none, v as int)
                        + (if a[v as int].subrange(0, t + 1).contains(w as usize) { 1nat } else { 0nat }) by {
                        let s0 = a[v as int].subrange(0, t as int);
                        let s1 = a[v as int].subrange(0, t + 1);
                        assert(s1 =~= s0.push(d));
                        if s0.contains(w as usize) {
                            let u = choose|u: int| 0 <= u < s0.len() && s0[u] == w as usize;
                            assert(s1[u] == w as usize);
                        }
                        if s1.contains(w as usize) && w as usize != d {
                            let u = choose|u: int| 0 <= u < s1.len() && s1[u] == w as usize;
                            assert(s0[u] == w as usize);
                        }
                        if w as usize == d {
                            assert(s1[t as int] == d);
                        }
                    }
                }
                t = t + 1;
            }
            proof {
                assert(a[v as int].subrange(0, row_len as int) =~= a[v as int]);
                assert forall|w: int| 0 <= w < n implies #[trigger] in_deg@[w] == pred_count(a, w as usize, none, v + 1) by {
                    assert(pred_count(a, w as usize, none, v + 1) == pred_count(a, w as usize, none, v as int)
                        + (if !none[v as int] && a[v as int].contains(w as usize) { 1nat } else { 0nat }));
                }
            }
            v = v + 1;
        }
        let mut queue: Vec<usize> = Vec::new();
        let mut w: usize = 0;
        while w < n
            invariant
                n == self.nodes@.len(),
                w <= n,
                in_deg@.len() == n,
                out@.len() == n,
                forall|x: int| 0 <= x < n ==> !(#[trigger] out@[x]),
                queue@.no_duplicates(),
                forall|u: int| 0 <= u < queue@.len() ==> (#[trigger] queue@[u]) < w && in_deg@[queue@[u] as int] == 0,
                forall|x: usize| x < w && in_deg@[x as int] == 0 ==> #[trigger] queue@.contains(x),
            decreases n - w,
        {
            if in_deg[w] == 0 {
                let ghost q0 = queue@;
                queue.push(w);
                proof {
                    assert(queue@ == q0.push(w));
                    assert forall|x: usize| x < w + 1 && in_deg@[x as int] == 0 implies #[trigger] queue@.contains(x) by {
                        if x < w {
                            assert(q0.contains(x));
                            let u = choose|u: int| 0 <= u < q0.len() && q0[u] == x;
                            assert(queue@[u] == x);
                        } else {
                            assert(queue@[q0.len() as int] == x);
                        }
                    }
                }
            }
            w = w + 1;
        }
        let mut result: Vec<usize> = Vec::new();
        while queue.len() > 0
            invariant
                self.wf_core(),
                a == self.adjs(),
                n == self.nodes@.len(),
                a.len() == n,
                forall|x: int| 0 <= x < n ==> #[trigger] a[x] == self.adj@[x]@,
                forall|x: int, t: int| 0 <= x < a.len() && 0 <= t < a[x].len() ==> (#[trigger] a[x][t] as int) < a.len(),
                in_deg@.len() == n,
                out@.len() == n,
                forall|x: int| 0 <= x < n ==> #[trigger] in_deg@[x] == pred_count(a, x as usize, out@, n as int),
                queue@.no_duplicates(),
                forall|u: int| 0 <= u < queue@.len() ==> (#[trigger] queue@[u]) < n && !out@[queue@[u] as int] && in_deg@[queue@[u] as int] == 0,
                forall|x: usize| x < n && !out@[x as int] && in_deg@[x as int] == 0 ==> #[trigger] queue@.contains(x),
                result@.no_duplicates(),
                forall|t: int| 0 <= t < result@.len() ==> (#[trigger] result@[t]) < n,
                forall|x: int| 0 <= x < n ==> (#[trigger] out@[x] <==> result@.contains(x as usize)),
                forall|y: int, x: int| 0 <= y < n && 0 <= x < n && out@[y] && #[trigger] a[x].contains(y as usize) ==> out@[x],
                forall|i: int, j: int|
                    0 <= i < result@.len() && 0 <= j < result@.len() && #[trigger] iedge(a, result@[i], result@[j]) ==> i < j,
            decreases count_false(out@), queue@.len(),
        {
            let ghost q_before = queue@;
            let u = queue.pop().unwrap();
            let ghost out0 = out@;
            let ghost res0 = result@;
            proof {
                assert(q_before == queue@.push(u));
                assert(q_before[q_before.len() - 1] == u);
                assert(!out0[u as int]);
                assert(pred_count(a, u, out0, n as int) == 0);
                assert forall|x: int| 0 <= x < n && a[x].contains(u) implies out0[x] by {
                    lemma_pred_count_zero(a, u, out0, n as int, x);
                }
                assert forall|x: usize| #[trigger] queue@.contains(x) implies q_before.contains(x) && x != u by {
                    let t = choose|t: int| 0 <= t < queue@.len() && queue@[t] == x;
                    assert(q_before[t] == x);
                }
                lemma_count_false_set(out0, u as int);
            }
            result.push(u);
            out.set(u, true);
            proof {
                assert(result@ == res0.push(u));
                assert(!res0.contains(u));
                assert forall|x: int| 0 <= x < n implies (#[trigger] out@[x] <==> result@.contains(x as usize)) by {
                    if res0.contains(x as usize) {
                        let t = choose|t: int| 0 <= t < res0.len() && res0[t] == x as usize;
                        assert(result@[t] == x as usize);
                    }
                    if result@.contains(x as usize) && x as usize != u {
                        let t = choose|t: int| 0 <= t < result@.len() && result@[t] == x as usize;
                        assert(res0[t] == x as usize);
                    }
                    if x as usize == u {
                        assert(result@[res0.len() as int] == u);
                    }
                }
                assert forall|i: int, j: int|
                    0 <= i < result@.len() && 0 <= j < result@.len() && #[trigger] iedge(a, result@[i], result@[j]) implies i < j by {
                    if j == res0.len() as int && i == j {
                        assert(a[u as int].contains(u));
                    } else if i == res0.len() as int {
                        let y = result@[j];
                        assert(res0.contains(y));
                        assert(out0[y as int]);
                        assert(a[u as int].contains(y));
                    } else if j < res0.len() as int {
                        assert(iedge(a, res0[i], res0[j]));
                    }
                }
            }
            let row_len = self.adj[u].len();
            proof {
                assert(out@ == out0.update(u as int, true));
                assert(a[u as int].subrange(0, row_len as int) =~= a[u as int]);
                assert forall|w2: int| 0 <= w2 < n implies #[trigger] in_deg@[w2] == pred_count(a, w2 as usize, out@, n as int)
                    + (if a[u as int].subrange(0, row_len as int).contains(w2 as usize) { 1nat } else { 0nat }) by {
                    lemma_pred_count_output(a, w2 as usize, out0, u as int, n as int);
                }
                assert forall|x: usize| x < n && !out@[x as int] && in_deg@[x as int] == 0 implies #[trigger] queue@.contains(x) by {
                    assert(x != u);
                    assert(q_before.contains(x));
                    let q = choose|q: int| 0 <= q < q_before.len() && q_before[q] == x;
                    assert(q < queue@.len());
                    assert(queue@[q] == x);
                }
                assert forall|k2: int| 0 <= k2 < row_len implies !out@[#[trigger] a[u as int][k2] as int] by {
                    let d = a[u as int][k2];
                    assert(a[u as int].contains(d));
                    if d == u {
                        assert(out0[u as int]);
                    } else if out0[d as int] {
                        assert(out0[u as int]);
                    }
                }
            }
            let mut t: usize = 0;
            while t < row_len
                invariant
                    self.wf_core(),
                    a == self.adjs(),
                    n == self.nodes@.len(),
                    a.len() == n,
                    forall|x: int| 0 <= x < n ==> #[trigger] a[x] == self.adj@[x]@,
                    forall|x: int, t2: int| 0 <= x < a.len() && 0 <= t2 < a[x].len() ==> (#[trigger] a[x][t2] as int) < a.len(),
                    u < n,
                    out@[u as int],
                    row_len == a[u as int].len(),
                    t <= row_len,
                    in_deg@.len() == n,
                    out@.len() == n,
                    forall|x: int| 0 <= x < n ==> #[trigger] in_deg@[x] == pred_count(a, x as usize, out@, n as int)
                        + (if a[u as int].subrange(t as int, row_len as int).contains(x as usize) { 1nat } else { 0nat }),
                    forall|k2: int| 0 <= k2 < row_len ==> !out@[#[trigger] a[u as int][k2] as int],
                    queue@.no_duplicates(),
                    forall|q: int| 0 <= q < queue@.len() ==> (#[trigger] queue@[q]) < n && !out@[queue@[q] as int] && in_deg@[queue@[q] as int] == 0,
                    forall|x: usize| x < n && !out@[x as int] && in_deg@[x as int] == 0 ==> #[trigger] queue@.contains(x),
                decreases row_len - t,
            {
                let d = self.adj[u][t];
                proof {
                    assert(a[u as int][t as int] == d);
                    let rest = a[u as int].subrange(t as int, row_len as int);
                    assert(rest[0] == d);
                    assert(rest.contains(d));
                }
                let cur = in_deg[d];
                in_deg.set(d, cur - 1);
                proof {
                    assert forall|x: int| 0 <= x < n implies #[trigger] in_deg@[x] == pred_count(a, x as usize, out@, n as int)
                        + (if a[u as int].subrange(t + 1, row_len as int).contains(x as usize) { 1nat } else { 0nat }) by {
                        let r0 = a[u as int].subrange(t as int, row_len as int);
                        let r1 = a[u as int].subrange(t + 1, row_len as int);
                        assert(r0 =~= seq![d].add(r1));
                        if r1.contains(x as usize) {
                            let q = choose|q: int| 0 <= q < r1.len() && r1[q] == x as usize;
                            assert(r0[q + 1] == x as usize);
                        }
                        if x as usize == d {
                            assert(!r1.contains(d)) by {
                                if r1.contains(d) {
                                    let q = choose|q: int| 0 <= q < r1.len() && r1[q] == d;
                                    assert(a[u as int][t + 1 + q] == a[u as int][t as int]);
                                    assert(self.adj@[u as int]@.no_duplicates());
                                }
                            }
                        } else if r0.contains(x as usize) {
                            let q = choose|q: int| 0 <= q < r0.len() && r0[q] == x as usize;
                            assert(q > 0);
                            assert(r1[q - 1] == x as usize);
                        }
                    }
                }
                if cur - 1 == 0 {
                    let ghost q0 = queue@;
                    proof {
                        assert(!q0.contains(d)) by {
                            if q0.contains(d) {
                                let q = choose|q: int| 0 <= q < q0.len() && q0[q] == d;
                            }
                        }
                    }
                    queue.push(d);
                    proof {
                        assert(queue@ == q0.push(d));
                        assert forall|x: usize| x < n && !out@[x as int] && in_deg@[x as int] == 0 implies #[trigger] queue@.contains(x) by {
                            if x == d {
                                assert(queue@[q0.len() as int] == d);
                            } else {
                                assert(q0.contains(x));
                                let q = choose|q: int| 0 <= q < q0.len() && q0[q] == x;
                                assert(queue@[q] == x);
                            }
                        }
                    }
                }
                t = t + 1;
            }
            proof {
                assert forall|y: int, x: int| 0 <= y < n && 0 <= x < n && out@[y] && #[trigger] a[x].contains(y as usize) implies out@[x] by {
                    if y != u as int {
                        assert(out0[y]);
                    }
                }
                assert forall|x: int| 0 <= x < n implies #[trigger] in_deg@[x] == pred_count(a, x as usize, out@, n as int) by {
                    assert(a[u as int].subrange(row_len as int, row_len as int).len() == 0);
                }
            }
        }
        proof {
            assert forall|x: usize| (x as int) < n && !out@[x as int] implies #[trigger] pred_count(a, x, out@, n as int) > 0 by {
                if pred_count(a, x, out@, n as int) == 0 {
                    assert(queue@.contains(x));
                }
            }
            assert forall|x: usize| x < n implies #[trigger] result@.contains(x) by {
                if !out@[x as int] {
                    let q = lemma_backward_walk(a, out@, n as int, x, n as nat);
                    let (i, j) = lemma_pigeonhole(q, n as int);
                    let c = q.subrange(i, j + 1);
                    assert forall|k2: int| 0 <= k2 < c.len() - 1 implies #[trigger] istep(a, c, k2) by {
                        assert(istep(a, q, i + k2));
                    }
                    assert(ipath(a, c));
                    assert(ireach(a, q[i], q[i]));
                    assert(!ireach(self.adjs(), q[i], q[i]));
                }
            }
        }
        result
    }
}

impl PathGraph {
    /// The files in an order where each comes before its dependencies, or,
    /// if the graph has a cycle, that cycle.
    pub fn topological_sort(&self) -> (r: Result<Vec<String>, Vec<String>>)
        requires
            self.wf(),
        ensures
            match r {
                Ok(v) => g_acyclic(self@) && g_is_topological_order(self@, seq_of_strings(v@))
                    && call_ensures(PathGraph::check_for_cycles, (self,), CycleCheckResult::NoCycle),
                Err(c) => g_is_cycle(self@, seq_of_strings(c@))
                    && call_ensures(PathGraph::check_for_cycles, (self,), CycleCheckResult::Cycle(c)),
            },
    {
        match self.check_for_cycles() {
            CycleCheckResult::Cycle(c) => {
                return Err(c);
            },
            CycleCheckResult::NoCycle => {},
        }
        proof {
            assert forall|i: usize| i < self.nodes@.len() implies !#[trigger] ireach(self.adjs(), i, i) by {
                self.lemma_acyclic_index(i);
            }
        }
        let order = self.kahn();
        let names = self.names_at(&order);
        proof {
            let ns = seq_of_strings(names@);
            let a = self.adjs();
            self.lemma_view_char();
            self.lemma_adjs_bounded();
            assert forall|x: Seq<char>| #[trigger] ns.to_set().contains(x) <==> g_nodes(self@).contains(x) by {
                if ns.contains(x) {
                    let t = choose|t: int| 0 <= t < ns.len() && ns[t] == x;
                    let i = order@[t];
                    if self.is_file@[i as int] {
                        assert(self@.contains_key(self.names()[i as int]));
                    } else {
                        let m = choose|m: int| 0 <= m < self.nodes@.len() && self.adj@[m]@.contains(i);
                        assert(self.is_file@[m]);
                        self.lemma_view_edge(m as usize, i);
                        assert(g_edge(self@, self.names()[m], x));
                    }
                }
                if g_nodes(self@).contains(x) {
                    let i: int = if self@.contains_key(x) {
                        choose|i: int| 0 <= i < self.nodes@.len() && self.is_file@[i] && self.names()[i] == x
                    } else {
                        let y = choose|y: Seq<char>| #[trigger] g_edge(self@, y, x);
                        let e = self.lemma_edge_indices(y, x);
                        e.1 as int
                    };
                    assert(order@.contains(i as usize));
                    let t = choose|t: int| 0 <= t < order@.len() && order@[t] == i as usize;
                    assert(ns[t] == x);
                }
            }
            assert(ns.to_set() =~= g_nodes(self@));
            assert forall|i: int, j: int|
                0 <= i < ns.len() && 0 <= j < ns.len() && #[trigger] g_edge(self@, ns[i], ns[j]) implies i < j by {
                self.lemma_view_edge(order@[i], order@[j]);
                assert(iedge(a, order@[i], order@[j]));
            }
        }
        Ok(names)
    }
}

/// `y` is `x` or reachable from it.
pub open spec fn g_reaches_or_eq(g: Map<Seq<char>, Set<Seq<char>>>, x: Seq<char>, y: Seq<char>) -> bool {
    x == y || g_reaches(g, x, y)
}

proof fn lemma_reach_edge(g: Map<Seq<char>, Set<Seq<char>>>, x: Seq<char>, y: Seq<char>, z: Seq<char>)
    requires
        g_reaches_or_eq(g, x, y),
        g_edge(g, y, z),
    ensures
        g_reaches(g, x, z),
{
    if x == y {
        let p = seq![x, z];
        assert(g_step(g, p, 0));
        assert(g_is_path(g, p));
    } else {
        let p = choose|p: Seq<Seq<char>>| #[trigger] g_is_path(g, p) && p.len() >= 2 && p[0] == x && p[p.len() - 1] == y;
        let q = p.push(z);
        assert forall|k: int| 0 <= k < q.len() - 1 implies #[trigger] g_step(g, q, k) by {
            if k < p.len() - 1 {
                assert(g_step(g, p, k));
            }
        }
        assert(g_is_path(g, q));
    }
}

proof fn lemma_reach_trans(g: Map<Seq<char>, Set<Seq<char>>>, x: Seq<char>, y: Seq<char>, z: Seq<char>)
    requires
        g_reaches_or_eq(g, x, y),
        g_reaches_or_eq(g, y, z),
    ensures
        g_reaches_or_eq(g, x, z),
{
    if y != z {
        let p = choose|p: Seq<Seq<char>>| #[trigger] g_is_path(g, p) && p.len() >= 2 && p[0] == y && p[p.len() - 1] == z;
        lemma_reach_path_from(g, x, p, p.len() - 1);
    }
}

proof fn lemma_reach_path_from(g: Map<Seq<char>, Set<Seq<char>>>, x: Seq<char>, p: Seq<Seq<char>>, k: int)
    requires
        g_is_path(g, p),
        1 <= k < p.len(),
        g_reaches_or_eq(g, x, p[0]),
    ensures
        g_reaches(g, x, p[k]),
    decreases k,
{
    assert(g_step(g, p, k - 1));
    if k == 1 {
        lemma_reach_edge(g, x, p[0], p[1]);
    } else {
        lemma_reach_path_from(g, x, p, k - 1);
        lemma_reach_edge(g, x, p[k - 1], p[k]);
    }
}

/// A walk of at least one edge in the graph with the edge `f -> d` added
/// either avoids that edge or passes through it.
proof fn lemma_walk_with_edge(g: Map<Seq<char>, Set<Seq<char>>>, f: Seq<char>, d: Seq<char>, p: Seq<Seq<char>>)
    requires
        g_is_path(g_add_deps(g, f, set![d]), p),
        p.len() >= 2,
    ensures
        g_reaches(g, p[0], p[p.len() - 1]) || (g_reaches_or_eq(g, p[0], f) && g_reaches_or_eq(
            g,
            d,
            p[p.len() - 1],
        )),
    decreases p.len(),
{
    let h = g_add_deps(g, f, set![d]);
    let n = p.len();
    assert(g_step(h, p, n - 2));
    let y = p[n - 2];
    let z = p[n - 1];
    let new_edge = y == f && z == d;
    if !new_edge {
        assert(g_edge(g, y, z)) by {
            if y == f {
                assert(h[f] == (if g.contains_key(f) { g[f] } else { Set::empty() }).union(set![d]));
            }
        }
    }
    if n == 2 {
        if !new_edge {
            lemma_reach_edge(g, y, y, z);
        }
    } else {
        let q = p.drop_last();
        assert forall|k: int| 0 <= k < q.len() - 1 implies #[trigger] g_step(h, q, k) by {
            assert(g_step(h, p, k));
        }
        lemma_walk_with_edge(g, f, d, q);
        assert(q[q.len() - 1] == y);
        if new_edge {
            if g_reaches(g, p[0], y) {
            }
        } else {
            if g_reaches(g, p[0], y) {
                lemma_reach_edge(g, p[0], y, z);
            } else {
                lemma_reach_edge(g, d, y, z);
            }
        }
    }
}

/// Recording the dependency `file -> dep` in a graph without cycles keeps
/// it without cycles, when `dep` does not already depend on `file` and is
/// not `file` itself: the check that [PathGraph::add_dependency] and
/// [PathGraph::add_fileset] make before they record is enough to keep a
/// graph free of cycles.
pub proof fn law_checked_dependency_keeps_acyclic(
    g: Map<Seq<char>, Set<Seq<char>>>,
    file: Seq<char>,
    dep: Seq<char>,
)
    requires
        g_acyclic(g),
        !g_reaches(g, dep, file),
        file != dep,
    ensures
        g_acyclic(g_add_deps(g, file, set![dep])),
{
    let h = g_add_deps(g, file, set![dep]);
    assert forall|x: Seq<char>| !#[trigger] g_reaches(h, x, x) by {
        if g_reaches(h, x, x) {
            let p = choose|p: Seq<Seq<char>>| #[trigger] g_is_path(h, p) && p.len() >= 2 && p[0] == x && p[p.len() - 1] == x;
            lemma_walk_with_edge(g, file, dep, p);
            if !g_reaches(g, x, x) {
                lemma_reach_trans(g, dep, x, file);
                assert(g_reaches(g, x, x) == false);
            }
            assert(g_reaches(g, x, x));
        }
    }
}

impl PathGraph {
    /// The text of an error, with the files of a cycle joined by ` -> `.
    pub fn format_cycle(cycle: &Vec<String>) -> (s: String)
        ensures
            s@ == crate::text::spec_join(seq_of_strings(cycle@), seq![' ', '-', '>', ' ']),
    {
        let sep = " -> ";
        proof {
            reveal_strlit(" -> ");
            assert(sep@ =~= seq![' ', '-', '>', ' ']);
        }
        crate::text::join_strings(cycle, sep)
    }
}

impl PathGraphError {
    /// The message of the error.
    pub fn message(&self) -> (s: String)
        ensures
            s@ == spec_graph_error_message(*self),
    {
        match self {
            PathGraphError::CircularDependency(c) => {
                let mut s = String::from_str("Circular dependency detected: ");
                let body = PathGraph::format_cycle(c);
                s.append(body.as_str());
                s
            },
            PathGraphError::FileNotFound(p) => {
                let mut s = String::from_str("File not found in graph: ");
                s.append(p.as_str());
                s
            },
        }
    }
}

/// The message of a graph error.
pub open spec fn spec_graph_error_message(e: PathGraphError) -> Seq<char> {
    match e {
        PathGraphError::CircularDependency(c) => "Circular dependency detected: "@ + crate::text::spec_join(
            seq_of_strings(c@),
            seq![' ', '-', '>', ' '],
        ),
        PathGraphError::FileNotFound(p) => "File not found in graph: "@ + p@,
    }
}

/// A recorded dependency is read back: the file now lists it next to its
/// earlier dependencies and reaches it, and no other file changes.
pub proof fn law_recorded_dependency_read_back(
    g: Map<Seq<char>, Set<Seq<char>>>,
    file: Seq<char>,
    dep: Seq<char>,
)
    ensures
        g_add_deps(g, file, set![dep]).contains_key(file),
        g_add_deps(g, file, set![dep])[file].contains(dep),
        g.contains_key(file) ==> g[file].subset_of(g_add_deps(g, file, set![dep])[file]),
        g_reaches(g_add_deps(g, file, set![dep]), file, dep),
        forall|other: Seq<char>| other != file ==> (g_add_deps(g, file, set![dep]).contains_key(other) == g.contains_key(other)
            && (g.contains_key(other) ==> #[trigger] g_add_deps(g, file, set![dep])[other] == g[other])),
{
    let h = g_add_deps(g, file, set![dep]);
    let p = seq![file, dep];
    assert(g_step(h, p, 0));
    assert(g_is_path(h, p));
}
} // verus!
