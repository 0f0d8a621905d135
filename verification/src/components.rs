//! 4-connected free regions of an [`OccupancyGrid`]
//!
//! Cells are addressed by their row-major position; two cells are connected
//! when a path of free, orthogonally adjacent cells leads from one to the
//! other.
use vstd::prelude::*;

use crate::occupancy::OccupancyGrid;

verus! {

/// the cell at position `i` carries the label `id`
pub open spec fn marked(labels: Seq<Option<usize>>, id: usize, i: int) -> bool {
    0 <= i < labels.len() && labels[i] == Some(id)
}

/// the positions that carry the label `id`
pub open spec fn marked_set(labels: Seq<Option<usize>>, id: usize) -> Set<int> {
    Set::new(|i: int| marked(labels, id, i))
}

/// the labelled cells are finitely many, at most one per position
proof fn lemma_marked_set_bounded(labels: Seq<Option<usize>>, id: usize)
    ensures
        marked_set(labels, id).finite(),
        marked_set(labels, id).len() <= labels.len(),
{
    vstd::set_lib::lemma_int_range(0, labels.len() as int);
    vstd::set_lib::lemma_len_subset(
        marked_set(labels, id),
        vstd::set_lib::set_int_range(0, labels.len() as int),
    );
}

impl OccupancyGrid {
    /// consecutive cells `k` and `k + 1` of the path are adjacent
    pub open spec fn path_step(&self, p: Seq<int>, k: int) -> bool {
        self.cell_adjacent(p[k], p[k + 1])
    }

    /// a non-empty sequence of free cells, each adjacent to the next
    pub open spec fn is_free_path(&self, p: Seq<int>) -> bool {
        &&& p.len() >= 1
        &&& forall|k: int| 0 <= k < p.len() ==> #[trigger] self.free_at(p[k])
        &&& forall|k: int| 0 <= k < p.len() - 1 ==> #[trigger] self.path_step(p, k)
    }

    /// a free path leads from cell `a` to cell `b`
    pub open spec fn connected(&self, a: int, b: int) -> bool {
        exists|p: Seq<int>| #[trigger] self.is_free_path(p) && p[0] == a && p[p.len() - 1] == b
    }

    /// every free neighbour of a cell labelled `id` is labelled `id` too
    pub open spec fn closed_under_adjacency(&self, labels: Seq<Option<usize>>, id: usize) -> bool {
        forall|i: int, j: int|
            #[trigger] marked(labels, id, i) && #[trigger] self.cell_adjacent(i, j) && self.free_at(
                j,
            ) ==> marked(labels, id, j)
    }

    /// one label per cell: the free cells carry labels, the occupied ones
    /// none, and two free cells carry the same label exactly when they are
    /// connected
    pub open spec fn is_component_labelling(&self, labels: Seq<Option<usize>>) -> bool {
        &&& labels.len() == self.spec_occupied().len()
        &&& forall|i: int| 0 <= i < labels.len() ==> (#[trigger] labels[i] is Some <==> self.free_at(i))
        &&& forall|i: int, j: int|
            #![trigger labels[i], labels[j]]
            0 <= i < labels.len() && 0 <= j < labels.len() && labels[i] is Some && labels[j] is Some
                ==> (labels[i] == labels[j] <==> self.connected(i, j))
    }

    /// cell `i` is free and is the first cell, in row-major order, of its
    /// free region
    pub open spec fn first_of_region(&self, i: int) -> bool {
        self.free_at(i) && forall|y: int| 0 <= y < i ==> !#[trigger] self.connected(y, i)
    }

    /// the labels number the free regions `0, 1, ...` in the row-major order
    /// of their first cells: `roots` lists those first cells in increasing
    /// order, the first cell `roots[k]` carries the label `k`, and no label
    /// is `roots.len()` or more
    pub open spec fn numbered_by_first_cells(&self, labels: Seq<Option<usize>>, roots: Seq<int>) -> bool {
        &&& forall|k: int|
            0 <= k < roots.len() ==> 0 <= #[trigger] roots[k] < labels.len() && self.first_of_region(
                roots[k],
            ) && labels[roots[k]] == Some(k as usize)
        &&& forall|k1: int, k2: int|
            0 <= k1 < k2 < roots.len() ==> #[trigger] roots[k1] < #[trigger] roots[k2]
        &&& forall|i: int|
            0 <= i < labels.len() && #[trigger] labels[i] is Some ==> labels[i].unwrap() < roots.len()
    }

    /// the state of a flood fill from `start` that labels cells `id`: `wl`
    /// lists exactly the labelled cells, each connected to `start`, the free
    /// neighbours of its first `head` entries are labelled too, and only
    /// labels to `id` differ from `orig`
    pub open spec fn flood_inv(
        &self,
        labels: Seq<Option<usize>>,
        orig: Seq<Option<usize>>,
        wl: Seq<usize>,
        head: int,
        start: int,
        id: usize,
    ) -> bool {
        &&& labels.len() == orig.len()
        &&& orig.len() == self.spec_occupied().len()
        &&& 0 <= head <= wl.len()
        &&& wl.len() == marked_set(labels, id).len()
        &&& forall|i: int|
            0 <= i < labels.len() && labels[i] != orig[i] ==> #[trigger] marked(labels, id, i)
        &&& forall|i: int| #[trigger] marked(labels, id, i) ==> self.connected(start, i)
        &&& forall|k: int| 0 <= k < wl.len() ==> #[trigger] marked(labels, id, wl[k] as int)
        &&& forall|i: int| #[trigger]
            marked(labels, id, i) ==> exists|k: int| 0 <= k < wl.len() && wl[k] == i
        &&& forall|k: int, j: int|
            0 <= k < head && #[trigger] self.cell_adjacent(wl[k] as int, j) && self.free_at(j)
                ==> marked(labels, id, j)
    }

    /// label the cell `j`, a neighbour of the labelled cell `cur`, if it is
    /// free, and queue it when it was not labelled yet
    fn flood_visit(
        &self,
        labels: &mut Vec<Option<usize>>,
        wl: &mut Vec<usize>,
        j: usize,
        cur: usize,
        Ghost(orig): Ghost<Seq<Option<usize>>>,
        Ghost(head): Ghost<int>,
        Ghost(start): Ghost<int>,
        id: usize,
    )
        requires
            self.flood_inv(old(labels)@, orig, old(wl)@, head, start, id),
            forall|i: int| #[trigger] self.connected(start, i) ==> orig[i] is None,
            marked(old(labels)@, id, cur as int),
            self.cell_adjacent(cur as int, j as int),
            j < orig.len(),
        ensures
            self.flood_inv(final(labels)@, orig, final(wl)@, head, start, id),
            self.free_at(j as int) ==> marked(final(labels)@, id, j as int),
            forall|i: int|
                #[trigger] marked(old(labels)@, id, i) ==> marked(final(labels)@, id, i),
            final(wl)@.len() >= old(wl)@.len(),
            forall|k: int| 0 <= k < old(wl)@.len() ==> #[trigger] final(wl)@[k] == old(wl)@[k],
    {
        let ghost l0 = labels@;
        let ghost w0 = wl@;
        if self.is_free_at(j) {
            proof {
                self.lemma_connected_extend(start, cur as int, j as int);
            }
            let unlabelled = match labels[j] {
                None => true,
                Some(_) => false,
            };
            if unlabelled {
                labels.set(j, Some(id));
                wl.push(j);
                proof {
                    let l1 = labels@;
                    let w1 = wl@;
                    lemma_marked_set_bounded(l0, id);
                    assert(marked_set(l1, id) =~= marked_set(l0, id).insert(j as int));
                    assert(!marked_set(l0, id).contains(j as int));
                    assert forall|i: int| #[trigger] marked(l0, id, i) implies marked(l1, id, i) by {
                        if i != j {
                            assert(l1[i] == l0[i]);
                        }
                    }
                    assert forall|i: int|
                        0 <= i < l1.len() && l1[i] != orig[i] implies #[trigger] marked(l1, id, i) by {
                        if i != j {
                            assert(l1[i] == l0[i]);
                            assert(marked(l0, id, i));
                        }
                    }
                    assert forall|i: int| #[trigger] marked(l1, id, i) implies self.connected(
                        start,
                        i,
                    ) by {
                        if i != j {
                            assert(l1[i] == l0[i]);
                            assert(marked(l0, id, i));
                        }
                    }
                    assert forall|k: int| 0 <= k < w1.len() implies #[trigger] marked(
                        l1,
                        id,
                        w1[k] as int,
                    ) by {
                        if k < w0.len() {
                            assert(w1[k] == w0[k]);
                            assert(marked(l0, id, w0[k] as int));
                        }
                    }
                    assert forall|i: int| #[trigger] marked(l1, id, i) implies exists|k: int|
                        0 <= k < w1.len() && w1[k] == i by {
                        if i == j {
                            assert(w1[w0.len() as int] == i);
                        } else {
                            assert(l1[i] == l0[i]);
                            assert(marked(l0, id, i));
                            let k = choose|k: int| 0 <= k < w0.len() && w0[k] == i;
                            assert(w1[k] == i);
                        }
                    }
                    assert forall|k: int, x: int|
                        0 <= k < head && #[trigger] self.cell_adjacent(w1[k] as int, x)
                            && self.free_at(x) implies marked(l1, id, x) by {
                        assert(w1[k] == w0[k]);
                        assert(self.cell_adjacent(w0[k] as int, x));
                        assert(marked(l0, id, x));
                    }
                }
            } else {
                proof {
                    assert(orig[j as int] is None);
                    assert(marked(l0, id, j as int));
                }
            }
        }
    }

    /// the positions of the cells next to `cur`
    proof fn lemma_neighbour_cases(&self, cur: int, j: int, n: int)
        requires
            n == self.spec_occupied().len(),
            0 <= cur < n,
            self.cell_adjacent(cur, j),
            self.free_at(j),
        ensures
            j == cur - self.spec_cols() && cur >= self.spec_cols() || j == cur + self.spec_cols()
                && self.spec_cols() < n - cur || j == cur - 1 && cur % self.spec_cols() != 0 || j
                == cur + 1 && cur + 1 < n && (cur + 1) % self.spec_cols() != 0,
    {
    }

    /// label `id` on every cell connected to the free cell `start`, leaving
    /// every other label as it was
    fn flood_fill(&self, labels: &mut Vec<Option<usize>>, start: usize, id: usize)
        requires
            old(labels)@.len() == self.spec_occupied().len(),
            self.free_at(start as int),
            forall|i: int| 0 <= i < old(labels)@.len() ==> !marked(old(labels)@, id, i),
            forall|i: int| #[trigger] self.connected(start as int, i) ==> old(labels)@[i] is None,
        ensures
            final(labels)@.len() == old(labels)@.len(),
            forall|i: int|
                0 <= i < old(labels)@.len() ==> #[trigger] final(labels)@[i] == if self.connected(
                    start as int,
                    i,
                ) {
                    Some(id)
                } else {
                    old(labels)@[i]
                },
    {
        let ghost orig = labels@;
        let ghost st = start as int;
        let n = self.cell_count();
        proof {
            self.lemma_connected_refl(st);
        }
        labels.set(start, Some(id));
        let mut wl: Vec<usize> = Vec::new();
        wl.push(start);
        proof {
            let l1 = labels@;
            assert(marked_set(orig, id) =~= Set::empty());
            assert(marked_set(l1, id) =~= marked_set(orig, id).insert(st));
            assert forall|i: int| #[trigger] marked(l1, id, i) implies self.connected(st, i) by {
                if i != st {
                    assert(l1[i] == orig[i]);
                    assert(!marked(orig, id, i));
                }
            }
            assert forall|i: int| #[trigger] marked(l1, id, i) implies exists|k: int|
                0 <= k < wl@.len() && wl@[k] == i by {
                if i != st {
                    assert(l1[i] == orig[i]);
                }
                assert(wl@[0] == i);
            }
            assert(self.flood_inv(labels@, orig, wl@, 0, st, id));
        }
        let mut head: usize = 0;
        while head < wl.len()
            invariant
                self.flood_inv(labels@, orig, wl@, head as int, st, id),
                n == orig.len(),
                n == self.spec_rows() * self.spec_cols(),
                st == start,
                forall|i: int| #[trigger] self.connected(st, i) ==> orig[i] is None,
                marked(labels@, id, st),
            decreases 2 * n - wl@.len() - head,
        {
            let cur = wl[head];
            let ghost h = head as int;
            let ghost l_start = labels@;
            proof {
                assert(marked(labels@, id, cur as int));
                self.lemma_dims_bounded();
                assert(self.spec_cols() > 0) by (nonlinear_arith)
                    requires
                        n == self.spec_rows() * self.spec_cols(),
                        cur < n,
                        self.spec_rows() >= 0,
                        self.spec_cols() >= 0,
                ;
            }
            let cols = self.cols() as usize;
            if cur >= cols {
                self.flood_visit(labels, &mut wl, cur - cols, cur, Ghost(orig), Ghost(h), Ghost(st), id);
            }
            if cols < n - cur {
                self.flood_visit(labels, &mut wl, cur + cols, cur, Ghost(orig), Ghost(h), Ghost(st), id);
            }
            if cur > 0 && cur % cols != 0 {
                self.flood_visit(labels, &mut wl, cur - 1, cur, Ghost(orig), Ghost(h), Ghost(st), id);
            }
            if cur + 1 < n && (cur + 1) % cols != 0 {
                self.flood_visit(labels, &mut wl, cur + 1, cur, Ghost(orig), Ghost(h), Ghost(st), id);
            }
            proof {
                lemma_marked_set_bounded(labels@, id);
                assert(wl@[h] == cur);
                assert forall|k: int, j: int|
                    0 <= k < h + 1 && #[trigger] self.cell_adjacent(wl@[k] as int, j) && self.free_at(
                        j,
                    ) implies marked(labels@, id, j) by {
                    if k == h {
                        self.lemma_neighbour_cases(cur as int, j, n as int);
                    }
                }
            }
            head = head + 1;
        }
        proof {
            let l = labels@;
            assert forall|i: int, j: int|
                #[trigger] marked(l, id, i) && #[trigger] self.cell_adjacent(i, j) && self.free_at(
                    j,
                ) implies marked(l, id, j) by {
                let k = choose|k: int| 0 <= k < wl@.len() && wl@[k] == i;
                assert(self.cell_adjacent(wl@[k] as int, j));
            }
            assert(self.closed_under_adjacency(l, id));
            assert forall|i: int| 0 <= i < orig.len() implies #[trigger] l[i] == if self.connected(
                st,
                i,
            ) {
                Some(id)
            } else {
                orig[i]
            } by {
                if self.connected(st, i) {
                    self.lemma_closed_connected(l, id, st, i);
                } else if l[i] != orig[i] {
                    assert(marked(l, id, i));
                }
            }
        }
    }

    /// label every free cell with the id of its 4-connected free region
    /// (ids count up from `0` in the row-major order of each region's first
    /// cell); occupied cells get no label
    pub fn free_components(&self) -> (labels: Vec<Option<usize>>)
        ensures
            self.is_component_labelling(labels@),
            exists|roots: Seq<int>| #[trigger] self.numbered_by_first_cells(labels@, roots),
    {
        let n = self.cell_count();
        let mut labels: Vec<Option<usize>> = Vec::new();
        let mut t: usize = 0;
        while t < n
            invariant
                t <= n,
                labels@.len() == t,
                forall|x: int| 0 <= x < t ==> #[trigger] labels@[x] is None,
            decreases n - t,
        {
            labels.push(None);
            t = t + 1;
        }
        let mut next: usize = 0;
        let ghost mut roots: Seq<int> = Seq::empty();
        let mut i: usize = 0;
        while i < n
            invariant
                n == self.spec_occupied().len(),
                labels@.len() == n,
                roots.len() == next,
                next <= i <= n,
                forall|k: int| 0 <= k < next ==> self.free_at(#[trigger] roots[k]),
                forall|k: int|
                    0 <= k < next ==> 0 <= #[trigger] roots[k] < i && self.first_of_region(roots[k])
                        && labels@[roots[k]] == Some(k as usize),
                forall|k1: int, k2: int|
                    0 <= k1 < k2 < next ==> #[trigger] roots[k1] < #[trigger] roots[k2],
                forall|x: int|
                    0 <= x < n && #[trigger] labels@[x] is Some ==> labels@[x].unwrap() < next
                        && self.connected(roots[labels@[x].unwrap() as int], x),
                forall|x: int| 0 <= x < i && self.free_at(x) ==> #[trigger] labels@[x] is Some,
                forall|x: int, k: int|
                    0 <= x < n && 0 <= k < next && #[trigger] labels@[x] is None && self.free_at(x)
                        ==> !self.connected(#[trigger] roots[k], x),
                forall|k1: int, k2: int|
                    0 <= k1 < next && 0 <= k2 < next && k1 != k2 ==> !self.connected(
                        #[trigger] roots[k1],
                        #[trigger] roots[k2],
                    ),
            decreases n - i,
        {
            if self.is_free_at(i) {
                let unlabelled = match labels[i] {
                    None => true,
                    Some(_) => false,
                };
                if unlabelled {
                    let ghost before = labels@;
                    let ghost ii = i as int;
                    proof {
                        assert forall|x: int| 0 <= x < n implies !marked(before, next, x) by {
                            if before[x] is Some {
                                assert(before[x].unwrap() < next);
                            }
                        }
                        assert forall|x: int| #[trigger] self.connected(ii, x) implies before[x] is None by {
                            self.lemma_connected_free(ii, x);
                            if before[x] is Some {
                                let k = before[x].unwrap() as int;
                                assert(self.connected(roots[k], x));
                                self.lemma_connected_symm(ii, x);
                                self.lemma_connected_trans(roots[k], x, ii);
                                assert(before[ii] is None);
                                assert(!self.connected(roots[k], ii));
                            }
                        }
                    }
                    assert forall|y: int| 0 <= y < ii implies !#[trigger] self.connected(y, ii) by {
                        if self.connected(y, ii) {
                            self.lemma_connected_free(y, ii);
                            assert(before[y] is Some);
                            let k = before[y].unwrap() as int;
                            assert(self.connected(roots[k], y));
                            self.lemma_connected_trans(roots[k], y, ii);
                            assert(!self.connected(roots[k], ii));
                        }
                    }
                    self.flood_fill(&mut labels, i, next);
                    proof {
                        let after = labels@;
                        self.lemma_connected_refl(ii);
                        assert(after[ii] == Some(next));
                        assert forall|k: int| 0 <= k < next + 1 implies 0 <= #[trigger] roots.push(ii)[k]
                            < i + 1 && self.first_of_region(roots.push(ii)[k]) && after[roots.push(
                            ii,
                        )[k]] == Some(k as usize) by {
                            if k < next {
                                assert(roots.push(ii)[k] == roots[k]);
                                let rk = roots[k];
                                assert(before[rk] == Some(k as usize));
                                assert(!self.connected(rk, ii));
                                if self.connected(ii, rk) {
                                    self.lemma_connected_symm(ii, rk);
                                }
                                assert(after[rk] == before[rk]);
                            }
                        }
                        assert forall|k1: int, k2: int|
                            0 <= k1 < k2 < next + 1 implies #[trigger] roots.push(ii)[k1]
                            < #[trigger] roots.push(ii)[k2] by {
                            if k2 < next {
                                assert(roots.push(ii)[k1] == roots[k1]);
                                assert(roots.push(ii)[k2] == roots[k2]);
                            } else {
                                assert(roots.push(ii)[k1] == roots[k1]);
                            }
                        }
                        let old_roots = roots;
                        roots = roots.push(ii);
                        self.lemma_connected_refl(ii);
                        assert forall|k: int| 0 <= k < next + 1 implies self.free_at(
                            #[trigger] roots[k],
                        ) by {
                            if k < next {
                                assert(roots[k] == old_roots[k]);
                            }
                        }
                        assert forall|x: int| 0 <= x < n && #[trigger] after[x] is Some implies after[
                            x
                        ].unwrap() < next + 1 && self.connected(roots[after[x].unwrap() as int], x) by {
                            if !self.connected(ii, x) {
                                assert(after[x] == before[x]);
                                assert(before[x] is Some);
                                assert(roots[before[x].unwrap() as int] == old_roots[before[x].unwrap() as int]);
                            }
                        }
                        assert forall|x: int| 0 <= x < i + 1 && self.free_at(x) implies #[trigger] after[
                            x
                        ] is Some by {
                            if x < i {
                                assert(before[x] is Some);
                            }
                        }
                        assert forall|x: int, k: int|
                            0 <= x < n && 0 <= k < next + 1 && #[trigger] after[x] is None
                                && self.free_at(x) implies !self.connected(#[trigger] roots[k], x) by {
                            assert(!self.connected(ii, x));
                            assert(before[x] is None);
                            if k < next {
                                assert(roots[k] == old_roots[k]);
                                assert(!self.connected(old_roots[k], x));
                            }
                        }
                        assert forall|k1: int, k2: int|
                            0 <= k1 < next + 1 && 0 <= k2 < next + 1 && k1 != k2 implies !self.connected(
                                #[trigger] roots[k1],
                                #[trigger] roots[k2],
                            ) by {
                            if k1 < next && k2 < next {
                                assert(roots[k1] == old_roots[k1]);
                                assert(roots[k2] == old_roots[k2]);
                            } else if k1 < next {
                                assert(roots[k1] == old_roots[k1]);
                                assert(!self.connected(old_roots[k1], ii));
                            } else {
                                assert(roots[k2] == old_roots[k2]);
                                assert(!self.connected(old_roots[k2], ii));
                                if self.connected(ii, old_roots[k2]) {
                                    self.lemma_connected_symm(ii, old_roots[k2]);
                                }
                            }
                        }
                    }
                    next = next + 1;
                }
            }
            i = i + 1;
        }
        proof {
            assert(self.numbered_by_first_cells(labels@, roots));
            assert forall|a: int, b: int|
                #![trigger labels@[a], labels@[b]]
                0 <= a < n && 0 <= b < n && labels@[a] is Some && labels@[b] is Some implies (
                labels@[a] == labels@[b] <==> self.connected(a, b)) by {
                let ka = labels@[a].unwrap() as int;
                let kb = labels@[b].unwrap() as int;
                assert(self.connected(roots[ka], a));
                assert(self.connected(roots[kb], b));
                self.lemma_connected_symm(roots[ka], a);
                if ka == kb {
                    self.lemma_connected_trans(a, roots[ka], b);
                } else if self.connected(a, b) {
                    self.lemma_connected_trans(roots[ka], a, b);
                    self.lemma_connected_symm(roots[kb], b);
                    self.lemma_connected_trans(roots[ka], b, roots[kb]);
                }
            }
            assert forall|x: int| 0 <= x < n implies (#[trigger] labels@[x] is Some <==> self.free_at(
                x,
            )) by {
                if labels@[x] is Some {
                    self.lemma_connected_free(roots[labels@[x].unwrap() as int], x);
                }
            }
        }
        labels
    }

    /// connected cells are free
    pub proof fn lemma_connected_free(&self, a: int, b: int)
        requires
            self.connected(a, b),
        ensures
            self.free_at(a),
            self.free_at(b),
    {
        let p = choose|p: Seq<int>| #[trigger] self.is_free_path(p) && p[0] == a && p[p.len() - 1] == b;
        assert(self.free_at(p[0]));
        assert(self.free_at(p[p.len() - 1]));
    }

    /// a free cell is connected to itself
    pub proof fn lemma_connected_refl(&self, a: int)
        requires
            self.free_at(a),
        ensures
            self.connected(a, a),
    {
        let p = seq![a];
        assert(self.is_free_path(p));
    }

    /// a path to `b` extends to a free neighbour `c` of `b`
    pub proof fn lemma_connected_extend(&self, a: int, b: int, c: int)
        requires
            self.connected(a, b),
            self.cell_adjacent(b, c),
            self.free_at(c),
        ensures
            self.connected(a, c),
    {
        let p = choose|p: Seq<int>| #[trigger] self.is_free_path(p) && p[0] == a && p[p.len() - 1] == b;
        let q = p.push(c);
        assert forall|k: int| 0 <= k < q.len() implies #[trigger] self.free_at(q[k]) by {
            if k < p.len() {
                assert(self.free_at(p[k]));
            }
        }
        assert forall|k: int| 0 <= k < q.len() - 1 implies #[trigger] self.path_step(q, k) by {
            if k < p.len() - 1 {
                assert(self.path_step(p, k));
            }
        }
        assert(self.is_free_path(q));
    }

    /// a path from `a` extends backwards to a free neighbour `w` of `a`
    pub proof fn lemma_connected_prepend(&self, w: int, a: int, b: int)
        requires
            self.connected(a, b),
            self.cell_adjacent(w, a),
            self.free_at(w),
        ensures
            self.connected(w, b),
    {
        let p = choose|p: Seq<int>| #[trigger] self.is_free_path(p) && p[0] == a && p[p.len() - 1] == b;
        let q = seq![w] + p;
        assert forall|k: int| 0 <= k < q.len() implies #[trigger] self.free_at(q[k]) by {
            if k > 0 {
                assert(q[k] == p[k - 1]);
                assert(self.free_at(p[k - 1]));
            }
        }
        assert forall|k: int| 0 <= k < q.len() - 1 implies #[trigger] self.path_step(q, k) by {
            if k > 0 {
                assert(self.path_step(p, k - 1));
            }
        }
        assert(self.is_free_path(q));
        assert(q[q.len() - 1] == p[p.len() - 1]);
    }

    /// every cell of a free path leads back to its first cell
    proof fn lemma_path_back(&self, p: Seq<int>, k: int)
        requires
            self.is_free_path(p),
            0 <= k < p.len(),
        ensures
            self.connected(p[k], p[0]),
        decreases k,
    {
        if k == 0 {
            assert(self.free_at(p[0]));
            self.lemma_connected_refl(p[0]);
        } else {
            self.lemma_path_back(p, k - 1);
            assert(self.path_step(p, k - 1));
            assert(self.free_at(p[k]));
            self.lemma_connected_prepend(p[k], p[k - 1], p[0]);
        }
    }

    /// every cell of a free path is reached from anything connected to its
    /// first cell
    proof fn lemma_path_forward(&self, a: int, p: Seq<int>, k: int)
        requires
            self.is_free_path(p),
            self.connected(a, p[0]),
            0 <= k < p.len(),
        ensures
            self.connected(a, p[k]),
        decreases k,
    {
        if k > 0 {
            self.lemma_path_forward(a, p, k - 1);
            assert(self.path_step(p, k - 1));
            assert(self.free_at(p[k]));
            self.lemma_connected_extend(a, p[k - 1], p[k]);
        }
    }

    /// connectivity is symmetric
    pub proof fn lemma_connected_symm(&self, a: int, b: int)
        requires
            self.connected(a, b),
        ensures
            self.connected(b, a),
    {
        let p = choose|p: Seq<int>| #[trigger] self.is_free_path(p) && p[0] == a && p[p.len() - 1] == b;
        self.lemma_path_back(p, p.len() - 1);
    }

    /// connectivity is transitive
    pub proof fn lemma_connected_trans(&self, a: int, b: int, c: int)
        requires
            self.connected(a, b),
            self.connected(b, c),
        ensures
            self.connected(a, c),
    {
        let q = choose|q: Seq<int>| #[trigger] self.is_free_path(q) && q[0] == b && q[q.len() - 1] == c;
        self.lemma_path_forward(a, q, q.len() - 1);
    }

    /// a label set closed under adjacency holds every cell of a free path
    /// that starts on it
    proof fn lemma_closed_path(&self, labels: Seq<Option<usize>>, id: usize, p: Seq<int>, k: int)
        requires
            self.closed_under_adjacency(labels, id),
            self.is_free_path(p),
            marked(labels, id, p[0]),
            0 <= k < p.len(),
        ensures
            marked(labels, id, p[k]),
        decreases k,
    {
        if k > 0 {
            self.lemma_closed_path(labels, id, p, k - 1);
            assert(self.path_step(p, k - 1));
            assert(self.free_at(p[k]));
            assert(marked(labels, id, p[k - 1]) && self.cell_adjacent(p[k - 1], p[k]));
        }
    }

    /// a label set closed under adjacency holds every cell connected to one
    /// of its cells
    proof fn lemma_closed_connected(&self, labels: Seq<Option<usize>>, id: usize, a: int, b: int)
        requires
            self.closed_under_adjacency(labels, id),
            marked(labels, id, a),
            self.connected(a, b),
        ensures
            marked(labels, id, b),
    {
        let p = choose|p: Seq<int>| #[trigger] self.is_free_path(p) && p[0] == a && p[p.len() - 1] == b;
        self.lemma_closed_path(labels, id, p, p.len() - 1);
    }
}

} // verus!
