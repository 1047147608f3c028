//! The toroidal grid builder: for every cell of a `width` by `height` grid it
//! enumerates the eight Moore-neighborhood offsets in a fixed order, wraps
//! each one around the torus, and records one hyperedge per neighbor.

use crate::spaces::basic::{
    copy_vec, flat_edges_of, flatten_hyper_edge, neighbors_derived_from, HyperGraphHeap,
};
use crate::spaces::local::{graph_wf, HyperEdge, LocalHyperGraph, Stateable};
use std::collections::HashMap;
use vstd::arithmetic::div_mod::{lemma_fundamental_div_mod_converse, lemma_mod_pos_bound};
use vstd::prelude::*;

verus! {

broadcast use vstd::std_specs::hash::group_hash_axioms;

/// Toroidal wrap of one coordinate: `(c + d + m) % m`, so a step off either
/// side of the grid lands on the opposite side.
pub open spec fn wrap_coord(c: int, d: int, m: int) -> int {
    (c + d + m) % m
}

/// The fixed enumeration order of the Moore neighborhood: offsets `(dx, dy)`
/// row by row, the center excluded. Rules that rely on positional neighbor
/// order depend on this order being stable.
pub open spec fn moore_offsets() -> Seq<(int, int)> {
    seq![(-1, -1), (0, -1), (1, -1), (-1, 0), (1, 0), (-1, 1), (0, 1), (1, 1)]
}

/// The linear index of the `k`-th Moore neighbor of cell `i` on a `w` by `h`
/// torus, where a cell at `(x, y)` has linear index `y * w + x`.
pub open spec fn grid_neighbor(w: int, h: int, i: int, k: int) -> int {
    let x = i % w;
    let y = i / w;
    let dx = moore_offsets()[k].0;
    let dy = moore_offsets()[k].1;
    wrap_coord(y, dy, h) * w + wrap_coord(x, dx, w)
}

/// The full, ordered neighbor list of cell `i` on a `w` by `h` torus.
pub open spec fn grid_neighbor_seq(w: int, h: int, i: int) -> Seq<usize> {
    Seq::new(8, |k: int| grid_neighbor(w, h, i, k) as usize)
}

/// Whether an edge map is exactly the one the grid builder produces: one key
/// per cell, eight singleton hyperedges per key, each carrying the default
/// payload and the wrapped neighbor index, in enumeration order.
pub open spec fn grid_edges<E>(
    edges: Map<usize, HyperEdge<E>>,
    w: int,
    h: int,
    default_edge: E,
) -> bool {
    &&& forall|k: usize| edges.contains_key(k) ==> k < w * h
    &&& forall|i: usize|
        i < w * h ==> {
            &&& #[trigger] edges.contains_key(i)
            &&& edges[i]@.len() == 8
            &&& forall|k: int|
                0 <= k < 8 ==> {
                    &&& (#[trigger] edges[i]@[k]).0@ == seq![grid_neighbor(w, h, i as int, k) as usize]
                    &&& edges[i]@[k].1 == default_edge
                }
        }
}

/// The wrap of one coordinate, by cases: a step below zero lands at the far
/// end, a step past the end lands at zero, anything else is untouched.
pub proof fn lemma_wrap_cases(c: int, d: int, m: int)
    requires
        0 <= c < m,
        -1 <= d <= 1,
        1 <= m,
    ensures
        0 <= wrap_coord(c, d, m) < m,
        c + d < 0 ==> wrap_coord(c, d, m) == m - 1,
        0 <= c + d < m ==> wrap_coord(c, d, m) == c + d,
        c + d >= m ==> wrap_coord(c, d, m) == 0,
{
    if c + d < 0 {
        lemma_fundamental_div_mod_converse(c + d + m, m, 0, c + d + m);
    } else if c + d < m {
        lemma_fundamental_div_mod_converse(c + d + m, m, 1, c + d);
    } else {
        lemma_fundamental_div_mod_converse(c + d + m, m, 2, c + d - m);
    }
}

/// A flattening of hyperedges whose neighbor lists are all singletons is the
/// sequence of those single entries, in order.
proof fn lemma_flatten_singletons<E>(s: Seq<(Vec<usize>, E)>)
    requires
        forall|k: int| 0 <= k < s.len() ==> (#[trigger] s[k]).0@.len() == 1,
    ensures
        flatten_hyper_edge(s).len() == s.len(),
        forall|k: int| 0 <= k < s.len() ==> flatten_hyper_edge(s)[k] == (#[trigger] s[k]).0@[0],
    decreases s.len(),
{
    if s.len() > 0 {
        assert forall|k: int|
            0 <= k < s.drop_last().len() implies (#[trigger] s.drop_last()[k]).0@.len() == 1 by {
            assert(s.drop_last()[k] == s[k]);
        }
        lemma_flatten_singletons(s.drop_last());
        assert forall|k: int|
            0 <= k < s.len() implies flatten_hyper_edge(s)[k] == (#[trigger] s[k]).0@[0] by {
            if k < s.len() - 1 {
                assert(s.drop_last()[k] == s[k]);
                assert(flatten_hyper_edge(s)[k] == flatten_hyper_edge(s.drop_last())[k]);
            } else {
                assert(flatten_hyper_edge(s)[k] == s.last().0@[0]);
            }
        }
    }
}

impl<N, E> HyperGraphHeap<N, E, (u32, u32)> where N: Stateable, E: Copy + Send + Sync {
    fn xy_to_index(width: u32, x: u32, y: u32) -> (r: u32)
        requires
            y * width + x <= u32::MAX,
        ensures
            r == y * width + x,
    {
        y * width + x
    }

    /// Builds the toroidal `width` by `height` grid topology over the given
    /// initial states: every cell is joined to its eight wrapped Moore
    /// neighbors, in the fixed enumeration order, one hyperedge per neighbor,
    /// each carrying the default payload; the flattened neighbor map is
    /// derived once at the end.
    pub fn new_grid(nodes: &Vec<N>, width: u32, height: u32, default_edge: E) -> (r:
        HyperGraphHeap<N, E, (u32, u32)>)
        requires
            1 <= width,
            1 <= height,
            width * height <= u32::MAX,
            nodes@.len() == width * height,
        ensures
            r.spec_nodes() == nodes@,
            r.spec_payload() == (width, height),
            grid_edges(r.spec_edges(), width as int, height as int, default_edge),
            forall|i: usize|
                i < width * height ==> {
                    &&& #[trigger] r.spec_neighbors().contains_key(i)
                    &&& r.spec_neighbors()[i]@ == grid_neighbor_seq(
                        width as int,
                        height as int,
                        i as int,
                    )
                },
            graph_wf(&r),
    {
        let w = width;
        let h = height;
        let n = (w * h) as usize;
        let mut edges: HashMap<usize, HyperEdge<E>> = HashMap::new();
        let mut idx: usize = 0;
        while idx < n
            invariant
                n == (w as int) * (h as int),
                1 <= w,
                1 <= h,
                w * h <= u32::MAX,
                idx <= n,
                forall|k: usize| edges@.contains_key(k) ==> k < idx,
                forall|i: usize|
                    i < idx ==> {
                        &&& #[trigger] edges@.contains_key(i)
                        &&& edges@[i]@.len() == 8
                        &&& forall|k: int|
                            0 <= k < 8 ==> {
                                &&& (#[trigger] edges@[i]@[k]).0@ == seq![
                                    grid_neighbor(w as int, h as int, i as int, k) as usize,
                                ]
                                &&& edges@[i]@[k].1 == default_edge
                            }
                    },
            decreases n - idx,
        {
            let iu = idx as u32;
            let x = iu % w;
            let y = iu / w;
            proof {
                lemma_mod_pos_bound(iu as int, w as int);
                assert(y < h) by (nonlinear_arith)
                    requires
                        y == iu as int / w as int,
                        (iu as int) < (w as int) * (h as int),
                        1 <= w,
                        1 <= h,
                ;
                assert(y * w + x == iu as int) by {
                    vstd::arithmetic::div_mod::lemma_fundamental_div_mod(iu as int, w as int);
                };
            }
            let mut local: HyperEdge<E> = Vec::new();
            let mut kk: usize = 0;
            while kk < 8
                invariant
                    kk <= 8,
                    local@.len() == kk,
                    x == iu as int % w as int,
                    y == iu as int / w as int,
                    x < w,
                    y < h,
                    1 <= w,
                    1 <= h,
                    w * h <= u32::MAX,
                    forall|k: int|
                        0 <= k < kk ==> {
                            &&& (#[trigger] local@[k]).0@ == seq![
                                grid_neighbor(w as int, h as int, iu as int, k) as usize,
                            ]
                            &&& local@[k].1 == default_edge
                        },
                decreases 8 - kk,
            {
                let (dxi, dyi): (u32, u32) = match kk {
                    0 => (0, 0),
                    1 => (1, 0),
                    2 => (2, 0),
                    3 => (0, 1),
                    4 => (2, 1),
                    5 => (0, 2),
                    6 => (1, 2),
                    _ => (2, 2),
                };
                proof {
                    assert(moore_offsets()[kk as int] == (dxi as int - 1, dyi as int - 1));
                }
                let nx = if dxi == 0 {
                    if x == 0 {
                        w - 1
                    } else {
                        x - 1
                    }
                } else if dxi == 1 {
                    x
                } else {
                    if x + 1 == w {
                        0
                    } else {
                        x + 1
                    }
                };
                let ny = if dyi == 0 {
                    if y == 0 {
                        h - 1
                    } else {
                        y - 1
                    }
                } else if dyi == 1 {
                    y
                } else {
                    if y + 1 == h {
                        0
                    } else {
                        y + 1
                    }
                };
                proof {
                    lemma_wrap_cases(x as int, dxi as int - 1, w as int);
                    lemma_wrap_cases(y as int, dyi as int - 1, h as int);
                    assert(nx == wrap_coord(x as int, dxi as int - 1, w as int));
                    assert(ny == wrap_coord(y as int, dyi as int - 1, h as int));
                    assert(ny * w + nx < w * h) by (nonlinear_arith)
                        requires
                            nx < w,
                            ny < h,
                            1 <= w,
                            1 <= h,
                    ;
                }
                let neighbor_index = Self::xy_to_index(w, nx, ny);
                let entry = (vec![neighbor_index as usize], default_edge);
                proof {
                    assert(entry.0@ =~= seq![
                        grid_neighbor(w as int, h as int, iu as int, kk as int) as usize,
                    ]);
                }
                local.push(entry);
                kk = kk + 1;
            }
            edges.insert(idx, local);
            idx = idx + 1;
        }
        let r = HyperGraphHeap::from_nodes_and_edges(copy_vec(nodes), edges, &(width, height));
        proof {
            assert forall|i: usize| i < width * height implies {
                &&& #[trigger] r.spec_neighbors().contains_key(i)
                &&& r.spec_neighbors()[i]@ == grid_neighbor_seq(width as int, height as int, i as int)
            } by {
                assert(edges@.contains_key(i));
                assert(r.spec_edges()[i]@ == edges@[i]@);
                assert(flat_edges_of(r.spec_edges(), i) == flatten_hyper_edge(edges@[i]@));
                assert forall|k: int|
                    0 <= k < edges@[i]@.len() implies (#[trigger] edges@[i]@[k]).0@.len() == 1 by {
                    assert(edges@[i]@[k].0@ == seq![
                        grid_neighbor(width as int, height as int, i as int, k) as usize,
                    ]);
                }
                lemma_flatten_singletons(edges@[i]@);
                assert forall|k: int|
                    0 <= k < 8 implies flatten_hyper_edge(edges@[i]@)[k] == grid_neighbor_seq(
                    width as int,
                    height as int,
                    i as int,
                )[k] by {
                    assert(flatten_hyper_edge(edges@[i]@)[k] == edges@[i]@[k].0@[0]);
                    assert(edges@[i]@[k].0@ == seq![
                        grid_neighbor(width as int, height as int, i as int, k) as usize,
                    ]);
                }
                assert(i < r.spec_nodes().len());
                assert(r.spec_neighbors().contains_key(i));
                assert(r.spec_neighbors()[i]@ == flat_edges_of(r.spec_edges(), i));
                assert(r.spec_neighbors()[i]@ =~= grid_neighbor_seq(
                    width as int,
                    height as int,
                    i as int,
                ));
            }
            assert forall|i: usize| i < r.spec_nodes().len() implies {
                &&& #[trigger] r.spec_neighbors().contains_key(i)
                &&& crate::spaces::local::neighbors_in_range(
                    r.spec_neighbors()[i]@,
                    r.spec_nodes().len(),
                )
            } by {
                let ii = i as int;
                assert(r.spec_neighbors().contains_key(i));
                assert forall|j: int|
                    0 <= j < r.spec_neighbors()[i]@.len() implies (#[trigger] r
                    .spec_neighbors()[i]@[j]) < r.spec_nodes().len() by {
                    let k = j;
                    assert(r.spec_neighbors()[i]@[k] == grid_neighbor_seq(
                        width as int,
                        height as int,
                        ii,
                    )[k]);
                    lemma_mod_pos_bound(ii, width as int);
                    lemma_wrap_cases(ii % (width as int), moore_offsets()[k].0, width as int);
                    assert(ii / (width as int) < height as int) by (nonlinear_arith)
                        requires
                            0 <= ii < (width as int) * (height as int),
                            1 <= width,
                            1 <= height,
                    ;
                    lemma_wrap_cases(ii / (width as int), moore_offsets()[k].1, height as int);
                    assert(grid_neighbor(width as int, height as int, ii, k) < (width as int)
                        * (height as int)) by (nonlinear_arith)
                        requires
                            grid_neighbor(width as int, height as int, ii, k) == wrap_coord(
                                ii / (width as int),
                                moore_offsets()[k].1,
                                height as int,
                            ) * (width as int) + wrap_coord(
                                ii % (width as int),
                                moore_offsets()[k].0,
                                width as int,
                            ),
                            0 <= wrap_coord(
                                ii / (width as int),
                                moore_offsets()[k].1,
                                height as int,
                            ) < height as int,
                            0 <= wrap_coord(ii % (width as int), moore_offsets()[k].0, width as int)
                                < width as int,
                            1 <= width,
                            1 <= height,
                    ;
                }
            }
        }
        r
    }
}

/// For any toroidal grid at least three wide and three tall, the origin
/// cell's neighbor list holds exactly the eight wrapped Moore neighbors —
/// the far corner, the two far edges, and the five nearby cells — with no
/// index repeated.
pub proof fn lemma_origin_neighbors_wrap(w: int, h: int)
    requires
        3 <= w,
        3 <= h,
        w * h <= u32::MAX,
    ensures
        grid_neighbor_seq(w, h, 0) =~= seq![
            ((h - 1) * w + (w - 1)) as usize,
            ((h - 1) * w) as usize,
            ((h - 1) * w + 1) as usize,
            (w - 1) as usize,
            1 as usize,
            (2 * w - 1) as usize,
            w as usize,
            (w + 1) as usize,
        ],
        grid_neighbor_seq(w, h, 0).no_duplicates(),
{
    assert(0int == 0int * w + 0int) by (nonlinear_arith);
    lemma_fundamental_div_mod_converse(0, w, 0, 0);
    assert(0int % w == 0);
    assert(0int / w == 0);
    assert((h - 1) * w >= 2 * w) by (nonlinear_arith)
        requires
            3 <= h,
            3 <= w,
    ;
    assert((h - 1) * w + (w - 1) <= w * h - 1) by (nonlinear_arith)
        requires
            3 <= h,
            3 <= w,
    ;
    lemma_wrap_cases(0, -1, w);
    lemma_wrap_cases(0, 0, w);
    lemma_wrap_cases(0, 1, w);
    lemma_wrap_cases(0, -1, h);
    lemma_wrap_cases(0, 0, h);
    lemma_wrap_cases(0, 1, h);
    assert(wrap_coord(0, -1, w) == w - 1);
    assert(wrap_coord(0, 0, w) == 0);
    assert(wrap_coord(0, 1, w) == 1);
    assert(wrap_coord(0, -1, h) == h - 1);
    assert(wrap_coord(0, 0, h) == 0);
    assert(wrap_coord(0, 1, h) == 1);
    assert(moore_offsets()[0] == (-1int, -1int));
    assert(moore_offsets()[1] == (0int, -1int));
    assert(moore_offsets()[2] == (1int, -1int));
    assert(moore_offsets()[3] == (-1int, 0int));
    assert(moore_offsets()[4] == (1int, 0int));
    assert(moore_offsets()[5] == (-1int, 1int));
    assert(moore_offsets()[6] == (0int, 1int));
    assert(moore_offsets()[7] == (1int, 1int));
    assert(grid_neighbor(w, h, 0, 0) == (h - 1) * w + (w - 1));
    assert(grid_neighbor(w, h, 0, 1) == (h - 1) * w);
    assert(grid_neighbor(w, h, 0, 2) == (h - 1) * w + 1);
    assert(grid_neighbor(w, h, 0, 3) == w - 1);
    assert(grid_neighbor(w, h, 0, 4) == 1);
    assert(grid_neighbor(w, h, 0, 5) == 1 * w + (w - 1));
    assert(grid_neighbor(w, h, 0, 6) == w);
    assert(grid_neighbor(w, h, 0, 7) == w + 1);
    assert(grid_neighbor_seq(w, h, 0).no_duplicates()) by {
        assert forall|p: int, q: int|
            0 <= p < 8 && 0 <= q < 8 && p != q implies grid_neighbor_seq(w, h, 0)[p]
            != grid_neighbor_seq(w, h, 0)[q] by {
            assert(1 * w + (w - 1) == 2 * w - 1);
        }
    }
}

} // verus!
