//! Life-like automata on a toroidal plane: a birth list and a survival
//! list judge the number of live cells among the eight wrapped Moore
//! neighbors.

use crate::dynamic::Dynamic;
use crate::dynamics::lifelike::{list_has, slice_has_u64};
use crate::space::TwoDimensional;
use crate::spaces::grid::wrap_coord;
use vstd::arithmetic::div_mod::{lemma_fundamental_div_mod, lemma_mod_pos_bound};
use vstd::prelude::*;

verus! {

/// The sum of the eight wrapped Moore neighbors of the cell at `(x, y)` on
/// an `xd` by `yd` torus whose row-major buffer is `input`.
pub open spec fn torus_neighbor_sum(input: Seq<u32>, xd: int, yd: int, x: int, y: int) -> int {
    input[wrap_coord(y, -1, yd) * xd + wrap_coord(x, -1, xd)] + input[wrap_coord(y, -1, yd) * xd
        + wrap_coord(x, 0, xd)] + input[wrap_coord(y, -1, yd) * xd + wrap_coord(x, 1, xd)]
        + input[wrap_coord(y, 0, yd) * xd + wrap_coord(x, -1, xd)] + input[wrap_coord(y, 0, yd) * xd
        + wrap_coord(x, 1, xd)] + input[wrap_coord(y, 1, yd) * xd + wrap_coord(x, -1, xd)]
        + input[wrap_coord(y, 1, yd) * xd + wrap_coord(x, 0, xd)] + input[wrap_coord(y, 1, yd) * xd
        + wrap_coord(x, 1, xd)]
}

/// The next state of the cell at flat index `c`: born when the neighbor
/// sum lies in the birth list, unchanged when it lies in the survival
/// list, dead otherwise.
pub open spec fn torus_life_cell(
    b_list: Seq<u32>,
    s_list: Seq<u32>,
    input: Seq<u32>,
    xd: int,
    yd: int,
    c: int,
) -> u32 {
    let total = torus_neighbor_sum(input, xd, yd, c % xd, c / xd);
    if list_has(b_list, total) {
        1
    } else if list_has(s_list, total) {
        input[c]
    } else {
        0
    }
}

/// One whole generation on the torus.
pub open spec fn torus_life_step(
    b_list: Seq<u32>,
    s_list: Seq<u32>,
    input: Seq<u32>,
    xd: int,
    yd: int,
) -> Seq<u32> {
    Seq::new(input.len(), |c: int| torus_life_cell(b_list, s_list, input, xd, yd, c))
}

/// A Life-like automaton on a toroidal `X` by `Y` plane.
#[derive(Debug, Clone)]
pub struct LifeLikeCellularAutomaton<S: crate::space::DiscreteSpace<2>> {
    b_list: &'static [u32],
    s_list: &'static [u32],
    phantom: core::marker::PhantomData<S>,
}

impl<const X: usize, const Y: usize> LifeLikeCellularAutomaton<TwoDimensional<X, Y>> {
    /// The birth list.
    pub closed spec fn spec_b_list(&self) -> Seq<u32> {
        self.b_list@
    }

    /// The survival list.
    pub closed spec fn spec_s_list(&self) -> Seq<u32> {
        self.s_list@
    }

    pub fn new(b_list: &'static [u32], s_list: &'static [u32]) -> (r: Self)
        ensures
            r.spec_b_list() == b_list@,
            r.spec_s_list() == s_list@,
    {
        LifeLikeCellularAutomaton { b_list, s_list, phantom: core::marker::PhantomData }
    }
}

impl<const X: usize, const Y: usize> Dynamic<2, TwoDimensional<X, Y>> for LifeLikeCellularAutomaton<
    TwoDimensional<X, Y>,
> {
    open spec fn spec_states(&self) -> u32 {
        2
    }

    open spec fn valid_input(&self, input: Seq<u32>) -> bool {
        &&& X >= 1
        &&& Y >= 1
        &&& X * Y <= u32::MAX
        &&& input.len() == X * Y
        &&& forall|i: int| 0 <= i < input.len() ==> (#[trigger] input[i]) < 2
    }

    open spec fn spec_update(&self, input: Seq<u32>) -> Seq<u32> {
        torus_life_step(self.spec_b_list(), self.spec_s_list(), input, X as int, Y as int)
    }

    proof fn lemma_update_len(&self, input: Seq<u32>) {
    }

    fn states(&self) -> u32 {
        2
    }

    fn update(&self, input: &Vec<u32>) -> (r: Vec<u32>) {
        let n = input.len();
        let mut output: Vec<u32> = Vec::new();
        let mut c: usize = 0;
        while c < n
            invariant
                c <= n,
                n == input@.len(),
                n == X * Y,
                X >= 1,
                Y >= 1,
                X * Y <= u32::MAX,
                forall|i: int| 0 <= i < input@.len() ==> (#[trigger] input@[i]) < 2,
                output@.len() == c,
                forall|k: int|
                    0 <= k < c ==> (#[trigger] output@[k]) == torus_life_cell(
                        self.spec_b_list(),
                        self.spec_s_list(),
                        input@,
                        X as int,
                        Y as int,
                        k,
                    ),
            decreases n - c,
        {
            let x = c % X;
            let y = c / X;
            proof {
                lemma_mod_pos_bound(c as int, X as int);
                assert(y < Y) by (nonlinear_arith)
                    requires
                        y == (c as int) / (X as int),
                        (c as int) < (X as int) * (Y as int),
                        1 <= X,
                        1 <= Y,
                ;
            }
            let mut total: u32 = 0;
            let mut dyi: usize = 0;
            let ghost gx = x as int;
            let ghost gy = y as int;
            let xl = if x == 0 {
                X - 1
            } else {
                x - 1
            };
            let xr = if x + 1 == X {
                0
            } else {
                x + 1
            };
            proof {
                crate::spaces::grid::lemma_wrap_cases(gx, -1, X as int);
                crate::spaces::grid::lemma_wrap_cases(gx, 0, X as int);
                crate::spaces::grid::lemma_wrap_cases(gx, 1, X as int);
                assert(xl == wrap_coord(gx, -1, X as int));
                assert(x == wrap_coord(gx, 0, X as int));
                assert(xr == wrap_coord(gx, 1, X as int));
            }
            while dyi < 3
                invariant
                    dyi <= 3,
                    n == input@.len(),
                    n == X * Y,
                    X >= 1,
                    Y >= 1,
                    X * Y <= u32::MAX,
                    forall|i: int| 0 <= i < input@.len() ==> (#[trigger] input@[i]) < 2,
                    gx == x as int,
                    gy == y as int,
                    x < X,
                    y < Y,
                    xl == wrap_coord(gx, -1, X as int),
                    x == wrap_coord(gx, 0, X as int),
                    xr == wrap_coord(gx, 1, X as int),
                    total == torus_row_partial(input@, X as int, Y as int, gx, gy, dyi as int),
                    total <= 3 * dyi,
                decreases 3 - dyi,
            {
                let wy = if dyi == 0 {
                    if y == 0 {
                        Y - 1
                    } else {
                        y - 1
                    }
                } else if dyi == 1 {
                    y
                } else {
                    if y + 1 == Y {
                        0
                    } else {
                        y + 1
                    }
                };
                proof {
                    crate::spaces::grid::lemma_wrap_cases(gy, dyi as int - 1, Y as int);
                    assert(wy == wrap_coord(gy, dyi as int - 1, Y as int));
                }
                let a = self.torus_read(input, wy, xl);
                let b = self.torus_read(input, wy, x);
                let d = self.torus_read(input, wy, xr);
                proof {
                    assert(a < 2);
                    assert(b < 2);
                    assert(d < 2);
                    assert(torus_row_partial(input@, X as int, Y as int, gx, gy, dyi as int + 1)
                        == torus_row_partial(input@, X as int, Y as int, gx, gy, dyi as int)
                        + input@[wrap_coord(gy, dyi as int - 1, Y as int) * (X as int)
                        + wrap_coord(gx, -1, X as int)] + input@[wrap_coord(
                        gy,
                        dyi as int - 1,
                        Y as int,
                    ) * (X as int) + wrap_coord(gx, 0, X as int)] + input@[wrap_coord(
                        gy,
                        dyi as int - 1,
                        Y as int,
                    ) * (X as int) + wrap_coord(gx, 1, X as int)]);
                }
                total = total + a + b + d;
                dyi = dyi + 1;
            }
            let center = self.torus_read(input, y, x);
            proof {
                crate::spaces::grid::lemma_wrap_cases(gy, 0, Y as int);
                let p0 = torus_row_partial(input@, X as int, Y as int, gx, gy, 0);
                let p1 = torus_row_partial(input@, X as int, Y as int, gx, gy, 1);
                let p2 = torus_row_partial(input@, X as int, Y as int, gx, gy, 2);
                let p3 = torus_row_partial(input@, X as int, Y as int, gx, gy, 3);
                assert(p0 == 0);
                assert(total == p3);
                assert(p3 == torus_neighbor_sum(input@, X as int, Y as int, gx, gy) + input@[
                    wrap_coord(gy, 0, Y as int) * (X as int) + wrap_coord(gx, 0, X as int)]);
                assert(center == input@[wrap_coord(gy, 0, Y as int) * (X as int) + wrap_coord(
                    gx,
                    0,
                    X as int,
                )]);
            }
            let total_without_center = total - center;
            proof {
                assert(total_without_center == torus_neighbor_sum(
                    input@,
                    X as int,
                    Y as int,
                    gx,
                    gy,
                ));
                lemma_fundamental_div_mod(c as int, X as int);
                assert(gx == (c as int) % (X as int));
                assert(gy == (c as int) / (X as int));
            }
            let next = if slice_has_u64(self.b_list, total_without_center as u64) {
                1
            } else if slice_has_u64(self.s_list, total_without_center as u64) {
                input[c]
            } else {
                0
            };
            output.push(next);
            c = c + 1;
        }
        proof {
            assert(output@ =~= torus_life_step(
                self.spec_b_list(),
                self.spec_s_list(),
                input@,
                X as int,
                Y as int,
            ));
        }
        output
    }
}

impl<const X: usize, const Y: usize> LifeLikeCellularAutomaton<TwoDimensional<X, Y>> {
    /// Reads the cell at `(x, y)` from the row-major buffer.
    fn torus_read(&self, input: &Vec<u32>, y: usize, x: usize) -> (r: u32)
        requires
            X >= 1,
            Y >= 1,
            X * Y <= u32::MAX,
            input@.len() == X * Y,
            x < X,
            y < Y,
        ensures
            0 <= (y as int) * (X as int) + (x as int) < input@.len(),
            r == input@[(y as int) * (X as int) + (x as int)],
    {
        proof {
            assert((y as int) * (X as int) + (x as int) < (X as int) * (Y as int))
                by (nonlinear_arith)
                requires
                    (x as int) < (X as int),
                    (y as int) < (Y as int),
                    1 <= X,
                    1 <= Y,
            ;
        }
        input[y * X + x]
    }
}

/// The neighbor sum restricted to the first `rows` of the 3-by-3 window,
/// the center included.
pub open spec fn torus_row_partial(
    input: Seq<u32>,
    xd: int,
    yd: int,
    x: int,
    y: int,
    rows: int,
) -> int
    decreases rows,
{
    if rows <= 0 {
        0
    } else {
        torus_row_partial(input, xd, yd, x, y, rows - 1) + input[wrap_coord(y, rows - 2, yd) * xd
            + wrap_coord(x, -1, xd)] + input[wrap_coord(y, rows - 2, yd) * xd + wrap_coord(
            x,
            0,
            xd,
        )] + input[wrap_coord(y, rows - 2, yd) * xd + wrap_coord(x, 1, xd)]
    }
}


} // verus!
