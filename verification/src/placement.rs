//! Placing the codeword bits in the symbol: a zigzag over column pairs from
//! the right, alternately upward and downward, skipping the timing column
//! and every module that is already dark.
use vstd::prelude::*;
use vstd::arithmetic::div_mod::lemma_fundamental_div_mod_converse;
use crate::bits::{bytes_to_bits, msb_bit};
use crate::qrcode::{lemma_set_module, same_from, QrCode};

verus! {

/// Number of column pairs to the right of the timing column.
pub open spec fn cw_half(size: int) -> int {
    (size - 7) / 2
}

/// Number of column pairs of the zigzag.
pub open spec fn num_pairs(size: int) -> int {
    cw_half(size) + 3
}

/// The right column of pair `c`: pairs go right to left, skipping column 6.
pub open spec fn pair_right(size: int, c: int) -> int {
    if c < cw_half(size) {
        size - 1 - 2 * c
    } else {
        5 - 2 * (c - cw_half(size))
    }
}

/// Whether the zigzag goes upward in the pair whose right column is `right`.
pub open spec fn upward(right: int) -> bool {
    (right + 1) % 4 < 2
}

/// The pair that column `x` (not 6) belongs to.
pub open spec fn pair_of(size: int, x: int) -> int {
    if x > 6 {
        (size - 1 - x) / 2
    } else {
        cw_half(size) + (5 - x) / 2
    }
}

/// Position of module (`x`, `y`) (with `x != 6`) in the zigzag order.
pub open spec fn order_index(size: int, x: int, y: int) -> int {
    let c = pair_of(size, x);
    let r = pair_right(size, c);
    let vert = if upward(r) {
        size - 1 - y
    } else {
        y
    };
    c * (2 * size) + 2 * vert + (r - x)
}

/// Column of the `t`-th module of the zigzag.
pub open spec fn order_x(size: int, t: int) -> int {
    pair_right(size, t / (2 * size)) - t % 2
}

/// Row of the `t`-th module of the zigzag.
pub open spec fn order_y(size: int, t: int) -> int {
    let vert = (t % (2 * size)) / 2;
    if upward(pair_right(size, t / (2 * size))) {
        size - 1 - vert
    } else {
        vert
    }
}

/// Number of light modules of the size-`size` grid `g` among the first `t`
/// modules of the zigzag.
pub open spec fn light_count(g: spec_fn(int, int) -> bool, size: int, t: int) -> int
    decreases t,
{
    if t <= 0 {
        0
    } else {
        light_count(g, size, t - 1) + if !g(order_x(size, t - 1), order_y(size, t - 1)) {
            1int
        } else {
            0int
        }
    }
}

/// The value module (`x`, `y`) of grid `g` takes when the bits `bits` are
/// placed: the n-th light module of the zigzag gets bit n, while bits remain.
pub open spec fn placed_module(
    g: spec_fn(int, int) -> bool,
    size: int,
    bits: Seq<bool>,
    x: int,
    y: int,
) -> bool {
    if x != 6 && !g(x, y) && light_count(g, size, order_index(size, x, y)) < bits.len() {
        bits[light_count(g, size, order_index(size, x, y))]
    } else {
        g(x, y)
    }
}

/// The zigzag order visits every module outside the timing column exactly once.
pub proof fn lemma_order(size: int, x: int, y: int)
    requires
        21 <= size <= 177,
        size % 2 == 1,
        0 <= x < size,
        0 <= y < size,
        x != 6,
    ensures
        0 <= order_index(size, x, y) < num_pairs(size) * (2 * size),
        order_x(size, order_index(size, x, y)) == x,
        order_y(size, order_index(size, x, y)) == y,
{
    let c = pair_of(size, x);
    let r = pair_right(size, c);
    let vert = if upward(r) {
        size - 1 - y
    } else {
        y
    };
    let j = r - x;
    assert(0 <= c < num_pairs(size));
    assert(j == 0 || j == 1);
    let t = c * (2 * size) + 2 * vert + j;
    assert(0 <= 2 * vert + j < 2 * size);
    lemma_fundamental_div_mod_converse(t, 2 * size, c, 2 * vert + j);
    assert(t == (c * size + vert) * 2 + j) by (nonlinear_arith)
        requires
            t == c * (2 * size) + 2 * vert + j,
    ;
    lemma_fundamental_div_mod_converse(t, 2, c * size + vert, j);
    lemma_fundamental_div_mod_converse(2 * vert + j, 2, vert, j);
    assert(t < num_pairs(size) * (2 * size)) by (nonlinear_arith)
        requires
            t == c * (2 * size) + 2 * vert + j,
            0 <= 2 * vert + j < 2 * size,
            c < num_pairs(size),
    ;
    assert(t >= 0) by (nonlinear_arith)
        requires
            t == c * (2 * size) + 2 * vert + j,
            0 <= 2 * vert + j,
            c >= 0,
            size >= 0,
    ;
}

/// Every step of the zigzag is a module outside the timing column whose
/// position in the order is that step.
pub proof fn lemma_order_inverse(size: int, c: int, vert: int, j: int)
    requires
        21 <= size <= 177,
        size % 2 == 1,
        0 <= c < num_pairs(size),
        0 <= vert < size,
        0 <= j < 2,
    ensures
        ({
            let t = c * (2 * size) + 2 * vert + j;
            let x = order_x(size, t);
            let y = order_y(size, t);
            &&& x == pair_right(size, c) - j
            &&& y == if upward(pair_right(size, c)) {
                size - 1 - vert
            } else {
                vert
            }
            &&& 0 <= x < size
            &&& 0 <= y < size
            &&& x != 6
            &&& order_index(size, x, y) == t
        }),
{
    let t = c * (2 * size) + 2 * vert + j;
    lemma_fundamental_div_mod_converse(t, 2 * size, c, 2 * vert + j);
    assert(t == (c * size + vert) * 2 + j) by (nonlinear_arith)
        requires
            t == c * (2 * size) + 2 * vert + j,
    ;
    lemma_fundamental_div_mod_converse(t, 2, c * size + vert, j);
    lemma_fundamental_div_mod_converse(2 * vert + j, 2, vert, j);
    let x = pair_right(size, c) - j;
    assert(pair_of(size, x) == c);
}

proof fn lemma_codeword_bit(b: u8, k: u8)
    requires
        k < 8,
    ensures
        ((b as u32) >> ((7 - k) as u32)) & 1u32 == 1u32 <==> (b >> ((7 - k) as u8)) & 1u8 == 1u8,
{
    assert(((b as u32) >> ((7 - k) as u32)) & 1u32 == 1u32 <==> (b >> ((7 - k) as u8)) & 1u8 == 1u8)
        by (bit_vector)
        requires
            k < 8,
    ;
}

proof fn lemma_upward_bit(n: i32)
    requires
        n >= 0,
    ensures
        (n & 2i32 == 0i32) == (n % 4 < 2),
{
    assert((n & 2i32 == 0i32) == (n % 4 < 2)) by (bit_vector)
        requires
            n >= 0,
    ;
}

impl QrCode {
    /// Places the bits of `data`, most significant first, in the light
    /// modules along the zigzag; modules beyond the data stay as they are.
    #[verifier::rlimit(60)]
    pub fn draw_codewords(&mut self, data: &[u8])
        requires
            old(self).wf(),
            data.len() * 8 <= usize::MAX,
        ensures
            final(self).wf(),
            final(self).size == old(self).size,
            same_from(final(self).bits(), old(self).bits(), old(self).area()),
            forall|x: int, y: int|
                0 <= x < old(self).size && 0 <= y < old(self).size ==> #[trigger] final(self).module(x, y)
                    == placed_module(old(self).grid(), old(self).size as int, bytes_to_bits(data@), x, y),
    {
        let ghost a = *self;
        let ghost bits = bytes_to_bits(data@);
        let ghost sz = self.size as int;
        let size = self.size as i32;
        let nbits = data.len() * 8;
        let mut i: usize = 0;
        let mut right: i32 = size - 1;
        let ghost mut c: int = 0;
        while right >= 1
            invariant
                self.wf(),
                self.size == a.size,
                a.wf(),
                sz == a.size,
                size == sz,
                sz % 2 == 1,
                nbits == bits.len(),
                bits == bytes_to_bits(data@),
                0 <= c <= num_pairs(sz),
                c < num_pairs(sz) ==> (if right == 6 {
                    5
                } else {
                    right as int
                }) == pair_right(sz, c),
                c < num_pairs(sz) ==> right >= 1,
                c == num_pairs(sz) ==> right < 1,
                right >= -1,
                i == if light_count(a.grid(), sz, c * (2 * sz)) < nbits {
                    light_count(a.grid(), sz, c * (2 * sz))
                } else {
                    nbits as int
                },
                forall|x: int, y: int|
                    0 <= x < sz && 0 <= y < sz ==> #[trigger] self.module(x, y) == if x != 6
                        && order_index(sz, x, y) < c * (2 * sz) {
                        placed_module(a.grid(), sz, bits, x, y)
                    } else {
                        a.module(x, y)
                    },
                same_from(self.bits(), a.bits(), a.area()),
            decreases right + 1,
        {
            if right == 6 {
                right = 5;
            }
            proof {
                lemma_upward_bit((right + 1) as i32);
            }
            let upward = (right + 1) & 2 == 0;
            let mut vert: i32 = 0;
            while vert < size
                invariant
                    self.wf(),
                    self.size == a.size,
                    a.wf(),
                    sz == a.size,
                    size == sz,
                    sz % 2 == 1,
                    nbits == bits.len(),
                    bits == bytes_to_bits(data@),
                    0 <= c < num_pairs(sz),
                    right as int == pair_right(sz, c),
                    1 <= right <= sz - 1,
                    upward == crate::placement::upward(right as int),
                    0 <= vert <= size,
                    i == if light_count(a.grid(), sz, c * (2 * sz) + 2 * vert) < nbits {
                        light_count(a.grid(), sz, c * (2 * sz) + 2 * vert)
                    } else {
                        nbits as int
                    },
                    forall|x: int, y: int|
                        0 <= x < sz && 0 <= y < sz ==> #[trigger] self.module(x, y) == if x != 6
                            && order_index(sz, x, y) < c * (2 * sz) + 2 * vert {
                            placed_module(a.grid(), sz, bits, x, y)
                        } else {
                            a.module(x, y)
                        },
                    same_from(self.bits(), a.bits(), a.area()),
                decreases size - vert,
            {
                let mut j: i32 = 0;
                while j < 2
                    invariant
                        self.wf(),
                        self.size == a.size,
                        a.wf(),
                        sz == a.size,
                        size == sz,
                        sz % 2 == 1,
                        nbits == bits.len(),
                        bits == bytes_to_bits(data@),
                        0 <= c < num_pairs(sz),
                        right as int == pair_right(sz, c),
                        1 <= right <= sz - 1,
                        upward == crate::placement::upward(right as int),
                        0 <= vert < size,
                        0 <= j <= 2,
                        i == if light_count(a.grid(), sz, c * (2 * sz) + 2 * vert + j) < nbits {
                            light_count(a.grid(), sz, c * (2 * sz) + 2 * vert + j)
                        } else {
                            nbits as int
                        },
                        forall|x: int, y: int|
                            0 <= x < sz && 0 <= y < sz ==> #[trigger] self.module(x, y) == if x != 6
                                && order_index(sz, x, y) < c * (2 * sz) + 2 * vert + j {
                                placed_module(a.grid(), sz, bits, x, y)
                            } else {
                                a.module(x, y)
                            },
                        same_from(self.bits(), a.bits(), a.area()),
                    decreases 2 - j,
                {
                    let ghost t = c * (2 * sz) + 2 * vert + j;
                    proof {
                        lemma_order_inverse(sz, c, vert as int, j as int);
                    }
                    let x = (right - j) as u8;
                    let y = if upward {
                        size - 1 - vert
                    } else {
                        vert
                    } as u8;
                    proof {
                        assert(order_x(sz, t) == x && order_y(sz, t) == y);
                        assert(order_index(sz, x as int, y as int) == t);
                    }
                    let ghost b = *self;
                    let light = !self.get_module_bounded(x, y);
                    if light && i < nbits {
                        proof {
                            lemma_codeword_bit(data@[(i / 8) as int], (i % 8) as u8);
                            assert(i >> 3usize == i / 8 && i & 7usize == i % 8) by (bit_vector);
                        }
                        let bit = crate::bits::get_bit(data[i >> 3] as u32, 7 - ((i & 7) as u8));
                        proof {
                            assert(bit == bits[i as int]);
                        }
                        self.set_module_bounded(x, y, bit);
                        proof {
                            lemma_set_module(b, *self, x as int, y as int, bit);
                        }
                        i = i + 1;
                    }
                    proof {
                        assert(light_count(a.grid(), sz, t + 1) == light_count(a.grid(), sz, t) + if !a.module(x as int, y as int) {
                            1int
                        } else {
                            0int
                        });
                        assert forall|x2: int, y2: int| 0 <= x2 < sz && 0 <= y2 < sz implies #[trigger] self.module(
                            x2,
                            y2,
                        ) == if x2 != 6 && order_index(sz, x2, y2) < t + 1 {
                            placed_module(a.grid(), sz, bits, x2, y2)
                        } else {
                            a.module(x2, y2)
                        } by {
                            if x2 != 6 {
                                lemma_order(sz, x2, y2);
                            }
                        }
                    }
                    j = j + 1;
                }
                vert = vert + 1;
            }
            assert(c * (2 * sz) + 2 * sz == (c + 1) * (2 * sz)) by (nonlinear_arith);
            right = right - 2;
            proof {
                c = c + 1;
            }
        }
        proof {
            assert forall|x: int, y: int| 0 <= x < sz && 0 <= y < sz implies #[trigger] self.module(x, y)
                == placed_module(a.grid(), sz, bits, x, y) by {
                if x != 6 {
                    lemma_order(sz, x, y);
                }
            }
        }
    }
}

} // verus!
