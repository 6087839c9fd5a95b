//! A rectangular layout of tile codes, walked row by row.

use vstd::prelude::*;

verus! {

/// What a layout's tiles stand for.
#[derive(Debug, Clone, Copy, PartialEq, Eq, Structural)]
pub enum LayoutType {
    Floor,
    FloorDecor,
    Wall,
    Roof,
    Shadow,
}

/// A grid of tile codes stored row by row, with a cursor for walking it.
#[derive(Debug)]
pub struct Layout {
    width: usize,
    height: usize,
    grids: Vec<u8>,
    index: usize,
}

/// Whether `n` is the square of a positive integer.
pub open spec fn is_square(n: nat) -> bool {
    exists|s: nat| s > 0 && #[trigger] (s * s) == n
}

/// The width a layout of `len` codes gets: the one given, or else the
/// square root of `len`.
pub open spec fn layout_width(len: nat, width: Option<usize>) -> nat {
    match width {
        Some(w) => w as nat,
        None => choose|s: nat| s > 0 && #[trigger] (s * s) == len,
    }
}

/// Whether a layout of `len` codes can be made with `width`.
pub open spec fn can_lay_out(len: nat, width: Option<usize>) -> bool {
    match width {
        Some(w) => w > 0 && len % (w as nat) == 0,
        None => is_square(len),
    }
}

fn square_exceeds(w: usize, n: usize) -> (r: bool)
    requires
        w < n,
    ensures
        r == ((w + 1) * (w + 1) > n),
{
    let v = w as u128 + 1;
    assert(v * v <= 0xffff_ffff_ffff_ffff * 0xffff_ffff_ffff_ffff) by (nonlinear_arith)
        requires 0 < v <= 0xffff_ffff_ffff_ffff;
    v * v > n as u128
}

fn square_root(n: usize) -> (r: usize)
    requires
        is_square(n as nat),
    ensures
        r == layout_width(n as nat, None),
        r > 0,
        r * r == n,
{
    let mut w: usize = 0;
    while w < n && !square_exceeds(w, n)
        invariant
            w <= n,
            w * w <= n,
        decreases n - w,
    {
        w += 1;
    }
    let ghost s = layout_width(n as nat, None);
    proof {
        assert(s > 0 && s * s == n);
        assert(s <= n) by (nonlinear_arith)
            requires s > 0, s * s == n;
        if w < n {
            assert((w + 1) * (w + 1) > n);
        } else {
            assert(w == n);
            assert(n * n >= n) by (nonlinear_arith)
                requires n >= 0;
        }
        assert(s == w) by (nonlinear_arith)
            requires
                s > 0,
                s * s == n,
                w * w <= n,
                w < n ==> (w + 1) * (w + 1) > n,
                s <= n,
                w <= n,
        ;
    }
    w
}

impl Layout {
    /// Whether the layout is a full `width × height` grid.
    pub closed spec fn wf(&self) -> bool {
        &&& self.width > 0
        &&& self.width * self.height == self.grids@.len()
        &&& self.index <= self.grids@.len()
    }

    /// The codes, row by row.
    pub closed spec fn codes(&self) -> Seq<u8> {
        self.grids@
    }

    /// Position of the cursor: the number of codes already walked.
    pub closed spec fn cursor(&self) -> nat {
        self.index as nat
    }

    /// Number of columns.
    pub closed spec fn spec_width(&self) -> nat {
        self.width as nat
    }

    /// Lays out `grids` in rows of `width` codes, or, with no width, in a
    /// square. The cursor starts at the first code.
    pub fn new(grids: &[u8], width: Option<usize>) -> (r: Layout)
        requires
            can_lay_out(grids@.len(), width),
        ensures
            r.wf(),
            r.codes() == grids@,
            r.cursor() == 0,
            r.spec_width() == layout_width(grids@.len(), width),
    {
        let len = grids.len();
        let given = width;
        let width = match given {
            Some(w) => w,
            None => square_root(len),
        };
        let height = len / width;
        proof {
            vstd::arithmetic::div_mod::lemma_fundamental_div_mod(len as int, width as int);
            if given is None {
                vstd::arithmetic::div_mod::lemma_fundamental_div_mod_converse(
                    len as int,
                    width as int,
                    width as int,
                    0,
                );
            }
            assert(width * height == len) by (nonlinear_arith)
                requires
                    width > 0,
                    len == width * (len / width) + len % width,
                    len % width == 0,
                    height == len / width,
            ;
        }
        Layout { width, height, grids: vstd::slice::slice_to_vec(grids), index: 0 }
    }

    /// Number of columns.
    pub fn width(&self) -> (r: usize)
        ensures
            r == self.spec_width(),
    {
        self.width
    }

    /// Number of rows.
    pub fn height(&self) -> (r: usize)
        requires
            self.wf(),
        ensures
            self.spec_width() * r == self.codes().len(),
    {
        self.height
    }

    /// The next code with its column and row, advancing the cursor; `None`
    /// once every code has been walked.
    pub fn next(&mut self) -> (r: Option<(usize, usize, u8)>)
        requires
            old(self).wf(),
        ensures
            final(self).wf(),
            final(self).codes() == old(self).codes(),
            final(self).spec_width() == old(self).spec_width(),
            old(self).cursor() >= old(self).codes().len() ==> r is None && final(self).cursor()
                == old(self).cursor(),
            old(self).cursor() < old(self).codes().len() ==> {
                let i = old(self).cursor();
                let w = old(self).spec_width();
                &&& r == Some((((i % w) as usize), ((i / w) as usize), old(self).codes()[i as int]))
                &&& final(self).cursor() == i + 1
            },
    {
        if self.index >= self.grids.len() {
            return None;
        }
        let tile = self.grids[self.index];
        let x = self.index % self.width;
        let y = self.index / self.width;
        self.index += 1;
        Some((x, y, tile))
    }
}

} // verus!
