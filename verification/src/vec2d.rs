//! A dense two-dimensional grid of values, stored row by row.
use vstd::prelude::*;

verus! {

/// A `w` x `h` grid of values, stored row by row: cell (x, y) is at `y * w + x`.
pub struct Vec2D<T> {
    size: (u32, u32),
    values: Vec<T>,
}

/// Index in the row-by-row storage of cell `idx` in a grid of width `w`.
pub open spec fn grid_index(w: u32, idx: (u32, u32)) -> int {
    idx.1 * w + idx.0
}

/// Cells of a `w` x `h` grid in the order of enumeration: column by column
/// (x outer, y inner).
pub open spec fn grid_cells(w: u32, h: u32) -> Seq<(u32, u32)> {
    Seq::new((w * h) as nat, |k: int| ((k / (h as int)) as u32, (k % (h as int)) as u32))
}

impl<T> Vec2D<T> {
    /// Width and height.
    pub closed spec fn spec_size(&self) -> (u32, u32) {
        self.size
    }

    /// Stored values, row by row.
    pub closed spec fn spec_values(&self) -> Seq<T> {
        self.values@
    }

    /// Value at cell `idx`.
    pub open spec fn spec_at(&self, idx: (u32, u32)) -> T {
        self.spec_values()[grid_index(self.spec_size().0, idx)]
    }

    /// Whether the flat index of `idx` addresses a stored value.
    pub open spec fn index_ok(&self, idx: (u32, u32)) -> bool {
        0 <= grid_index(self.spec_size().0, idx) < self.spec_values().len()
    }

    /// The grid holds exactly `w * h` values.
    pub open spec fn wf(&self) -> bool {
        self.spec_values().len() == self.spec_size().0 * self.spec_size().1
    }

    /// Width and height.
    pub fn size(&self) -> (r: (u32, u32))
        ensures
            r == self.spec_size(),
    {
        self.size
    }

    /// Width and height as signed numbers (converted with `as`).
    pub fn isize(&self) -> (r: (i32, i32))
        ensures
            r.0 == self.spec_size().0 as i32,
            r.1 == self.spec_size().1 as i32,
    {
        (self.size.0 as i32, self.size.1 as i32)
    }

    pub fn index(&self, idx: (u32, u32)) -> (i: usize)
        requires
            self.index_ok(idx),
        ensures
            i == grid_index(self.spec_size().0, idx),
    {
        let len = self.values.len();
        proof {
            assert(idx.1 as int * self.size.0 as int + idx.0 < len);
            assert(0 <= idx.1 as int * self.size.0 as int) by (nonlinear_arith);
        }
        let a = idx.1 as usize;
        let b = self.size.0 as usize;
        let c = idx.0 as usize;
        assert(a * b + c < len);
        a * b + c
    }

    /// Value at cell `idx`.
    pub fn at(&self, idx: (u32, u32)) -> (r: &T)
        requires
            self.index_ok(idx),
        ensures
            *r == self.spec_at(idx),
    {
        let i = self.index(idx);
        &self.values[i]
    }

    /// Store `v` at cell `idx`; every other cell keeps its value.
    pub fn set(&mut self, idx: (u32, u32), v: T)
        requires
            old(self).index_ok(idx),
        ensures
            final(self).spec_size() == old(self).spec_size(),
            final(self).spec_values() == old(self).spec_values().update(grid_index(old(self).spec_size().0, idx), v),
    {
        let i = self.index(idx);
        self.values.set(i, v);
    }

    /// All values, row by row.
    pub fn iter(&self) -> (r: &[T])
        ensures
            r@ == self.spec_values(),
    {
        self.values.as_slice()
    }

    /// All values, row by row, for changing them in place.
    pub fn iter_mut(&mut self) -> (r: &mut [T])
        ensures
            r@ == old(self).spec_values(),
            final(self).spec_values() == final(r)@,
            final(self).spec_size() == old(self).spec_size(),
    {
        self.values.as_mut_slice()
    }

    /// Cell coordinates with a reference to the value, column by column.
    pub fn enumerate_ref(&self) -> (r: Vec<((u32, u32), &T)>)
        requires
            self.wf(),
        ensures
            r@.len() == grid_cells(self.spec_size().0, self.spec_size().1).len(),
            forall|k: int| 0 <= k < r@.len() ==> (#[trigger] r@[k]).0 == grid_cells(self.spec_size().0, self.spec_size().1)[k]
                && *r@[k].1 == self.spec_at(r@[k].0),
    {
        let (w, h) = self.size;
        let mut r: Vec<((u32, u32), &T)> = Vec::new();
        let mut x: u32 = 0;
        while x < w
            invariant
                self.wf(),
                (w, h) == self.spec_size(),
                x <= w,
                r@.len() == x * h,
                forall|k: int| 0 <= k < r@.len() ==> (#[trigger] r@[k]).0 == grid_cells(w, h)[k]
                    && *r@[k].1 == self.spec_at(r@[k].0),
            decreases w - x,
        {
            let mut y: u32 = 0;
            while y < h
                invariant
                    self.wf(),
                    (w, h) == self.spec_size(),
                    x < w,
                    y <= h,
                    r@.len() == x * h + y,
                    forall|k: int| 0 <= k < r@.len() ==> (#[trigger] r@[k]).0 == grid_cells(w, h)[k]
                        && *r@[k].1 == self.spec_at(r@[k].0),
                decreases h - y,
            {
                proof { lemma_grid_cell(w, h, x, y); }
                let v = self.at((x, y));
                r.push(((x, y), v));
                y = y + 1;
            }
            proof { assert((x + 1) * h == x * h + h) by (nonlinear_arith); }
            x = x + 1;
        }
        r
    }
}

impl<T: Copy> Vec2D<T> {
    /// Cell coordinates with a copy of the value, column by column.
    pub fn enumerate(&self) -> (r: Vec<((u32, u32), T)>)
        requires
            self.wf(),
        ensures
            r@.len() == grid_cells(self.spec_size().0, self.spec_size().1).len(),
            forall|k: int| 0 <= k < r@.len() ==> (#[trigger] r@[k]).0 == grid_cells(self.spec_size().0, self.spec_size().1)[k]
                && r@[k].1 == self.spec_at(r@[k].0),
    {
        let (w, h) = self.size;
        let mut r: Vec<((u32, u32), T)> = Vec::new();
        let mut x: u32 = 0;
        while x < w
            invariant
                self.wf(),
                (w, h) == self.spec_size(),
                x <= w,
                r@.len() == x * h,
                forall|k: int| 0 <= k < r@.len() ==> (#[trigger] r@[k]).0 == grid_cells(w, h)[k]
                    && r@[k].1 == self.spec_at(r@[k].0),
            decreases w - x,
        {
            let mut y: u32 = 0;
            while y < h
                invariant
                    self.wf(),
                    (w, h) == self.spec_size(),
                    x < w,
                    y <= h,
                    r@.len() == x * h + y,
                    forall|k: int| 0 <= k < r@.len() ==> (#[trigger] r@[k]).0 == grid_cells(w, h)[k]
                        && r@[k].1 == self.spec_at(r@[k].0),
                decreases h - y,
            {
                proof { lemma_grid_cell(w, h, x, y); }
                let v = *self.at((x, y));
                r.push(((x, y), v));
                y = y + 1;
            }
            proof { assert((x + 1) * h == x * h + h) by (nonlinear_arith); }
            x = x + 1;
        }
        r
    }
}

impl<T: Default> Vec2D<T> {
    /// A `size.0` x `size.1` grid filled with default values.
    pub fn new(size: (u32, u32)) -> (g: Vec2D<T>)
        requires
            size.0 * size.1 <= usize::MAX,
        ensures
            g.wf(),
            g.spec_size() == size,
            forall|i: int| 0 <= i < g.spec_values().len() ==> call_ensures(T::default, (), #[trigger] g.spec_values()[i]),
    {
        let n = size.0 as usize * size.1 as usize;
        let mut values: Vec<T> = Vec::new();
        let mut i: usize = 0;
        while i < n
            invariant
                i <= n,
                values@.len() == i,
                forall|j: int| 0 <= j < i ==> call_ensures(T::default, (), #[trigger] values@[j]),
            decreases n - i,
        {
            values.push(T::default());
            i = i + 1;
        }
        Vec2D { size, values }
    }
}

/// Cell number `x * h + y` of the enumeration is `(x, y)`, and it is stored at a valid index.
proof fn lemma_grid_cell(w: u32, h: u32, x: u32, y: u32)
    requires
        x < w,
        y < h,
    ensures
        x * h + y < w * h,
        grid_cells(w, h)[x * h + y] == (x, y),
        0 <= grid_index(w, (x, y)) < w * h,
{
    let k = x * h + y;
    assert(x * h + y < w * h) by (nonlinear_arith)
        requires
            x < w,
            y < h,
    ;
    assert(k / (h as int) == x && k % (h as int) == y) by (nonlinear_arith)
        requires
            k == x * h + y,
            0 <= y < h,
    ;
    assert(0 <= y * w + x < w * h) by (nonlinear_arith)
        requires
            x < w,
            y < h,
    ;
}

/// Setting a cell and reading it back gives the value written; every other
/// cell of the grid keeps its value.
pub proof fn lemma_set_then_at<T>(g: Vec2D<T>, g2: Vec2D<T>, idx: (u32, u32), other: (u32, u32), v: T)
    requires
        g.index_ok(idx),
        g2.spec_size() == g.spec_size(),
        g2.spec_values() == g.spec_values().update(grid_index(g.spec_size().0, idx), v),
    ensures
        g2.spec_at(idx) == v,
        g.index_ok(other) && grid_index(g.spec_size().0, other) != grid_index(g.spec_size().0, idx)
            ==> g2.spec_at(other) == g.spec_at(other),
{
}

} // verus!
