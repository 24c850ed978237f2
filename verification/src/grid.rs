//! The grid itself: construction, lookup, views of rows and columns, and
//! bulk operations.

use crate::offsets::{
    lemma_coords, lemma_coords_of, lemma_offset_fits, lemma_row_fits, lemma_row_of, linear_offset,
    offset_of,
};
use vstd::prelude::*;
use vstd::std_specs::iter::IteratorSpec;
use vstd::std_specs::slice::into_iter_elts;

verus! {

/// A dense `width` x `height` grid whose cells live row-major in one buffer:
/// the cell at column `x` of row `y` sits at linear offset `x + y * width`.
pub struct Grid<T> {
    width: usize,
    height: usize,
    data: Vec<T>,
}

/// `true` when `value` is something `T::default()` may return.
pub open spec fn is_default<T: Default>(value: T) -> bool {
    call_ensures(T::default, (), value)
}

impl<T> Grid<T> {
    /// The cells in row-major order.
    pub closed spec fn view(&self) -> Seq<T> {
        self.data@
    }

    /// Number of columns.
    pub closed spec fn spec_width(&self) -> nat {
        self.width as nat
    }

    /// Number of rows.
    pub closed spec fn spec_height(&self) -> nat {
        self.height as nat
    }

    /// The buffer holds exactly one cell for each coordinate.
    pub open spec fn wf(&self) -> bool {
        self@.len() == self.spec_width() * self.spec_height()
    }

    /// Linear offset of the cell at column `x`, row `y` of this grid.
    pub open spec fn offset(&self, x: nat, y: nat) -> nat {
        offset_of(self.spec_width(), x, y)
    }

    /// The cell that a lookup at `(x, y)` finds, if any. Only the linear
    /// offset is held against the buffer's length, so a column past the last
    /// one reaches into a later row.
    pub open spec fn cell(&self, x: nat, y: nat) -> Option<T> {
        if self.offset(x, y) < self@.len() {
            Some(self@[self.offset(x, y) as int])
        } else {
            None
        }
    }

    /// The cells of row `row`, left to right.
    pub open spec fn row(&self, row: nat) -> Seq<T> {
        self@.subrange(self.offset(0, row) as int, self.offset(self.spec_width(), row) as int)
    }

    /// The cells of column `col`, top to bottom.
    pub open spec fn col(&self, col: nat) -> Seq<T> {
        Seq::new(self.spec_height(), |i: int| self@[col + i * self.spec_width()])
    }

    /// A grid of `width * height` cells, each holding `T`'s default value.
    pub fn new(width: usize, height: usize) -> (g: Self) where T: Default
        requires
            width * height <= usize::MAX,
        ensures
            g.wf(),
            g.spec_width() == width,
            g.spec_height() == height,
            g@.len() == width * height,
            forall|i: int| 0 <= i < g@.len() ==> is_default(#[trigger] g@[i]),
    {
        let n: usize = width * height;
        let mut data: Vec<T> = Vec::with_capacity(n);
        while data.len() < n
            invariant
                data@.len() <= n,
                forall|i: int| 0 <= i < data@.len() ==> is_default(#[trigger] data@[i]),
            decreases n - data@.len(),
        {
            data.push(T::default());
        }
        Grid { width, height, data }
    }

    /// A grid of `width * height` cells, each a clone of `value`.
    pub fn init(width: usize, height: usize, value: T) -> (g: Self) where T: Clone
        requires
            width * height <= usize::MAX,
        ensures
            g.wf(),
            g.spec_width() == width,
            g.spec_height() == height,
            g@.len() == width * height,
            forall|i: int| 0 <= i < g@.len() ==> cloned(value, #[trigger] g@[i]),
    {
        Grid { width, height, data: vec![value; width * height] }
    }

    /// Wraps an existing row-major buffer as a grid `width` wide.
    pub fn from_vec(vec: Vec<T>, width: usize) -> (g: Self)
        requires
            width > 0,
            vec@.len() % (width as nat) == 0,
        ensures
            g.wf(),
            g@ == vec@,
            g.spec_width() == width,
            g.spec_height() == vec@.len() / (width as nat),
    {
        let height: usize = vec.len() / width;
        proof {
            vstd::arithmetic::div_mod::lemma_fundamental_div_mod(vec@.len() as int, width as int);
        }
        Grid { width, height, data: vec }
    }

    /// The cell at `(x, y)`, for a caller that knows its offset to be in
    /// range.
    pub fn get_unchecked(&self, x: usize, y: usize) -> (cell: &T)
        requires
            self.offset(x as nat, y as nat) < self@.len(),
        ensures
            *cell == self@[self.offset(x as nat, y as nat) as int],
            Some(*cell) == self.cell(x as nat, y as nat),
    {
        let len: usize = self.data.len();
        proof {
            lemma_offset_fits(self.width as nat, x as nat, y as nat, len as nat);
        }
        &self.data[x + y * self.width]
    }

    /// Mutable counterpart of `get_unchecked`. Whatever the caller writes
    /// through the reference lands in that cell and nowhere else.
    pub fn get_unchecked_mut(&mut self, x: usize, y: usize) -> (cell: &mut T)
        requires
            old(self).offset(x as nat, y as nat) < old(self)@.len(),
        ensures
            *cell == old(self)@[old(self).offset(x as nat, y as nat) as int],
            final(self)@ == old(self)@.update(
                old(self).offset(x as nat, y as nat) as int,
                *final(cell),
            ),
            final(self).spec_width() == old(self).spec_width(),
            final(self).spec_height() == old(self).spec_height(),
            old(self).wf() ==> final(self).wf(),
    {
        let len: usize = self.data.len();
        proof {
            lemma_offset_fits(self.width as nat, x as nat, y as nat, len as nat);
        }
        let off: usize = x + y * self.width;
        &mut self.data[off]
    }

    /// The cell at linear offset `x + y * width`, or `None` where that
    /// offset lies past the buffer.
    pub fn get(&self, x: usize, y: usize) -> (cell: Option<&T>)
        ensures
            match cell {
                Some(c) => Some(*c) == self.cell(x as nat, y as nat),
                None => self.cell(x as nat, y as nat) is None,
            },
    {
        match linear_offset(self.width, x, y, self.data.len()) {
            Some(off) => Some(&self.data[off]),
            None => None,
        }
    }

    /// Mutable counterpart of `get`: the cell at linear offset
    /// `x + y * width`, or `None` where that offset lies past the buffer.
    /// Whatever the caller writes through the reference lands in that cell
    /// and nowhere else.
    pub fn get_mut(&mut self, x: usize, y: usize) -> (cell: Option<&mut T>)
        ensures
            final(self).spec_width() == old(self).spec_width(),
            final(self).spec_height() == old(self).spec_height(),
            old(self).wf() ==> final(self).wf(),
            match cell {
                Some(c) => {
                    &&& Some(*c) == old(self).cell(x as nat, y as nat)
                    &&& final(self)@ == old(self)@.update(
                        old(self).offset(x as nat, y as nat) as int,
                        *final(c),
                    )
                },
                None => {
                    &&& old(self).cell(x as nat, y as nat) is None
                    &&& final(self)@ == old(self)@
                },
            },
    {
        match linear_offset(self.width, x, y, self.data.len()) {
            Some(off) => Some(&mut self.data[off]),
            None => None,
        }
    }

    /// Every cell in row-major order.
    pub fn iter(&self) -> (it: std::slice::Iter<'_, T>)
        ensures
            into_iter_elts(it) == self@,
            IteratorSpec::remaining(&it) == self@.as_ref(),
            IteratorSpec::decrease(&it) is Some,
            IteratorSpec::initial_value_relation(&it, &it),
    {
        self.data.as_slice().iter()
    }

    /// The cells of row `row`, left to right.
    pub fn iter_row(&self, row: usize) -> (it: std::slice::Iter<'_, T>)
        requires
            self.wf(),
            row < self.spec_height(),
        ensures
            into_iter_elts(it) == self.row(row as nat),
            IteratorSpec::remaining(&it) == self.row(row as nat).as_ref(),
            IteratorSpec::decrease(&it) is Some,
            IteratorSpec::initial_value_relation(&it, &it),
    {
        let len: usize = self.data.len();
        proof {
            lemma_row_fits(self.width as nat, self.height as nat, row as nat);
        }
        let start: usize = row * self.width;
        let cells: &[T] = &self.data.as_slice()[start..(start + self.width)];
        cells.iter()
    }

    /// The cells of column `col`, top to bottom.
    pub fn iter_col(&self, col: usize) -> (cells: Vec<&T>)
        requires
            self.wf(),
            col < self.spec_width(),
        ensures
            cells@.unref() == self.col(col as nat),
    {
        let len: usize = self.data.len();
        let mut cells: Vec<&T> = Vec::with_capacity(self.height);
        let mut y: usize = 0;
        while y < self.height
            invariant
                self.wf(),
                len == self@.len(),
                col < self.spec_width(),
                y <= self.height,
                cells@.len() == y,
                forall|i: int| 0 <= i < y ==> *(#[trigger] cells@[i]) == self@[col + i * self.width],
            decreases self.height - y,
        {
            proof {
                lemma_row_fits(self.width as nat, self.height as nat, y as nat);
            }
            cells.push(&self.data[col + y * self.width]);
            y += 1;
        }
        assert(cells@.unref() =~= self.col(col as nat));
        cells
    }

    /// Every cell in row-major order, open to writing. The slice cannot
    /// grow or shrink, so the grid keeps its shape.
    pub fn iter_mut(&mut self) -> (cells: &mut [T])
        ensures
            cells@ == old(self)@,
            final(self)@ == final(cells)@,
            final(self).spec_width() == old(self).spec_width(),
            final(self).spec_height() == old(self).spec_height(),
            old(self).wf() && final(cells)@.len() == cells@.len() ==> final(self).wf(),
    {
        self.data.as_mut_slice()
    }

    /// The cells of row `row`, left to right, open to writing. The other
    /// rows stay as they are.
    pub fn iter_row_mut(&mut self, row: usize) -> (cells: &mut [T])
        requires
            old(self).wf(),
            row < old(self).spec_height(),
        ensures
            cells@ == old(self).row(row as nat),
            final(self)@ == old(self)@.subrange(0, old(self).offset(0, row as nat) as int)
                + final(cells)@ + old(self)@.subrange(
                old(self).offset(old(self).spec_width(), row as nat) as int,
                old(self)@.len() as int,
            ),
            final(self).spec_width() == old(self).spec_width(),
            final(self).spec_height() == old(self).spec_height(),
            final(cells)@.len() == cells@.len() ==> final(self).wf(),
    {
        let len: usize = self.data.len();
        proof {
            lemma_row_fits(self.width as nat, self.height as nat, row as nat);
        }
        let start: usize = row * self.width;
        let width: usize = self.width;
        let (_, tail) = self.data.as_mut_slice().split_at_mut(start);
        let (cells, _) = tail.split_at_mut(width);
        cells
    }

    /// The cells of column `col`, top to bottom, open to writing. What the
    /// caller writes through the `i`-th reference lands in row `i` of that
    /// column; the other columns stay as they are.
    pub fn iter_col_mut(&mut self, col: usize) -> (cells: Vec<&mut T>)
        requires
            old(self).wf(),
            col < old(self).spec_width(),
        ensures
            cells@.len() == old(self).spec_height(),
            forall|i: int|
                0 <= i < cells@.len() ==> *(#[trigger] cells@[i]) == old(self)@[col + i * old(
                    self,
                ).spec_width()],
            final(self)@.len() == old(self)@.len(),
            forall|k: int|
                0 <= k < old(self)@.len() ==> #[trigger] final(self)@[k] == (if k % (old(
                    self,
                ).spec_width() as int) == col {
                    *final(cells@[k / (old(self).spec_width() as int)])
                } else {
                    old(self)@[k]
                }),
            final(self).spec_width() == old(self).spec_width(),
            final(self).spec_height() == old(self).spec_height(),
            final(self).wf(),
    {
        let len: usize = self.data.len();
        let width: usize = self.width;
        let height: usize = self.height;
        let ghost before = self.data@;
        let mut cells: Vec<&mut T> = Vec::with_capacity(height);
        // The rows not yet visited; each round splits the next row off it.
        let mut rest: &mut [T] = self.data.as_mut_slice();
        let mut y: usize = 0;
        while y < height
            invariant
                width * height == len,
                before.len() == len,
                before == old(self)@,
                self.width == width == old(self).width,
                self.height == height == old(self).height,
                col < width,
                y <= height,
                cells@.len() == y,
                rest@ == before.subrange(y * width, len as int),
                forall|i: int| 0 <= i < y ==> *(#[trigger] cells@[i]) == before[col + i * width],
                // The buffer will end up as the visited rows followed by
                // whatever `rest` ends up as ...
                after_borrow(self.data)@.len() == y * width + final(rest)@.len(),
                forall|k: int|
                    0 <= k < final(rest)@.len() ==> after_borrow(self.data)@[y * width + k]
                        == #[trigger] final(rest)@[k],
                // ... and in the visited rows only column `col` can change.
                forall|k: int|
                    0 <= k < y * width ==> #[trigger] after_borrow(self.data)@[k] == (if k % (
                    width as int) == col {
                        *final(cells@[k / (width as int)])
                    } else {
                        before[k]
                    }),
            decreases height - y,
        {
            proof {
                lemma_row_fits(width as nat, height as nat, y as nat);
            }
            let ghost base: int = y * width;
            let ghost whole = final(rest)@;
            assert((y + 1) * width == base + width) by (nonlinear_arith)
                requires
                    base == y * width,
            ;
            let (row, tail) = rest.split_at_mut(width);
            let ghost row_end = final(row)@;
            let (_left, from) = row.split_at_mut(col);
            let (one, _right) = from.split_at_mut(1);
            let ghost earlier = cells@;
            cells.push(&mut one[0]);
            rest = tail;
            y += 1;
            assert(rest@ =~= before.subrange(y * width, len as int));
            assert forall|k: int| 0 <= k < final(rest)@.len() implies after_borrow(self.data)@[y
                * width + k] == #[trigger] final(rest)@[k] by {
                assert(whole[width + k] == final(rest)@[k]);
            }
            assert forall|k: int| 0 <= k < y * width implies #[trigger] after_borrow(
                self.data,
            )@[k] == (if k % (width as int) == col {
                *final(cells@[k / (width as int)])
            } else {
                before[k]
            }) by {
                lemma_coords(width as nat, k);
                if k < base {
                    lemma_row_of(width as nat, (y - 1) as nat, k);
                    assert(cells@[k / (width as int)] == earlier[k / (width as int)]);
                } else {
                    let j: int = k - base;
                    lemma_coords_of(width as int, y - 1, j);
                    assert(after_borrow(self.data)@[base + j] == whole[j]);
                    assert(whole[j] == row_end[j]);
                }
            }
        }
        assert(y * width == len) by (nonlinear_arith)
            requires
                y == height,
                width * height == len,
        ;
        cells
    }

    /// Overwrites every cell with a clone of `value`.
    pub fn fill(&mut self, value: T) where T: Clone
        ensures
            final(self).spec_width() == old(self).spec_width(),
            final(self).spec_height() == old(self).spec_height(),
            old(self).wf() ==> final(self).wf(),
            final(self)@.len() == old(self)@.len(),
            forall|i: int| 0 <= i < final(self)@.len() ==> cloned(value, #[trigger] final(self)@[i]),
    {
        let n: usize = self.data.len();
        let mut i: usize = 0;
        while i < n
            invariant
                i <= n,
                n == self.data@.len(),
                self.width == old(self).width,
                self.height == old(self).height,
                forall|j: int| 0 <= j < i ==> cloned(value, #[trigger] self.data@[j]),
            decreases n - i,
        {
            self.data[i] = value.clone();
            i += 1;
        }
    }

    /// Overwrites every cell, in row-major order, with what one call of
    /// `func` returns.
    pub fn fill_with(&mut self, func: impl FnMut() -> T)
        requires
            call_requires(func, ()),
        ensures
            final(self).spec_width() == old(self).spec_width(),
            final(self).spec_height() == old(self).spec_height(),
            old(self).wf() ==> final(self).wf(),
            final(self)@.len() == old(self)@.len(),
            forall|i: int|
                0 <= i < final(self)@.len() ==> call_ensures(func, (), #[trigger] final(self)@[i]),
    {
        let ghost produce = func;
        let mut func = func;
        let n: usize = self.data.len();
        let mut i: usize = 0;
        while i < n
            invariant
                i <= n,
                n == self.data@.len(),
                self.width == old(self).width,
                self.height == old(self).height,
                func == produce,
                call_requires(func, ()),
                forall|j: int| 0 <= j < i ==> call_ensures(func, (), #[trigger] self.data@[j]),
            decreases n - i,
        {
            self.data[i] = func();
            i += 1;
        }
    }

    /// Gives up the grid for one of the same shape whose cells are what
    /// `func` makes of the old ones, taken in row-major order.
    pub fn map<U>(self, func: impl FnMut(T) -> U) -> (g: Grid<U>)
        requires
            forall|i: int| 0 <= i < self@.len() ==> call_requires(func, (#[trigger] self@[i],)),
        ensures
            g.spec_width() == self.spec_width(),
            g.spec_height() == self.spec_height(),
            g@.len() == self@.len(),
            self.wf() ==> g.wf(),
            forall|i: int| 0 <= i < g@.len() ==> call_ensures(func, (self@[i],), #[trigger] g@[i]),
    {
        let ghost transform = func;
        let mut func = func;
        let width: usize = self.width;
        let height: usize = self.height;
        let cells: Vec<T> = self.data;
        let mut data: Vec<U> = Vec::with_capacity(cells.len());
        for cell in it: cells
            invariant
                it.seq() == self@,
                data@.len() == it.index(),
                func == transform,
                forall|i: int| 0 <= i < self@.len() ==> call_requires(func, (#[trigger] self@[i],)),
                forall|i: int|
                    0 <= i < data@.len() ==> call_ensures(func, (self@[i],), #[trigger] data@[i]),
        {
            data.push(func(cell));
        }
        Grid { width, height, data }
    }

    /// Width and height, in that order.
    pub fn size(&self) -> (s: (usize, usize))
        ensures
            s.0 == self.spec_width(),
            s.1 == self.spec_height(),
    {
        (self.width, self.height)
    }

    /// Number of columns.
    pub fn width(&self) -> (w: usize)
        ensures
            w == self.spec_width(),
    {
        self.width
    }

    /// Number of rows.
    pub fn height(&self) -> (h: usize)
        ensures
            h == self.spec_height(),
    {
        self.height
    }

    /// Number of rows.
    pub fn rows(&self) -> (h: usize)
        ensures
            h == self.spec_height(),
    {
        self.height
    }

    /// Number of columns.
    pub fn cols(&self) -> (w: usize)
        ensures
            w == self.spec_width(),
    {
        self.width
    }

    /// `true` exactly when the grid holds no cell.
    pub fn is_empty(&self) -> (b: bool)
        ensures
            b == (self@.len() == 0),
    {
        self.data.len() == 0
    }

    /// Drops every cell and shrinks the grid to zero by zero.
    pub fn clear(&mut self)
        ensures
            final(self).wf(),
            final(self)@ == Seq::<T>::empty(),
            final(self).spec_width() == 0,
            final(self).spec_height() == 0,
    {
        self.width = 0;
        self.height = 0;
        self.data.clear();
    }

    /// The backing buffer, row-major.
    pub fn flatten(&self) -> (v: &Vec<T>)
        ensures
            v@ == self@,
    {
        &self.data
    }

    /// Gives up the grid for its backing buffer, row-major.
    pub fn into_vec(self) -> (v: Vec<T>)
        ensures
            v@ == self@,
    {
        self.data
    }
}

/// Cell by cell, the first of two optional values that is present.
pub open spec fn merged<T>(first: Seq<Option<T>>, second: Seq<Option<T>>) -> Seq<Option<T>> {
    Seq::new(
        first.len(),
        |i: int|
            if first[i] is Some {
                first[i]
            } else {
                second[i]
            },
    )
}

impl<T> Grid<Option<T>> {
    /// Merges two grids of one shape: each cell is this grid's where it is
    /// present, and `other`'s at the same coordinate where it is not.
    pub fn or(self, other: Self) -> (g: Self)
        requires
            self.wf(),
            other.wf(),
            self.spec_width() == other.spec_width(),
            self.spec_height() == other.spec_height(),
        ensures
            g.wf(),
            g.spec_width() == self.spec_width(),
            g.spec_height() == self.spec_height(),
            g@ == merged(self@, other@),
    {
        let width: usize = self.width;
        let height: usize = self.height;
        let mut data: Vec<Option<T>> = self.data;
        let mut spare: Vec<Option<T>> = other.data;
        let n: usize = data.len();
        let mut i: usize = 0;
        while i < n
            invariant
                i <= n,
                data@.len() == n,
                spare@.len() == n,
                self@.len() == n,
                other@.len() == n,
                forall|j: int| 0 <= j < i ==> #[trigger] data@[j] == merged(self@, other@)[j],
                forall|j: int| i <= j < n ==> #[trigger] data@[j] == self@[j],
                forall|j: int| i <= j < n ==> #[trigger] spare@[j] == other@[j],
            decreases n - i,
        {
            if data[i].is_none() {
                let cell: Option<T> = spare[i].take();
                data[i] = cell;
            }
            i += 1;
        }
        assert(data@ =~= merged(self@, other@));
        Grid { width, height, data }
    }
}

} // verus!
