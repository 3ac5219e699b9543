//! An owned width x height grid of 32-bit values with point read/write
//! access. One instance carries the color image; a second instance of the
//! same type carries the depth values, as raw fixed-point ticks in
//! `[0, FX_ONE]` (cleared to `u32::MAX`, meaning "infinitely far").

use vstd::prelude::*;

verus! {

pub struct Framebuffer {
    data: Vec<u32>,
    width: usize,
    height: usize,
}

impl View for Framebuffer {
    type V = Seq<u32>;

    closed spec fn view(&self) -> Seq<u32> {
        self.data@
    }
}

impl Framebuffer {
    pub closed spec fn spec_width(&self) -> int {
        self.width as int
    }

    pub closed spec fn spec_height(&self) -> int {
        self.height as int
    }

    /// The backing row-major index of the pixel at `(x, y)`.
    pub open spec fn idx(&self, x: int, y: int) -> int {
        x + y * self.spec_width()
    }

    /// The buffer owns exactly one cell per grid point.
    pub open spec fn wf(&self) -> bool {
        self@.len() == self.spec_width() * self.spec_height()
    }

    /// A pixel coordinate inside the grid.
    pub open spec fn in_bounds(&self, x: int, y: int) -> bool {
        0 <= x < self.spec_width() && 0 <= y < self.spec_height()
    }

    pub proof fn lemma_idx_in_range(&self, x: int, y: int)
        requires
            self.wf(),
            self.in_bounds(x, y),
        ensures
            0 <= self.idx(x, y) < self@.len(),
            forall|x2: int, y2: int|
                self.in_bounds(x2, y2) && self.idx(x2, y2) == self.idx(x, y) ==> x2 == x && y2
                    == y,
    {
        assert(0 <= x + y * self.spec_width() < self.spec_width() * self.spec_height() && forall|
            x2: int,
            y2: int,
        |
            #![trigger x2 + y2 * self.spec_width()]
            0 <= x2 < self.spec_width() && 0 <= y2 < self.spec_height() && x2 + y2
                * self.spec_width() == x + y * self.spec_width() ==> x2 == x && y2 == y)
            by (nonlinear_arith)
            requires
                0 <= x < self.spec_width(),
                0 <= y < self.spec_height(),
        ;
    }

    pub fn new(width: usize, height: usize) -> (fb: Framebuffer)
        requires
            width * height <= usize::MAX,
        ensures
            fb.wf(),
            fb.spec_width() == width,
            fb.spec_height() == height,
            fb@ =~= Seq::new((width * height) as nat, |i: int| 0u32),
    {
        let n: usize = width * height;
        let mut data: Vec<u32> = Vec::new();
        let mut i: usize = 0;
        while i < n
            invariant
                i <= n,
                data@ =~= Seq::new(i as nat, |k: int| 0u32),
            decreases n - i,
        {
            data.push(0);
            i = i + 1;
        }
        Framebuffer { data, width, height }
    }

    pub fn width(&self) -> (w: usize)
        ensures
            w as int == self.spec_width(),
    {
        self.width
    }

    pub fn height(&self) -> (h: usize)
        ensures
            h as int == self.spec_height(),
    {
        self.height
    }

    /// Write the value at `(x, y)`.
    pub fn set_pixel(&mut self, x: usize, y: usize, val: u32)
        requires
            old(self).wf(),
            old(self).in_bounds(x as int, y as int),
        ensures
            final(self).wf(),
            final(self).spec_width() == old(self).spec_width(),
            final(self).spec_height() == old(self).spec_height(),
            final(self)@ =~= old(self)@.update(old(self).idx(x as int, y as int), val),
    {
        proof {
            self.lemma_idx_in_range(x as int, y as int);
        }
        let n: usize = self.data.len();
        assert(x as int + (y as int) * self.spec_width() < n as int);
        let i: usize = x + y * self.width;
        self.data.set(i, val);
    }

    /// Read the value at `(x, y)`.
    pub fn get_pixel(&mut self, x: usize, y: usize) -> (val: u32)
        requires
            old(self).wf(),
            old(self).in_bounds(x as int, y as int),
        ensures
            *final(self) == *old(self),
            val == old(self)@[old(self).idx(x as int, y as int)],
    {
        proof {
            self.lemma_idx_in_range(x as int, y as int);
        }
        let n: usize = self.data.len();
        assert(x as int + (y as int) * self.spec_width() < n as int);
        let i: usize = x + y * self.width;
        self.data[i]
    }

    /// Overwrite every cell with `col`.
    pub fn clear(&mut self, col: u32)
        requires
            old(self).wf(),
        ensures
            final(self).wf(),
            final(self).spec_width() == old(self).spec_width(),
            final(self).spec_height() == old(self).spec_height(),
            final(self)@ =~= Seq::new(old(self)@.len(), |i: int| col),
    {
        let n: usize = self.data.len();
        let mut i: usize = 0;
        while i < n
            invariant
                i <= n,
                self.data@.len() == n,
                self.width == old(self).width,
                self.height == old(self).height,
                forall|k: int| 0 <= k < i ==> self.data@[k] == col,
                forall|k: int| i <= k < n ==> self.data@[k] == old(self).data@[k],
            decreases n - i,
        {
            self.data.set(i, col);
            i = i + 1;
        }
    }

    /// Read-only access to the backing storage, for presentation.
    pub fn buffer(&self) -> (data: &Vec<u32>)
        ensures
            data@ == self@,
    {
        &self.data
    }
}

} // verus!
