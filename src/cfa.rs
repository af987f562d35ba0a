//! The colour filter array: a periodic pattern that gives each sensor
//! position the index of the colour filter over it.
use vstd::prelude::*;

verus! {

/// Index of the red filter colour.
pub const RED: usize = 0;

/// Index of the green filter colour.
pub const GREEN: usize = 1;

/// Index of the blue filter colour.
pub const BLUE: usize = 2;

/// Whether `c` names one of the three colours red, green and blue.
pub open spec fn is_known_color(c: usize) -> bool {
    c < 3
}

/// `a * width + b` addresses a cell of a `width` × `height` grid.
pub proof fn lemma_cell_index(a: int, b: int, width: int, height: int)
    requires
        0 <= a < height,
        0 <= b < width,
    ensures
        0 <= a * width + b < width * height,
{
    assert(a * width + b < width * height) by (nonlinear_arith)
        requires
            0 <= a < height,
            0 <= b < width,
    ;
    assert(0 <= a * width) by (nonlinear_arith)
        requires
            0 <= a,
            0 <= b < width,
    ;
}

/// One period of the filter pattern, `width` columns by `height` rows, stored
/// row by row. The pattern repeats over the whole sensor.
pub struct Cfa {
    pub width: usize,
    pub height: usize,
    pub colors: Vec<usize>,
}

impl Cfa {
    pub open spec fn wf(&self) -> bool {
        &&& self.width > 0
        &&& self.height > 0
        &&& self.colors@.len() == self.width * self.height
    }

    /// The filter colour over sensor row `row`, column `col`.
    pub open spec fn color_of(&self, row: usize, col: usize) -> usize {
        self.colors@[(row % self.height) * self.width + col % self.width]
    }

    /// A pattern of `width` × `height` cells, when `colors` holds exactly that many.
    pub fn new(width: usize, height: usize, colors: Vec<usize>) -> (r: Option<Cfa>)
        ensures
            r is Some <==> (width > 0 && height > 0 && colors@.len() == width * height),
            r matches Some(c) ==> c.width == width && c.height == height && c.colors@
                == colors@ && c.wf(),
    {
        let len = colors.len();
        if width == 0 || height == 0 {
            return None;
        }
        match width.checked_mul(height) {
            Some(n) => {
                if len == n {
                    Some(Cfa { width, height, colors })
                } else {
                    None
                }
            },
            None => None,
        }
    }

    /// The filter colour over sensor row `row`, column `col`.
    pub fn color_at(&self, row: usize, col: usize) -> (r: usize)
        requires
            self.wf(),
        ensures
            r == self.color_of(row, col),
    {
        let len = self.colors.len();
        let a = row % self.height;
        let b = col % self.width;
        proof {
            lemma_cell_index(a as int, b as int, self.width as int, self.height as int);
        }
        self.colors[a * self.width + b]
    }
}

} // verus!
