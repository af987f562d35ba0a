//! Demosaicing by neighbour averaging, with each channel normalised by its
//! white level. Channel values are kept as exact fractions of integers, so a
//! value is `num / den` with nothing rounded and nothing clamped.
use vstd::prelude::*;
use crate::cfa::{is_known_color, lemma_cell_index, Cfa, BLUE, GREEN, RED};
use crate::neighbors::{is_neighbor, lemma_neighbors_upto, neighbor_list, neighbors};
use vstd::arithmetic::div_mod::lemma_fundamental_div_mod_converse;

verus! {

/// The fraction `num / den`.
#[derive(Clone, Copy, Debug, PartialEq, Eq, Structural)]
pub struct Ratio {
    pub num: u64,
    pub den: u64,
}

/// The three normalised channels of one pixel.
#[derive(Clone, Copy, Debug, PartialEq, Eq, Structural)]
pub struct Pixel {
    pub red: Ratio,
    pub green: Ratio,
    pub blue: Ratio,
}

/// Why a pixel or an image could not be demosaiced.
#[derive(Clone, Copy, Debug, PartialEq, Eq, Structural)]
pub enum DemosaicError {
    /// The filter pattern gives a colour index other than red, green or blue.
    UnknownColor,
    /// A pixel has no neighbour carrying one of the colours it lacks, so that
    /// colour cannot be averaged (only images one pixel wide or high).
    MissingNeighborColor,
}

/// The reconstructed image: three channels, each holding `width * height`
/// values, where index `i` is the pixel `(i % width, i / width)`.
#[derive(Debug)]
pub struct Grid {
    pub red: Vec<Ratio>,
    pub green: Vec<Ratio>,
    pub blue: Vec<Ratio>,
}

impl Grid {
    /// The three channels of the pixel at linear index `i`.
    pub fn pixel(&self, i: usize) -> (r: Pixel)
        requires
            i < self.red@.len(),
            i < self.green@.len(),
            i < self.blue@.len(),
        ensures
            r == (Pixel { red: self.red@[i as int], green: self.green@[i as int], blue: self.blue@[i as int] }),
    {
        Pixel { red: self.red[i], green: self.green[i], blue: self.blue[i] }
    }
}

/// The raw sample of pixel `p = (x, y)`.
pub open spec fn sample_at(samples: Seq<u16>, width: usize, p: (usize, usize)) -> int {
    samples[p.1 * width + p.0] as int
}

/// Sum of the raw samples of the pixels in `ps` whose filter colour is `c`.
pub open spec fn color_sum(samples: Seq<u16>, cfa: Cfa, width: usize, ps: Seq<(usize, usize)>, c: usize) -> int
    decreases ps.len(),
{
    if ps.len() == 0 {
        0
    } else {
        let p = ps.last();
        color_sum(samples, cfa, width, ps.drop_last(), c) + if cfa.color_of(p.1, p.0) == c {
            sample_at(samples, width, p)
        } else {
            0
        }
    }
}

/// Number of pixels in `ps` whose filter colour is `c`.
pub open spec fn color_count(cfa: Cfa, ps: Seq<(usize, usize)>, c: usize) -> int
    decreases ps.len(),
{
    if ps.len() == 0 {
        0
    } else {
        let p = ps.last();
        color_count(cfa, ps.drop_last(), c) + if cfa.color_of(p.1, p.0) == c {
            1int
        } else {
            0
        }
    }
}

/// Channel `c` of pixel `(x, y)` as a fraction (numerator, denominator).
/// For the pixel's own filter colour it is the pixel's sample over the white
/// level; for the others it is the mean of the samples of the neighbours of
/// that colour over the white level, that is their sum over
/// (count × white level).
pub open spec fn channel(
    samples: Seq<u16>,
    cfa: Cfa,
    width: usize,
    height: usize,
    x: usize,
    y: usize,
    c: usize,
    white: u16,
) -> (int, int) {
    let ns = neighbor_list(x, y, width, height);
    if cfa.color_of(y, x) == c {
        (sample_at(samples, width, (x, y)), white as int)
    } else {
        (color_sum(samples, cfa, width, ns, c), color_count(cfa, ns, c) * white)
    }
}

pub open spec fn ratio_is(r: Ratio, v: (int, int)) -> bool {
    r.num == v.0 && r.den == v.1
}

/// The pixel `(x, y)` and all its neighbours carry a known filter colour.
pub open spec fn window_known(cfa: Cfa, width: usize, height: usize, x: usize, y: usize) -> bool {
    let ns = neighbor_list(x, y, width, height);
    &&& is_known_color(cfa.color_of(y, x))
    &&& forall|i: int| 0 <= i < ns.len() ==> is_known_color(#[trigger] cfa.color_of(ns[i].1, ns[i].0))
}

/// Some colour other than the pixel's own has no neighbour to average.
pub open spec fn lacks_neighbor_color(cfa: Cfa, width: usize, height: usize, x: usize, y: usize) -> bool {
    let ns = neighbor_list(x, y, width, height);
    let own = cfa.color_of(y, x);
    ||| own != RED && color_count(cfa, ns, RED) == 0
    ||| own != GREEN && color_count(cfa, ns, GREEN) == 0
    ||| own != BLUE && color_count(cfa, ns, BLUE) == 0
}

/// The demosaiced, normalised value of pixel `(x, y)`.
pub open spec fn pixel_is(
    p: Pixel,
    samples: Seq<u16>,
    cfa: Cfa,
    width: usize,
    height: usize,
    whites: [u16; 3],
    x: usize,
    y: usize,
) -> bool {
    &&& ratio_is(p.red, channel(samples, cfa, width, height, x, y, RED, whites@[0]))
    &&& ratio_is(p.green, channel(samples, cfa, width, height, x, y, GREEN, whites@[1]))
    &&& ratio_is(p.blue, channel(samples, cfa, width, height, x, y, BLUE, whites@[2]))
}

proof fn lemma_take_step(ps: Seq<(usize, usize)>, i: int)
    requires
        0 <= i < ps.len(),
    ensures
        ps.take(i + 1).drop_last() == ps.take(i),
        ps.take(i + 1).last() == ps[i],
        ps.take(i + 1).len() == i + 1,
{
    assert(ps.take(i + 1).drop_last() =~= ps.take(i));
}

/// Fraction for a colour averaged over `count` neighbours whose samples sum to `sum`.
fn averaged(sum: u64, count: u64, white: u16) -> (r: Ratio)
    requires
        count <= 8,
    ensures
        r.num == sum,
        r.den == count * white,
{
    assert(count * white <= 8 * 65535) by (nonlinear_arith)
        requires
            count <= 8,
            white <= 65535,
    ;
    Ratio { num: sum, den: count * white as u64 }
}

/// Reconstructs and normalises the three channels of pixel `(x, y)` from the
/// raw `samples` (row by row, `width` per row) and the filter pattern `cfa`,
/// dividing each channel by its entry of `whites` (red, green, blue).
pub fn demosaic_pixel(
    samples: &Vec<u16>,
    cfa: &Cfa,
    width: usize,
    height: usize,
    whites: [u16; 3],
    x: usize,
    y: usize,
) -> (r: Result<Pixel, DemosaicError>)
    requires
        cfa.wf(),
        x < width,
        y < height,
        samples@.len() == width * height,
    ensures
        r == Err::<Pixel, DemosaicError>(DemosaicError::UnknownColor) <==> !window_known(
            *cfa,
            width,
            height,
            x,
            y,
        ),
        r == Err::<Pixel, DemosaicError>(DemosaicError::MissingNeighborColor) <==> window_known(
            *cfa,
            width,
            height,
            x,
            y,
        ) && lacks_neighbor_color(*cfa, width, height, x, y),
        r is Ok <==> window_known(*cfa, width, height, x, y) && !lacks_neighbor_color(
            *cfa,
            width,
            height,
            x,
            y,
        ),
        r matches Ok(p) ==> pixel_is(p, samples@, *cfa, width, height, whites, x, y),
{
    let ns = neighbors(x, y, width, height);
    let total = samples.len();
    proof {
        let sx = crate::neighbors::span(x, width);
        let sy = crate::neighbors::span(y, height);
        assert(sx * sy <= 9) by (nonlinear_arith)
            requires
                1 <= sx <= 3,
                1 <= sy <= 3,
        ;
    }
    let ghost s = samples@;
    let ghost c = *cfa;
    let mut red_sum: u64 = 0;
    let mut green_sum: u64 = 0;
    let mut blue_sum: u64 = 0;
    let mut red_count: u64 = 0;
    let mut green_count: u64 = 0;
    let mut blue_count: u64 = 0;
    let n = ns.len();
    for i in 0..n
        invariant
            n == ns@.len(),
            n <= 8,
            cfa.wf(),
            samples@.len() == width * height,
            total == samples@.len(),
            s == samples@,
            c == *cfa,
            ns@ == neighbor_list(x, y, width, height),
            forall|j: int|
                0 <= j < ns@.len() ==> is_neighbor(
                    x as int,
                    y as int,
                    ns@[j].0 as int,
                    ns@[j].1 as int,
                    width as int,
                    height as int,
                ),
            forall|j: int| 0 <= j < i ==> is_known_color(#[trigger] cfa.color_of(ns@[j].1, ns@[j].0)),
            red_sum == color_sum(s, c, width, ns@.take(i as int), RED),
            green_sum == color_sum(s, c, width, ns@.take(i as int), GREEN),
            blue_sum == color_sum(s, c, width, ns@.take(i as int), BLUE),
            red_count == color_count(c, ns@.take(i as int), RED),
            green_count == color_count(c, ns@.take(i as int), GREEN),
            blue_count == color_count(c, ns@.take(i as int), BLUE),
            red_sum <= 65535 * i,
            green_sum <= 65535 * i,
            blue_sum <= 65535 * i,
            red_count <= i,
            green_count <= i,
            blue_count <= i,
    {
        let (nx, ny) = ns[i];
        let col = cfa.color_at(ny, nx);
        proof {
            lemma_take_step(ns@, i as int);
            lemma_cell_index(ny as int, nx as int, width as int, height as int);
        }
        if col >= 3 {
            assert(!is_known_color(cfa.color_of(ns@[i as int].1, ns@[i as int].0)));
            return Err(DemosaicError::UnknownColor);
        }
        let v = samples[ny * width + nx] as u64;
        if col == RED {
            red_sum = red_sum + v;
            red_count = red_count + 1;
        } else if col == GREEN {
            green_sum = green_sum + v;
            green_count = green_count + 1;
        } else {
            blue_sum = blue_sum + v;
            blue_count = blue_count + 1;
        }
    }
    proof {
        assert(ns@.take(n as int) =~= ns@);
    }
    let own = cfa.color_at(y, x);
    if own >= 3 {
        return Err(DemosaicError::UnknownColor);
    }
    if (own != RED && red_count == 0) || (own != GREEN && green_count == 0) || (own != BLUE
        && blue_count == 0) {
        return Err(DemosaicError::MissingNeighborColor);
    }
    proof {
        lemma_cell_index(y as int, x as int, width as int, height as int);
    }
    let v = samples[y * width + x] as u64;
    let red = if own == RED {
        Ratio { num: v, den: whites[0] as u64 }
    } else {
        averaged(red_sum, red_count, whites[0])
    };
    let green = if own == GREEN {
        Ratio { num: v, den: whites[1] as u64 }
    } else {
        averaged(green_sum, green_count, whites[1])
    };
    let blue = if own == BLUE {
        Ratio { num: v, den: whites[2] as u64 }
    } else {
        averaged(blue_sum, blue_count, whites[2])
    };
    Ok(Pixel { red, green, blue })
}

/// Every pixel of the image carries a known filter colour.
pub open spec fn all_known(cfa: Cfa, width: usize, height: usize) -> bool {
    forall|x: usize, y: usize|
        x < width && y < height ==> is_known_color(#[trigger] cfa.color_of(y, x))
}

/// The pixel at linear index `i` of an image `width` pixels wide.
pub open spec fn pixel_of_index(i: int, width: usize) -> (usize, usize) {
    ((i % width as int) as usize, (i / width as int) as usize)
}

/// The pixel at linear index `i` lacks a neighbour colour.
pub open spec fn lacks_at(cfa: Cfa, width: usize, height: usize, i: int) -> bool {
    let p = pixel_of_index(i, width);
    lacks_neighbor_color(cfa, width, height, p.0, p.1)
}

/// Entry `i` of the three channels of `g` is the demosaiced pixel at index `i`.
pub open spec fn grid_entry_is(
    g: Grid,
    samples: Seq<u16>,
    cfa: Cfa,
    width: usize,
    height: usize,
    whites: [u16; 3],
    i: int,
) -> bool {
    let p = pixel_of_index(i, width);
    pixel_is(
        Pixel { red: g.red@[i], green: g.green@[i], blue: g.blue@[i] },
        samples,
        cfa,
        width,
        height,
        whites,
        p.0,
        p.1,
    )
}

/// `g` is the whole demosaiced image.
pub open spec fn grid_is(
    g: Grid,
    samples: Seq<u16>,
    cfa: Cfa,
    width: usize,
    height: usize,
    whites: [u16; 3],
) -> bool {
    &&& g.red@.len() == width * height
    &&& g.green@.len() == width * height
    &&& g.blue@.len() == width * height
    &&& forall|i: int|
        0 <= i < width * height ==> #[trigger] grid_entry_is(g, samples, cfa, width, height, whites, i)
}

proof fn lemma_window_known(cfa: Cfa, width: usize, height: usize, x: usize, y: usize)
    requires
        all_known(cfa, width, height),
        x < width,
        y < height,
    ensures
        window_known(cfa, width, height, x, y),
{
    lemma_neighbors_upto(x, y, width, height, 8);
    let ns = neighbor_list(x, y, width, height);
    assert forall|i: int| 0 <= i < ns.len() implies is_known_color(
        #[trigger] cfa.color_of(ns[i].1, ns[i].0),
    ) by {
        assert(is_neighbor(x as int, y as int, ns[i].0 as int, ns[i].1 as int, width as int, height as int));
    }
}

/// Whether every pixel of a `width` × `height` image carries a known colour.
pub fn colors_known(cfa: &Cfa, width: usize, height: usize) -> (r: bool)
    requires
        cfa.wf(),
    ensures
        r == all_known(*cfa, width, height),
{
    for y in 0..height
        invariant
            cfa.wf(),
            forall|xx: usize, yy: usize|
                xx < width && yy < y ==> is_known_color(#[trigger] cfa.color_of(yy, xx)),
    {
        for x in 0..width
            invariant
                cfa.wf(),
                y < height,
                forall|xx: usize, yy: usize|
                    xx < width && yy < y ==> is_known_color(#[trigger] cfa.color_of(yy, xx)),
                forall|xx: usize| xx < x ==> is_known_color(#[trigger] cfa.color_of(y, xx)),
        {
            if cfa.color_at(y, x) >= 3 {
                assert(!is_known_color(cfa.color_of(y, x)));
                return false;
            }
        }
    }
    true
}

/// Demosaics and normalises every pixel of a `width` × `height` image, in
/// raster order. Fails with `UnknownColor` when the pattern gives some pixel
/// an unknown colour, and otherwise with `MissingNeighborColor` when some
/// pixel has no neighbour of a colour it lacks.
pub fn demosaic(
    samples: &Vec<u16>,
    cfa: &Cfa,
    width: usize,
    height: usize,
    whites: [u16; 3],
) -> (r: Result<Grid, DemosaicError>)
    requires
        cfa.wf(),
        samples@.len() == width * height,
    ensures
        r matches Err(DemosaicError::UnknownColor) <==> !all_known(*cfa, width, height),
        r matches Err(DemosaicError::MissingNeighborColor) <==> all_known(*cfa, width, height)
            && exists|i: int| 0 <= i < width * height && #[trigger] lacks_at(*cfa, width, height, i),
        r is Ok <==> all_known(*cfa, width, height) && forall|i: int|
            0 <= i < width * height ==> !#[trigger] lacks_at(*cfa, width, height, i),
        r matches Ok(g) ==> grid_is(g, samples@, *cfa, width, height, whites),
{
    if !colors_known(cfa, width, height) {
        return Err(DemosaicError::UnknownColor);
    }
    let total = samples.len();
    let mut red: Vec<Ratio> = Vec::new();
    let mut green: Vec<Ratio> = Vec::new();
    let mut blue: Vec<Ratio> = Vec::new();
    if width == 0 || height == 0 {
        assert(width * height == 0);
        let g = Grid { red, green, blue };
        return Ok(g);
    }
    let mut x: usize = 0;
    let mut y: usize = 0;
    for i in 0..total
        invariant
            cfa.wf(),
            all_known(*cfa, width, height),
            total == samples@.len(),
            total == width * height,
            width > 0,
            x < width,
            i == y * width + x,
            red@.len() == i,
            green@.len() == i,
            blue@.len() == i,
            forall|j: int| 0 <= j < i ==> !#[trigger] lacks_at(*cfa, width, height, j),
            forall|j: int|
                0 <= j < i ==> #[trigger] grid_entry_is(
                    Grid { red, green, blue },
                    samples@,
                    *cfa,
                    width,
                    height,
                    whites,
                    j,
                ),
    {
        proof {
            assert(y < height) by (nonlinear_arith)
                requires
                    i == y * width + x,
                    i < width * height,
                    x < width,
                    width > 0,
            ;
            lemma_fundamental_div_mod_converse(i as int, width as int, y as int, x as int);
            lemma_window_known(*cfa, width, height, x, y);
        }
        let ghost before = Grid { red, green, blue };
        match demosaic_pixel(samples, cfa, width, height, whites, x, y) {
            Ok(p) => {
                red.push(p.red);
                green.push(p.green);
                blue.push(p.blue);
                proof {
                    let after = Grid { red, green, blue };
                    assert forall|j: int| 0 <= j <= i implies #[trigger] grid_entry_is(
                        after,
                        samples@,
                        *cfa,
                        width,
                        height,
                        whites,
                        j,
                    ) by {
                        if j < i {
                            assert(grid_entry_is(before, samples@, *cfa, width, height, whites, j));
                        }
                    }
                }
            },
            Err(e) => {
                assert(lacks_at(*cfa, width, height, i as int));
                return Err(e);
            },
        }
        x = x + 1;
        if x == width {
            proof {
                assert(i + 1 == (y + 1) * width) by (nonlinear_arith)
                    requires
                        i == y * width + x - 1,
                        x == width,
                ;
            }
            x = 0;
            y = y + 1;
        }
    }
    Ok(Grid { red, green, blue })
}

proof fn lemma_color_sum_nonneg(samples: Seq<u16>, cfa: Cfa, width: usize, ps: Seq<(usize, usize)>, c: usize)
    ensures
        color_sum(samples, cfa, width, ps, c) >= 0,
        color_count(cfa, ps, c) >= 0,
    decreases ps.len(),
{
    if ps.len() > 0 {
        lemma_color_sum_nonneg(samples, cfa, width, ps.drop_last(), c);
    }
}

proof fn lemma_color_sum_uniform(
    samples: Seq<u16>,
    cfa: Cfa,
    width: usize,
    height: usize,
    ps: Seq<(usize, usize)>,
    c: usize,
    v: u16,
)
    requires
        samples.len() == width * height,
        forall|k: int| 0 <= k < samples.len() ==> samples[k] == v,
        forall|i: int| 0 <= i < ps.len() ==> ps[i].0 < width && ps[i].1 < height,
    ensures
        color_sum(samples, cfa, width, ps, c) == v * color_count(cfa, ps, c),
    decreases ps.len(),
{
    if ps.len() > 0 {
        let p = ps.last();
        let rest = ps.drop_last();
        lemma_color_sum_uniform(samples, cfa, width, height, rest, c, v);
        lemma_cell_index(p.1 as int, p.0 as int, width as int, height as int);
        let n = color_count(cfa, rest, c);
        assert(v * (n + 1) == v * n + v) by (nonlinear_arith);
    }
}

/// Normalised channel values are never negative, and nothing clamps them:
/// a pixel's own channel is above one exactly when its raw sample is above
/// that channel's white level.
pub proof fn lemma_channel_unclamped(
    samples: Seq<u16>,
    cfa: Cfa,
    width: usize,
    height: usize,
    x: usize,
    y: usize,
    c: usize,
    white: u16,
)
    requires
        x < width,
        y < height,
    ensures
        channel(samples, cfa, width, height, x, y, c, white).0 >= 0,
        channel(samples, cfa, width, height, x, y, c, white).1 >= 0,
        cfa.color_of(y, x) == c ==> (channel(samples, cfa, width, height, x, y, c, white).0
            > channel(samples, cfa, width, height, x, y, c, white).1 <==> sample_at(
            samples,
            width,
            (x, y),
        ) > white),
{
    let ns = neighbor_list(x, y, width, height);
    lemma_color_sum_nonneg(samples, cfa, width, ns, c);
    let n = color_count(cfa, ns, c);
    assert(n * white >= 0) by (nonlinear_arith)
        requires
            n >= 0,
    ;
}

/// A sensor whose samples all equal `v` demosaics to `v / white` in every
/// channel of every pixel: each channel's fraction `num / den` satisfies
/// `num * white == den * v`.
pub proof fn lemma_uniform_sensor(
    samples: Seq<u16>,
    cfa: Cfa,
    width: usize,
    height: usize,
    x: usize,
    y: usize,
    c: usize,
    white: u16,
    v: u16,
)
    requires
        x < width,
        y < height,
        samples.len() == width * height,
        forall|k: int| 0 <= k < samples.len() ==> samples[k] == v,
    ensures
        channel(samples, cfa, width, height, x, y, c, white).0 * white == channel(
            samples,
            cfa,
            width,
            height,
            x,
            y,
            c,
            white,
        ).1 * v,
{
    let ns = neighbor_list(x, y, width, height);
    lemma_neighbors_upto(x, y, width, height, 8);
    assert forall|i: int| 0 <= i < ns.len() implies ns[i].0 < width && ns[i].1 < height by {
        assert(is_neighbor(x as int, y as int, ns[i].0 as int, ns[i].1 as int, width as int, height as int));
    }
    lemma_color_sum_uniform(samples, cfa, width, height, ns, c, v);
    lemma_cell_index(y as int, x as int, width as int, height as int);
    let n = color_count(cfa, ns, c);
    assert((v * n) * white == (n * white) * v) by (nonlinear_arith);
    assert(v * white == white * v) by (nonlinear_arith);
}

} // verus!
