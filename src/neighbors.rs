//! The up-to-eight compass neighbours of a pixel that lie inside the image.
use vstd::prelude::*;

verus! {

/// Offset of the `k`-th compass direction, in the order
/// NW, N, NE, W, E, SW, S, SE (x grows to the east, y to the south).
pub open spec fn compass_offset(k: int) -> (int, int) {
    if k == 0 {
        (-1, -1)
    } else if k == 1 {
        (0, -1)
    } else if k == 2 {
        (1, -1)
    } else if k == 3 {
        (-1, 0)
    } else if k == 4 {
        (1, 0)
    } else if k == 5 {
        (-1, 1)
    } else if k == 6 {
        (0, 1)
    } else {
        (1, 1)
    }
}

/// Position of the offset `(dx, dy)` in the compass order of `compass_offset`.
pub open spec fn compass_index(dx: int, dy: int) -> int {
    let cell = (dy + 1) * 3 + (dx + 1);
    if cell < 4 {
        cell
    } else {
        cell - 1
    }
}

pub open spec fn in_image(px: int, py: int, width: int, height: int) -> bool {
    0 <= px < width && 0 <= py < height
}

/// `(nx, ny)` lies inside the image and touches `(x, y)` along an edge or a
/// corner, without being `(x, y)` itself.
pub open spec fn is_neighbor(x: int, y: int, nx: int, ny: int, width: int, height: int) -> bool {
    &&& in_image(nx, ny, width, height)
    &&& -1 <= nx - x <= 1
    &&& -1 <= ny - y <= 1
    &&& (nx != x || ny != y)
}

/// The in-image neighbours among the first `k` compass directions, in compass order.
pub open spec fn neighbors_upto(x: usize, y: usize, width: usize, height: usize, k: nat) -> Seq<
    (usize, usize),
>
    decreases k,
{
    if k == 0 {
        seq![]
    } else {
        let prev = neighbors_upto(x, y, width, height, (k - 1) as nat);
        let o = compass_offset(k - 1);
        let nx = x + o.0;
        let ny = y + o.1;
        if in_image(nx, ny, width as int, height as int) {
            prev.push((nx as usize, ny as usize))
        } else {
            prev
        }
    }
}

/// All in-image neighbours of `(x, y)`, in compass order.
pub open spec fn neighbor_list(x: usize, y: usize, width: usize, height: usize) -> Seq<(usize, usize)> {
    neighbors_upto(x, y, width, height, 8)
}

/// Number of columns (or rows) among `v - 1`, `v`, `v + 1` that lie in `[0, extent)`.
pub open spec fn span(v: usize, extent: usize) -> int {
    1 + (if v > 0 { 1int } else { 0int }) + (if v + 1 < extent { 1int } else { 0int })
}

proof fn lemma_offset_index(k: int)
    requires
        0 <= k < 8,
    ensures
        compass_index(compass_offset(k).0, compass_offset(k).1) == k,
        -1 <= compass_offset(k).0 <= 1,
        -1 <= compass_offset(k).1 <= 1,
        compass_offset(k) != (0int, 0int),
{
}

proof fn lemma_index_offset(dx: int, dy: int)
    requires
        -1 <= dx <= 1,
        -1 <= dy <= 1,
        dx != 0 || dy != 0,
    ensures
        0 <= compass_index(dx, dy) < 8,
        compass_offset(compass_index(dx, dy)) == (dx, dy),
{
}

pub(crate) proof fn lemma_neighbors_upto(x: usize, y: usize, width: usize, height: usize, k: nat)
    requires
        k <= 8,
        x < width,
        y < height,
    ensures
        ({
            let l = neighbors_upto(x, y, width, height, k);
            &&& l.no_duplicates()
            &&& forall|i: int|
                0 <= i < l.len() ==> {
                    &&& is_neighbor(x as int, y as int, l[i].0 as int, l[i].1 as int, width as int, height as int)
                    &&& compass_index(l[i].0 - x, l[i].1 - y) < k
                }
            &&& forall|nx: usize, ny: usize|
                #![trigger l.contains((nx, ny))]
                is_neighbor(x as int, y as int, nx as int, ny as int, width as int, height as int)
                    && compass_index(nx - x, ny - y) < k ==> l.contains((nx, ny))
        }),
    decreases k,
{
    if k > 0 {
        let kp = (k - 1) as nat;
        lemma_neighbors_upto(x, y, width, height, kp);
        lemma_offset_index(kp as int);
        let prev = neighbors_upto(x, y, width, height, kp);
        let l = neighbors_upto(x, y, width, height, k);
        let o = compass_offset(kp as int);
        let nx = x + o.0;
        let ny = y + o.1;
        if in_image(nx, ny, width as int, height as int) {
            let p = (nx as usize, ny as usize);
            assert(l == prev.push(p));
            assert(!prev.contains(p));
            assert forall|i: int, j: int| 0 <= i < l.len() && 0 <= j < l.len() && i != j implies l[i]
                != l[j] by {
                if i < prev.len() && j < prev.len() {
                } else if i == prev.len() {
                    assert(prev.contains(prev[j]));
                } else {
                    assert(prev.contains(prev[i]));
                }
            }
        }
        assert forall|qx: usize, qy: usize|
            is_neighbor(x as int, y as int, qx as int, qy as int, width as int, height as int)
                && compass_index(qx - x, qy - y) < k implies l.contains((qx, qy)) by {
            lemma_index_offset(qx - x, qy - y);
            if compass_index(qx - x, qy - y) < kp {
                assert(prev.contains((qx, qy)));
                let i = choose|i: int| 0 <= i < prev.len() && prev[i] == (qx, qy);
                assert(l[i] == (qx, qy));
            } else {
                assert(l[prev.len() as int] == (qx, qy));
            }
        }
    }
}

proof fn lemma_neighbor_len(x: usize, y: usize, width: usize, height: usize)
    requires
        x < width,
        y < height,
    ensures
        neighbor_list(x, y, width, height).len() == span(x, width) * span(y, height) - 1,
{
    reveal_with_fuel(neighbors_upto, 9);
    let sx = span(x, width);
    let sy = span(y, height);
    assert(sx * sy == if sx == 1 { sy } else if sx == 2 { sy + sy } else { sy + sy + sy })
        by (nonlinear_arith)
        requires
            1 <= sx <= 3,
    ;
}

/// The in-image neighbour of `(x, y)` in compass direction `k`, if any.
fn compass_step(x: usize, y: usize, width: usize, height: usize, k: usize) -> (r: Option<
    (usize, usize),
>)
    requires
        x < width,
        y < height,
        k < 8,
    ensures
        ({
            let o = compass_offset(k as int);
            let nx = x + o.0;
            let ny = y + o.1;
            &&& in_image(nx, ny, width as int, height as int) ==> r == Some(
                (nx as usize, ny as usize),
            )
            &&& !in_image(nx, ny, width as int, height as int) ==> r is None
        }),
{
    let west = x > 0;
    let east = x + 1 < width;
    let north = y > 0;
    let south = y + 1 < height;
    if k == 0 {
        if west && north { Some((x - 1, y - 1)) } else { None }
    } else if k == 1 {
        if north { Some((x, y - 1)) } else { None }
    } else if k == 2 {
        if east && north { Some((x + 1, y - 1)) } else { None }
    } else if k == 3 {
        if west { Some((x - 1, y)) } else { None }
    } else if k == 4 {
        if east { Some((x + 1, y)) } else { None }
    } else if k == 5 {
        if west && south { Some((x - 1, y + 1)) } else { None }
    } else if k == 6 {
        if south { Some((x, y + 1)) } else { None }
    } else {
        if east && south { Some((x + 1, y + 1)) } else { None }
    }
}

/// The neighbours of pixel `(x, y)` in a `width` × `height` image, as `(x, y)`
/// pairs in compass order. Neighbours outside the image are left out: there is
/// no wrap-around, mirroring or padding.
pub fn neighbors(x: usize, y: usize, width: usize, height: usize) -> (r: Vec<(usize, usize)>)
    requires
        x < width,
        y < height,
    ensures
        r@ == neighbor_list(x, y, width, height),
        r@.no_duplicates(),
        forall|i: int|
            0 <= i < r@.len() ==> is_neighbor(
                x as int,
                y as int,
                r@[i].0 as int,
                r@[i].1 as int,
                width as int,
                height as int,
            ),
        forall|nx: usize, ny: usize|
            is_neighbor(x as int, y as int, nx as int, ny as int, width as int, height as int)
                ==> #[trigger] r@.contains((nx, ny)),
        r@.len() == span(x, width) * span(y, height) - 1,
{
    let mut r: Vec<(usize, usize)> = Vec::new();
    let mut k: usize = 0;
    while k < 8
        invariant
            k <= 8,
            x < width,
            y < height,
            r@ == neighbors_upto(x, y, width, height, k as nat),
        decreases 8 - k,
    {
        match compass_step(x, y, width, height, k) {
            Some(p) => {
                r.push(p);
            },
            None => {},
        }
        k = k + 1;
    }
    proof {
        lemma_neighbors_upto(x, y, width, height, 8);
        lemma_neighbor_len(x, y, width, height);
        assert forall|nx: usize, ny: usize|
            is_neighbor(
                x as int,
                y as int,
                nx as int,
                ny as int,
                width as int,
                height as int,
            ) implies #[trigger] r@.contains((nx, ny)) by {
            lemma_index_offset(nx - x, ny - y);
        }
    }
    r
}

/// Every pixel of an image at least two pixels wide and high has between 3
/// neighbours (at a corner) and 8 (in the interior), none repeated and all
/// inside the image.
pub proof fn lemma_neighbor_count(x: usize, y: usize, width: usize, height: usize)
    requires
        x < width,
        y < height,
        width >= 2,
        height >= 2,
    ensures
        3 <= neighbor_list(x, y, width, height).len() <= 8,
        (x == 0 || x + 1 == width) && (y == 0 || y + 1 == height) ==> neighbor_list(
            x,
            y,
            width,
            height,
        ).len() == 3,
        0 < x && x + 1 < width && 0 < y && y + 1 < height ==> neighbor_list(
            x,
            y,
            width,
            height,
        ).len() == 8,
        neighbor_list(x, y, width, height).no_duplicates(),
        forall|i: int|
            0 <= i < neighbor_list(x, y, width, height).len() ==> in_image(
                #[trigger] neighbor_list(x, y, width, height)[i].0 as int,
                neighbor_list(x, y, width, height)[i].1 as int,
                width as int,
                height as int,
            ),
{
    lemma_neighbors_upto(x, y, width, height, 8);
    lemma_neighbor_len(x, y, width, height);
    let sx = span(x, width);
    let sy = span(y, height);
    assert(2 <= sx <= 3 && 2 <= sy <= 3);
    assert(4 <= sx * sy <= 9) by (nonlinear_arith)
        requires
            2 <= sx <= 3,
            2 <= sy <= 3,
    ;
    assert(sx == 2 && sy == 2 ==> sx * sy == 4) by (nonlinear_arith);
    assert(sx == 3 && sy == 3 ==> sx * sy == 9) by (nonlinear_arith);
}

} // verus!
