use raw2exr::neighbors::neighbors;

fn check_neighbors(x: usize, y: usize, width: usize, height: usize, n: &Vec<(usize, usize)>) {
    for (i, p) in n.iter().enumerate() {
        assert!(p.0 < width && p.1 < height);
        assert!(*p != (x, y));
        assert!(p.0 + 1 >= x && p.0 <= x + 1 && p.1 + 1 >= y && p.1 <= y + 1);
        for q in n.iter().skip(i + 1) {
            assert_ne!(p, q);
        }
    }
}

#[test]
fn corner_has_three_neighbors() {
    let n = neighbors(0, 0, 4, 4);
    assert_eq!(n, vec![(1, 0), (0, 1), (1, 1)]);
    let n = neighbors(3, 3, 4, 4);
    assert_eq!(n, vec![(2, 2), (3, 2), (2, 3)]);
}

#[test]
fn interior_has_eight_neighbors_in_compass_order() {
    let n = neighbors(1, 1, 4, 4);
    assert_eq!(
        n,
        vec![(0, 0), (1, 0), (2, 0), (0, 1), (2, 1), (0, 2), (1, 2), (2, 2)]
    );
}

#[test]
fn edge_has_five_neighbors() {
    let n = neighbors(2, 0, 4, 4);
    assert_eq!(n, vec![(1, 0), (3, 0), (1, 1), (2, 1), (3, 1)]);
}

#[test]
fn neighbor_counts_over_whole_images() {
    for (w, h) in [(2usize, 2usize), (3, 5), (7, 4)] {
        for y in 0..h {
            for x in 0..w {
                let n = neighbors(x, y, w, h);
                assert!(n.len() >= 3 && n.len() <= 8);
                check_neighbors(x, y, w, h, &n);
            }
        }
    }
}

#[test]
fn single_pixel_and_single_row() {
    assert!(neighbors(0, 0, 1, 1).is_empty());
    assert_eq!(neighbors(1, 0, 3, 1), vec![(0, 0), (2, 0)]);
}
