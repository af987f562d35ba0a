use raw2exr::cfa::Cfa;
use raw2exr::demosaic::{demosaic, demosaic_pixel, DemosaicError, Ratio};

fn rggb() -> Cfa {
    Cfa::new(2, 2, vec![0, 1, 1, 2]).unwrap()
}

fn same(r: Ratio, num: u64, den: u64) -> bool {
    r.num as u128 * den as u128 == num as u128 * r.den as u128
}

#[test]
fn cfa_new_checks_size() {
    assert!(Cfa::new(2, 2, vec![0, 1, 1]).is_none());
    assert!(Cfa::new(0, 2, vec![]).is_none());
    assert!(Cfa::new(2, 2, vec![0, 1, 1, 2]).is_some());
}

#[test]
fn cfa_pattern_repeats() {
    let c = rggb();
    assert_eq!(c.color_at(0, 0), 0);
    assert_eq!(c.color_at(0, 1), 1);
    assert_eq!(c.color_at(1, 0), 1);
    assert_eq!(c.color_at(1, 1), 2);
    assert_eq!(c.color_at(4, 6), 0);
    assert_eq!(c.color_at(5, 7), 2);
}

fn ramp() -> Vec<u16> {
    (1..=16).collect()
}

#[test]
fn blue_pixel_averages_red_and_green_neighbors() {
    let p = demosaic_pixel(&ramp(), &rggb(), 4, 4, [100, 200, 300], 1, 1).unwrap();
    assert_eq!(p.red, Ratio { num: 24, den: 400 });
    assert_eq!(p.green, Ratio { num: 24, den: 800 });
    assert_eq!(p.blue, Ratio { num: 6, den: 300 });
}

#[test]
fn red_interior_pixel_uses_own_sample_for_red() {
    let p = demosaic_pixel(&ramp(), &rggb(), 4, 4, [100, 200, 300], 2, 2).unwrap();
    // own sample 11; green neighbours 7, 10, 12, 15; blue neighbours 6, 8, 14, 16
    assert_eq!(p.red, Ratio { num: 11, den: 100 });
    assert_eq!(p.green, Ratio { num: 44, den: 800 });
    assert_eq!(p.blue, Ratio { num: 44, den: 1200 });
}

#[test]
fn corner_pixel_uses_three_neighbors() {
    let p = demosaic_pixel(&ramp(), &rggb(), 4, 4, [100, 200, 300], 0, 0).unwrap();
    assert_eq!(p.red, Ratio { num: 1, den: 100 });
    assert_eq!(p.green, Ratio { num: 7, den: 400 });
    assert_eq!(p.blue, Ratio { num: 6, den: 300 });
}

#[test]
fn overexposed_sample_is_not_clamped() {
    let mut s = vec![100u16; 16];
    s[0] = 300;
    let p = demosaic_pixel(&s, &rggb(), 4, 4, [255, 255, 255], 0, 0).unwrap();
    assert_eq!(p.red, Ratio { num: 300, den: 255 });
    assert!(p.red.num > p.red.den);
}

#[test]
fn uniform_sensor_gives_uniform_channels() {
    let s = vec![128u16; 16];
    let g = demosaic(&s, &rggb(), 4, 4, [255, 255, 255]).unwrap();
    assert_eq!(g.red.len(), 16);
    for i in 0..16 {
        let p = g.pixel(i);
        assert!(same(p.red, 128, 255));
        assert!(same(p.green, 128, 255));
        assert!(same(p.blue, 128, 255));
    }
}

#[test]
fn grid_matches_pixelwise_demosaic() {
    let s = ramp();
    let c = rggb();
    let g = demosaic(&s, &c, 4, 4, [10, 20, 30]).unwrap();
    for i in 0..16 {
        let p = demosaic_pixel(&s, &c, 4, 4, [10, 20, 30], i % 4, i / 4).unwrap();
        assert_eq!(g.pixel(i), p);
    }
}

#[test]
fn unknown_color_is_reported() {
    let c = Cfa::new(2, 2, vec![0, 1, 3, 2]).unwrap();
    let s = vec![1u16; 16];
    assert_eq!(demosaic(&s, &c, 4, 4, [1, 1, 1]).unwrap_err(), DemosaicError::UnknownColor);
    assert_eq!(
        demosaic_pixel(&s, &c, 4, 4, [1, 1, 1], 0, 0).unwrap_err(),
        DemosaicError::UnknownColor
    );
}

#[test]
fn missing_neighbor_color_is_reported() {
    let s = vec![5u16; 4];
    assert_eq!(
        demosaic(&s, &rggb(), 4, 1, [1, 1, 1]).unwrap_err(),
        DemosaicError::MissingNeighborColor
    );
    assert_eq!(
        demosaic(&vec![5u16], &rggb(), 1, 1, [1, 1, 1]).unwrap_err(),
        DemosaicError::MissingNeighborColor
    );
}

#[test]
fn empty_image_demosaics_to_empty_grid() {
    let g = demosaic(&vec![], &rggb(), 0, 3, [1, 1, 1]).unwrap();
    assert!(g.red.is_empty() && g.green.is_empty() && g.blue.is_empty());
}

#[test]
fn largest_samples_and_white_levels() {
    let s = vec![u16::MAX; 9];
    let p = demosaic_pixel(&s, &rggb(), 3, 3, [u16::MAX; 3], 1, 1).unwrap();
    // (1, 1) is blue: four red and four green neighbours
    assert_eq!(p.red, Ratio { num: 4 * 65535, den: 4 * 65535 });
    assert_eq!(p.green, Ratio { num: 4 * 65535, den: 4 * 65535 });
    assert_eq!(p.blue, Ratio { num: 65535, den: 65535 });
}
