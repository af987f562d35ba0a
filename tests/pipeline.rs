use raw2exr::cfa::Cfa;
use raw2exr::crop::{crops_size_to_bounds, DisplayWindow};
use raw2exr::pipeline::{reconstruct, SensorImage};
use raw2exr::probe::probe_vectors;

#[test]
fn no_margins_keep_the_whole_sensor() {
    let w = crops_size_to_bounds([0, 0, 0, 0], 640, 480);
    assert_eq!(w, DisplayWindow { x: 0, y: 0, width: 640, height: 480 });
}

#[test]
fn margins_shrink_the_window() {
    let w = crops_size_to_bounds([1, 1, 1, 1], 10, 10);
    assert_eq!(w, DisplayWindow { x: 1, y: 1, width: 8, height: 8 });
    let w = crops_size_to_bounds([2, 3, 4, 5], 100, 50);
    assert_eq!(w, DisplayWindow { x: 5, y: 2, width: 92, height: 44 });
}

#[test]
fn probes_follow_white_levels() {
    let p = probe_vectors([1000, 2000, 3000]);
    assert_eq!(p, [[1000, 0, 0], [0, 2000, 0], [0, 0, 3000], [1000, 2000, 3000]]);
}

#[test]
fn uniform_four_by_four_end_to_end() {
    let image = SensorImage {
        width: 4,
        height: 4,
        samples: vec![128; 16],
        whites: [255, 255, 255],
        crops: [0, 0, 0, 0],
        cfa: Cfa::new(2, 2, vec![0, 1, 1, 2]).unwrap(),
    };
    let rec = reconstruct(&image).unwrap();
    for i in 0..16 {
        let p = rec.grid.pixel(i);
        for r in [p.red, p.green, p.blue] {
            assert_eq!(r.num * 255, r.den * 128);
            let v = r.num as f64 / r.den as f64;
            assert!((v - 128.0 / 255.0).abs() < 1e-9);
        }
    }
    assert_eq!(rec.probes, [[255, 0, 0], [0, 255, 0], [0, 0, 255], [255, 255, 255]]);
    assert_eq!(rec.window, DisplayWindow { x: 0, y: 0, width: 4, height: 4 });
}

#[test]
fn ten_by_ten_with_unit_margins_end_to_end() {
    let image = SensorImage {
        width: 10,
        height: 10,
        samples: (0..100).collect(),
        whites: [1023, 1023, 1023],
        crops: [1, 1, 1, 1],
        cfa: Cfa::new(2, 2, vec![0, 1, 1, 2]).unwrap(),
    };
    let rec = reconstruct(&image).unwrap();
    assert_eq!(rec.window, DisplayWindow { x: 1, y: 1, width: 8, height: 8 });
    assert_eq!(rec.grid.red.len(), 100);
}
