//! One conversion from start to end: the demosaiced image, the probe colours
//! and the display window of a sensor capture.
use vstd::prelude::*;
use crate::cfa::Cfa;
use crate::crop::{crops_fit, crops_size_to_bounds, DisplayWindow};
use crate::demosaic::{all_known, demosaic, grid_is, lacks_at, DemosaicError, Grid};
use crate::probe::probe_vectors;

verus! {

/// A sensor capture: `width * height` raw samples row by row, the white
/// levels of red, green and blue, the border margins (top, right, bottom,
/// left) and the colour filter pattern.
pub struct SensorImage {
    pub width: usize,
    pub height: usize,
    pub samples: Vec<u16>,
    pub whites: [u16; 3],
    pub crops: [usize; 4],
    pub cfa: Cfa,
}

impl SensorImage {
    pub open spec fn wf(&self) -> bool {
        &&& self.samples@.len() == self.width * self.height
        &&& self.cfa.wf()
        &&& crops_fit(self.crops, self.width, self.height)
    }
}

/// What a conversion produces: the image, the four probe colours (red,
/// green, blue, white) and the display window.
#[derive(Debug)]
pub struct Reconstruction {
    pub grid: Grid,
    pub probes: [[u16; 3]; 4],
    pub window: DisplayWindow,
}

/// Demosaics the whole capture, builds its probe colours and computes its
/// display window. Fails as `demosaic` does, and only then.
pub fn reconstruct(image: &SensorImage) -> (r: Result<Reconstruction, DemosaicError>)
    requires
        image.wf(),
    ensures
        r matches Err(DemosaicError::UnknownColor) <==> !all_known(image.cfa, image.width, image.height),
        r matches Err(DemosaicError::MissingNeighborColor) <==> all_known(
            image.cfa,
            image.width,
            image.height,
        ) && exists|i: int|
            0 <= i < image.width * image.height && #[trigger] lacks_at(
                image.cfa,
                image.width,
                image.height,
                i,
            ),
        r is Ok <==> all_known(image.cfa, image.width, image.height) && forall|i: int|
            0 <= i < image.width * image.height ==> !#[trigger] lacks_at(
                image.cfa,
                image.width,
                image.height,
                i,
            ),
        r matches Ok(rec) ==> {
            &&& grid_is(
                rec.grid,
                image.samples@,
                image.cfa,
                image.width,
                image.height,
                image.whites,
            )
            &&& rec.probes@[0]@ == seq![image.whites@[0], 0u16, 0u16]
            &&& rec.probes@[1]@ == seq![0u16, image.whites@[1], 0u16]
            &&& rec.probes@[2]@ == seq![0u16, 0u16, image.whites@[2]]
            &&& rec.probes@[3]@ == image.whites@
            &&& rec.window.x == image.crops@[3]
            &&& rec.window.y == image.crops@[0]
            &&& rec.window.width == image.width - image.crops@[3] - image.crops@[1]
            &&& rec.window.height == image.height - image.crops@[0] - image.crops@[2]
        },
{
    let grid = demosaic(&image.samples, &image.cfa, image.width, image.height, image.whites)?;
    let probes = probe_vectors(image.whites);
    let window = crops_size_to_bounds(image.crops, image.width, image.height);
    Ok(Reconstruction { grid, probes, window })
}

} // verus!
