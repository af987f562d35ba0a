//! Reconstruction of a full-colour linear image from a Bayer-mosaiced sensor
//! capture: neighbour sampling, colour-filter-array demosaicing with exact
//! per-channel normalisation, colour-probe construction and display-window
//! computation.
pub mod cfa;
pub mod crop;
pub mod demosaic;
pub mod neighbors;
pub mod pipeline;
pub mod probe;
