//! Configuration value for one terrain elevation file, as the rendering
//! collaborator hands it in.

use vstd::prelude::*;

verus! {

/// One elevation data file entry of the configuration.
pub struct TerrainSrtmFile {
    pub label: String,
    pub srtm_file: String,
}

} // verus!
