//! Groups photographs by their exposure settings: aperture, shutter speed
//! snapped to the nearest conventional value, and sensitivity.
pub mod metadata;
pub mod shutter;
pub mod groups;
