//! Cutting a canvas into the pictures of several projectors.
pub mod slices;
pub mod slice_laws;
pub mod warp_update;
pub mod warp_update_laws;
pub mod timing;
pub mod timing_laws;
pub mod gate;
pub mod wall;
pub mod wall_laws;
pub mod hand_out_laws;
pub mod pacing;
pub mod pacing_laws;
pub mod scanout;
pub mod backend;
pub mod blend;
pub mod blend_laws;
pub mod sync_pattern;
pub mod static_pattern;
pub mod pattern_laws;
pub mod install;
pub mod device_laws;
pub mod warp_spike;
pub mod spike_laws;
pub mod adaptive;
pub mod lift_laws;
pub mod run_loop;
