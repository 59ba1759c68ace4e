pub mod gamescope;
pub mod gamescope_detect;
pub mod process_facts;
pub mod gpu_discovery;
pub mod drm;
pub mod amdgpu;
pub mod power_supply;
