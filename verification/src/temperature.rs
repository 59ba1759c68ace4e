pub mod model;
pub mod hwmon;
pub mod sysfs;
