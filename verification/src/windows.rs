pub mod lhm_http;
pub mod lhm_tree;
pub mod lhm_wmi;
pub mod baseline;
pub mod inventory;
