pub mod nvidia;
