pub mod catalog;
pub mod probe;
pub mod rows;
pub mod settings;
pub mod install;
