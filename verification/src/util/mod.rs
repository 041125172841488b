//! Small building blocks shared by the configuration model and the runner.

pub mod cstring;
pub mod name_map;
pub mod text;
pub mod value;
