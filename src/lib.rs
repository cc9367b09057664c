//! Static extraction of a module's exported `config` object, plus small
//! path helpers used around it.

pub mod js_value;

pub mod source_config;
pub mod util;
pub mod project;
pub mod image;
