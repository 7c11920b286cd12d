//! Small helpers over lists, maps, numbers and strings.
pub mod list;
pub mod map;
pub mod math;
pub mod string;
