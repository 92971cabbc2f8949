pub mod digits;
pub mod mode;
pub mod size;
pub mod ident;
pub mod render;
