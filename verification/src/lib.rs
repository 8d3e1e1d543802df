//! Verified core of a flame-fractal editor: the variation catalogue, palette
//! indexing, the `.f9k` persistence rules, `.flame` file scanning and the reading of its XML, GPU buffer
//! layout arithmetic and the editor's selection rules.


pub mod variations;
pub mod text;
pub mod persist;
pub mod palette;
pub mod io;
pub mod flame_xml;
pub mod flame;
pub mod gpu_layout;
pub mod editor;
pub mod cli;
