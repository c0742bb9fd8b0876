pub mod arc_string;
pub mod name_map;
pub mod vec_utils;
pub mod random;
pub mod text;
