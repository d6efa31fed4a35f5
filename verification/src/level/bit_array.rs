pub mod bit_array_version;
pub mod bit_array;
