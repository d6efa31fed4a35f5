pub mod bit_array;
pub mod chunk;
pub mod dimension;
pub mod generator;
pub mod level;
pub mod palette;
pub mod sub_chunk;
