pub mod one;
