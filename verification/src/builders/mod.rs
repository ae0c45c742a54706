pub mod inverted;
