pub mod random;
