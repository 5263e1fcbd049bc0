pub mod min_max;
pub mod print;
pub mod sum;
