pub mod main_body;
pub mod prelude;
pub mod top_level;
pub mod utils_fn;
