pub mod aggregate;
pub mod factory;
pub mod item;
pub mod ranking;
pub mod selection;

pub use aggregate::{sum_values, sum_weights};
pub use factory::{make_items, make_rand_item};
pub use item::{Item, SearchResult};
pub use ranking::sort_by_density;
pub use selection::select_items;
