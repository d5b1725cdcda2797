pub mod blob;

pub use blob::get_cached_data;
pub use blob::get_cached_data_at;
pub use blob::Cache;
pub use blob::Entry;
