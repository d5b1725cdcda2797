pub mod resources;
pub mod scanner;
pub mod system_resources;

pub use resources::cpu;
pub use resources::disk;
pub use resources::memory;
pub use resources::network;
pub use resources::process;
pub use resources::process::is_process_alive;
pub use resources::process::OsProcessGroup;
pub use resources::process::OsProcessInformation;
pub use resources::process::ProcessAttribute;
pub use resources::process::ProcessConversionError;
pub use resources::process::ProcessRaw;
pub use resources::process::ResourceUsageAttribute;
pub use resources::AttributeMap;
pub use resources::MetadataTags;
pub use scanner::SystemScanner;
pub use system_resources::SystemInformation;
