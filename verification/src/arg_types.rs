//! The types of the values that the command line takes.

pub mod jar_type;
pub mod server_memory;
pub mod server_property;

pub use jar_type::JarType;
pub use server_memory::{MemoryParseError, ServerMemory};
pub use server_property::{
    map_to_properties, properties_to_map, ServerProperty, ServerPropertyError,
};
