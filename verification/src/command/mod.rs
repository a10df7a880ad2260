//! Commands: parsing, permission levels, the registry of handlers and the
//! gateway that routes a message to one.

pub mod context;
pub mod gateway;
pub mod parser;
pub mod permission;
pub mod registry;

pub use context::{CommandContext, CommandContextArgs};
pub use gateway::{CommandGateway, Route};
pub use parser::{ParsedCommand, Parser};
pub use permission::Permission;
pub use registry::{CommandInfo, CommandRegistry};
