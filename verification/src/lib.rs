//! Provisioning and resolution of the MPLS language server executable.
//!
//! The library decides, from plain values handed in by its host, how a
//! versioned external executable is located: which platform tokens apply,
//! which release asset to download, which previously installed directory to
//! reuse when the network is unreachable, and what launch command to run.
//! The host performs the probing, downloading and filesystem work these
//! decisions direct.
pub mod decimal;
pub mod names;
pub mod offline;
pub mod platform;
pub mod release;
pub mod resolver;

pub use platform::Arch;
pub use platform::Os;
pub use platform::Platform;
pub use platform::PlatformArch;
pub use platform::identify;
pub use resolver::Error;
pub use resolver::Mpls;
pub use resolver::ResolveStep;
