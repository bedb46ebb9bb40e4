//! Bootstrap of trust for ephemeral compute nodes: name allocation, the
//! directory-backed attribute store, the one-time-password protocol by which a
//! freshly booted node obtains its certificates, and the steps that bring a
//! machine up from a versioned image.
//!
//! The library performs no input or output itself. Each protocol is a value
//! that says what has to be done next and is told how it went; the contracts
//! state which requests are made, in which order, and what comes of them.

pub mod effect;
pub mod error;
pub mod field;
pub mod image;
pub mod machine;
pub mod names;
pub mod number;
pub mod script;
pub mod seed;
pub mod setup;
pub mod ssh;
pub mod store;
pub mod table;
pub mod text;
pub mod tls;
pub mod world;

pub use effect::{Command, Input, Reply, Request};
pub use error::Error;
pub use field::{Field, Layout};
pub use image::{Image, Order};
pub use machine::{Machine, Provisioning};
pub use names::NameCounter;
pub use script::{Script, Step, Task};
pub use seed::{random_pw, Boot, Certs, Registration, Seed, Sower};
pub use setup::Setup;
pub use store::{Data, Reservation};
pub use table::print_table;
