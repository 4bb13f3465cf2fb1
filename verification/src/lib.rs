//! Keeps a locally editable mirror of the crates.io index and cuts dated
//! snapshots of it.
//!
//! The library decides; it performs no input or output itself. Every
//! operation that touches the disk or runs `git` is a step function: it takes
//! the state it is in and the reply to the effect it asked for last, and
//! gives the next effect to perform, or the result. The caller runs the loop:
//!
//! ```text
//! let mut step = index.init(home, &defaults, InitState::Start, Reply::Done(String::new()));
//! let change = loop {
//!     match step {
//!         Step::Run(state, effect) => step = index.init(home, &defaults, state, perform(effect)),
//!         Step::Done(change) => break change,
//!         Step::Fail(why) => return Err(why),
//!     }
//! };
//! ```
//!
//! In the first state the reply is not looked at. What a step function asks
//! for is stated exactly, for every state and reply, by the specification
//! function named in its contract; what holds of all runs is stated by the
//! lemmas beside it.

pub mod cargo;
pub mod cargo_repository_hash;
pub mod effect;
pub mod minidate;
pub mod range;
pub mod record;
pub mod regfork;
pub mod shard;
pub mod snapshot;
pub mod text;
pub mod yank;

pub use cargo::CargoConfig;
pub use cargo_repository_hash::short_hash;
pub use minidate::Date;
pub use regfork::ForkedRegistryIndex;
pub use shard::crate_path;
pub use snapshot::{Branch, LTS};
pub use yank::YankSpec;
