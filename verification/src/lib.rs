//! Protocol engine for a motorized microscope stand that is driven over a
//! serial link with short ASCII commands.
//!
//! The crate performs no I/O. A [`Scope`] makes, for each operation of the
//! stand, the [`Exchange`] that carries it out: the command frame, the
//! assembly of the response from the chunks in which it arrives, the check of
//! the echoed command code and the reading of the payload. A driver owns the
//! serial connection, does what the exchange asks for ([`Action`]) and
//! reports what came of it ([`Event`]), until the exchange hands out its
//! [`Reply`].
//!
//! Commands and responses are bytes. Times are milliseconds on a clock of the
//! driver's choice, as long as it does not run backwards.

pub mod base16;
mod bytes;
pub mod decimal;
pub mod error;
pub mod exchange;
pub mod focus;
pub mod frame;
pub mod reply;
pub mod response;
pub mod scope;
pub mod text;
pub mod turret;
pub mod zeiss;

pub use error::ScopeError;
pub use exchange::{Action, Event, Exchange, Phase};
pub use reply::{decode_decimal, decode_firmware_version, Expect, Reply};
pub use response::ScopeResponse;
pub use scope::{Scope, ScopeConfig};
pub use turret::ScopeTurret;
pub use zeiss::{decode_zeiss, encode_zeiss, i64_to_zeiss, zeiss_to_i64};
