//! Validation and dispatch of closed-caption data triplets.
//!
//! Each unit of caption data is three bytes: a marker holding the validity
//! flag and the caption type, and two payload bytes. Units are checked for
//! validity (and, for line-21 data, parity), counted in a decoder context,
//! filtered by the extraction time window and routed to the CEA-708 decoder.

pub mod context;
pub mod dispatch;
pub mod parity;
pub mod stream;
pub mod validate;

pub use context::{BoundaryTime, DecoderContext, OutputFormat};
pub use dispatch::{do_cb, Cea708Packet, DispatchOutcome};
pub use parity::verify_parity;
pub use stream::{process_cc_data, CcDataError, TimingSource};
pub use validate::validate_cc_pair;
