//! A read-only, zero-copy view onto a message buffer that is owned by a
//! middleware layer rather than by the application.
//!
//! The middleware issues *loans*: temporary grants of read access to buffers
//! it owns, each identified by an address and tied to a communication
//! endpoint. A [`ReadOnlyLoanedMessage`] lets the application read such a
//! buffer in place, and guarantees that the loan is returned to the endpoint
//! exactly once, after which the view no longer exists and the address can no
//! longer be read through it.
//!
//! [`Endpoint`] models the endpoint handle's loan accounting: which addresses
//! are currently loaned out, how many loans were ever issued, and how many
//! were returned. The accounting invariant — outstanding loans plus returns
//! issued equals loans issued — is what makes "exactly one release per view"
//! a theorem rather than a convention; see `Endpoint::lemma_loan_accounting`.

pub mod endpoint;
pub mod loaned;

pub use crate::endpoint::Endpoint;
pub use crate::endpoint::EndpointView;
pub use crate::endpoint::MiddlewareError;
pub use crate::loaned::LoanedMessageView;
pub use crate::loaned::ReadOnlyLoanedMessage;
