//! Security support providers of the MSN Chat controls (GateKeeper, Passport, NTLM and
//! their chained forms) with their handshake state machines, the IRCX `AUTH` line
//! protocol that carries them, the decisions behind the SSPI exports, and the operator
//! credential vault.

pub mod types;
pub mod buffers;
pub mod bytes;
pub mod crypto;
pub mod text;
pub mod default;
pub mod gatekeeper;
pub mod passport;
pub mod gatekeeper_passport;
pub mod ntlm;
pub mod ntlm_passport;
pub mod vault;
pub mod internal;
pub mod dll;
pub mod wire;
pub mod server;

pub use types::{SspiError, CredHandle, CtxtHandle, SecBufferType, SecBuffer, CombinedContext, SecurityProvider};
pub use default::DefaultSecurityProvider;
pub use gatekeeper::{GateKeeperSecurityProvider, GateKeeperSession, GkStateFlags};
pub use passport::{PassportSecurityProvider, PassportSession};
pub use gatekeeper_passport::GateKeeperPassportSecurityProvider;
pub use ntlm::{NtlmSecurityProvider, NtlmSession};
pub use ntlm_passport::NtlmPassportSecurityProvider;
