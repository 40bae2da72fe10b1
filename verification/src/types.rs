//! Core SSPI status codes, handles, buffers and the provider trait.

use vstd::prelude::*;

verus! {

/// Standard Windows SSPI status codes.
#[derive(Debug, Clone, Copy, PartialEq, Eq, Structural)]
pub enum SspiError {
    /// The function completed successfully (SEC_E_OK).
    Success,
    /// The function completed successfully, but the caller must call again to complete.
    ContinueNeeded,
    /// The credentials handle supplied is not valid.
    UnknownCredentials,
    /// The context handle supplied is not valid.
    InvalidHandle,
    /// The target name is not recognized or not reachable.
    TargetUnknown,
    /// The function or security package is not supported.
    NotSupported,
    /// The buffer passed to the function was invalid or too small.
    InvalidToken,
    /// The logon attempt failed or credentials were rejected.
    LogonDenied,
}

/// The raw Windows status code of each status.
pub open spec fn raw_code(e: SspiError) -> i32 {
    match e {
        SspiError::Success => 0i32,
        SspiError::ContinueNeeded => 0x00090312i32,
        SspiError::UnknownCredentials => -2146893043i32,
        SspiError::InvalidHandle => -2146893055i32,
        SspiError::TargetUnknown => -2146893053i32,
        SspiError::NotSupported => -2146893054i32,
        SspiError::InvalidToken => -2146893048i32,
        SspiError::LogonDenied => -2146893044i32,
    }
}

/// The status that a raw code stands for, if any.
pub open spec fn status_of_code(code: i32) -> Option<SspiError> {
    if code == 0 {
        Some(SspiError::Success)
    } else if code == 0x00090312 {
        Some(SspiError::ContinueNeeded)
    } else if code == -2146893043 {
        Some(SspiError::UnknownCredentials)
    } else if code == -2146893055 {
        Some(SspiError::InvalidHandle)
    } else if code == -2146893053 {
        Some(SspiError::TargetUnknown)
    } else if code == -2146893054 {
        Some(SspiError::NotSupported)
    } else if code == -2146893048 {
        Some(SspiError::InvalidToken)
    } else if code == -2146893044 {
        Some(SspiError::LogonDenied)
    } else {
        None
    }
}

impl SspiError {
    /// Converts the status to its raw `i32` code.
    pub fn to_raw(self) -> (r: i32)
        ensures
            r == raw_code(self),
    {
        match self {
            SspiError::Success => 0,
            SspiError::ContinueNeeded => 0x00090312,
            SspiError::UnknownCredentials => -2146893043,
            SspiError::InvalidHandle => -2146893055,
            SspiError::TargetUnknown => -2146893053,
            SspiError::NotSupported => -2146893054,
            SspiError::InvalidToken => -2146893048,
            SspiError::LogonDenied => -2146893044,
        }
    }

    /// Maps a raw status code back to the status it stands for.
    pub fn from_raw(code: i32) -> (r: Option<SspiError>)
        ensures
            r == status_of_code(code),
    {
        if code == 0 {
            Some(SspiError::Success)
        } else if code == 0x00090312 {
            Some(SspiError::ContinueNeeded)
        } else if code == -2146893043 {
            Some(SspiError::UnknownCredentials)
        } else if code == -2146893055 {
            Some(SspiError::InvalidHandle)
        } else if code == -2146893053 {
            Some(SspiError::TargetUnknown)
        } else if code == -2146893054 {
            Some(SspiError::NotSupported)
        } else if code == -2146893048 {
            Some(SspiError::InvalidToken)
        } else if code == -2146893044 {
            Some(SspiError::LogonDenied)
        } else {
            None
        }
    }
}

/// The outcome a raw status code reports, as a caller of the exports reads it: the
/// two success codes as `Ok`, each error code as its error, any other code as an
/// invalid handle.
pub open spec fn code_outcome(code: i32) -> Result<SspiError, SspiError> {
    match status_of_code(code) {
        Some(SspiError::Success) => Ok(SspiError::Success),
        Some(SspiError::ContinueNeeded) => Ok(SspiError::ContinueNeeded),
        Some(e) => Err(e),
        None => Err(SspiError::InvalidHandle),
    }
}

/// Reads a raw status code returned by the exports; see `code_outcome`.
pub fn map_sspi_code(code: i32) -> (r: Result<SspiError, SspiError>)
    ensures
        r == code_outcome(code),
{
    match SspiError::from_raw(code) {
        Some(SspiError::Success) => Ok(SspiError::Success),
        Some(SspiError::ContinueNeeded) => Ok(SspiError::ContinueNeeded),
        Some(e) => Err(e),
        None => Err(SspiError::InvalidHandle),
    }
}

/// Every status has its own raw code, and the code maps back to it.
pub proof fn lemma_raw_code_roundtrip(e: SspiError)
    ensures
        status_of_code(raw_code(e)) == Some(e),
{
}

/// A standard credential handle.
#[derive(Debug, Clone, Copy, PartialEq, Eq, Hash, Structural)]
pub struct CredHandle {
    pub dw_lower: usize,
    pub dw_upper: usize,
}

impl Default for CredHandle {
    fn default() -> (r: Self)
        ensures
            r == (CredHandle { dw_lower: 0, dw_upper: 0 }),
    {
        CredHandle { dw_lower: 0, dw_upper: 0 }
    }
}

/// A standard security context handle.
#[derive(Debug, Clone, Copy, PartialEq, Eq, Hash, Structural)]
pub struct CtxtHandle {
    pub dw_lower: usize,
    pub dw_upper: usize,
}

impl Default for CtxtHandle {
    fn default() -> (r: Self)
        ensures
            r == (CtxtHandle { dw_lower: 0, dw_upper: 0 }),
    {
        CtxtHandle { dw_lower: 0, dw_upper: 0 }
    }
}

/// The type of a buffer in a buffer descriptor.
#[derive(Debug, Clone, Copy, PartialEq, Eq, Structural)]
pub enum SecBufferType {
    /// Token data generated or exchanged (SECBUFFER_TOKEN = 2).
    Token,
    /// Package-specific parameters such as a hostname (SECBUFFER_PKG_PARAMS = 3).
    PkgParams,
    /// Any other buffer type.
    Other,
}

/// The buffer type that a raw SSPI buffer-type number stands for.
pub open spec fn buffer_type_of(val: u32) -> SecBufferType {
    if val == 2 {
        SecBufferType::Token
    } else if val == 3 {
        SecBufferType::PkgParams
    } else {
        SecBufferType::Other
    }
}

impl SecBufferType {
    /// The raw SSPI number of a buffer type (`Other` is written as 0).
    pub fn to_raw(self) -> (r: u32)
        ensures
            r == (match self {
                SecBufferType::Token => 2u32,
                SecBufferType::PkgParams => 3u32,
                SecBufferType::Other => 0u32,
            }),
    {
        match self {
            SecBufferType::Token => 2,
            SecBufferType::PkgParams => 3,
            SecBufferType::Other => 0,
        }
    }
}

impl From<u32> for SecBufferType {
    fn from(val: u32) -> (r: Self) {
        if val == 2 {
            SecBufferType::Token
        } else if val == 3 {
            SecBufferType::PkgParams
        } else {
            SecBufferType::Other
        }
    }
}

impl vstd::std_specs::convert::FromSpecImpl<u32> for SecBufferType {
    open spec fn obeys_from_spec() -> bool {
        true
    }

    open spec fn from_spec(v: u32) -> Self {
        buffer_type_of(v)
    }
}

/// A single SSPI buffer holding raw bytes.
#[derive(Debug, Clone)]
pub struct SecBuffer {
    pub buffer_type: SecBufferType,
    pub bytes: Vec<u8>,
}

/// The state kept by a provider that chains two sub-providers.
#[derive(Debug, Clone, Copy)]
pub struct CombinedContext {
    /// The handle under which the combined context is known.
    pub h_context: CtxtHandle,
    /// The phase of the chained handshake (160 to 163).
    pub state: u32,
    /// The context of the first sub-provider, once it was started.
    pub slot0_context: Option<CtxtHandle>,
    /// The context of the second sub-provider, once it was started.
    pub slot1_context: Option<CtxtHandle>,
}

/// The interface every security support provider offers.
pub trait SecurityProvider {
    /// The invariant that the provider's state keeps between calls.
    spec fn inv(&self) -> bool;

    /// Whether the provider can still hand out a new context handle.
    spec fn can_allocate(&self) -> bool;

    /// The name of the security package.
    fn name(&self) -> &str;

    /// Initializes the provider.
    fn initialize(&self) -> Result<(), SspiError>;

    /// Shuts the provider down.
    fn shutdown(&self) -> Result<(), SspiError>;

    /// Acquires a handle to the provider's credentials.
    fn acquire_credentials_handle(
        &self,
        principal: Option<&str>,
        package: &str,
        cred_use: u32,
        auth_data: Option<&[u8]>,
        handle: &mut CredHandle,
    ) -> Result<(), SspiError>;

    /// Frees a credentials handle.
    fn free_credentials_handle(&self, handle: &CredHandle) -> Result<(), SspiError>;

    /// Client side of a handshake step.
    fn initialize_security_context(
        &mut self,
        credential: &CredHandle,
        context: Option<&CtxtHandle>,
        target_name: Option<&str>,
        context_req: u32,
        target_data_rep: u32,
        input_buffers: &[SecBuffer],
        new_context: &mut CtxtHandle,
        output_buffers: &mut [SecBuffer],
        context_attr: &mut u32,
    ) -> (r: Result<SspiError, SspiError>)
        requires
            old(self).inv(),
            old(self).can_allocate(),
        ensures
            final(self).inv(),
    ;

    /// Server side of a handshake step.
    fn accept_security_context(
        &mut self,
        credential: &CredHandle,
        context: Option<&CtxtHandle>,
        input_buffers: &[SecBuffer],
        context_req: u32,
        target_data_rep: u32,
        new_context: &mut CtxtHandle,
        output_buffers: &mut [SecBuffer],
        context_attr: &mut u32,
    ) -> (r: Result<SspiError, SspiError>)
        requires
            old(self).inv(),
            old(self).can_allocate(),
        ensures
            final(self).inv(),
    ;

    /// Deletes a security context.
    fn delete_security_context(&mut self, context: &CtxtHandle) -> (r: Result<(), SspiError>)
        requires
            old(self).inv(),
        ensures
            final(self).inv(),
    ;
}

} // verus!
