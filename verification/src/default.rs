//! The base security provider that the other providers build on.

use vstd::prelude::*;
use vstd::string::StringExecFns;
use crate::types::{SspiError, CredHandle, CtxtHandle, SecBuffer, SecurityProvider};

verus! {

/// Base provider: a package name and a fixed credentials handle.
pub struct DefaultSecurityProvider {
    pub name: String,
    pub creds: CredHandle,
}

impl DefaultSecurityProvider {
    /// The provider named "Default" with credentials (0x1337, 0x9999).
    pub fn new() -> (r: Self)
        ensures
            r.name@ == "Default"@,
            r.creds == (CredHandle { dw_lower: 0x1337, dw_upper: 0x9999 }),
    {
        DefaultSecurityProvider {
            name: String::from_str("Default"),
            creds: CredHandle { dw_lower: 0x1337, dw_upper: 0x9999 },
        }
    }
}

impl Default for DefaultSecurityProvider {
    fn default() -> (r: Self)
        ensures
            r.name@ == "Default"@,
            r.creds == (CredHandle { dw_lower: 0x1337, dw_upper: 0x9999 }),
    {
        Self::new()
    }
}

impl SecurityProvider for DefaultSecurityProvider {
    open spec fn inv(&self) -> bool {
        true
    }

    open spec fn can_allocate(&self) -> bool {
        true
    }

    fn name(&self) -> (r: &str)
        ensures
            r@ == self.name@,
    {
        self.name.as_str()
    }

    fn initialize(&self) -> (r: Result<(), SspiError>)
        ensures
            r is Ok,
    {
        Ok(())
    }

    fn shutdown(&self) -> (r: Result<(), SspiError>)
        ensures
            r is Ok,
    {
        Ok(())
    }

    fn acquire_credentials_handle(
        &self,
        principal: Option<&str>,
        package: &str,
        cred_use: u32,
        auth_data: Option<&[u8]>,
        handle: &mut CredHandle,
    ) -> (r: Result<(), SspiError>)
        ensures
            r is Ok,
            *final(handle) == self.creds,
    {
        *handle = self.creds;
        Ok(())
    }

    fn free_credentials_handle(&self, handle: &CredHandle) -> (r: Result<(), SspiError>)
        ensures
            r is Ok,
    {
        Ok(())
    }

    fn initialize_security_context(
        &mut self,
        credential: &CredHandle,
        context: Option<&CtxtHandle>,
        target_name: Option<&str>,
        context_req: u32,
        target_data_rep: u32,
        input_buffers: &[SecBuffer],
        new_context: &mut CtxtHandle,
        output_buffers: &mut [SecBuffer],
        context_attr: &mut u32,
    ) -> (r: Result<SspiError, SspiError>)
        ensures
            r == Err::<SspiError, SspiError>(SspiError::NotSupported),
            *final(self) == *old(self),
            *final(new_context) == *old(new_context),
            final(output_buffers)@ == old(output_buffers)@,
            *final(context_attr) == *old(context_attr),
    {
        Err(SspiError::NotSupported)
    }

    fn accept_security_context(
        &mut self,
        credential: &CredHandle,
        context: Option<&CtxtHandle>,
        input_buffers: &[SecBuffer],
        context_req: u32,
        target_data_rep: u32,
        new_context: &mut CtxtHandle,
        output_buffers: &mut [SecBuffer],
        context_attr: &mut u32,
    ) -> (r: Result<SspiError, SspiError>)
        ensures
            r == Err::<SspiError, SspiError>(SspiError::NotSupported),
            *final(self) == *old(self),
            *final(new_context) == *old(new_context),
            final(output_buffers)@ == old(output_buffers)@,
            *final(context_attr) == *old(context_attr),
    {
        Err(SspiError::NotSupported)
    }

    fn delete_security_context(&mut self, context: &CtxtHandle) -> (r: Result<(), SspiError>)
        ensures
            r is Ok,
            *final(self) == *old(self),
    {
        Ok(())
    }
}

} // verus!
