//! The NTLMPassport provider: an NTLM handshake followed by a Passport ticket exchange,
//! driven as one state machine.
//!
//! A combined context moves through the phases 161 (NTLM running), 162 (NTLM done on the
//! server, Passport not yet started) and 163 (Passport running). Each step hands its
//! buffers to the sub-provider of the current phase. The client side never waits in
//! phase 162: it starts Passport as soon as the server says "OK".

use vstd::prelude::*;
use std::collections::HashMap;
use vstd::string::StringExecFns;
use crate::types::{SspiError, CredHandle, CtxtHandle, SecBufferType, SecBuffer, SecurityProvider, CombinedContext};
use crate::default::DefaultSecurityProvider;
use crate::buffers::{BufferQuery, find_first, replace_bytes, ok_vec, is_ok_bytes};
use crate::ntlm::{NtlmSecurityProvider, NtlmOutcome};
use crate::passport::PassportSecurityProvider;
use crate::vault::Vault;

verus! {

/// The NTLMPassport provider.
pub struct NtlmPassportSecurityProvider {
    pub base: DefaultSecurityProvider,
    pub sub_ntlm: NtlmSecurityProvider,
    pub sub_passport: PassportSecurityProvider,
    /// Combined contexts, keyed by the lower word of their handle.
    pub sessions: HashMap<usize, CombinedContext>,
    /// The lower word of the next combined handle to hand out.
    pub next_handle_id: usize,
}

impl NtlmPassportSecurityProvider {
    /// The combined context that a handle names, if any.
    pub open spec fn combined_at(&self, h: CtxtHandle) -> Option<CombinedContext> {
        if self.sessions@.contains_key(h.dw_lower) && self.sessions@[h.dw_lower].h_context == h {
            Some(self.sessions@[h.dw_lower])
        } else {
            None
        }
    }

    /// How a client-side call changes the provider, the output buffers and the
    /// new-context handle, and what it returns (`self` before the call, `post` after).
    /// `w` is the outcome of the sub-provider call the step makes: the sub-provider's new
    /// context, its result, and (when Passport starts on the server's "OK") the token list
    /// handed to it.
    pub open spec fn client_step(
        self,
        post: Self,
        context: Option<CtxtHandle>,
        has_target: bool,
        target_data_rep: u32,
        inputs: Seq<SecBuffer>,
        outs_pre: Seq<SecBuffer>,
        outs_post: Seq<SecBuffer>,
        ctx_pre: CtxtHandle,
        ctx_post: CtxtHandle,
        r: Result<SspiError, SspiError>,
        w: (CtxtHandle, Result<SspiError, SspiError>, Seq<SecBuffer>, NtlmOutcome),
    ) -> bool {
        let (sub_ctx, sub_r, sub_in, nw) = w;
        &&& post.base == self.base
        &&& match context {
            None => {
                let h = CtxtHandle { dw_lower: self.next_handle_id, dw_upper: 0x7000 };
                &&& ctx_post == h
                &&& post.next_handle_id == self.next_handle_id + 1
                &&& post.sub_passport == self.sub_passport
                &&& self.sub_ntlm.client_step(post.sub_ntlm, self.sub_ntlm.base.creds, None, inputs, outs_pre,
                    outs_post, crate::gatekeeper_passport::fresh_sub_context(), sub_ctx, sub_r, nw)
                &&& match sub_r {
                    Err(e) => r == Err::<SspiError, SspiError>(e) && post.sessions@ == self.sessions@,
                    Ok(v) => r == Ok::<SspiError, SspiError>(v) && post.sessions@ == self.sessions@.insert(
                        h.dw_lower, crate::gatekeeper_passport::combined(h, 161, Some(sub_ctx), None)),
                }
            },
            Some(h) => match self.combined_at(h) {
                None => {
                    &&& r == Err::<SspiError, SspiError>(SspiError::InvalidHandle)
                    &&& post == self
                    &&& ctx_post == ctx_pre
                    &&& outs_post == outs_pre
                },
                Some(c) => {
                    &&& ctx_post == ctx_pre
                    &&& post.next_handle_id == self.next_handle_id
                    &&& if c.state == 161 && crate::gatekeeper_passport::first_token_is_ok(inputs) {
                        match crate::buffers::first_buffer(inputs, BufferQuery::NotOk) {
                            None => {
                                &&& r == Err::<SspiError, SspiError>(SspiError::InvalidToken)
                                &&& post == self
                                &&& outs_post == outs_pre
                            },
                            Some(pb) => {
                                &&& post.sub_ntlm == self.sub_ntlm
                                &&& crate::gatekeeper_passport::single_token(sub_in, pb.bytes@)
                                &&& self.sub_passport.client_step(post.sub_passport, self.sub_passport.base.creds,
                                    None, has_target, target_data_rep, sub_in, outs_pre, outs_post,
                                    crate::gatekeeper_passport::fresh_sub_context(), sub_ctx, sub_r)
                                &&& match sub_r {
                                    Err(e) => r == Err::<SspiError, SspiError>(e) && post.sessions@ == self.sessions@,
                                    Ok(v) => r == Ok::<SspiError, SspiError>(v) && post.sessions@
                                        == self.sessions@.insert(h.dw_lower, crate::gatekeeper_passport::combined(h, 163, c.slot0_context, Some(sub_ctx))),
                                }
                            },
                        }
                    } else if c.state == 161 {
                        &&& post.sub_passport == self.sub_passport
                        &&& self.sub_ntlm.client_step(post.sub_ntlm, self.sub_ntlm.base.creds, c.slot0_context,
                            inputs, outs_pre, outs_post, c.slot0_context.unwrap(), sub_ctx, sub_r, nw)
                        &&& match sub_r {
                            Err(e) => r == Err::<SspiError, SspiError>(e) && post.sessions@ == self.sessions@,
                            Ok(_) => r == Ok::<SspiError, SspiError>(SspiError::ContinueNeeded) && post.sessions@
                                == self.sessions@.insert(h.dw_lower, crate::gatekeeper_passport::combined(h, 161, Some(sub_ctx), c.slot1_context)),
                        }
                    } else if c.state == 163 {
                        &&& post.sub_ntlm == self.sub_ntlm
                        &&& self.sub_passport.client_step(post.sub_passport, self.sub_passport.base.creds,
                            crate::gatekeeper_passport::passport_context(c), has_target, target_data_rep, inputs, outs_pre, outs_post,
                            crate::gatekeeper_passport::passport_start(c), sub_ctx, sub_r)
                        &&& match sub_r {
                            Err(e) => r == Err::<SspiError, SspiError>(e) && post.sessions@ == self.sessions@,
                            Ok(v) => r == Ok::<SspiError, SspiError>(v) && post.sessions@
                                == self.sessions@.insert(h.dw_lower, crate::gatekeeper_passport::combined(h, 163, c.slot0_context, Some(sub_ctx))),
                        }
                    } else {
                        &&& r == Err::<SspiError, SspiError>(SspiError::InvalidHandle)
                        &&& post == self
                        &&& outs_post == outs_pre
                    }
                },
            },
        }
    }

    /// How a server-side call changes the provider, the output buffers and the
    /// new-context handle, and what it returns (`self` before the call, `post` after).
    /// `w` is the outcome of the sub-provider call the step makes: the sub-provider's new
    /// context, its result, and (in the NTLM phase) the output buffers it left, and the outcome of the NTLM engine.
    pub open spec fn server_step(
        self,
        post: Self,
        context: Option<CtxtHandle>,
        target_data_rep: u32,
        inputs: Seq<SecBuffer>,
        outs_pre: Seq<SecBuffer>,
        outs_post: Seq<SecBuffer>,
        ctx_pre: CtxtHandle,
        ctx_post: CtxtHandle,
        r: Result<SspiError, SspiError>,
        w: (CtxtHandle, Result<SspiError, SspiError>, Seq<SecBuffer>, NtlmOutcome),
    ) -> bool {
        let (sub_ctx, sub_r, mid, nw) = w;
        &&& post.base == self.base
        &&& match context {
            None => {
                let h = CtxtHandle { dw_lower: self.next_handle_id, dw_upper: 0x8000 };
                &&& ctx_post == h
                &&& post.next_handle_id == self.next_handle_id + 1
                &&& post.sub_passport == self.sub_passport
                &&& self.sub_ntlm.server_step(post.sub_ntlm, self.sub_ntlm.base.creds, None, inputs, outs_pre,
                    outs_post, crate::gatekeeper_passport::fresh_sub_context(), sub_ctx, sub_r, nw)
                &&& match sub_r {
                    Err(e) => r == Err::<SspiError, SspiError>(e) && post.sessions@ == self.sessions@,
                    Ok(v) => r == Ok::<SspiError, SspiError>(v) && post.sessions@ == self.sessions@.insert(
                        h.dw_lower, crate::gatekeeper_passport::combined(h, 161, Some(sub_ctx), None)),
                }
            },
            Some(h) => match self.combined_at(h) {
                None => {
                    &&& r == Err::<SspiError, SspiError>(SspiError::InvalidHandle)
                    &&& post == self
                    &&& ctx_post == ctx_pre
                    &&& outs_post == outs_pre
                },
                Some(c) => {
                    &&& ctx_post == ctx_pre
                    &&& post.next_handle_id == self.next_handle_id
                    &&& if c.state == 161 {
                        &&& post.sub_passport == self.sub_passport
                        &&& self.sub_ntlm.server_step(post.sub_ntlm, self.sub_ntlm.base.creds, c.slot0_context,
                            inputs, outs_pre, mid, c.slot0_context.unwrap(), sub_ctx, sub_r, nw)
                        &&& match sub_r {
                            Err(e) => {
                                &&& r == Err::<SspiError, SspiError>(e)
                                &&& post.sessions@ == self.sessions@
                                &&& outs_post == mid
                            },
                            Ok(SspiError::Success) => {
                                &&& post.sessions@ == self.sessions@.insert(h.dw_lower,
                                    crate::gatekeeper_passport::combined(h, 162, Some(sub_ctx), c.slot1_context))
                                &&& match crate::buffers::first_match(mid, BufferQuery::OfType(SecBufferType::Token)) {
                                    None => r == Err::<SspiError, SspiError>(SspiError::InvalidToken) && outs_post == mid,
                                    Some(i) => r == Ok::<SspiError, SspiError>(SspiError::ContinueNeeded)
                                        && crate::buffers::bytes_replaced(mid, outs_post, i, crate::buffers::ok_bytes()),
                                }
                            },
                            Ok(v) => {
                                &&& r == Ok::<SspiError, SspiError>(v)
                                &&& post.sessions@ == self.sessions@.insert(h.dw_lower,
                                    crate::gatekeeper_passport::combined(h, 161, Some(sub_ctx), c.slot1_context))
                                &&& outs_post == mid
                            },
                        }
                    } else if c.state == 162 || c.state == 163 {
                        &&& post.sub_ntlm == self.sub_ntlm
                        &&& self.sub_passport.server_step(post.sub_passport, self.sub_passport.base.creds,
                            crate::gatekeeper_passport::passport_context(c), target_data_rep, inputs, outs_pre, outs_post,
                            crate::gatekeeper_passport::passport_start(c), sub_ctx, sub_r)
                        &&& match sub_r {
                            Err(e) => r == Err::<SspiError, SspiError>(e) && post.sessions@ == self.sessions@,
                            Ok(v) => r == Ok::<SspiError, SspiError>(v) && post.sessions@
                                == self.sessions@.insert(h.dw_lower, crate::gatekeeper_passport::combined(h, 163, c.slot0_context, Some(sub_ctx))),
                        }
                    } else {
                        &&& r == Err::<SspiError, SspiError>(SspiError::InvalidHandle)
                        &&& post == self
                        &&& outs_post == outs_pre
                    }
                },
            },
        }
    }

    /// Sets the operator accounts the NTLM phase authenticates clients against.
    pub fn set_accounts(&mut self, accounts: Vault)
        requires
            old(self).inv(),
            accounts.wf(),
        ensures
            final(self).inv(),
            final(self).sub_ntlm.accounts@ == accounts@,
            final(self).base == old(self).base,
            final(self).sessions@ == old(self).sessions@,
            final(self).next_handle_id == old(self).next_handle_id,
            final(self).sub_passport == old(self).sub_passport,
            final(self).sub_ntlm.base == old(self).sub_ntlm.base,
            final(self).sub_ntlm.sessions@ == old(self).sub_ntlm.sessions@,
            final(self).sub_ntlm.next_handle_id == old(self).sub_ntlm.next_handle_id,
    {
        self.sub_ntlm.set_accounts(accounts);
    }

    /// An NTLMPassport provider named "NTLMPassport" with credentials (0x6001, 0xBBBB),
    /// over a fresh NTLM and a fresh Passport provider.
    pub fn new() -> (r: Self)
        ensures
            r.base.name@ == "NTLMPassport"@,
            r.base.creds == (CredHandle { dw_lower: 0x6001, dw_upper: 0xBBBB }),
            r.sessions@ == Map::<usize, CombinedContext>::empty(),
            r.next_handle_id == 1,
            r.sub_ntlm.base.creds == (CredHandle { dw_lower: 0x4001, dw_upper: 0x6666 }),
            r.sub_ntlm.sessions@.is_empty(),
            r.sub_ntlm.next_handle_id == 1,
            r.sub_passport.sessions@.is_empty(),
            r.sub_passport.next_handle_id == 1,
            r.inv(),
    {
        let r = NtlmPassportSecurityProvider {
            base: DefaultSecurityProvider {
                name: String::from_str("NTLMPassport"),
                creds: CredHandle { dw_lower: 0x6001, dw_upper: 0xBBBB },
            },
            sub_ntlm: NtlmSecurityProvider::new(),
            sub_passport: PassportSecurityProvider::new(),
            sessions: HashMap::new(),
            next_handle_id: 1,
        };
        proof {
            assert(r.sub_ntlm.sessions@ =~= Map::empty());
            assert(r.sub_passport.sessions@ =~= Map::empty());
        }
        r
    }
}

impl Default for NtlmPassportSecurityProvider {
    fn default() -> (r: Self)
        ensures
            r.base.name@ == "NTLMPassport"@,
            r.base.creds == (CredHandle { dw_lower: 0x6001, dw_upper: 0xBBBB }),
            r.sessions@ == Map::<usize, CombinedContext>::empty(),
            r.next_handle_id == 1,
    {
        Self::new()
    }
}

impl SecurityProvider for NtlmPassportSecurityProvider {
    /// Both sub-providers keep their invariants; every combined context is stored under
    /// the lower word of its handle, below the next handle, in a phase it can be in.
    open spec fn inv(&self) -> bool {
        &&& self.sub_ntlm.inv()
        &&& self.sub_passport.inv()
        &&& forall|k: usize| #[trigger] self.sessions@.contains_key(k) ==> {
            &&& self.sessions@[k].h_context.dw_lower == k
            &&& k < self.next_handle_id
            &&& crate::gatekeeper_passport::phase_ok(self.sessions@[k])
        }
    }

    open spec fn can_allocate(&self) -> bool {
        &&& self.next_handle_id < usize::MAX
        &&& self.sub_ntlm.can_allocate()
        &&& self.sub_passport.can_allocate()
    }

    fn name(&self) -> (r: &str)
        ensures
            r@ == self.base.name@,
    {
        self.base.name()
    }

    fn initialize(&self) -> (r: Result<(), SspiError>)
        ensures
            r is Ok,
    {
        let a = self.sub_ntlm.initialize();
        if let Err(e) = a {
            return Err(e);
        }
        let b = self.sub_passport.initialize();
        if let Err(e) = b {
            return Err(e);
        }
        Ok(())
    }

    fn shutdown(&self) -> (r: Result<(), SspiError>)
        ensures
            r is Ok,
    {
        let a = self.sub_ntlm.shutdown();
        if let Err(e) = a {
            return Err(e);
        }
        let b = self.sub_passport.shutdown();
        if let Err(e) = b {
            return Err(e);
        }
        Ok(())
    }

    fn acquire_credentials_handle(
        &self,
        principal: Option<&str>,
        package: &str,
        cred_use: u32,
        auth_data: Option<&[u8]>,
        handle: &mut CredHandle,
    ) -> (r: Result<(), SspiError>)
        ensures
            r is Ok,
            *final(handle) == self.base.creds,
    {
        self.base.acquire_credentials_handle(principal, package, cred_use, auth_data, handle)
    }

    fn free_credentials_handle(&self, handle: &CredHandle) -> (r: Result<(), SspiError>)
        ensures
            r is Ok,
    {
        self.base.free_credentials_handle(handle)
    }

    /// Client side: starts NTLM, answers its challenge, and on the server's "OK" hands
    /// the accompanying ticket buffer to Passport.
    fn initialize_security_context(
        &mut self,
        credential: &CredHandle,
        context: Option<&CtxtHandle>,
        target_name: Option<&str>,
        context_req: u32,
        target_data_rep: u32,
        input_buffers: &[SecBuffer],
        new_context: &mut CtxtHandle,
        output_buffers: &mut [SecBuffer],
        context_attr: &mut u32,
    ) -> (r: Result<SspiError, SspiError>)
        ensures
            *final(context_attr) == *old(context_attr),
            exists|w: (CtxtHandle, Result<SspiError, SspiError>, Seq<SecBuffer>, NtlmOutcome)| #[trigger] old(self).client_step(
                *final(self),
                crate::gatekeeper_passport::context_of(context),
                target_name is Some,
                target_data_rep,
                input_buffers@,
                old(output_buffers)@,
                final(output_buffers)@,
                *old(new_context),
                *final(new_context),
                r,
                w,
            ),
    {
        match context {
            None => self.client_begin(target_name, context_req, target_data_rep, input_buffers, new_context,
                output_buffers, context_attr),
            Some(ctxt) => {
                let h = *ctxt;
                let c = match self.lookup(h) {
                    Some(c) => c,
                    None => {
                        proof {
                            let w = (h, Err::<SspiError, SspiError>(SspiError::InvalidHandle), Seq::<SecBuffer>::empty(), None::<Option<(crate::ntlm::NtlmStatus, Seq<u8>)>>);
                            assert(old(self).client_step(*self, Some(h), target_name is Some, target_data_rep,
                                input_buffers@, output_buffers@, output_buffers@, *new_context, *new_context,
                                Err::<SspiError, SspiError>(SspiError::InvalidHandle), w));
                        }
                        return Err(SspiError::InvalidHandle);
                    },
                };
                if c.state == 161 {
                    let is_ok_tok = match find_first(input_buffers, BufferQuery::OfType(SecBufferType::Token)) {
                        Some(i) => is_ok_bytes(input_buffers[i].bytes.as_slice()),
                        None => false,
                    };
                    if is_ok_tok {
                        self.client_ticket(h, c, target_name, context_req, target_data_rep, input_buffers,
                            new_context, output_buffers, context_attr)
                    } else {
                        self.client_ntlm(h, c, target_name, context_req, target_data_rep, input_buffers,
                            new_context, output_buffers, context_attr)
                    }
                } else if c.state == 163 {
                    self.client_passport(h, c, target_name, context_req, target_data_rep, input_buffers,
                        new_context, output_buffers, context_attr)
                } else {
                    proof {
                        let w = (h, Err::<SspiError, SspiError>(SspiError::InvalidHandle), Seq::<SecBuffer>::empty(), None::<Option<(crate::ntlm::NtlmStatus, Seq<u8>)>>);
                        assert(old(self).client_step(*self, Some(h), target_name is Some, target_data_rep,
                            input_buffers@, output_buffers@, output_buffers@, *new_context, *new_context,
                            Err::<SspiError, SspiError>(SspiError::InvalidHandle), w));
                    }
                    Err(SspiError::InvalidHandle)
                }
            },
        }
    }

    /// Server side: runs NTLM until it succeeds, answers "OK", then runs Passport.
    fn accept_security_context(
        &mut self,
        credential: &CredHandle,
        context: Option<&CtxtHandle>,
        input_buffers: &[SecBuffer],
        context_req: u32,
        target_data_rep: u32,
        new_context: &mut CtxtHandle,
        output_buffers: &mut [SecBuffer],
        context_attr: &mut u32,
    ) -> (r: Result<SspiError, SspiError>)
        ensures
            *final(context_attr) == *old(context_attr),
            exists|w: (CtxtHandle, Result<SspiError, SspiError>, Seq<SecBuffer>, NtlmOutcome)| #[trigger] old(self).server_step(
                *final(self),
                crate::gatekeeper_passport::context_of(context),
                target_data_rep,
                input_buffers@,
                old(output_buffers)@,
                final(output_buffers)@,
                *old(new_context),
                *final(new_context),
                r,
                w,
            ),
    {
        match context {
            None => self.server_begin(input_buffers, context_req, target_data_rep, new_context, output_buffers,
                context_attr),
            Some(ctxt) => {
                let h = *ctxt;
                let c = match self.lookup(h) {
                    Some(c) => c,
                    None => {
                        proof {
                            let w = (h, Err::<SspiError, SspiError>(SspiError::InvalidHandle), Seq::<SecBuffer>::empty(), None::<Option<(crate::ntlm::NtlmStatus, Seq<u8>)>>);
                            assert(old(self).server_step(*self, Some(h), target_data_rep, input_buffers@,
                                output_buffers@, output_buffers@, *new_context, *new_context,
                                Err::<SspiError, SspiError>(SspiError::InvalidHandle), w));
                        }
                        return Err(SspiError::InvalidHandle);
                    },
                };
                if c.state == 161 {
                    self.server_ntlm(h, c, input_buffers, context_req, target_data_rep, new_context, output_buffers,
                        context_attr)
                } else if c.state == 162 || c.state == 163 {
                    self.server_passport(h, c, input_buffers, context_req, target_data_rep, new_context,
                        output_buffers, context_attr)
                } else {
                    proof {
                        let w = (h, Err::<SspiError, SspiError>(SspiError::InvalidHandle), Seq::<SecBuffer>::empty(), None::<Option<(crate::ntlm::NtlmStatus, Seq<u8>)>>);
                        assert(old(self).server_step(*self, Some(h), target_data_rep, input_buffers@,
                            output_buffers@, output_buffers@, *new_context, *new_context,
                            Err::<SspiError, SspiError>(SspiError::InvalidHandle), w));
                    }
                    Err(SspiError::InvalidHandle)
                }
            },
        }
    }

    /// Removes a combined context and the sub-provider contexts it started.
    fn delete_security_context(&mut self, context: &CtxtHandle) -> (r: Result<(), SspiError>)
        ensures
            r is Ok,
            final(self).base == old(self).base,
            final(self).next_handle_id == old(self).next_handle_id,
            final(self).sub_ntlm.base == old(self).sub_ntlm.base,
            final(self).sub_ntlm.next_handle_id == old(self).sub_ntlm.next_handle_id,
            final(self).sub_passport.base == old(self).sub_passport.base,
            final(self).sub_passport.next_handle_id == old(self).sub_passport.next_handle_id,
            match old(self).combined_at(*context) {
                None => *final(self) == *old(self),
                Some(c) => {
                    &&& final(self).sessions@ == old(self).sessions@.remove(context.dw_lower)
                    &&& final(self).sub_ntlm.sessions@ == (match c.slot0_context {
                        Some(h) => if old(self).sub_ntlm.has_session(h) {
                            old(self).sub_ntlm.sessions@.remove(h.dw_lower)
                        } else {
                            old(self).sub_ntlm.sessions@
                        },
                        None => old(self).sub_ntlm.sessions@,
                    })
                    &&& final(self).sub_passport.sessions@ == (match c.slot1_context {
                        Some(h) => if old(self).sub_passport.session_at(h) is Some {
                            old(self).sub_passport.sessions@.remove(h.dw_lower)
                        } else {
                            old(self).sub_passport.sessions@
                        },
                        None => old(self).sub_passport.sessions@,
                    })
                },
            },
    {
        let key = context.dw_lower;
        let c = match self.sessions.get(&key) {
            Some(c) => if c.h_context == *context {
                *c
            } else {
                return Ok(());
            },
            None => return Ok(()),
        };
        self.sessions.remove(&key);
        if let Some(c0) = c.slot0_context {
            let _ = self.sub_ntlm.delete_security_context(&c0);
        }
        if let Some(c1) = c.slot1_context {
            let _ = self.sub_passport.delete_security_context(&c1);
        }
        Ok(())
    }
}

impl NtlmPassportSecurityProvider {
    /// The combined context a handle names, if any.
    fn lookup(&self, h: CtxtHandle) -> (r: Option<CombinedContext>)
        ensures
            r == self.combined_at(h),
    {
        match self.sessions.get(&h.dw_lower) {
            Some(c) => if c.h_context == h {
                Some(*c)
            } else {
                None
            },
            None => None,
        }
    }

    /// Client side, no context yet: allocates the combined handle and starts NTLM.
    fn client_begin(
        &mut self,
        target_name: Option<&str>,
        context_req: u32,
        target_data_rep: u32,
        input_buffers: &[SecBuffer],
        new_context: &mut CtxtHandle,
        output_buffers: &mut [SecBuffer],
        context_attr: &mut u32,
    ) -> (r: Result<SspiError, SspiError>)
        requires
            old(self).inv(),
            old(self).can_allocate(),
        ensures
            final(self).inv(),
            *final(context_attr) == *old(context_attr),
            exists|w: (CtxtHandle, Result<SspiError, SspiError>, Seq<SecBuffer>, NtlmOutcome)| #[trigger] old(self).client_step(
                *final(self), None, target_name is Some, target_data_rep, input_buffers@, old(output_buffers)@,
                final(output_buffers)@, *old(new_context), *final(new_context), r, w),
    {
        let ntlm_creds = self.sub_ntlm.base.creds;
        let id = self.next_handle_id;
        let ctxt = CtxtHandle { dw_lower: id, dw_upper: 0x7000 };
        self.next_handle_id = id + 1;
        *new_context = ctxt;
        let mut sub_new = CtxtHandle { dw_lower: 0, dw_upper: 0 };
        let ghost sub_pre = sub_new;
        let ghost outs0 = output_buffers@;
        let res = self.sub_ntlm.initialize_security_context(
            &ntlm_creds, None, target_name, context_req, target_data_rep, input_buffers,
            &mut sub_new, output_buffers, context_attr,
        );
        let ghost nw = choose|nw: NtlmOutcome| #[trigger] old(self).sub_ntlm.client_step(self.sub_ntlm, ntlm_creds,
            crate::gatekeeper_passport::context_of(None), input_buffers@, outs0, output_buffers@, sub_pre, sub_new, res, nw);
        if let Ok(v) = res {
            self.sessions.insert(id, CombinedContext {
                h_context: ctxt,
                state: 161,
                slot0_context: Some(sub_new),
                slot1_context: None,
            });
        }
        proof {
            let w = (sub_new, res, Seq::<SecBuffer>::empty(), nw);
            assert(old(self).client_step(*self, None, target_name is Some, target_data_rep, input_buffers@,
                old(output_buffers)@, output_buffers@, *old(new_context), *new_context, res, w));
        }
        res
    }

    /// Client side, NTLM phase, the server said "OK": starts Passport with the first
    /// buffer that is not "OK" as its token.
    fn client_ticket(
        &mut self,
        h: CtxtHandle,
        c: CombinedContext,
        target_name: Option<&str>,
        context_req: u32,
        target_data_rep: u32,
        input_buffers: &[SecBuffer],
        new_context: &mut CtxtHandle,
        output_buffers: &mut [SecBuffer],
        context_attr: &mut u32,
    ) -> (r: Result<SspiError, SspiError>)
        requires
            old(self).inv(),
            old(self).can_allocate(),
            old(self).combined_at(h) == Some(c),
            c.state == 161,
            crate::gatekeeper_passport::first_token_is_ok(input_buffers@),
        ensures
            final(self).inv(),
            *final(context_attr) == *old(context_attr),
            exists|w: (CtxtHandle, Result<SspiError, SspiError>, Seq<SecBuffer>, NtlmOutcome)| #[trigger] old(self).client_step(
                *final(self), Some(h), target_name is Some, target_data_rep, input_buffers@, old(output_buffers)@,
                final(output_buffers)@, *old(new_context), *final(new_context), r, w),
    {
        let pp_creds = self.sub_passport.base.creds;
        let pi = match find_first(input_buffers, BufferQuery::NotOk) {
            Some(i) => i,
            None => {
                proof {
                    let w = (h, Err::<SspiError, SspiError>(SspiError::InvalidToken), Seq::<SecBuffer>::empty(), None::<Option<(crate::ntlm::NtlmStatus, Seq<u8>)>>);
                    assert(old(self).client_step(*self, Some(h), target_name is Some, target_data_rep,
                        input_buffers@, output_buffers@, output_buffers@, *new_context, *new_context,
                        Err::<SspiError, SspiError>(SspiError::InvalidToken), w));
                }
                return Err(SspiError::InvalidToken);
            },
        };
        let mut passport_input: Vec<SecBuffer> = Vec::new();
        passport_input.push(SecBuffer {
            buffer_type: SecBufferType::Token,
            bytes: crate::bytes::copy_range(input_buffers[pi].bytes.as_slice(), 0, input_buffers[pi].bytes.len()),
        });
        proof {
            assert(input_buffers[pi as int].bytes@.subrange(0, input_buffers[pi as int].bytes@.len() as int)
                =~= input_buffers[pi as int].bytes@);
            assert(crate::gatekeeper_passport::single_token(passport_input@, input_buffers@[pi as int].bytes@));
        }
        let mut sub_new = CtxtHandle { dw_lower: 0, dw_upper: 0 };
        let res = self.sub_passport.initialize_security_context(
            &pp_creds, None, target_name, context_req, target_data_rep,
            passport_input.as_slice(), &mut sub_new, output_buffers, context_attr,
        );
        if let Ok(v) = res {
            self.sessions.insert(h.dw_lower, CombinedContext {
                h_context: c.h_context,
                state: 163,
                slot0_context: c.slot0_context,
                slot1_context: Some(sub_new),
            });
        }
        proof {
            let w = (sub_new, res, passport_input@, None::<Option<(crate::ntlm::NtlmStatus, Seq<u8>)>>);
            assert(old(self).client_step(*self, Some(h), target_name is Some, target_data_rep, input_buffers@,
                old(output_buffers)@, output_buffers@, *old(new_context), *new_context, res, w));
        }
        res
    }

    /// Client side, NTLM phase: answers the server's challenge.
    fn client_ntlm(
        &mut self,
        h: CtxtHandle,
        c: CombinedContext,
        target_name: Option<&str>,
        context_req: u32,
        target_data_rep: u32,
        input_buffers: &[SecBuffer],
        new_context: &mut CtxtHandle,
        output_buffers: &mut [SecBuffer],
        context_attr: &mut u32,
    ) -> (r: Result<SspiError, SspiError>)
        requires
            old(self).inv(),
            old(self).can_allocate(),
            old(self).combined_at(h) == Some(c),
            c.state == 161,
            !crate::gatekeeper_passport::first_token_is_ok(input_buffers@),
        ensures
            final(self).inv(),
            *final(context_attr) == *old(context_attr),
            exists|w: (CtxtHandle, Result<SspiError, SspiError>, Seq<SecBuffer>, NtlmOutcome)| #[trigger] old(self).client_step(
                *final(self), Some(h), target_name is Some, target_data_rep, input_buffers@, old(output_buffers)@,
                final(output_buffers)@, *old(new_context), *final(new_context), r, w),
    {
        let ntlm_creds = self.sub_ntlm.base.creds;
        let sub_ctx = match c.slot0_context {
            Some(s) => s,
            None => return Err(SspiError::InvalidHandle),
        };
        let mut sub_new = sub_ctx;
        let ghost outs0 = output_buffers@;
        let res = self.sub_ntlm.initialize_security_context(
            &ntlm_creds, Some(&sub_ctx), target_name, context_req, target_data_rep,
            input_buffers, &mut sub_new, output_buffers, context_attr,
        );
        let ghost nw = choose|nw: NtlmOutcome| #[trigger] old(self).sub_ntlm.client_step(self.sub_ntlm, ntlm_creds,
            crate::gatekeeper_passport::context_of(Some(&sub_ctx)), input_buffers@, outs0, output_buffers@, sub_ctx, sub_new, res, nw);
        let out = match res {
            Err(e) => Err(e),
            Ok(_) => {
                self.sessions.insert(h.dw_lower, CombinedContext {
                    h_context: c.h_context,
                    state: 161,
                    slot0_context: Some(sub_new),
                    slot1_context: c.slot1_context,
                });
                Ok(SspiError::ContinueNeeded)
            },
        };
        proof {
            let w = (sub_new, res, Seq::<SecBuffer>::empty(), nw);
            assert(old(self).client_step(*self, Some(h), target_name is Some, target_data_rep, input_buffers@,
                old(output_buffers)@, output_buffers@, *old(new_context), *new_context, out, w));
        }
        out
    }

    /// Client side, Passport phase: continues the Passport exchange.
    fn client_passport(
        &mut self,
        h: CtxtHandle,
        c: CombinedContext,
        target_name: Option<&str>,
        context_req: u32,
        target_data_rep: u32,
        input_buffers: &[SecBuffer],
        new_context: &mut CtxtHandle,
        output_buffers: &mut [SecBuffer],
        context_attr: &mut u32,
    ) -> (r: Result<SspiError, SspiError>)
        requires
            old(self).inv(),
            old(self).can_allocate(),
            old(self).combined_at(h) == Some(c),
            c.state == 163,
        ensures
            final(self).inv(),
            *final(context_attr) == *old(context_attr),
            exists|w: (CtxtHandle, Result<SspiError, SspiError>, Seq<SecBuffer>, NtlmOutcome)| #[trigger] old(self).client_step(
                *final(self), Some(h), target_name is Some, target_data_rep, input_buffers@, old(output_buffers)@,
                final(output_buffers)@, *old(new_context), *final(new_context), r, w),
    {
        let pp_creds = self.sub_passport.base.creds;
        let s1 = match c.slot1_context {
            Some(s) => s,
            None => return Err(SspiError::InvalidHandle),
        };
        let mut sub_new = s1;
        let res = self.sub_passport.initialize_security_context(
            &pp_creds, Some(&s1), target_name, context_req, target_data_rep,
            input_buffers, &mut sub_new, output_buffers, context_attr,
        );
        if let Ok(v) = res {
            self.sessions.insert(h.dw_lower, CombinedContext {
                h_context: c.h_context,
                state: 163,
                slot0_context: c.slot0_context,
                slot1_context: Some(sub_new),
            });
        }
        proof {
            assert(Some(s1) == crate::gatekeeper_passport::passport_context(c) && s1 == crate::gatekeeper_passport::passport_start(c));
            let w = (sub_new, res, Seq::<SecBuffer>::empty(), None::<Option<(crate::ntlm::NtlmStatus, Seq<u8>)>>);
            assert(old(self).client_step(*self, Some(h), target_name is Some, target_data_rep, input_buffers@,
                old(output_buffers)@, output_buffers@, *old(new_context), *new_context, res, w));
        }
        res
    }

    /// Server side, no context yet: allocates the combined handle and starts NTLM.
    fn server_begin(
        &mut self,
        input_buffers: &[SecBuffer],
        context_req: u32,
        target_data_rep: u32,
        new_context: &mut CtxtHandle,
        output_buffers: &mut [SecBuffer],
        context_attr: &mut u32,
    ) -> (r: Result<SspiError, SspiError>)
        requires
            old(self).inv(),
            old(self).can_allocate(),
        ensures
            final(self).inv(),
            *final(context_attr) == *old(context_attr),
            exists|w: (CtxtHandle, Result<SspiError, SspiError>, Seq<SecBuffer>, NtlmOutcome)| #[trigger] old(self).server_step(
                *final(self), None, target_data_rep, input_buffers@, old(output_buffers)@, final(output_buffers)@,
                *old(new_context), *final(new_context), r, w),
    {
        let ntlm_creds = self.sub_ntlm.base.creds;
        let id = self.next_handle_id;
        let ctxt = CtxtHandle { dw_lower: id, dw_upper: 0x8000 };
        self.next_handle_id = id + 1;
        *new_context = ctxt;
        let mut sub_new = CtxtHandle { dw_lower: 0, dw_upper: 0 };
        let ghost sub_pre = sub_new;
        let ghost outs0 = output_buffers@;
        let res = self.sub_ntlm.accept_security_context(
            &ntlm_creds, None, input_buffers, context_req, target_data_rep,
            &mut sub_new, output_buffers, context_attr,
        );
        let ghost nw = choose|nw: NtlmOutcome| #[trigger] old(self).sub_ntlm.server_step(self.sub_ntlm, ntlm_creds,
            crate::gatekeeper_passport::context_of(None), input_buffers@, outs0, output_buffers@, sub_pre, sub_new, res, nw);
        if let Ok(v) = res {
            self.sessions.insert(id, CombinedContext {
                h_context: ctxt,
                state: 161,
                slot0_context: Some(sub_new),
                slot1_context: None,
            });
        }
        proof {
            let w = (sub_new, res, Seq::<SecBuffer>::empty(), nw);
            assert(old(self).server_step(*self, None, target_data_rep, input_buffers@, old(output_buffers)@,
                output_buffers@, *old(new_context), *new_context, res, w));
        }
        res
    }

    /// Server side, NTLM phase: checks the client's answer; on success moves to
    /// phase 162 and answers "OK".
    fn server_ntlm(
        &mut self,
        h: CtxtHandle,
        c: CombinedContext,
        input_buffers: &[SecBuffer],
        context_req: u32,
        target_data_rep: u32,
        new_context: &mut CtxtHandle,
        output_buffers: &mut [SecBuffer],
        context_attr: &mut u32,
    ) -> (r: Result<SspiError, SspiError>)
        requires
            old(self).inv(),
            old(self).can_allocate(),
            old(self).combined_at(h) == Some(c),
            c.state == 161,
        ensures
            final(self).inv(),
            *final(context_attr) == *old(context_attr),
            exists|w: (CtxtHandle, Result<SspiError, SspiError>, Seq<SecBuffer>, NtlmOutcome)| #[trigger] old(self).server_step(
                *final(self), Some(h), target_data_rep, input_buffers@, old(output_buffers)@, final(output_buffers)@,
                *old(new_context), *final(new_context), r, w),
    {
        let ntlm_creds = self.sub_ntlm.base.creds;
        let sub_ctx = match c.slot0_context {
            Some(s) => s,
            None => return Err(SspiError::InvalidHandle),
        };
        let mut sub_new = sub_ctx;
        let ghost outs0 = output_buffers@;
        let res = self.sub_ntlm.accept_security_context(
            &ntlm_creds, Some(&sub_ctx), input_buffers, context_req, target_data_rep,
            &mut sub_new, output_buffers, context_attr,
        );
        let ghost mid = output_buffers@;
        let ghost nw = choose|nw: NtlmOutcome| #[trigger] old(self).sub_ntlm.server_step(self.sub_ntlm, ntlm_creds,
            crate::gatekeeper_passport::context_of(Some(&sub_ctx)), input_buffers@, outs0, mid, sub_ctx, sub_new, res, nw);
        let out = match res {
            Err(e) => Err(e),
            Ok(v) => {
                if v == SspiError::Success {
                    self.sessions.insert(h.dw_lower, CombinedContext {
                        h_context: c.h_context,
                        state: 162,
                        slot0_context: Some(sub_new),
                        slot1_context: c.slot1_context,
                    });
                    match find_first(output_buffers, BufferQuery::OfType(SecBufferType::Token)) {
                        Some(i) => {
                            replace_bytes(output_buffers, i, ok_vec());
                            Ok(SspiError::ContinueNeeded)
                        },
                        None => Err(SspiError::InvalidToken),
                    }
                } else {
                    self.sessions.insert(h.dw_lower, CombinedContext {
                        h_context: c.h_context,
                        state: 161,
                        slot0_context: Some(sub_new),
                        slot1_context: c.slot1_context,
                    });
                    Ok(v)
                }
            },
        };
        proof {
            let w = (sub_new, res, mid, nw);
            assert(old(self).server_step(*self, Some(h), target_data_rep, input_buffers@, old(output_buffers)@,
                output_buffers@, *old(new_context), *new_context, out, w));
        }
        out
    }

    /// Server side, Passport phase: starts or continues the Passport exchange.
    fn server_passport(
        &mut self,
        h: CtxtHandle,
        c: CombinedContext,
        input_buffers: &[SecBuffer],
        context_req: u32,
        target_data_rep: u32,
        new_context: &mut CtxtHandle,
        output_buffers: &mut [SecBuffer],
        context_attr: &mut u32,
    ) -> (r: Result<SspiError, SspiError>)
        requires
            old(self).inv(),
            old(self).can_allocate(),
            old(self).combined_at(h) == Some(c),
            c.state == 162 || c.state == 163,
        ensures
            final(self).inv(),
            *final(context_attr) == *old(context_attr),
            exists|w: (CtxtHandle, Result<SspiError, SspiError>, Seq<SecBuffer>, NtlmOutcome)| #[trigger] old(self).server_step(
                *final(self), Some(h), target_data_rep, input_buffers@, old(output_buffers)@, final(output_buffers)@,
                *old(new_context), *final(new_context), r, w),
    {
        let pp_creds = self.sub_passport.base.creds;
        let (sub_ctx, start) = if c.state == 162 {
            (None, CtxtHandle { dw_lower: 0, dw_upper: 0 })
        } else {
            match c.slot1_context {
                Some(s) => (Some(s), s),
                None => return Err(SspiError::InvalidHandle),
            }
        };
        let mut sub_new = start;
        let res = match sub_ctx {
            Some(s) => self.sub_passport.accept_security_context(
                &pp_creds, Some(&s), input_buffers, context_req, target_data_rep,
                &mut sub_new, output_buffers, context_attr,
            ),
            None => self.sub_passport.accept_security_context(
                &pp_creds, None, input_buffers, context_req, target_data_rep,
                &mut sub_new, output_buffers, context_attr,
            ),
        };
        if let Ok(v) = res {
            self.sessions.insert(h.dw_lower, CombinedContext {
                h_context: c.h_context,
                state: 163,
                slot0_context: c.slot0_context,
                slot1_context: Some(sub_new),
            });
        }
        proof {
            assert(sub_ctx == crate::gatekeeper_passport::passport_context(c) && start == crate::gatekeeper_passport::passport_start(c));
            let w = (sub_new, res, Seq::<SecBuffer>::empty(), None::<Option<(crate::ntlm::NtlmStatus, Seq<u8>)>>);
            assert(old(self).server_step(*self, Some(h), target_data_rep, input_buffers@, old(output_buffers)@,
                output_buffers@, *old(new_context), *new_context, res, w));
        }
        res
    }
}

/// A client step never moves a combined context back: every context that existed before
/// is still there, in the same or a later phase.
pub proof fn lemma_client_phase_monotone(
    pre: NtlmPassportSecurityProvider,
    post: NtlmPassportSecurityProvider,
    context: Option<CtxtHandle>,
    has_target: bool,
    target_data_rep: u32,
    inputs: Seq<SecBuffer>,
    outs_pre: Seq<SecBuffer>,
    outs_post: Seq<SecBuffer>,
    ctx_pre: CtxtHandle,
    ctx_post: CtxtHandle,
    r: Result<SspiError, SspiError>,
    w: (CtxtHandle, Result<SspiError, SspiError>, Seq<SecBuffer>, NtlmOutcome),
    k: usize,
)
    requires
        pre.inv(),
        pre.client_step(post, context, has_target, target_data_rep, inputs, outs_pre, outs_post, ctx_pre,
            ctx_post, r, w),
        pre.sessions@.contains_key(k),
    ensures
        post.sessions@.contains_key(k),
        post.sessions@[k].state >= pre.sessions@[k].state,
        post.sessions@[k].h_context == pre.sessions@[k].h_context,
{
}

/// A server step never moves a combined context back: every context that existed before
/// is still there, in the same or a later phase.
pub proof fn lemma_server_phase_monotone(
    pre: NtlmPassportSecurityProvider,
    post: NtlmPassportSecurityProvider,
    context: Option<CtxtHandle>,
    target_data_rep: u32,
    inputs: Seq<SecBuffer>,
    outs_pre: Seq<SecBuffer>,
    outs_post: Seq<SecBuffer>,
    ctx_pre: CtxtHandle,
    ctx_post: CtxtHandle,
    r: Result<SspiError, SspiError>,
    w: (CtxtHandle, Result<SspiError, SspiError>, Seq<SecBuffer>, NtlmOutcome),
    k: usize,
)
    requires
        pre.inv(),
        pre.server_step(post, context, target_data_rep, inputs, outs_pre, outs_post, ctx_pre, ctx_post, r, w),
        pre.sessions@.contains_key(k),
    ensures
        post.sessions@.contains_key(k),
        post.sessions@[k].state >= pre.sessions@[k].state,
        post.sessions@[k].h_context == pre.sessions@[k].h_context,
{
}

} // verus!
