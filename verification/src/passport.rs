//! Passport security provider: a ticket travels from client to server in chunks of at
//! most 480 bytes; the server acknowledges every full chunk with `"OK"`.

use vstd::prelude::*;
use std::collections::HashMap;
use vstd::string::StringExecFns;
use crate::types::{SspiError, CredHandle, CtxtHandle, SecBufferType, SecBuffer, SecurityProvider};
use crate::default::DefaultSecurityProvider;
use crate::buffers::{BufferQuery, find_first, replace_bytes, ok_vec};
use crate::bytes::{copy_range, push_all};

use crate::text::string_from_utf8_lossy;

verus! {

broadcast use vstd::std_specs::hash::group_hash_axioms;

/// The largest chunk of a ticket.
pub open spec fn chunk_limit() -> int {
    480
}

/// The largest ticket.
pub open spec fn ticket_limit() -> int {
    4096
}

/// The chunk the client sends from what remains of a ticket.
pub open spec fn next_chunk(rest: Seq<u8>) -> Seq<u8> {
    if rest.len() > chunk_limit() {
        rest.subrange(0, chunk_limit())
    } else {
        rest
    }
}

/// What remains of a ticket after its next chunk was sent.
pub open spec fn after_chunk(rest: Seq<u8>) -> Seq<u8> {
    if rest.len() > chunk_limit() {
        rest.subrange(chunk_limit(), rest.len() as int)
    } else {
        Seq::empty()
    }
}

/// The chunks a client sends for a ticket, in order.
pub open spec fn client_chunks(ticket: Seq<u8>) -> Seq<Seq<u8>>
    decreases ticket.len(),
{
    if ticket.len() > chunk_limit() {
        seq![next_chunk(ticket)] + client_chunks(after_chunk(ticket))
    } else {
        seq![ticket]
    }
}

/// One server step on an unfinished session: the ticket so far and whether it is
/// complete, or `None` when the chunk is refused.
pub open spec fn absorb(acc: Seq<u8>, chunk: Seq<u8>) -> Option<(Seq<u8>, bool)> {
    if chunk.len() > chunk_limit() || acc.len() + chunk.len() > ticket_limit() {
        None
    } else {
        Some((acc + chunk, chunk.len() < chunk_limit()))
    }
}

/// The ticket a server rebuilds from a sequence of chunks, if it finishes exactly on
/// the last one.
pub open spec fn server_reassemble(acc: Seq<u8>, chunks: Seq<Seq<u8>>) -> Option<Seq<u8>>
    decreases chunks.len(),
{
    if chunks.len() == 0 {
        None
    } else {
        match absorb(acc, chunks[0]) {
            None => None,
            Some((a, done)) => if done {
                if chunks.len() == 1 {
                    Some(a)
                } else {
                    None
                }
            } else {
                server_reassemble(a, chunks.drop_first())
            },
        }
    }
}

/// The bytes are non-empty and each is a tab, a line break or printable ASCII.
pub open spec fn printable_ascii(bytes: Seq<u8>) -> bool {
    &&& bytes.len() > 0
    &&& forall|i: int| 0 <= i < bytes.len() ==> {
        let b = #[trigger] bytes[i];
        b == 9 || b == 13 || b == 10 || (32 <= b && b <= 126)
    }
}

/// The client information a server keeps from a complete ticket.
pub open spec fn ticket_info(ticket: Seq<u8>) -> Seq<char> {
    if printable_ascii(ticket) {
        crate::text::lossy_utf8(ticket)
    } else {
        Seq::empty()
    }
}

/// Whether the bytes are non-empty and printable ASCII (tabs and line breaks included).
pub fn is_printable_ascii(bytes: &[u8]) -> (r: bool)
    ensures
        r == printable_ascii(bytes@),
{
    if bytes.len() == 0 {
        return false;
    }
    let mut i: usize = 0;
    while i < bytes.len()
        invariant
            i <= bytes@.len(),
            forall|j: int| 0 <= j < i ==> {
                let b = #[trigger] bytes@[j];
                b == 9 || b == 13 || b == 10 || (32 <= b && b <= 126)
            },
        decreases bytes@.len() - i,
    {
        let b = bytes[i];
        if !(b == 9 || b == 13 || b == 10 || (b >= 32 && b <= 126)) {
            return false;
        }
        i = i + 1;
    }
    true
}

/// The chunking state of one Passport context.
pub struct PassportSession {
    pub h_context: CtxtHandle,
    pub is_finished: bool,
    /// Client: the part of the ticket still to send. Server: the ticket received so far.
    pub remaining_token: Vec<u8>,
    pub client_info: String,
}

/// Passport security provider.
pub struct PassportSecurityProvider {
    pub base: DefaultSecurityProvider,
    /// Active sessions, keyed by the lower word of their context handle.
    pub sessions: HashMap<usize, PassportSession>,
    /// The lower word of the next context handle to hand out.
    pub next_handle_id: usize,
}

/// The client information a server keeps: the ticket's text if it is printable ASCII.
fn info_of(ticket: &[u8]) -> (r: String)
    ensures
        r@ == ticket_info(ticket@),
{
    if is_printable_ascii(ticket) {
        string_from_utf8_lossy(ticket)
    } else {
        String::new()
    }
}

impl PassportSecurityProvider {
    /// How a client-side call changes the provider, its output buffers and the new-context
    /// handle, and what it returns (`self` before the call, `post` after it).
    #[verifier::opaque]
    pub open spec fn client_step(
        self,
        post: Self,
        credential: CredHandle,
        context: Option<CtxtHandle>,
        has_target: bool,
        target_data_rep: u32,
        inputs: Seq<SecBuffer>,
        outs_pre: Seq<SecBuffer>,
        outs_post: Seq<SecBuffer>,
        ctx_pre: CtxtHandle,
        ctx_post: CtxtHandle,
        r: Result<SspiError, SspiError>,
    ) -> bool {
        &&& post.base == self.base
        &&& {
            let refusal = self.client_refusal(
                credential,
                context,
                has_target,
                target_data_rep,
                inputs,
                outs_pre,
            );
            let out_i = crate::buffers::first_match(outs_pre, BufferQuery::OfType(SecBufferType::Token)).unwrap();
            let tok = crate::buffers::first_buffer(inputs, BufferQuery::OfType(SecBufferType::Token)).unwrap().bytes@;
            match refusal {
                Some(e) => {
                    &&& r == Err::<SspiError, SspiError>(e)
                    &&& post == self
                    &&& ctx_post == ctx_pre
                    &&& outs_post == outs_pre
                },
                None => match context {
                    None => {
                        let ctx = CtxtHandle { dw_lower: self.next_handle_id, dw_upper: 0x3000 };
                        &&& ctx_post == ctx
                        &&& post.next_handle_id == self.next_handle_id + 1
                        &&& if tok.len() > ticket_limit() {
                            &&& r == Err::<SspiError, SspiError>(SspiError::InvalidToken)
                            &&& post.sessions@ == self.sessions@
                            &&& outs_post == outs_pre
                        } else {
                            &&& r == Ok::<SspiError, SspiError>(
                                if tok.len() > chunk_limit() { SspiError::ContinueNeeded } else { SspiError::Success },
                            )
                            &&& crate::gatekeeper::map_updated_at(self.sessions@, post.sessions@, ctx.dw_lower)
                            &&& session_is(
                                post.sessions@[ctx.dw_lower],
                                ctx,
                                tok.len() <= chunk_limit(),
                                after_chunk(tok),
                                Seq::empty(),
                            )
                            &&& crate::buffers::bytes_replaced(outs_pre, outs_post, out_i, next_chunk(tok))
                        }
                    },
                    Some(h) => {
                        let s = self.session_at(h).unwrap();
                        &&& ctx_post == ctx_pre
                        &&& post.next_handle_id == self.next_handle_id
                        &&& crate::gatekeeper::map_updated_at(self.sessions@, post.sessions@, h.dw_lower)
                        &&& if s.is_finished {
                            &&& r == Ok::<SspiError, SspiError>(SspiError::Success)
                            &&& session_is(post.sessions@[h.dw_lower], h, true, s.remaining_token@, crate::text::lossy_utf8(tok))
                            &&& outs_post == outs_pre
                        } else {
                            let rest = s.remaining_token@;
                            &&& r == Ok::<SspiError, SspiError>(
                                if rest.len() > chunk_limit() { SspiError::ContinueNeeded } else { SspiError::Success },
                            )
                            &&& session_is(
                                post.sessions@[h.dw_lower],
                                h,
                                rest.len() <= chunk_limit(),
                                after_chunk(rest),
                                s.client_info@,
                            )
                            &&& crate::buffers::bytes_replaced(outs_pre, outs_post, out_i, next_chunk(rest))
                        }
                    },
                },
            }
        }
    }

    /// How a server-side call changes the provider, its output buffers and the new-context
    /// handle, and what it returns (`self` before the call, `post` after it).
    #[verifier::opaque]
    pub open spec fn server_step(
        self,
        post: Self,
        credential: CredHandle,
        context: Option<CtxtHandle>,
        target_data_rep: u32,
        inputs: Seq<SecBuffer>,
        outs_pre: Seq<SecBuffer>,
        outs_post: Seq<SecBuffer>,
        ctx_pre: CtxtHandle,
        ctx_post: CtxtHandle,
        r: Result<SspiError, SspiError>,
    ) -> bool {
        &&& post.base == self.base
        &&& {
            let refusal = self.server_refusal(
                credential,
                context,
                target_data_rep,
                inputs,
            );
            let chunk = crate::buffers::first_buffer(inputs, BufferQuery::OfType(SecBufferType::Token)).unwrap().bytes@;
            let has_out = crate::buffers::first_match(outs_pre, BufferQuery::OfType(SecBufferType::Token)) is Some;
            let out_i = crate::buffers::first_match(outs_pre, BufferQuery::OfType(SecBufferType::Token)).unwrap();
            match refusal {
                Some(e) => {
                    &&& r == Err::<SspiError, SspiError>(e)
                    &&& post == self
                    &&& ctx_post == ctx_pre
                    &&& outs_post == outs_pre
                },
                None => {
                    let (acc, old_info, key, h) = match context {
                        None => (Seq::<u8>::empty(), Seq::<char>::empty(), self.next_handle_id,
                            CtxtHandle { dw_lower: self.next_handle_id, dw_upper: 0x3000 }),
                        Some(h) => (self.session_at(h).unwrap().remaining_token@,
                            self.session_at(h).unwrap().client_info@, h.dw_lower, h),
                    };
                    &&& (context is None ==> ctx_post == h
                        && post.next_handle_id == self.next_handle_id + 1)
                    &&& (context is Some ==> ctx_post == ctx_pre
                        && post.next_handle_id == self.next_handle_id)
                    &&& match absorb(acc, chunk) {
                        None => {
                            &&& r == Err::<SspiError, SspiError>(SspiError::InvalidToken)
                            &&& post.sessions@ == self.sessions@
                            &&& outs_post == outs_pre
                        },
                        Some((ticket, done)) => if done {
                            &&& r == Ok::<SspiError, SspiError>(SspiError::Success)
                            &&& crate::gatekeeper::map_updated_at(self.sessions@, post.sessions@, key)
                            &&& session_is(post.sessions@[key], h, true, Seq::empty(), ticket_info(ticket))
                            &&& outs_post == outs_pre
                        } else if !has_out {
                            &&& r == Err::<SspiError, SspiError>(SspiError::InvalidToken)
                            &&& (context is None ==> post.sessions@ == self.sessions@)
                            &&& (context is Some ==> crate::gatekeeper::map_updated_at(self.sessions@, post.sessions@, key)
                                && session_is(post.sessions@[key], h, false, ticket, old_info))
                            &&& outs_post == outs_pre
                        } else {
                            &&& r == Ok::<SspiError, SspiError>(SspiError::ContinueNeeded)
                            &&& crate::gatekeeper::map_updated_at(self.sessions@, post.sessions@, key)
                            &&& session_is(post.sessions@[key], h, false, ticket, old_info)
                            &&& crate::buffers::bytes_replaced(outs_pre, outs_post, out_i, crate::buffers::ok_bytes())
                        },
                    }
                },
            }
        }
    }

    /// A Passport provider named "Passport" with credentials (0x2001, 0x7777).
    pub fn new() -> (r: Self)
        ensures
            r.base.name@ == "Passport"@,
            r.base.creds == (CredHandle { dw_lower: 0x2001, dw_upper: 0x7777 }),
            r.sessions@ == Map::<usize, PassportSession>::empty(),
            r.next_handle_id == 1,
    {
        PassportSecurityProvider {
            base: DefaultSecurityProvider {
                name: String::from_str("Passport"),
                creds: CredHandle { dw_lower: 0x2001, dw_upper: 0x7777 },
            },
            sessions: HashMap::new(),
            next_handle_id: 1,
        }
    }

    /// The session that a context handle names, if any.
    pub open spec fn session_at(&self, h: CtxtHandle) -> Option<PassportSession> {
        if self.sessions@.contains_key(h.dw_lower) && self.sessions@[h.dw_lower].h_context == h {
            Some(self.sessions@[h.dw_lower])
        } else {
            None
        }
    }

    /// The refusal, if any, that a client-side call gives before touching its state.
    pub open spec fn client_refusal(
        &self,
        credential: CredHandle,
        context: Option<CtxtHandle>,
        has_target: bool,
        target_data_rep: u32,
        inputs: Seq<SecBuffer>,
        outputs: Seq<SecBuffer>,
    ) -> Option<SspiError> {
        if credential.dw_lower != self.base.creds.dw_lower {
            Some(SspiError::UnknownCredentials)
        } else if has_target {
            Some(SspiError::TargetUnknown)
        } else if target_data_rep != 16 {
            Some(SspiError::NotSupported)
        } else if crate::buffers::first_match(inputs, BufferQuery::OfType(SecBufferType::Token)) is None {
            Some(SspiError::InvalidToken)
        } else if crate::buffers::first_match(outputs, BufferQuery::OfType(SecBufferType::Token)) is None {
            Some(SspiError::InvalidToken)
        } else {
            match context {
                None => None,
                Some(h) => if self.session_at(h) is None {
                    Some(SspiError::InvalidHandle)
                } else {
                    None
                },
            }
        }
    }

    /// The refusal, if any, that a server-side call gives before touching its state.
    pub open spec fn server_refusal(
        &self,
        credential: CredHandle,
        context: Option<CtxtHandle>,
        target_data_rep: u32,
        inputs: Seq<SecBuffer>,
    ) -> Option<SspiError> {
        if credential.dw_lower != self.base.creds.dw_lower {
            Some(SspiError::UnknownCredentials)
        } else if target_data_rep != 16 {
            Some(SspiError::NotSupported)
        } else if crate::buffers::first_match(inputs, BufferQuery::OfType(SecBufferType::Token)) is None {
            Some(SspiError::InvalidToken)
        } else {
            let chunk = crate::buffers::first_buffer(inputs, BufferQuery::OfType(SecBufferType::Token)).unwrap().bytes@;
            match context {
                None => None,
                Some(h) => match self.session_at(h) {
                    None => Some(SspiError::InvalidHandle),
                    Some(s) => if s.is_finished {
                        Some(SspiError::InvalidHandle)
                    } else if absorb(s.remaining_token@, chunk) is None {
                        Some(SspiError::InvalidToken)
                    } else {
                        None
                    },
                },
            }
        }
    }
}

impl Default for PassportSecurityProvider {
    fn default() -> (r: Self)
        ensures
            r.base.name@ == "Passport"@,
            r.base.creds == (CredHandle { dw_lower: 0x2001, dw_upper: 0x7777 }),
            r.sessions@ == Map::<usize, PassportSession>::empty(),
            r.next_handle_id == 1,
    {
        Self::new()
    }
}

/// A session as stored for handle `h`.
pub open spec fn session_is(
    s: PassportSession,
    h: CtxtHandle,
    finished: bool,
    remaining: Seq<u8>,
    info: Seq<char>,
) -> bool {
    &&& s.h_context == h
    &&& s.is_finished == finished
    &&& s.remaining_token@ == remaining
    &&& s.client_info@ == info
}

impl SecurityProvider for PassportSecurityProvider {
    /// Every session is stored under the lower word of its handle, below the next handle.
    open spec fn inv(&self) -> bool {
        forall|k: usize| #[trigger] self.sessions@.contains_key(k) ==> {
            &&& self.sessions@[k].h_context.dw_lower == k
            &&& k < self.next_handle_id
        }
    }

    open spec fn can_allocate(&self) -> bool {
        self.next_handle_id < usize::MAX
    }

    fn name(&self) -> (r: &str)
        ensures
            r@ == self.base.name@,
    {
        self.base.name()
    }

    fn initialize(&self) -> (r: Result<(), SspiError>)
        ensures
            r is Ok,
    {
        self.base.initialize()
    }

    fn shutdown(&self) -> (r: Result<(), SspiError>)
        ensures
            r is Ok,
    {
        self.base.shutdown()
    }

    fn acquire_credentials_handle(
        &self,
        principal: Option<&str>,
        package: &str,
        cred_use: u32,
        auth_data: Option<&[u8]>,
        handle: &mut CredHandle,
    ) -> (r: Result<(), SspiError>)
        ensures
            r is Ok,
            *final(handle) == self.base.creds,
    {
        self.base.acquire_credentials_handle(principal, package, cred_use, auth_data, handle)
    }

    fn free_credentials_handle(&self, handle: &CredHandle) -> (r: Result<(), SspiError>)
        ensures
            r is Ok,
    {
        self.base.free_credentials_handle(handle)
    }

    /// Client side: sends the ticket of the first token buffer in chunks of at most 480
    /// bytes. Once the ticket is sent, a further call records the server's reply as the
    /// client information.
    fn initialize_security_context(
        &mut self,
        credential: &CredHandle,
        context: Option<&CtxtHandle>,
        target_name: Option<&str>,
        context_req: u32,
        target_data_rep: u32,
        input_buffers: &[SecBuffer],
        new_context: &mut CtxtHandle,
        output_buffers: &mut [SecBuffer],
        context_attr: &mut u32,
    ) -> (r: Result<SspiError, SspiError>)
        ensures
            *final(context_attr) == *old(context_attr),
            old(self).client_step(
                *final(self),
                *credential,
                match context { Some(c) => Some(*c), None => None },
                target_name is Some,
                target_data_rep,
                input_buffers@,
                old(output_buffers)@,
                final(output_buffers)@,
                *old(new_context),
                *final(new_context),
                r,
            ),
    {
        proof {
            reveal(PassportSecurityProvider::client_step);
        }
        if credential.dw_lower != self.base.creds.dw_lower {
            return Err(SspiError::UnknownCredentials);
        }
        if target_name.is_some() {
            return Err(SspiError::TargetUnknown);
        }
        if target_data_rep != 16 {
            return Err(SspiError::NotSupported);
        }
        let tok_i = match find_first(input_buffers, BufferQuery::OfType(SecBufferType::Token)) {
            Some(i) => i,
            None => return Err(SspiError::InvalidToken),
        };
        let out_i = match find_first(output_buffers, BufferQuery::OfType(SecBufferType::Token)) {
            Some(i) => i,
            None => return Err(SspiError::InvalidToken),
        };
        let tok = input_buffers[tok_i].bytes.as_slice();
        match context {
            None => {
                let id = self.next_handle_id;
                let ctxt = CtxtHandle { dw_lower: id, dw_upper: 0x3000 };
                self.next_handle_id = id + 1;
                *new_context = ctxt;
                let token_len = tok.len();
                if token_len > 4096 {
                    return Err(SspiError::InvalidToken);
                }
                if token_len > 480 {
                    replace_bytes(output_buffers, out_i, copy_range(tok, 0, 480));
                    let remaining = copy_range(tok, 480, token_len);
                    self.sessions.insert(
                        id,
                        PassportSession {
                            h_context: ctxt,
                            is_finished: false,
                            remaining_token: remaining,
                            client_info: String::new(),
                        },
                    );
                    proof {
                        assert(final(self).sessions@.dom() =~= old(self).sessions@.dom().insert(id));
                    }
                    Ok(SspiError::ContinueNeeded)
                } else {
                    replace_bytes(output_buffers, out_i, copy_range(tok, 0, token_len));
                    self.sessions.insert(
                        id,
                        PassportSession {
                            h_context: ctxt,
                            is_finished: true,
                            remaining_token: Vec::new(),
                            client_info: String::new(),
                        },
                    );
                    proof {
                        assert(tok@.subrange(0, token_len as int) =~= tok@);
                        assert(final(self).sessions@.dom() =~= old(self).sessions@.dom().insert(id));
                    }
                    Ok(SspiError::Success)
                }
            },
            Some(ctxt) => {
                let key = ctxt.dw_lower;
                let valid = match self.sessions.get(&key) {
                    Some(s) => s.h_context.dw_upper == ctxt.dw_upper,
                    None => false,
                };
                if !valid {
                    return Err(SspiError::InvalidHandle);
                }
                let mut session = self.sessions.remove(&key).unwrap();
                if session.is_finished {
                    session.client_info = string_from_utf8_lossy(tok);
                    self.sessions.insert(key, session);
                    proof {
                        assert(final(self).sessions@.dom() =~= old(self).sessions@.dom().insert(key));
                    }
                    Ok(SspiError::Success)
                } else {
                    let remaining_len = session.remaining_token.len();
                    if remaining_len > 480 {
                        let chunk = copy_range(session.remaining_token.as_slice(), 0, 480);
                        let rest = copy_range(session.remaining_token.as_slice(), 480, remaining_len);
                        replace_bytes(output_buffers, out_i, chunk);
                        session.remaining_token = rest;
                        self.sessions.insert(key, session);
                        proof {
                            assert(final(self).sessions@.dom() =~= old(self).sessions@.dom().insert(key));
                        }
                        Ok(SspiError::ContinueNeeded)
                    } else {
                        let chunk = copy_range(session.remaining_token.as_slice(), 0, remaining_len);
                        replace_bytes(output_buffers, out_i, chunk);
                        session.remaining_token = Vec::new();
                        session.is_finished = true;
                        self.sessions.insert(key, session);
                        proof {
                            assert(old(self).sessions@[key].remaining_token@.subrange(0, remaining_len as int)
                                =~= old(self).sessions@[key].remaining_token@);
                            assert(final(self).sessions@.dom() =~= old(self).sessions@.dom().insert(key));
                        }
                        Ok(SspiError::Success)
                    }
                }
            },
        }
    }

    /// Server side: collects the chunks of a ticket, answering `"OK"` to each full chunk,
    /// and keeps the ticket's text as client information once the last chunk arrives.
    fn accept_security_context(
        &mut self,
        credential: &CredHandle,
        context: Option<&CtxtHandle>,
        input_buffers: &[SecBuffer],
        context_req: u32,
        target_data_rep: u32,
        new_context: &mut CtxtHandle,
        output_buffers: &mut [SecBuffer],
        context_attr: &mut u32,
    ) -> (r: Result<SspiError, SspiError>)
        ensures
            *final(context_attr) == *old(context_attr),
            old(self).server_step(
                *final(self),
                *credential,
                match context { Some(c) => Some(*c), None => None },
                target_data_rep,
                input_buffers@,
                old(output_buffers)@,
                final(output_buffers)@,
                *old(new_context),
                *final(new_context),
                r,
            ),
    {
        proof {
            reveal(PassportSecurityProvider::server_step);
        }
        if credential.dw_lower != self.base.creds.dw_lower {
            return Err(SspiError::UnknownCredentials);
        }
        if target_data_rep != 16 {
            return Err(SspiError::NotSupported);
        }
        let tok_i = match find_first(input_buffers, BufferQuery::OfType(SecBufferType::Token)) {
            Some(i) => i,
            None => return Err(SspiError::InvalidToken),
        };
        let tok = input_buffers[tok_i].bytes.as_slice();
        match context {
            None => {
                let id = self.next_handle_id;
                let ctxt = CtxtHandle { dw_lower: id, dw_upper: 0x3000 };
                self.next_handle_id = id + 1;
                *new_context = ctxt;
                let chunk_len = tok.len();
                if chunk_len > 480 {
                    return Err(SspiError::InvalidToken);
                }
                if chunk_len == 480 {
                    let out_i = match find_first(output_buffers, BufferQuery::OfType(SecBufferType::Token)) {
                        Some(i) => i,
                        None => return Err(SspiError::InvalidToken),
                    };
                    replace_bytes(output_buffers, out_i, ok_vec());
                    self.sessions.insert(
                        id,
                        PassportSession {
                            h_context: ctxt,
                            is_finished: false,
                            remaining_token: copy_range(tok, 0, chunk_len),
                            client_info: String::new(),
                        },
                    );
                    proof {
                        assert(tok@.subrange(0, chunk_len as int) =~= tok@);
                        assert(Seq::<u8>::empty() + tok@ =~= tok@);
                        assert(final(self).sessions@.dom() =~= old(self).sessions@.dom().insert(id));
                    }
                    Ok(SspiError::ContinueNeeded)
                } else {
                    let client_info = info_of(tok);
                    self.sessions.insert(
                        id,
                        PassportSession {
                            h_context: ctxt,
                            is_finished: true,
                            remaining_token: Vec::new(),
                            client_info,
                        },
                    );
                    proof {
                        assert(Seq::<u8>::empty() + tok@ =~= tok@);
                        assert(final(self).sessions@.dom() =~= old(self).sessions@.dom().insert(id));
                    }
                    Ok(SspiError::Success)
                }
            },
            Some(ctxt) => {
                let key = ctxt.dw_lower;
                let (finished, so_far) = match self.sessions.get(&key) {
                    Some(s) => if s.h_context.dw_upper == ctxt.dw_upper {
                        (s.is_finished, s.remaining_token.len())
                    } else {
                        return Err(SspiError::InvalidHandle);
                    },
                    None => return Err(SspiError::InvalidHandle),
                };
                if finished {
                    return Err(SspiError::InvalidHandle);
                }
                let chunk_len = tok.len();
                if chunk_len > 480 {
                    return Err(SspiError::InvalidToken);
                }
                if so_far > 4096 || chunk_len > 4096 - so_far {
                    return Err(SspiError::InvalidToken);
                }
                let mut session = self.sessions.remove(&key).unwrap();
                push_all(&mut session.remaining_token, tok);
                if chunk_len == 480 {
                    let out_i = match find_first(output_buffers, BufferQuery::OfType(SecBufferType::Token)) {
                        Some(i) => i,
                        None => {
                            self.sessions.insert(key, session);
                            proof {
                                assert(final(self).sessions@.dom() =~= old(self).sessions@.dom().insert(key));
                            }
                            return Err(SspiError::InvalidToken);
                        },
                    };
                    replace_bytes(output_buffers, out_i, ok_vec());
                    self.sessions.insert(key, session);
                    proof {
                        assert(final(self).sessions@.dom() =~= old(self).sessions@.dom().insert(key));
                    }
                    Ok(SspiError::ContinueNeeded)
                } else {
                    session.client_info = info_of(session.remaining_token.as_slice());
                    session.remaining_token = Vec::new();
                    session.is_finished = true;
                    self.sessions.insert(key, session);
                    proof {
                        assert(final(self).sessions@.dom() =~= old(self).sessions@.dom().insert(key));
                    }
                    Ok(SspiError::Success)
                }
            },
        }
    }

    /// Removes the session of a context, if there is one.
    fn delete_security_context(&mut self, context: &CtxtHandle) -> (r: Result<(), SspiError>)
        ensures
            r is Ok,
            final(self).base == old(self).base,
            final(self).next_handle_id == old(self).next_handle_id,
            final(self).sessions@ == (if old(self).session_at(*context) is Some {
                old(self).sessions@.remove(context.dw_lower)
            } else {
                old(self).sessions@
            }),
    {
        let key = context.dw_lower;
        let present = match self.sessions.get(&key) {
            Some(s) => s.h_context.dw_upper == context.dw_upper,
            None => false,
        };
        if present {
            self.sessions.remove(&key);
        }
        Ok(())
    }
}

/// A ticket the client splits is rebuilt whole by the server, provided the ticket does
/// not exceed 4096 bytes and its length is not a non-zero multiple of 480 (with such a
/// length the client's last chunk is full, which the server reads as "more to come").
pub proof fn lemma_ticket_roundtrip(ticket: Seq<u8>)
    requires
        ticket.len() <= ticket_limit(),
        ticket.len() == 0 || (ticket.len() as int) % chunk_limit() != 0,
    ensures
        server_reassemble(Seq::empty(), client_chunks(ticket)) == Some(ticket),
{
    lemma_reassemble_from(Seq::empty(), ticket);
    assert(Seq::<u8>::empty() + ticket =~= ticket);
}

/// Rebuilding continues correctly after a prefix `acc` was received.
proof fn lemma_reassemble_from(acc: Seq<u8>, rest: Seq<u8>)
    requires
        acc.len() + rest.len() <= ticket_limit(),
        rest.len() == 0 || (rest.len() as int) % chunk_limit() != 0,
    ensures
        server_reassemble(acc, client_chunks(rest)) == Some(acc + rest),
    decreases rest.len(),
{
    let chunks = client_chunks(rest);
    if rest.len() > chunk_limit() {
        let c = next_chunk(rest);
        let tail = after_chunk(rest);
        assert(chunks[0] == c);
        assert(chunks.drop_first() =~= client_chunks(tail));
        assert((rest.len() - 480) % 480 == rest.len() % 480) by (nonlinear_arith)
            requires rest.len() > 480;
        lemma_reassemble_from(acc + c, tail);
        assert(acc + c + tail =~= acc + rest);
    } else {
        assert(chunks =~= seq![rest]);
        assert(rest.len() < chunk_limit());
    }
}

/// Every successful client call keeps "what was sent, then what remains" equal to the
/// ticket: the first call (whose token is the ticket) sends the ticket's first chunk and
/// keeps the rest; a call on an unfinished session sends the next chunk of what remains.
/// A call answers "continue" exactly when something remains, and then its chunk is a
/// full 480 bytes. So the chunks sent while the answers were "continue", and the one
/// after, are `client_chunks` of the ticket.
pub proof fn lemma_client_sends_ticket(
    pre: PassportSecurityProvider,
    post: PassportSecurityProvider,
    credential: CredHandle,
    context: Option<CtxtHandle>,
    has_target: bool,
    target_data_rep: u32,
    inputs: Seq<SecBuffer>,
    outs_pre: Seq<SecBuffer>,
    outs_post: Seq<SecBuffer>,
    ctx_pre: CtxtHandle,
    ctx_post: CtxtHandle,
    r: Result<SspiError, SspiError>,
    sent: Seq<u8>,
    ticket: Seq<u8>,
)
    requires
        pre.client_step(post, credential, context, has_target, target_data_rep, inputs, outs_pre, outs_post,
            ctx_pre, ctx_post, r),
        r is Ok,
        match context {
            None => sent.len() == 0 && crate::gatekeeper::token_of(inputs) == Some(ticket),
            Some(h) => pre.session_at(h) matches Some(s) && !s.is_finished && sent + s.remaining_token@ == ticket,
        },
    ensures
        ({
            let chunk = crate::gatekeeper::token_written(outs_pre, outs_post);
            let h2 = match context { Some(h) => h, None => ctx_post };
            let s2 = post.sessions@[h2.dw_lower];
            &&& chunk == next_chunk(ticket.skip(sent.len() as int))
            &&& sent + chunk + s2.remaining_token@ == ticket
            &&& chunk.len() <= chunk_limit()
            &&& (r == Ok::<SspiError, SspiError>(SspiError::ContinueNeeded)) == (s2.remaining_token@.len() > 0)
            &&& (s2.remaining_token@.len() > 0 ==> chunk.len() == chunk_limit())
            &&& s2.is_finished == (s2.remaining_token@.len() == 0)
            &&& s2.h_context == h2
            &&& post.sessions@.contains_key(h2.dw_lower)
            &&& (context is None ==> h2 == ctx_post)
        }),
{
    reveal(PassportSecurityProvider::client_step);
    let rest = ticket.skip(sent.len() as int);
    assert(sent + rest =~= ticket);
    match context {
        None => {
            assert(rest =~= ticket);
        },
        Some(h) => {
            let s = pre.session_at(h).unwrap();
            assert(s.remaining_token@ =~= rest);
        },
    }
    if rest.len() > chunk_limit() {
        assert(next_chunk(rest) + after_chunk(rest) =~= rest);
    } else {
        assert(next_chunk(rest) + after_chunk(rest) =~= rest);
    }
    assert(sent + next_chunk(rest) + after_chunk(rest) =~= ticket);
}

/// Every server call that takes a chunk adds it to what was received: the ticket so far
/// grows by the chunk, and the call finishes ("OK", with the client information read
/// from the whole ticket) exactly on a chunk shorter than 480 bytes; on a full chunk it
/// answers "continue" where it has an output token buffer.
pub proof fn lemma_server_receives_ticket(
    pre: PassportSecurityProvider,
    post: PassportSecurityProvider,
    credential: CredHandle,
    context: Option<CtxtHandle>,
    target_data_rep: u32,
    inputs: Seq<SecBuffer>,
    outs_pre: Seq<SecBuffer>,
    outs_post: Seq<SecBuffer>,
    ctx_pre: CtxtHandle,
    ctx_post: CtxtHandle,
    r: Result<SspiError, SspiError>,
    received: Seq<u8>,
    chunk: Seq<u8>,
)
    requires
        pre.server_step(post, credential, context, target_data_rep, inputs, outs_pre, outs_post, ctx_pre,
            ctx_post, r),
        r is Ok,
        crate::gatekeeper::token_of(inputs) == Some(chunk),
        match context {
            None => received.len() == 0,
            Some(h) => pre.session_at(h) matches Some(s) && !s.is_finished && s.remaining_token@ == received,
        },
    ensures
        absorb(received, chunk) matches Some((ticket, done)) && {
            let h2 = match context { Some(h) => h, None => ctx_post };
            let s2 = post.sessions@[h2.dw_lower];
            &&& s2.h_context == h2
            &&& s2.is_finished == done
            &&& (r == Ok::<SspiError, SspiError>(SspiError::Success)) == done
            &&& (done ==> s2.client_info@ == ticket_info(ticket))
            &&& (!done ==> s2.remaining_token@ == ticket)
        },
{
    reveal(PassportSecurityProvider::server_step);
}

/// One client call on a Passport provider as a run of calls sees it: the context
/// passed, the input buffers, the output buffers before and after, the new-context
/// handle before and after, and the result.
pub type PassportCall = (Option<CtxtHandle>, Seq<SecBuffer>, Seq<SecBuffer>, Seq<SecBuffer>, CtxtHandle, CtxtHandle,
    Result<SspiError, SspiError>);

/// `post` is `pre` after the client call `c`, made with some credential and parameters.
pub open spec fn passport_client_call(pre: PassportSecurityProvider, post: PassportSecurityProvider, c: PassportCall) -> bool {
    exists|credential: CredHandle, has_target: bool, rep: u32|
        #[trigger] pre.client_step(post, credential, c.0, has_target, rep, c.1, c.2, c.3, c.4, c.5, c.6)
}

/// The chunks a client sends for a ticket, the `k`-th one at offset `480 * k`.
proof fn lemma_client_chunk_at(t: Seq<u8>, k: int)
    requires
        0 <= k < client_chunks(t).len(),
    ensures
        client_chunks(t)[k] == next_chunk(t.skip(chunk_limit() * k)),
        k < client_chunks(t).len() - 1 <==> t.skip(chunk_limit() * k).len() > chunk_limit(),
        t.skip(chunk_limit() * k).len() == t.len() - chunk_limit() * k,
    decreases t.len(),
{
    if t.len() > chunk_limit() {
        let a = after_chunk(t);
        assert(client_chunks(t) =~= seq![next_chunk(t)] + client_chunks(a));
        if k > 0 {
            lemma_client_chunk_at(a, k - 1);
            assert(a.skip(chunk_limit() * (k - 1)) =~= t.skip(chunk_limit() * k));
        } else {
            assert(t.skip(0) =~= t);
            lemma_client_chunks_nonempty(a);
        }
    } else {
        assert(client_chunks(t) =~= seq![t]);
        assert(t.skip(0) =~= t);
    }
}

/// The chunks of a ticket, put back together, are the ticket.
pub proof fn lemma_client_chunks_rejoin(t: Seq<u8>)
    ensures
        client_chunks(t).flatten() == t,
    decreases t.len(),
{
    if t.len() > chunk_limit() {
        let a = after_chunk(t);
        lemma_client_chunks_rejoin(a);
        let cs = client_chunks(t);
        assert(cs.drop_first() =~= client_chunks(a));
        assert(cs.first() == next_chunk(t));
        assert(cs.flatten() == cs.first() + cs.drop_first().flatten());
        assert(next_chunk(t) + a =~= t);
    } else {
        let cs = client_chunks(t);
        assert(cs.drop_first() =~= Seq::<Seq<u8>>::empty());
        assert(cs.drop_first().flatten() == Seq::<u8>::empty());
        assert(cs.flatten() == cs.first() + cs.drop_first().flatten());
        assert(t + Seq::<u8>::empty() =~= t);
    }
}

/// A ticket always has at least one chunk.
proof fn lemma_client_chunks_nonempty(t: Seq<u8>)
    ensures
        client_chunks(t).len() >= 1,
    decreases t.len(),
{
    if t.len() > chunk_limit() {
        lemma_client_chunks_nonempty(after_chunk(t));
    }
}

/// A Passport client sends a ticket in chunks over a run of calls on one provider: the
/// first call (no context) takes the ticket as its token, and each later call passes the
/// handle the first one handed out, after the previous call answered "continue". If all
/// of them succeed, the chunk call `k` writes is the ticket's `k`-th chunk
/// (`client_chunks`), every call but the last answers "continue" with a full 480-byte
/// chunk; and where the last call answers "OK", the run has sent every chunk of the
/// ticket.
pub proof fn lemma_client_sends_in_chunks(
    states: Seq<PassportSecurityProvider>,
    calls: Seq<PassportCall>,
    ticket: Seq<u8>,
)
    requires
        states.len() == calls.len() + 1,
        calls.len() >= 1,
        forall|k: int| 0 <= k < calls.len() ==> passport_client_call(states[k], states[k + 1], #[trigger] calls[k])
            && calls[k].6 is Ok,
        calls[0].0 is None,
        crate::gatekeeper::token_of(calls[0].1) == Some(ticket),
        forall|k: int| 1 <= k < calls.len() ==> (#[trigger] calls[k]).0 == Some(calls[0].5)
            && calls[k - 1].6 == Ok::<SspiError, SspiError>(SspiError::ContinueNeeded),
    ensures
        calls.len() <= client_chunks(ticket).len(),
        forall|k: int| 0 <= k < calls.len() ==>
            crate::gatekeeper::token_written(#[trigger] calls[k].2, calls[k].3) == client_chunks(ticket)[k],
        calls[calls.len() - 1].6 == Ok::<SspiError, SspiError>(SspiError::Success)
            ==> calls.len() == client_chunks(ticket).len(),
{
    lemma_client_sends_prefix(states, calls, ticket, calls.len() as int);
}

/// What remains of a ticket after its first `n` chunks were sent.
pub open spec fn remaining_after(ticket: Seq<u8>, n: int) -> Seq<u8> {
    if chunk_limit() * n < ticket.len() {
        ticket.skip(chunk_limit() * n)
    } else {
        Seq::empty()
    }
}

/// Where chunk `n` of the ticket is sent (`n` chunks before it, `rest` remaining), the
/// chunk written is the ticket's `n`-th chunk and what remains is what remains after
/// `n + 1` chunks; the call answers "continue" exactly when more chunks follow.
proof fn lemma_chunk_sent(ticket: Seq<u8>, n: int, rest: Seq<u8>, sent: Seq<u8>, chunk: Seq<u8>, remaining: Seq<u8>)
    requires
        n >= 0,
        chunk_limit() * n < ticket.len() || (n == 0 && ticket.len() == 0),
        rest == remaining_after(ticket, n) || (n == 0 && rest == ticket),
        sent.len() == chunk_limit() * n,
        chunk == next_chunk(ticket.skip(sent.len() as int)),
        sent + chunk + remaining == ticket,
    ensures
        n < client_chunks(ticket).len(),
        chunk == client_chunks(ticket)[n],
        remaining == remaining_after(ticket, n + 1),
        (remaining.len() > 0) == (n + 1 < client_chunks(ticket).len()),
{
    lemma_client_chunks_count(ticket, n);
    lemma_client_chunk_at(ticket, n);
    let r = ticket.skip(chunk_limit() * n);
    assert(sent =~= ticket.take(chunk_limit() * n));
    assert(remaining =~= ticket.skip(chunk_limit() * n + chunk.len()));
    if r.len() > chunk_limit() {
        assert(remaining =~= ticket.skip(chunk_limit() * (n + 1)));
        lemma_client_chunks_count(ticket, n + 1);
    } else {
        assert(remaining.len() == 0);
    }
}

/// The ticket has a chunk at offset `480 * n` exactly when that offset is inside it
/// (or it is the first chunk).
proof fn lemma_client_chunks_count(t: Seq<u8>, n: int)
    requires
        n >= 0,
    ensures
        n < client_chunks(t).len() <==> (chunk_limit() * n < t.len() || n == 0),
    decreases t.len(),
{
    lemma_client_chunks_nonempty(t);
    if t.len() > chunk_limit() {
        let a = after_chunk(t);
        assert(client_chunks(t) =~= seq![next_chunk(t)] + client_chunks(a));
        if n > 0 {
            lemma_client_chunks_count(a, n - 1);
        }
    } else {
        assert(client_chunks(t) =~= seq![t]);
    }
}

/// The run's first `n` calls have sent the ticket's first `n` chunks, all but the last of
/// them full, and the session keeps what remains.
proof fn lemma_client_sends_prefix(
    states: Seq<PassportSecurityProvider>,
    calls: Seq<PassportCall>,
    ticket: Seq<u8>,
    n: int,
)
    requires
        states.len() == calls.len() + 1,
        1 <= n <= calls.len(),
        forall|k: int| 0 <= k < calls.len() ==> passport_client_call(states[k], states[k + 1], #[trigger] calls[k])
            && calls[k].6 is Ok,
        calls[0].0 is None,
        crate::gatekeeper::token_of(calls[0].1) == Some(ticket),
        forall|k: int| 1 <= k < calls.len() ==> (#[trigger] calls[k]).0 == Some(calls[0].5)
            && calls[k - 1].6 == Ok::<SspiError, SspiError>(SspiError::ContinueNeeded),
    ensures
        n <= client_chunks(ticket).len(),
        forall|k: int| 0 <= k < n ==>
            crate::gatekeeper::token_written(#[trigger] calls[k].2, calls[k].3) == client_chunks(ticket)[k],
        states[n].session_at(calls[0].5) matches Some(s) && {
            &&& s.remaining_token@ == remaining_after(ticket, n)
            &&& s.is_finished == (s.remaining_token@.len() == 0)
            &&& (calls[n - 1].6 == Ok::<SspiError, SspiError>(SspiError::ContinueNeeded)) == (n < client_chunks(ticket).len())
        },
    decreases n,
{
    let h = calls[0].5;
    let c = calls[n - 1];
    assert(passport_client_call(states[n - 1], states[n], calls[n - 1]));
    let (credential, has_target, rep) = choose|credential: CredHandle, has_target: bool, rep: u32|
        #[trigger] states[n - 1].client_step(states[n], credential, c.0, has_target, rep, c.1, c.2, c.3, c.4, c.5, c.6);
    let sent = ticket.take(chunk_limit() * (n - 1));
    if n == 1 {
        lemma_client_sends_ticket(states[0], states[1], credential, c.0, has_target, rep, c.1, c.2, c.3, c.4, c.5,
            c.6, Seq::empty(), ticket);
        let s = states[1].sessions@[h.dw_lower];
        assert(sent =~= Seq::<u8>::empty());
        lemma_chunk_sent(ticket, 0, ticket, sent, crate::gatekeeper::token_written(c.2, c.3), s.remaining_token@);
    } else {
        lemma_client_sends_prefix(states, calls, ticket, n - 1);
        let prev = states[n - 1].session_at(h).unwrap();
        assert(calls[n - 1].0 == Some(h));
        assert(calls[n - 2].6 == Ok::<SspiError, SspiError>(SspiError::ContinueNeeded));
        lemma_client_chunks_count(ticket, n - 1);
        assert(chunk_limit() * (n - 1) < ticket.len());
        assert(sent + prev.remaining_token@ =~= ticket);
        lemma_client_sends_ticket(states[n - 1], states[n], credential, c.0, has_target, rep, c.1, c.2, c.3, c.4,
            c.5, c.6, sent, ticket);
        let s = states[n].sessions@[h.dw_lower];
        lemma_chunk_sent(ticket, n - 1, prev.remaining_token@, sent, crate::gatekeeper::token_written(c.2, c.3),
            s.remaining_token@);
    }
}

/// One server call on a Passport provider as a run of calls sees it: the credential,
/// the context passed, the data representation, the input buffers, the output buffers
/// before and after, the new-context handle before and after, and the result.
pub type PassportServerCall = (CredHandle, Option<CtxtHandle>, u32, Seq<SecBuffer>, Seq<SecBuffer>, Seq<SecBuffer>,
    CtxtHandle, CtxtHandle, Result<SspiError, SspiError>);

/// The call is well made for chunk `k` of `ticket`: the provider's credential, data
/// representation 16, the chunk as token, an output token buffer, and the context of
/// the run (none for the first call, the handle `h` the first call handed out after).
pub open spec fn serves_chunk(p: PassportSecurityProvider, c: PassportServerCall, ticket: Seq<u8>, k: int, h: CtxtHandle) -> bool {
    &&& c.0.dw_lower == p.base.creds.dw_lower
    &&& c.2 == 16
    &&& crate::gatekeeper::token_of(c.3) == Some(client_chunks(ticket)[k])
    &&& crate::buffers::first_match(c.4, BufferQuery::OfType(SecBufferType::Token)) is Some
    &&& (k == 0 ==> c.1 is None)
    &&& (k > 0 ==> c.1 == Some(h))
}

/// A ticket's length fits the server: at most 4096 bytes, and not a non-zero multiple of
/// 480 (a full last chunk reads as "more to come").
pub open spec fn ticket_fits(ticket: Seq<u8>) -> bool {
    &&& ticket.len() <= ticket_limit()
    &&& (ticket.len() == 0 || (ticket.len() as int) % chunk_limit() != 0)
}

/// The `k`-th chunk of a ticket that fits: full but for the last one, which is short,
/// and with the chunks before it, the first `480 * (k + 1)` bytes (the whole ticket for
/// the last chunk).
proof fn lemma_chunk_shape(ticket: Seq<u8>, k: int)
    requires
        ticket_fits(ticket),
        0 <= k < client_chunks(ticket).len(),
    ensures
        ticket.take(chunk_limit() * k) + client_chunks(ticket)[k] == (if k + 1 < client_chunks(ticket).len() {
            ticket.take(chunk_limit() * (k + 1))
        } else {
            ticket
        }),
        k + 1 < client_chunks(ticket).len() ==> client_chunks(ticket)[k].len() == chunk_limit(),
        k + 1 == client_chunks(ticket).len() ==> client_chunks(ticket)[k].len() < chunk_limit(),
        k + 1 < client_chunks(ticket).len() ==> chunk_limit() * (k + 1) < ticket.len(),
        chunk_limit() * k <= ticket.len(),
{
    lemma_client_chunk_at(ticket, k);
    lemma_client_chunks_count(ticket, k);
    lemma_client_chunks_count(ticket, k + 1);
    let r = ticket.skip(chunk_limit() * k);
    if r.len() > chunk_limit() {
        assert(ticket.take(chunk_limit() * k) + r.subrange(0, chunk_limit()) =~= ticket.take(chunk_limit() * (k + 1)));
    } else {
        assert(ticket.take(chunk_limit() * k) + r =~= ticket);
        if r.len() == chunk_limit() && ticket.len() > 0 {
            assert(ticket.len() == chunk_limit() * (k + 1));
            assert((chunk_limit() * (k + 1)) % chunk_limit() == 0) by (nonlinear_arith);
        }
    }
}

/// One server call of the run takes chunk `k`: it answers "continue" and keeps the first
/// `480 * (k + 1)` bytes for every chunk but the last, and "OK" on the last, finishing
/// with the client information of the whole ticket.
proof fn lemma_server_takes_chunk(
    pre: PassportSecurityProvider,
    post: PassportSecurityProvider,
    c: PassportServerCall,
    ticket: Seq<u8>,
    k: int,
    h: CtxtHandle,
)
    requires
        pre.server_step(post, c.0, c.1, c.2, c.3, c.4, c.5, c.6, c.7, c.8),
        ticket_fits(ticket),
        0 <= k < client_chunks(ticket).len(),
        serves_chunk(pre, c, ticket, k, h),
        k > 0 ==> (pre.session_at(h) matches Some(s) && !s.is_finished
            && s.remaining_token@ == ticket.take(chunk_limit() * k)),
    ensures
        ({
            let h2 = if k == 0 { c.7 } else { h };
            &&& post.session_at(h2) matches Some(s2) && {
                &&& (k + 1 < client_chunks(ticket).len() ==> c.8 == Ok::<SspiError, SspiError>(SspiError::ContinueNeeded)
                    && !s2.is_finished && s2.remaining_token@ == ticket.take(chunk_limit() * (k + 1)))
                &&& (k + 1 == client_chunks(ticket).len() ==> c.8 == Ok::<SspiError, SspiError>(SspiError::Success)
                    && s2.is_finished && s2.client_info@ == ticket_info(ticket))
            }
            &&& (k == 0 ==> c.7.dw_lower == pre.next_handle_id)
        }),
{
    reveal(PassportSecurityProvider::server_step);
    lemma_chunk_shape(ticket, k);
    let chunk = client_chunks(ticket)[k];
    if k == 0 {
        assert(ticket.take(0) =~= Seq::<u8>::empty());
    }
    if k + 1 < client_chunks(ticket).len() {
        assert(ticket.take(chunk_limit() * (k + 1)).len() <= ticket_limit());
    }
}

/// A Passport server rebuilds a ticket over a run of calls on one provider that hand it
/// the ticket's chunks in order: the first call (no context) takes the first chunk and
/// hands out a handle, each later call passes that handle and takes the next chunk,
/// every call with the provider's credential, data representation 16 and an output
/// token buffer. For a ticket that fits, every call but the one on the last chunk
/// answers "continue", the one on the last chunk answers "OK", and the session then
/// holds the client information of the whole ticket.
pub proof fn lemma_server_rebuilds_ticket(
    states: Seq<PassportSecurityProvider>,
    calls: Seq<PassportServerCall>,
    ticket: Seq<u8>,
)
    requires
        ticket_fits(ticket),
        states.len() == calls.len() + 1,
        1 <= calls.len() <= client_chunks(ticket).len(),
        forall|k: int| #![trigger calls[k]] 0 <= k < calls.len() ==> states[k].server_step(states[k + 1], calls[k].0,
            calls[k].1, calls[k].2, calls[k].3, calls[k].4, calls[k].5, calls[k].6, calls[k].7, calls[k].8)
            && serves_chunk(states[k], calls[k], ticket, k, calls[0].7),
    ensures
        forall|k: int| 0 <= k < calls.len() ==> (#[trigger] calls[k]).8 == if k + 1 < client_chunks(ticket).len() {
            Ok::<SspiError, SspiError>(SspiError::ContinueNeeded)
        } else {
            Ok::<SspiError, SspiError>(SspiError::Success)
        },
        calls.len() == client_chunks(ticket).len() ==> (states[calls.len() as int].session_at(calls[0].7) matches Some(s)
            && s.is_finished && s.client_info@ == ticket_info(ticket)),
{
    lemma_server_run_prefix(states, calls, ticket, calls.len() as int);
}

/// The first `n` calls of the run answer as `lemma_server_rebuilds_ticket` says, and the
/// session keeps the bytes received so far.
proof fn lemma_server_run_prefix(
    states: Seq<PassportSecurityProvider>,
    calls: Seq<PassportServerCall>,
    ticket: Seq<u8>,
    n: int,
)
    requires
        ticket_fits(ticket),
        states.len() == calls.len() + 1,
        1 <= n <= calls.len() <= client_chunks(ticket).len(),
        forall|k: int| #![trigger calls[k]] 0 <= k < calls.len() ==> states[k].server_step(states[k + 1], calls[k].0,
            calls[k].1, calls[k].2, calls[k].3, calls[k].4, calls[k].5, calls[k].6, calls[k].7, calls[k].8)
            && serves_chunk(states[k], calls[k], ticket, k, calls[0].7),
    ensures
        forall|k: int| 0 <= k < n ==> (#[trigger] calls[k]).8 == if k + 1 < client_chunks(ticket).len() {
            Ok::<SspiError, SspiError>(SspiError::ContinueNeeded)
        } else {
            Ok::<SspiError, SspiError>(SspiError::Success)
        },
        states[n].session_at(calls[0].7) matches Some(s) && {
            &&& (n < client_chunks(ticket).len() ==> !s.is_finished
                && s.remaining_token@ == ticket.take(chunk_limit() * n))
            &&& (n == client_chunks(ticket).len() ==> s.is_finished && s.client_info@ == ticket_info(ticket))
        },
    decreases n,
{
    let h = calls[0].7;
    assert(states[n - 1].server_step(states[n], calls[n - 1].0, calls[n - 1].1, calls[n - 1].2, calls[n - 1].3,
        calls[n - 1].4, calls[n - 1].5, calls[n - 1].6, calls[n - 1].7, calls[n - 1].8));
    if n > 1 {
        lemma_server_run_prefix(states, calls, ticket, n - 1);
    }
    lemma_server_takes_chunk(states[n - 1], states[n], calls[n - 1], ticket, n - 1, h);
}

/// Which tickets count as printable: a non-empty ticket whose every byte is a tab, a
/// line feed, a carriage return or in 32..=126 (space to tilde, digits and punctuation
/// included). A printable ticket is kept as the client information, as text; any other
/// ticket leaves the client information empty.
pub proof fn lemma_printable_tickets(t: Seq<u8>)
    ensures
        printable_ascii(t) <==> (t.len() > 0 && forall|i: int| 0 <= i < t.len() ==>
            t[i] == 9u8 || t[i] == 10u8 || t[i] == 13u8 || (32u8 <= t[i] && t[i] <= 126u8)),
        (t.len() > 0 && forall|i: int| 0 <= i < t.len() ==> 32u8 <= #[trigger] t[i] && t[i] <= 126u8)
            ==> ticket_info(t) == crate::text::lossy_utf8(t),
        (exists|i: int| 0 <= i < t.len() && (t[i] < 9u8 || t[i] == 11u8 || t[i] == 12u8 || (14u8 <= t[i] && t[i] < 32u8)
            || t[i] > 126u8)) ==> ticket_info(t) == Seq::<char>::empty(),
{
    if exists|i: int| 0 <= i < t.len() && (t[i] < 9u8 || t[i] == 11u8 || t[i] == 12u8 || (14u8 <= t[i] && t[i] < 32u8)
        || t[i] > 126u8) {
        let i = choose|i: int| 0 <= i < t.len() && (t[i] < 9u8 || t[i] == 11u8 || t[i] == 12u8
            || (14u8 <= t[i] && t[i] < 32u8) || t[i] > 126u8);
        assert(!printable_ascii(t));
    }
}

} // verus!
