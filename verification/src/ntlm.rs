//! The NTLM provider: each context drives an `sspi::Ntlm` engine, which produces and
//! checks the NTLM negotiate, challenge and authenticate messages.
//!
//! The engine's messages hold random challenges and timestamps, so nothing is stated of
//! what it produces; the provider's own decisions (credentials check, handle allocation,
//! where the engine's token goes, how its status is reported) are stated exactly for
//! every outcome of the engine.

use vstd::prelude::*;
use std::collections::HashMap;
use vstd::string::StringExecFns;
use crate::types::{SspiError, CredHandle, CtxtHandle, SecBufferType, SecBuffer, SecurityProvider};
use crate::default::DefaultSecurityProvider;
use crate::buffers::{BufferQuery, find_first, replace_bytes};
use crate::vault::{UserLevel, Vault};
use sspi::{Sspi, SspiEx, SspiImpl};

verus! {

#[verifier::external_type_specification]
#[verifier::external_body]
pub struct ExNtlm(sspi::Ntlm);

#[verifier::external_type_specification]
#[verifier::external_body]
pub struct ExAuthIdentity(sspi::AuthIdentity);

#[verifier::external_type_specification]
#[verifier::external_body]
pub struct ExAuthIdentityBuffers(sspi::AuthIdentityBuffers);

#[verifier::external_type_specification]
#[verifier::external_body]
pub struct ExSecurityBuffer(sspi::SecurityBuffer);

#[verifier::external_type_specification]
#[verifier::external_body]
pub struct ExSecurityStatus(sspi::SecurityStatus);

/// The status an NTLM engine step reports.
#[derive(Debug, Clone, Copy, PartialEq, Eq, Structural)]
pub enum NtlmStatus {
    Success,
    ContinueNeeded,
    CompleteNeeded,
    CompleteAndContinue,
    LocalLogon,
    ContextExpired,
    IncompleteCredentials,
    Renegotiate,
    NoLsaContext,
}

/// Which way a set of NTLM credentials is used.
#[derive(Debug, Clone, Copy, PartialEq, Eq, Structural)]
pub enum NtlmCredentialUse {
    /// Accepting contexts (server).
    Inbound,
    /// Initiating contexts (client).
    Outbound,
}

/// A fresh NTLM engine, from `sspi::Ntlm::new`.
#[verifier::external_body]
fn new_ntlm_engine() -> (r: sspi::Ntlm) {
    sspi::Ntlm::new()
}

/// An identity of a username (no domain) and a password, from `sspi::Username::new`.
///
/// Trusted: nothing is stated of when the username is refused.
#[verifier::external_body]
fn auth_identity(username: &str, password: &str) -> (r: Option<sspi::AuthIdentity>) {
    match sspi::Username::new(username, None) {
        Ok(u) => Some(sspi::AuthIdentity { username: u, password: password.to_string().into() }),
        Err(_) => None,
    }
}

/// Acquires credentials on an engine with its `acquire_credentials_handle` builder.
///
/// Trusted: the source refuses only outbound use without an identity; the handle holds
/// an identity exactly when one was given.
#[verifier::external_body]
fn acquire_ntlm_credentials(
    ntlm: &mut sspi::Ntlm,
    usage: NtlmCredentialUse,
    identity: Option<&sspi::AuthIdentity>,
) -> (r: Option<Option<sspi::AuthIdentityBuffers>>)
    ensures
        r is Some <==> !(usage == NtlmCredentialUse::Outbound && identity is None),
        r is Some ==> (r.unwrap() is Some <==> identity is Some),
{
    let cu = match usage {
        NtlmCredentialUse::Inbound => sspi::CredentialUse::Inbound,
        NtlmCredentialUse::Outbound => sspi::CredentialUse::Outbound,
    };
    let b = ntlm.acquire_credentials_handle().with_credential_use(cu);
    let b = match identity {
        Some(id) => b.with_auth_data(id),
        None => b,
    };
    b.execute(ntlm).ok().map(|a| a.credentials_handle)
}

/// Wraps each byte string in an `sspi::SecurityBuffer` of the token type.
#[verifier::external_body]
fn token_buffers(inputs: Vec<Vec<u8>>) -> (r: Vec<sspi::SecurityBuffer>)
    ensures
        r@.len() == inputs@.len(),
{
    inputs.into_iter().map(|b| sspi::SecurityBuffer::new(b, sspi::BufferType::Token)).collect()
}

/// Runs one client step of an engine (`initialize_security_context_impl`, then
/// `resolve_to_result`), with one token buffer for its output.
///
/// Trusted: the source panics without an identity in the handle once it answers a
/// challenge, so the handle must hold one; the source only reads the handle. Nothing is
/// stated of the result: it rests on the engine's state and on random values.
#[verifier::external_body]
fn ntlm_client_step(
    ntlm: &mut sspi::Ntlm,
    creds: &mut Option<sspi::AuthIdentityBuffers>,
    input: &mut Vec<sspi::SecurityBuffer>,
) -> (r: Option<(sspi::SecurityStatus, Vec<u8>)>)
    requires
        *old(creds) is Some,
    ensures
        *final(creds) == *old(creds),
{
    let mut out = vec![sspi::SecurityBuffer::new(Vec::new(), sspi::BufferType::Token)];
    let mut b = ntlm.initialize_security_context().with_credentials_handle(creds)
        .with_context_requirements(sspi::ClientRequestFlags::empty())
        .with_target_data_representation(sspi::DataRepresentation::Native)
        .with_input(input).with_output(&mut out);
    let res = ntlm.initialize_security_context_impl(&mut b).ok()?.resolve_to_result().ok()?;
    Some((res.status, out.swap_remove(0).buffer))
}

/// Runs one server step of an engine (`accept_security_context_impl`, then
/// `resolve_to_result`), with one token buffer for its output.
///
/// Trusted: the source only reads the handle. Nothing is stated of the result: it rests
/// on the engine's state and on random values.
#[verifier::external_body]
fn ntlm_server_step(
    ntlm: &mut sspi::Ntlm,
    creds: &mut Option<sspi::AuthIdentityBuffers>,
    input: &mut Vec<sspi::SecurityBuffer>,
) -> (r: Option<(sspi::SecurityStatus, Vec<u8>)>)
    ensures
        *final(creds) == *old(creds),
{
    let mut out = vec![sspi::SecurityBuffer::new(Vec::new(), sspi::BufferType::Token)];
    let b = ntlm.accept_security_context().with_credentials_handle(creds)
        .with_context_requirements(sspi::ServerRequestFlags::empty())
        .with_target_data_representation(sspi::DataRepresentation::Native)
        .with_input(input).with_output(&mut out);
    let res = ntlm.accept_security_context_impl(b).ok()?.resolve_to_result().ok()?;
    Some((res.status, out.swap_remove(0).buffer))
}

/// The password form in which `sspi` takes an NT hash: `sspi::NTLM_HASH_PREFIX`
/// ("$NTLM$:") followed by the hash in hexadecimal.
///
/// Trusted: the result is the prefix followed by the given text, as the crate's
/// `NtlmHash::to_sspi_password` builds it.
#[verifier::external_body]
fn ntlm_hash_password(nt_hash_hex: &str) -> (r: String)
    ensures
        r@ == "$NTLM$:"@ + nt_hash_hex@,
{
    format!("{}{}", sspi::NTLM_HASH_PREFIX, nt_hash_hex)
}

/// Offers an engine one candidate identity with `custom_set_auth_identities`.
///
/// Trusted: nothing is stated of the result; the source refuses only an empty list.
#[verifier::external_body]
fn ntlm_offer_identity(ntlm: &mut sspi::Ntlm, identity: sspi::AuthIdentity) -> (r: bool) {
    ntlm.custom_set_auth_identities(vec![identity]).is_ok()
}

/// Completes an authentication with `complete_auth_token`, which checks the client's
/// answer against the offered candidate.
///
/// Trusted: nothing is stated of the result; it rests on the engine's state, which holds
/// a random challenge.
#[verifier::external_body]
fn ntlm_complete(ntlm: &mut sspi::Ntlm) -> (r: Option<sspi::SecurityStatus>) {
    ntlm.complete_auth_token(&mut []).ok()
}

/// Tells the variants of `sspi::SecurityStatus` apart.
#[verifier::external_body]
fn status_of(s: sspi::SecurityStatus) -> (r: NtlmStatus) {
    match s {
        sspi::SecurityStatus::Ok => NtlmStatus::Success,
        sspi::SecurityStatus::ContinueNeeded => NtlmStatus::ContinueNeeded,
        sspi::SecurityStatus::CompleteNeeded => NtlmStatus::CompleteNeeded,
        sspi::SecurityStatus::CompleteAndContinue => NtlmStatus::CompleteAndContinue,
        sspi::SecurityStatus::LocalLogon => NtlmStatus::LocalLogon,
        sspi::SecurityStatus::ContextExpired => NtlmStatus::ContextExpired,
        sspi::SecurityStatus::IncompleteCredentials => NtlmStatus::IncompleteCredentials,
        sspi::SecurityStatus::Renegotiate => NtlmStatus::Renegotiate,
        sspi::SecurityStatus::NoLsaContext => NtlmStatus::NoLsaContext,
    }
}

/// What a provider step reports for an engine status: completion (also when the engine
/// asks for completion), "continue", or an invalid token for any other status.
pub open spec fn status_result(s: NtlmStatus) -> Result<SspiError, SspiError> {
    match s {
        NtlmStatus::Success => Ok(SspiError::Success),
        NtlmStatus::CompleteNeeded => Ok(SspiError::Success),
        NtlmStatus::ContinueNeeded => Ok(SspiError::ContinueNeeded),
        _ => Err(SspiError::InvalidToken),
    }
}

/// What a provider step reports for an engine status; see `status_result`.
pub fn ntlm_status_result(s: NtlmStatus) -> (r: Result<SspiError, SspiError>)
    ensures
        r == status_result(s),
{
    match s {
        NtlmStatus::Success => Ok(SspiError::Success),
        NtlmStatus::CompleteNeeded => Ok(SspiError::Success),
        NtlmStatus::ContinueNeeded => Ok(SspiError::ContinueNeeded),
        _ => Err(SspiError::InvalidToken),
    }
}

/// `new` is `outs` with the engine's token written into the first token buffer, or
/// `outs` itself where there is none.
pub open spec fn token_placed(outs: Seq<SecBuffer>, new: Seq<SecBuffer>, tok: Seq<u8>) -> bool {
    match crate::buffers::first_match(outs, BufferQuery::OfType(SecBufferType::Token)) {
        Some(i) => crate::buffers::bytes_replaced(outs, new, i, tok),
        None => new == outs,
    }
}

/// Writes the engine's token into the first token buffer, if there is one.
pub fn place_token(outputs: &mut [SecBuffer], tok: Vec<u8>)
    ensures
        token_placed(old(outputs)@, final(outputs)@, tok@),
{
    match find_first(outputs, BufferQuery::OfType(SecBufferType::Token)) {
        Some(i) => replace_bytes(outputs, i, tok),
        None => {},
    }
}

/// The bytes of every buffer, in order.
fn buffer_bytes(buffers: &[SecBuffer]) -> (r: Vec<Vec<u8>>)
    ensures
        r@.len() == buffers@.len(),
        forall|i: int| 0 <= i < buffers@.len() ==> #[trigger] r@[i]@ == buffers@[i].bytes@,
{
    let mut out: Vec<Vec<u8>> = Vec::new();
    let n = buffers.len();
    let mut i: usize = 0;
    while i < n
        invariant
            n == buffers@.len(),
            i <= n,
            out@.len() == i,
            forall|j: int| 0 <= j < i ==> #[trigger] out@[j]@ == buffers@[j].bytes@,
        decreases n - i,
    {
        let b = crate::bytes::copy_range(buffers[i].bytes.as_slice(), 0, buffers[i].bytes.len());
        proof {
            assert(buffers@[i as int].bytes@.subrange(0, buffers@[i as int].bytes@.len() as int)
                =~= buffers@[i as int].bytes@);
        }
        out.push(b);
        i = i + 1;
    }
    out
}

/// One NTLM context: its handle, its engine and credentials, and whom it authenticated.
pub struct NtlmSession {
    pub h_context: CtxtHandle,
    /// The NTLM engine of this context.
    pub ntlm: sspi::Ntlm,
    /// The credentials the engine runs with.
    pub creds_handle: Option<sspi::AuthIdentityBuffers>,
    /// The vault account the server authenticated: its username, domain and level.
    pub authenticated_username: Option<String>,
    pub authenticated_domain: Option<String>,
    pub authenticated_level: Option<UserLevel>,
    /// Every password offered to the engine to check the client's answer, in order, with
    /// whether the engine took it.
    pub offers: Ghost<Seq<(Seq<char>, bool)>>,
}

/// The outcome of the engine calls a step makes: `None` where the credentials were
/// refused, `Some(None)` where the engine failed, else the engine's status and token.
pub type NtlmOutcome = Option<Option<(NtlmStatus, Seq<u8>)>>;

/// One use of the NTLM engine by a step: the side (`true` for the client), the context
/// it ran for (none for a fresh engine), for a fresh engine the credentials asked for,
/// and the token bytes handed to the engine's step (none where the step did not run).
pub type EngineCall = (bool, Option<usize>, Option<(NtlmCredentialUse, Option<(Seq<char>, Seq<char>)>)>, Option<Seq<Seq<u8>>>);

/// The credentials a fresh engine asks for: outbound as "user" with password "password"
/// for the client, inbound without an identity for the server.
pub open spec fn fresh_credentials(client: bool) -> (NtlmCredentialUse, Option<(Seq<char>, Seq<char>)>) {
    if client {
        (NtlmCredentialUse::Outbound, Some(("user"@, "password"@)))
    } else {
        (NtlmCredentialUse::Inbound, None)
    }
}

/// The bytes of each buffer, in order.
pub open spec fn token_bytes(inputs: Seq<SecBuffer>) -> Seq<Seq<u8>> {
    inputs.map_values(|b: SecBuffer| b.bytes@)
}

/// The token bytes a step hands to the engine: nothing for the client's first step
/// (the negotiate message needs no input), else the bytes of every input buffer.
pub open spec fn handed_tokens(client: bool, fresh: bool, inputs: Seq<SecBuffer>) -> Seq<Seq<u8>> {
    if client && fresh {
        Seq::empty()
    } else {
        token_bytes(inputs)
    }
}

/// The session records `a` (a vault account's username, hash, level and domain) as
/// whom it authenticated.
pub open spec fn authenticated_as(s: NtlmSession, a: (Seq<char>, Seq<char>, UserLevel, Seq<char>)) -> bool {
    &&& (s.authenticated_username matches Some(u) && u@ == a.0)
    &&& (s.authenticated_domain matches Some(d) && d@ == a.3)
    &&& s.authenticated_level == Some(a.2)
}

/// The session's record of whom it authenticated is unchanged.
pub open spec fn auth_kept(pre: NtlmSession, post: NtlmSession) -> bool {
    &&& post.authenticated_username == pre.authenticated_username
    &&& post.authenticated_domain == pre.authenticated_domain
    &&& post.authenticated_level == pre.authenticated_level
}

/// The password form in which a vault account's NT hash is offered to the engine.
pub open spec fn hash_password(nt_hash: Seq<char>) -> Seq<char> {
    "$NTLM$:"@ + nt_hash
}

/// The offers the check made: `post`'s offers extend `pre`'s, and the engine took none of
/// the new ones but, where `taken_last`, the last.
pub open spec fn offers_made(pre: NtlmSession, post: NtlmSession, taken_last: bool) -> bool {
    let o = post.offers@;
    let n = pre.offers@.len();
    &&& o.len() >= n
    &&& o.subrange(0, n as int) == pre.offers@
    &&& forall|j: int| n <= j < o.len() && !(taken_last && j == o.len() - 1) ==> !(#[trigger] o[j]).1
    &&& (taken_last ==> o.len() > n && o.last().1)
}

/// The server's check of a read authenticate message against the vault: either the
/// engine took the hash of some vault account, the last one offered, which the session
/// then records, and the step succeeds; or it took none of those offered, and the logon
/// is denied.
pub open spec fn vault_checked(
    accounts: Map<Seq<char>, (Seq<char>, Seq<char>, UserLevel, Seq<char>)>,
    pre: NtlmSession,
    post: NtlmSession,
    r: Result<SspiError, SspiError>,
) -> bool {
    ||| (r == Ok::<SspiError, SspiError>(SspiError::Success) && offers_made(pre, post, true)
        && exists|k: Seq<char>| accounts.contains_key(k) && #[trigger] authenticated_as(post, accounts[k])
            && post.offers@.last().0 == hash_password(accounts[k].1))
    ||| (r == Err::<SspiError, SspiError>(SspiError::LogonDenied) && auth_kept(pre, post) && offers_made(pre, post, false))
}

/// `post` is `pre` with the session under `k` kept in place (same handle), its engine
/// free to have moved on.
pub open spec fn session_advanced(pre: Map<usize, NtlmSession>, post: Map<usize, NtlmSession>, k: usize) -> bool {
    &&& post.dom() == pre.dom()
    &&& post[k].h_context == pre[k].h_context
    &&& forall|j: usize| #[trigger] pre.contains_key(j) && j != k ==> post[j] == pre[j]
}

/// `post` is `pre` with a new session for handle `h` under `h.dw_lower`, nobody
/// authenticated yet.
pub open spec fn session_added(pre: Map<usize, NtlmSession>, post: Map<usize, NtlmSession>, h: CtxtHandle) -> bool {
    &&& post.dom() == pre.dom().insert(h.dw_lower)
    &&& post[h.dw_lower].h_context == h
    &&& post[h.dw_lower].authenticated_username is None
    &&& post[h.dw_lower].authenticated_domain is None
    &&& post[h.dw_lower].authenticated_level is None
    &&& forall|j: usize| #[trigger] pre.contains_key(j) && j != h.dw_lower ==> post[j] == pre[j]
}

/// The upper word of the handles a side allocates: 0x5000 for the client, 0x6000 for
/// the server.
pub open spec fn side_upper(client: bool) -> usize {
    if client {
        0x5000
    } else {
        0x6000
    }
}

/// The NTLM provider.
pub struct NtlmSecurityProvider {
    pub base: DefaultSecurityProvider,
    /// Active contexts, keyed by the lower word of their handle.
    pub sessions: HashMap<usize, NtlmSession>,
    /// The lower word of the next context handle to hand out.
    pub next_handle_id: usize,
    /// The operator accounts a server authenticates clients against.
    pub accounts: Vault,
    /// Every use of the NTLM engine so far, in order.
    pub engine_calls: Ghost<Seq<EngineCall>>,
}

impl NtlmSecurityProvider {
    /// Whether a handle names a context of this provider.
    pub open spec fn has_session(&self, h: CtxtHandle) -> bool {
        self.sessions@.contains_key(h.dw_lower) && self.sessions@[h.dw_lower].h_context == h
    }

    /// How a step changes the provider, its output buffers and the new-context handle,
    /// and what it returns, for the engine outcome `w`; `client` picks the side.
    pub open spec fn step(
        self,
        post: Self,
        credential: CredHandle,
        context: Option<CtxtHandle>,
        client: bool,
        inputs: Seq<SecBuffer>,
        outs_pre: Seq<SecBuffer>,
        outs_post: Seq<SecBuffer>,
        ctx_pre: CtxtHandle,
        ctx_post: CtxtHandle,
        r: Result<SspiError, SspiError>,
        w: NtlmOutcome,
    ) -> bool {
        &&& post.base == self.base
        &&& post.accounts == self.accounts
        &&& if credential.dw_lower != self.base.creds.dw_lower {
            &&& r == Err::<SspiError, SspiError>(SspiError::UnknownCredentials)
            &&& post == self
            &&& ctx_post == ctx_pre
            &&& outs_post == outs_pre
        } else {
            match context {
                None => match w {
                    None => {
                        &&& r == Err::<SspiError, SspiError>(SspiError::UnknownCredentials)
                        &&& post.sessions@ == self.sessions@
                        &&& post.next_handle_id == self.next_handle_id
                        &&& ctx_post == ctx_pre
                        &&& outs_post == outs_pre
                        &&& post.engine_calls@ == self.engine_calls@.push(
                            (client, None, Some(fresh_credentials(client)), None))
                    },
                    Some(None) => {
                        &&& r == Err::<SspiError, SspiError>(SspiError::InvalidToken)
                        &&& post.sessions@ == self.sessions@
                        &&& post.next_handle_id == self.next_handle_id
                        &&& ctx_post == ctx_pre
                        &&& outs_post == outs_pre
                        &&& post.engine_calls@ == self.engine_calls@.push(
                            (client, None, Some(fresh_credentials(client)), Some(handed_tokens(client, true, inputs))))
                    },
                    Some(Some((st, tok))) => {
                        let h = CtxtHandle { dw_lower: self.next_handle_id, dw_upper: side_upper(client) };
                        &&& r == status_result(st)
                        &&& token_placed(outs_pre, outs_post, tok)
                        &&& ctx_post == h
                        &&& post.next_handle_id == self.next_handle_id + 1
                        &&& session_added(self.sessions@, post.sessions@, h)
                        &&& post.engine_calls@ == self.engine_calls@.push(
                            (client, None, Some(fresh_credentials(client)), Some(handed_tokens(client, true, inputs))))
                    },
                },
                Some(h) => if !self.has_session(h) {
                    &&& r == Err::<SspiError, SspiError>(SspiError::InvalidHandle)
                    &&& post == self
                    &&& ctx_post == ctx_pre
                    &&& outs_post == outs_pre
                } else {
                    let pre_s = self.sessions@[h.dw_lower];
                    let post_s = post.sessions@[h.dw_lower];
                    &&& ctx_post == ctx_pre
                    &&& post.next_handle_id == self.next_handle_id
                    &&& session_advanced(self.sessions@, post.sessions@, h.dw_lower)
                    &&& post.engine_calls@ == self.engine_calls@.push((client, Some(h.dw_lower), None,
                        if client && pre_s.creds_handle is None { None } else { Some(handed_tokens(client, false, inputs)) }))
                    &&& match w {
                        Some(Some((st, tok))) => {
                            &&& token_placed(outs_pre, outs_post, tok)
                            &&& if !client && st == NtlmStatus::CompleteNeeded {
                                vault_checked(self.accounts@, pre_s, post_s, r)
                            } else {
                                r == status_result(st) && auth_kept(pre_s, post_s)
                            }
                        },
                        _ => {
                            &&& r == Err::<SspiError, SspiError>(SspiError::InvalidToken)
                            &&& outs_post == outs_pre
                            &&& auth_kept(pre_s, post_s)
                        },
                    }
                },
            }
        }
    }

    /// How a client-side call changes the provider (client handles have upper word 0x5000).
    pub open spec fn client_step(
        self,
        post: Self,
        credential: CredHandle,
        context: Option<CtxtHandle>,
        inputs: Seq<SecBuffer>,
        outs_pre: Seq<SecBuffer>,
        outs_post: Seq<SecBuffer>,
        ctx_pre: CtxtHandle,
        ctx_post: CtxtHandle,
        r: Result<SspiError, SspiError>,
        w: NtlmOutcome,
    ) -> bool {
        self.step(post, credential, context, true, inputs, outs_pre, outs_post, ctx_pre, ctx_post, r, w)
    }

    /// How a server-side call changes the provider (server handles have upper word 0x6000).
    pub open spec fn server_step(
        self,
        post: Self,
        credential: CredHandle,
        context: Option<CtxtHandle>,
        inputs: Seq<SecBuffer>,
        outs_pre: Seq<SecBuffer>,
        outs_post: Seq<SecBuffer>,
        ctx_pre: CtxtHandle,
        ctx_post: CtxtHandle,
        r: Result<SspiError, SspiError>,
        w: NtlmOutcome,
    ) -> bool {
        self.step(post, credential, context, false, inputs, outs_pre, outs_post, ctx_pre, ctx_post, r, w)
    }

    /// An NTLM provider named "NTLM" with credentials (0x4001, 0x6666), no accounts yet.
    pub fn new() -> (r: Self)
        ensures
            r.base.name@ == "NTLM"@,
            r.base.creds == (CredHandle { dw_lower: 0x4001, dw_upper: 0x6666 }),
            r.sessions@.is_empty(),
            r.next_handle_id == 1,
            r.accounts.wf(),
            r.accounts@ == Map::<Seq<char>, (Seq<char>, Seq<char>, UserLevel, Seq<char>)>::empty(),
            r.engine_calls@ == Seq::<EngineCall>::empty(),
    {
        NtlmSecurityProvider {
            base: DefaultSecurityProvider {
                name: String::from_str("NTLM"),
                creds: CredHandle { dw_lower: 0x4001, dw_upper: 0x6666 },
            },
            sessions: HashMap::new(),
            next_handle_id: 1,
            accounts: Vault::new(),
            engine_calls: Ghost(Seq::empty()),
        }
    }

    /// Sets the operator accounts the server authenticates clients against.
    pub fn set_accounts(&mut self, accounts: Vault)
        requires
            accounts.wf(),
        ensures
            final(self).accounts@ == accounts@,
            final(self).accounts.wf(),
            final(self).base == old(self).base,
            final(self).sessions@ == old(self).sessions@,
            final(self).next_handle_id == old(self).next_handle_id,
            final(self).engine_calls == old(self).engine_calls,
    {
        self.accounts = accounts;
    }

    /// Checks a read authenticate message against the vault: offers the engine each
    /// account's NT hash in turn and records the first account whose password it takes.
    fn authenticate(accounts: &Vault, session: &mut NtlmSession) -> (r: Result<SspiError, SspiError>)
        requires
            accounts.wf(),
        ensures
            final(session).h_context == old(session).h_context,
            final(session).creds_handle == old(session).creds_handle,
            vault_checked(accounts@, *old(session), *final(session), r),
    {
        let entries = accounts.entries();
        let n = entries.len();
        let mut i: usize = 0;
        assert(session.offers@.subrange(0, session.offers@.len() as int) =~= session.offers@);
        while i < n
            invariant
                n == entries@.len(),
                i <= n,
                crate::vault::keys_distinct(entries@),
                crate::vault::entries_map(entries@) == accounts@,
                session.h_context == old(session).h_context,
                session.creds_handle == old(session).creds_handle,
                auth_kept(*old(session), *session),
                offers_made(*old(session), *session, false),
            decreases n - i,
        {
            let acc = &entries[i].account;
            let password = ntlm_hash_password(acc.nt_hash.as_str());
            let (offered, taken) = match auth_identity(acc.username.as_str(), password.as_str()) {
                Some(id) => if ntlm_offer_identity(&mut session.ntlm, id) {
                    match ntlm_complete(&mut session.ntlm) {
                        Some(st) => (true, status_of(st) == NtlmStatus::Success),
                        None => (true, false),
                    }
                } else {
                    (true, false)
                },
                None => (false, false),
            };
            if offered {
                proof {
                    let ghost before = session.offers@;
                    session.offers = Ghost(session.offers@.push((password@, taken)));
                    assert(session.offers@.subrange(0, old(session).offers@.len() as int)
                        =~= before.subrange(0, old(session).offers@.len() as int));
                }
            }
            if taken {
                session.authenticated_username = Some(acc.username.clone());
                session.authenticated_domain = Some(acc.domain.clone());
                session.authenticated_level = Some(acc.level);
                proof {
                    crate::vault::lemma_entries_value(entries@, i as int);
                    let k = entries@[i as int].key@;
                    assert(authenticated_as(*session, accounts@[k]));
                    assert(session.offers@.last().0 == hash_password(accounts@[k].1));
                }
                return Ok(SspiError::Success);
            }
            i = i + 1;
        }
        Err(SspiError::LogonDenied)
    }

    /// Runs a step on the engine of an existing context, keeping the context in place.
    fn continue_step(
        &mut self,
        client: bool,
        credential: &CredHandle,
        h: CtxtHandle,
        input_buffers: &[SecBuffer],
        new_context: &mut CtxtHandle,
        output_buffers: &mut [SecBuffer],
    ) -> (r: Result<SspiError, SspiError>)
        requires
            old(self).inv(),
            old(self).has_session(h),
            credential.dw_lower == old(self).base.creds.dw_lower,
        ensures
            final(self).inv(),
            exists|w: NtlmOutcome| #[trigger] old(self).step(*final(self), *credential, Some(h), client,
                input_buffers@, old(output_buffers)@, final(output_buffers)@, *old(new_context),
                *final(new_context), r, w),
    {
        let key = h.dw_lower;
        let mut session = self.sessions.remove(&key).unwrap();
        let tokens = buffer_bytes(input_buffers);
        let runs = !client || session.creds_handle.is_some();
        proof {
            assert(tokens@.map_values(|v: Vec<u8>| v@) =~= token_bytes(input_buffers@));
            let handed = if runs { Some(handed_tokens(client, false, input_buffers@)) } else { None };
            self.engine_calls = Ghost(self.engine_calls@.push((client, Some(key), None, handed)));
        }
        let mut input = token_buffers(tokens);
        let res = if !runs {
            None
        } else if client {
            ntlm_client_step(&mut session.ntlm, &mut session.creds_handle, &mut input)
        } else {
            ntlm_server_step(&mut session.ntlm, &mut session.creds_handle, &mut input)
        };
        let ghost mut wit: NtlmOutcome = Some(None);
        let out = match res {
            Some((status, tok)) => {
                let st = status_of(status);
                proof {
                    wit = Some(Some((st, tok@)));
                }
                place_token(output_buffers, tok);
                if !client && st == NtlmStatus::CompleteNeeded {
                    Self::authenticate(&self.accounts, &mut session)
                } else {
                    ntlm_status_result(st)
                }
            },
            None => Err(SspiError::InvalidToken),
        };
        self.sessions.insert(key, session);
        proof {
            assert(self.sessions@.dom() =~= old(self).sessions@.dom());
            assert(old(self).step(*self, *credential, Some(h), client, input_buffers@, old(output_buffers)@,
                output_buffers@, *old(new_context), *new_context, out, wit));
        }
        out
    }
}

impl NtlmSecurityProvider {
    /// Starts a context: a fresh engine with credentials ("user"/"password" outbound for
    /// the client, none inbound for the server), its first step, then the new handle.
    fn begin(
        &mut self,
        client: bool,
        credential: &CredHandle,
        input_buffers: &[SecBuffer],
        new_context: &mut CtxtHandle,
        output_buffers: &mut [SecBuffer],
    ) -> (r: Result<SspiError, SspiError>)
        requires
            old(self).inv(),
            old(self).can_allocate(),
            credential.dw_lower == old(self).base.creds.dw_lower,
        ensures
            final(self).inv(),
            exists|w: NtlmOutcome| #[trigger] old(self).step(*final(self), *credential, None, client,
                input_buffers@, old(output_buffers)@, final(output_buffers)@, *old(new_context),
                *final(new_context), r, w),
    {
        let mut ntlm = new_ntlm_engine();
        let acquired = if client {
            match auth_identity("user", "password") {
                Some(id) => acquire_ntlm_credentials(&mut ntlm, NtlmCredentialUse::Outbound, Some(&id)),
                None => None,
            }
        } else {
            acquire_ntlm_credentials(&mut ntlm, NtlmCredentialUse::Inbound, None)
        };
        let mut creds = match acquired {
            Some(c) => c,
            None => {
                proof {
                    self.engine_calls = Ghost(self.engine_calls@.push(
                        (client, None, Some(fresh_credentials(client)), None)));
                    let w: NtlmOutcome = None;
                    assert(old(self).step(*self, *credential, None, client, input_buffers@, old(output_buffers)@,
                        output_buffers@, *old(new_context), *new_context,
                        Err::<SspiError, SspiError>(SspiError::UnknownCredentials), w));
                }
                return Err(SspiError::UnknownCredentials);
            },
        };
        let tokens = if client {
            Vec::new()
        } else {
            buffer_bytes(input_buffers)
        };
        proof {
            assert(tokens@.map_values(|v: Vec<u8>| v@) =~= handed_tokens(client, true, input_buffers@));
            self.engine_calls = Ghost(self.engine_calls@.push(
                (client, None, Some(fresh_credentials(client)), Some(handed_tokens(client, true, input_buffers@)))));
        }
        let mut input = token_buffers(tokens);
        let res = if client {
            ntlm_client_step(&mut ntlm, &mut creds, &mut input)
        } else {
            ntlm_server_step(&mut ntlm, &mut creds, &mut input)
        };
        match res {
            None => {
                proof {
                    let w: NtlmOutcome = Some(None);
                    assert(old(self).step(*self, *credential, None, client, input_buffers@, old(output_buffers)@,
                        output_buffers@, *old(new_context), *new_context,
                        Err::<SspiError, SspiError>(SspiError::InvalidToken), w));
                }
                Err(SspiError::InvalidToken)
            },
            Some((status, tok)) => {
                let st = status_of(status);
                let ghost t = tok@;
                place_token(output_buffers, tok);
                let id = self.next_handle_id;
                let h = CtxtHandle { dw_lower: id, dw_upper: if client { 0x5000 } else { 0x6000 } };
                self.next_handle_id = id + 1;
                *new_context = h;
                self.sessions.insert(id, NtlmSession {
                    h_context: h,
                    ntlm,
                    creds_handle: creds,
                    authenticated_username: None,
                    authenticated_domain: None,
                    authenticated_level: None,
                    offers: Ghost(Seq::empty()),
                });
                let out = ntlm_status_result(st);
                proof {
                    let w: NtlmOutcome = Some(Some((st, t)));
                    assert(self.sessions@.dom() =~= old(self).sessions@.dom().insert(id));
                    assert(old(self).step(*self, *credential, None, client, input_buffers@, old(output_buffers)@,
                        output_buffers@, *old(new_context), *new_context, out, w));
                }
                out
            },
        }
    }
}

impl Default for NtlmSecurityProvider {
    fn default() -> (r: Self)
        ensures
            r.base.name@ == "NTLM"@,
            r.base.creds == (CredHandle { dw_lower: 0x4001, dw_upper: 0x6666 }),
            r.sessions@.is_empty(),
            r.next_handle_id == 1,
            r.accounts.wf(),
            r.accounts@ == Map::<Seq<char>, (Seq<char>, Seq<char>, UserLevel, Seq<char>)>::empty(),
            r.engine_calls@ == Seq::<EngineCall>::empty(),
    {
        Self::new()
    }
}

impl SecurityProvider for NtlmSecurityProvider {
    /// Every context is stored under the lower word of its handle, below the next handle.
    open spec fn inv(&self) -> bool {
        &&& self.accounts.wf()
        &&& forall|k: usize| #[trigger] self.sessions@.contains_key(k) ==> {
            &&& self.sessions@[k].h_context.dw_lower == k
            &&& (self.sessions@[k].h_context.dw_upper == 0x5000 || self.sessions@[k].h_context.dw_upper == 0x6000)
            &&& k < self.next_handle_id
        }
    }

    open spec fn can_allocate(&self) -> bool {
        self.next_handle_id < usize::MAX
    }

    fn name(&self) -> (r: &str)
        ensures
            r@ == self.base.name@,
    {
        self.base.name()
    }

    fn initialize(&self) -> (r: Result<(), SspiError>)
        ensures
            r is Ok,
    {
        self.base.initialize()
    }

    fn shutdown(&self) -> (r: Result<(), SspiError>)
        ensures
            r is Ok,
    {
        self.base.shutdown()
    }

    fn acquire_credentials_handle(
        &self,
        principal: Option<&str>,
        package: &str,
        cred_use: u32,
        auth_data: Option<&[u8]>,
        handle: &mut CredHandle,
    ) -> (r: Result<(), SspiError>)
        ensures
            r is Ok,
            *final(handle) == self.base.creds,
    {
        self.base.acquire_credentials_handle(principal, package, cred_use, auth_data, handle)
    }

    fn free_credentials_handle(&self, handle: &CredHandle) -> (r: Result<(), SspiError>)
        ensures
            r is Ok,
    {
        self.base.free_credentials_handle(handle)
    }

    /// Client side: negotiate message first, then the answer to the server's challenge.
    fn initialize_security_context(
        &mut self,
        credential: &CredHandle,
        context: Option<&CtxtHandle>,
        target_name: Option<&str>,
        context_req: u32,
        target_data_rep: u32,
        input_buffers: &[SecBuffer],
        new_context: &mut CtxtHandle,
        output_buffers: &mut [SecBuffer],
        context_attr: &mut u32,
    ) -> (r: Result<SspiError, SspiError>)
        ensures
            *final(context_attr) == *old(context_attr),
            exists|w: NtlmOutcome| #[trigger] old(self).client_step(*final(self), *credential,
                crate::gatekeeper_passport::context_of(context), input_buffers@, old(output_buffers)@,
                final(output_buffers)@, *old(new_context), *final(new_context), r, w),
    {
        let r = self.run_step(true, credential, context, input_buffers, new_context, output_buffers);
        proof {
            let w = choose|w: NtlmOutcome| #[trigger] old(self).step(*self, *credential,
                crate::gatekeeper_passport::context_of(context), true, input_buffers@, old(output_buffers)@,
                output_buffers@, *old(new_context), *new_context, r, w);
            assert(old(self).client_step(*self, *credential, crate::gatekeeper_passport::context_of(context),
                input_buffers@, old(output_buffers)@, output_buffers@, *old(new_context), *new_context, r, w));
        }
        r
    }

    /// Server side: the challenge first, then the check of the client's answer.
    fn accept_security_context(
        &mut self,
        credential: &CredHandle,
        context: Option<&CtxtHandle>,
        input_buffers: &[SecBuffer],
        context_req: u32,
        target_data_rep: u32,
        new_context: &mut CtxtHandle,
        output_buffers: &mut [SecBuffer],
        context_attr: &mut u32,
    ) -> (r: Result<SspiError, SspiError>)
        ensures
            *final(context_attr) == *old(context_attr),
            exists|w: NtlmOutcome| #[trigger] old(self).server_step(*final(self), *credential,
                crate::gatekeeper_passport::context_of(context), input_buffers@, old(output_buffers)@,
                final(output_buffers)@, *old(new_context), *final(new_context), r, w),
    {
        let r = self.run_step(false, credential, context, input_buffers, new_context, output_buffers);
        proof {
            let w = choose|w: NtlmOutcome| #[trigger] old(self).step(*self, *credential,
                crate::gatekeeper_passport::context_of(context), false, input_buffers@, old(output_buffers)@,
                output_buffers@, *old(new_context), *new_context, r, w);
            assert(old(self).server_step(*self, *credential, crate::gatekeeper_passport::context_of(context),
                input_buffers@, old(output_buffers)@, output_buffers@, *old(new_context), *new_context, r, w));
        }
        r
    }

    /// Removes a context and its engine.
    fn delete_security_context(&mut self, context: &CtxtHandle) -> (r: Result<(), SspiError>)
        ensures
            r is Ok,
            final(self).base == old(self).base,
            final(self).next_handle_id == old(self).next_handle_id,
            final(self).sessions@ == (if old(self).has_session(*context) {
                old(self).sessions@.remove(context.dw_lower)
            } else {
                old(self).sessions@
            }),
    {
        let key = context.dw_lower;
        let present = match self.sessions.get(&key) {
            Some(s) => s.h_context == *context,
            None => false,
        };
        if present {
            self.sessions.remove(&key);
        }
        Ok(())
    }
}

impl NtlmSecurityProvider {
    /// Whether a handle names a context of this provider.
    fn lookup(&self, h: CtxtHandle) -> (r: bool)
        ensures
            r == self.has_session(h),
    {
        match self.sessions.get(&h.dw_lower) {
            Some(s) => s.h_context == h,
            None => false,
        }
    }

    /// One step of either side; `client` picks the side.
    fn run_step(
        &mut self,
        client: bool,
        credential: &CredHandle,
        context: Option<&CtxtHandle>,
        input_buffers: &[SecBuffer],
        new_context: &mut CtxtHandle,
        output_buffers: &mut [SecBuffer],
    ) -> (r: Result<SspiError, SspiError>)
        requires
            old(self).inv(),
            old(self).can_allocate(),
        ensures
            final(self).inv(),
            exists|w: NtlmOutcome| #[trigger] old(self).step(*final(self), *credential,
                crate::gatekeeper_passport::context_of(context), client, input_buffers@,
                old(output_buffers)@, final(output_buffers)@, *old(new_context), *final(new_context), r, w),
    {
        if credential.dw_lower != self.base.creds.dw_lower {
            proof {
                let w: NtlmOutcome = None;
                assert(old(self).step(*self, *credential, crate::gatekeeper_passport::context_of(context), client,
                    input_buffers@, output_buffers@, output_buffers@, *new_context, *new_context,
                    Err::<SspiError, SspiError>(SspiError::UnknownCredentials), w));
            }
            return Err(SspiError::UnknownCredentials);
        }
        match context {
            None => self.begin(client, credential, input_buffers, new_context, output_buffers),
            Some(ctxt) => {
                let h = *ctxt;
                if !self.lookup(h) {
                    proof {
                        let w: NtlmOutcome = None;
                        assert(old(self).step(*self, *credential, crate::gatekeeper_passport::context_of(context),
                            client, input_buffers@, output_buffers@, output_buffers@, *new_context, *new_context,
                            Err::<SspiError, SspiError>(SspiError::InvalidHandle), w));
                    }
                    return Err(SspiError::InvalidHandle);
                }
                self.continue_step(client, credential, h, input_buffers, new_context, output_buffers)
            },
        }
    }
}

/// The final server step of an NTLM logon (the engine has read the client's
/// authenticate message) records the vault account whose NT hash the engine accepted.
/// When it succeeds, the session's user, domain and level are those of a vault account
/// whose hash, as `"$NTLM$:"` and the hash, is the last password offered to the engine
/// in this step; the engine took that offer and none offered before it in the step.
/// When the logon is denied, the engine took none of the passwords offered and the
/// session records nobody new.
pub proof fn lemma_logon_records_accepted_account(
    pre: NtlmSecurityProvider,
    post: NtlmSecurityProvider,
    credential: CredHandle,
    h: CtxtHandle,
    inputs: Seq<SecBuffer>,
    outs_pre: Seq<SecBuffer>,
    outs_post: Seq<SecBuffer>,
    ctx_pre: CtxtHandle,
    ctx_post: CtxtHandle,
    r: Result<SspiError, SspiError>,
    tok: Seq<u8>,
)
    requires
        pre.server_step(post, credential, Some(h), inputs, outs_pre, outs_post, ctx_pre, ctx_post, r,
            Some(Some((NtlmStatus::CompleteNeeded, tok)))),
        credential.dw_lower == pre.base.creds.dw_lower,
        pre.has_session(h),
    ensures
        ({
            let s0 = pre.sessions@[h.dw_lower];
            let s1 = post.sessions@[h.dw_lower];
            let n = s0.offers@.len();
            let o = s1.offers@;
            &&& o.len() >= n
            &&& o.subrange(0, n as int) == s0.offers@
            &&& (r == Ok::<SspiError, SspiError>(SspiError::Success) ==> {
                &&& o.len() > n
                &&& o[o.len() - 1].1
                &&& forall|j: int| n <= j < o.len() - 1 ==> !(#[trigger] o[j]).1
                &&& exists|k: Seq<char>| #![trigger pre.accounts@[k]] pre.accounts@.contains_key(k)
                    && (s1.authenticated_username matches Some(u) && u@ == pre.accounts@[k].0)
                    && (s1.authenticated_domain matches Some(d) && d@ == pre.accounts@[k].3)
                    && s1.authenticated_level == Some(pre.accounts@[k].2)
                    && o[o.len() - 1].0 == "$NTLM$:"@ + pre.accounts@[k].1
            })
            &&& (r != Ok::<SspiError, SspiError>(SspiError::Success) ==> {
                &&& r == Err::<SspiError, SspiError>(SspiError::LogonDenied)
                &&& forall|j: int| n <= j < o.len() ==> !(#[trigger] o[j]).1
                &&& s1.authenticated_username == s0.authenticated_username
                &&& s1.authenticated_domain == s0.authenticated_domain
                &&& s1.authenticated_level == s0.authenticated_level
            })
        }),
{
    let s1 = post.sessions@[h.dw_lower];
    if r == Ok::<SspiError, SspiError>(SspiError::Success) {
        let k = choose|k: Seq<char>| pre.accounts@.contains_key(k) && #[trigger] authenticated_as(s1, pre.accounts@[k])
            && s1.offers@.last().0 == hash_password(pre.accounts@[k].1);
        assert(pre.accounts@.contains_key(k));
    }
}

} // verus!
