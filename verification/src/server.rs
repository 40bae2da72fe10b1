//! The server side of IRCX `AUTH` logins: which provider answers a command, the state a
//! connection keeps between commands, and the name a finished login reports.

use vstd::prelude::*;
use vstd::string::{StringExecFns, StrSliceExecFns};
use crate::types::{SspiError, CredHandle, CtxtHandle, SecBufferType, SecBuffer, SecurityProvider};
use crate::gatekeeper::GateKeeperSecurityProvider;
use crate::gatekeeper_passport::GateKeeperPassportSecurityProvider;
use crate::ntlm::{NtlmSecurityProvider, NtlmOutcome};
use crate::ntlm_passport::NtlmPassportSecurityProvider;
use crate::passport::PassportSecurityProvider;
use crate::vault::Vault;
use crate::wire::{AuthPackage, unescape};
use crate::dll::format_gatekeeper_id;
use crate::text::push_char;

verus! {

/// The outcome of any provider's server step: the Passport-chained providers' sub-context,
/// sub-result and buffers, and the NTLM engine's outcome.
pub type StepWitness = (CtxtHandle, Result<SspiError, SspiError>, Seq<SecBuffer>, NtlmOutcome);

/// The four providers a server offers, with the credentials it acquired from each.
pub struct ServerAuth {
    pub gk_provider: GateKeeperSecurityProvider,
    pub gkp_provider: GateKeeperPassportSecurityProvider,
    pub ntlm_provider: NtlmSecurityProvider,
    pub ntlm_passport_provider: NtlmPassportSecurityProvider,
    pub gk_cred: CredHandle,
    pub gkp_cred: CredHandle,
    pub ntlm_cred: CredHandle,
    pub ntlm_passport_cred: CredHandle,
}

/// What a connection remembers between `AUTH` commands: the package of the login under
/// way and its server context.
#[derive(Debug, Clone, Copy, PartialEq, Eq, Structural)]
pub struct AuthSession {
    pub active_package: Option<AuthPackage>,
    pub active_context: Option<CtxtHandle>,
}

/// How a command was answered.
#[derive(Debug)]
pub enum AuthOutcome {
    /// The login goes on; the token to send back.
    Continue(Vec<u8>),
    /// The login succeeded; the name it reports.
    Success(String),
}

/// `s` holds exactly one buffer, an empty token buffer.
pub open spec fn single_empty_token(s: Seq<SecBuffer>) -> bool {
    &&& s.len() == 1
    &&& s[0].buffer_type == SecBufferType::Token
    &&& s[0].bytes@.len() == 0
}

/// The bytes of the first buffer, or none where there is none.
pub open spec fn first_bytes(s: Seq<SecBuffer>) -> Seq<u8> {
    if s.len() > 0 {
        s[0].bytes@
    } else {
        Seq::empty()
    }
}

/// The buffers an opening command hands its provider: the token, and for the GateKeeper
/// packages the hostname "localhost" and the byte 1 (older versions allowed).
pub open spec fn opening_inputs(pkg: AuthPackage, tok: Seq<u8>, s: Seq<SecBuffer>) -> bool {
    if pkg == AuthPackage::GateKeeper || pkg == AuthPackage::GateKeeperPassport {
        &&& s.len() == 3
        &&& s[0].buffer_type == SecBufferType::Token
        &&& s[0].bytes@ == tok
        &&& s[1].buffer_type == SecBufferType::PkgParams
        &&& s[1].bytes@ == seq![108u8, 111, 99, 97, 108, 104, 111, 115, 116]
        &&& s[2].buffer_type == SecBufferType::PkgParams
        &&& s[2].bytes@ == seq![1u8]
    } else {
        &&& s.len() == 1
        &&& s[0].buffer_type == SecBufferType::Token
        &&& s[0].bytes@ == tok
    }
}

/// The buffers a continuing command hands its provider: the token alone.
pub open spec fn continuing_inputs(tok: Seq<u8>, s: Seq<SecBuffer>) -> bool {
    &&& s.len() == 1
    &&& s[0].buffer_type == SecBufferType::Token
    &&& s[0].bytes@ == tok
}

impl ServerAuth {
    /// Every provider keeps its invariant.
    pub open spec fn wf(&self) -> bool {
        &&& self.gk_provider.inv()
        &&& self.gkp_provider.inv()
        &&& self.ntlm_provider.inv()
        &&& self.ntlm_passport_provider.inv()
    }

    /// Every provider can still hand out a context handle.
    pub open spec fn can_accept(&self) -> bool {
        &&& self.gk_provider.can_allocate()
        &&& self.gkp_provider.can_allocate()
        &&& self.ntlm_provider.can_allocate()
        &&& self.ntlm_passport_provider.can_allocate()
    }

    /// `post` is `pre` with only the provider of `pkg` possibly changed.
    pub open spec fn others_kept(pre: ServerAuth, post: ServerAuth, pkg: AuthPackage) -> bool {
        &&& post.gk_cred == pre.gk_cred
        &&& post.gkp_cred == pre.gkp_cred
        &&& post.ntlm_cred == pre.ntlm_cred
        &&& post.ntlm_passport_cred == pre.ntlm_passport_cred
        &&& (pkg != AuthPackage::GateKeeper ==> post.gk_provider == pre.gk_provider)
        &&& (pkg != AuthPackage::GateKeeperPassport ==> post.gkp_provider == pre.gkp_provider)
        &&& (pkg != AuthPackage::Ntlm ==> post.ntlm_provider == pre.ntlm_provider)
        &&& (pkg != AuthPackage::NtlmPassport ==> post.ntlm_passport_provider == pre.ntlm_passport_provider)
    }

    /// The server step of the provider of `pkg` (with its credentials and data
    /// representation 16), for the outcome `w`.
    pub open spec fn accepted(
        pre: ServerAuth,
        post: ServerAuth,
        pkg: AuthPackage,
        context: Option<CtxtHandle>,
        inputs: Seq<SecBuffer>,
        outs_pre: Seq<SecBuffer>,
        outs_post: Seq<SecBuffer>,
        ctx_pre: CtxtHandle,
        ctx_post: CtxtHandle,
        r: Result<SspiError, SspiError>,
        w: StepWitness,
    ) -> bool {
        &&& Self::others_kept(pre, post, pkg)
        &&& match pkg {
            AuthPackage::GateKeeper => pre.gk_provider.server_step(post.gk_provider, pre.gk_cred, context, 16,
                inputs, outs_pre, outs_post, ctx_pre, ctx_post, r),
            AuthPackage::GateKeeperPassport => pre.gkp_provider.server_step(post.gkp_provider, context, 16,
                inputs, outs_pre, outs_post, ctx_pre, ctx_post, r, (w.0, w.1, w.2)),
            AuthPackage::Ntlm => pre.ntlm_provider.server_step(post.ntlm_provider, pre.ntlm_cred, context,
                inputs, outs_pre, outs_post, ctx_pre, ctx_post, r, w.3),
            AuthPackage::NtlmPassport => pre.ntlm_passport_provider.server_step(post.ntlm_passport_provider,
                context, 16, inputs, outs_pre, outs_post, ctx_pre, ctx_post, r, w),
        }
    }

    /// The provider of `pkg` deleted the context `h`, the others kept.
    pub open spec fn deleted(pre: ServerAuth, post: ServerAuth, pkg: AuthPackage, h: CtxtHandle) -> bool {
        &&& Self::others_kept(pre, post, pkg)
        &&& match pkg {
            AuthPackage::GateKeeper => {
                &&& post.gk_provider.base == pre.gk_provider.base
                &&& post.gk_provider.next_handle_id == pre.gk_provider.next_handle_id
                &&& post.gk_provider.sessions@ == (if pre.gk_provider.session_at(h) is Some {
                    pre.gk_provider.sessions@.remove(h.dw_lower)
                } else {
                    pre.gk_provider.sessions@
                })
            },
            AuthPackage::GateKeeperPassport => {
                &&& post.gkp_provider.base == pre.gkp_provider.base
                &&& post.gkp_provider.next_handle_id == pre.gkp_provider.next_handle_id
                &&& post.gkp_provider.sub_gk.next_handle_id == pre.gkp_provider.sub_gk.next_handle_id
                &&& post.gkp_provider.sub_passport.next_handle_id == pre.gkp_provider.sub_passport.next_handle_id
                &&& (pre.gkp_provider.combined_at(h) is None ==> post.gkp_provider == pre.gkp_provider)
                &&& (pre.gkp_provider.combined_at(h) is Some ==> post.gkp_provider.sessions@
                    == pre.gkp_provider.sessions@.remove(h.dw_lower))
            },
            AuthPackage::Ntlm => {
                &&& post.ntlm_provider.base == pre.ntlm_provider.base
                &&& post.ntlm_provider.next_handle_id == pre.ntlm_provider.next_handle_id
                &&& post.ntlm_provider.sessions@ == (if pre.ntlm_provider.has_session(h) {
                    pre.ntlm_provider.sessions@.remove(h.dw_lower)
                } else {
                    pre.ntlm_provider.sessions@
                })
            },
            AuthPackage::NtlmPassport => {
                &&& post.ntlm_passport_provider.base == pre.ntlm_passport_provider.base
                &&& post.ntlm_passport_provider.next_handle_id == pre.ntlm_passport_provider.next_handle_id
                &&& post.ntlm_passport_provider.sub_ntlm.next_handle_id
                    == pre.ntlm_passport_provider.sub_ntlm.next_handle_id
                &&& post.ntlm_passport_provider.sub_passport.next_handle_id
                    == pre.ntlm_passport_provider.sub_passport.next_handle_id
                &&& (pre.ntlm_passport_provider.combined_at(h) is None ==> post.ntlm_passport_provider
                    == pre.ntlm_passport_provider)
                &&& (pre.ntlm_passport_provider.combined_at(h) is Some ==> post.ntlm_passport_provider.sessions@
                    == pre.ntlm_passport_provider.sessions@.remove(h.dw_lower))
            },
        }
    }

    /// What ending a connection's login does: the provider deletes the context under
    /// way, if there is one with a package; the connection forgets both.
    pub open spec fn cleaned_up(pre: ServerAuth, session: AuthSession, post: ServerAuth) -> bool {
        match (session.active_context, session.active_package) {
            (Some(ctx), Some(pkg)) => Self::deleted(pre, post, pkg, ctx),
            _ => post == pre,
        }
    }
}

/// The name a GateKeeper ID is reported under.
pub open spec fn gk_id_name(id: Seq<u8>) -> Seq<char> {
    crate::dll::hex_upper(crate::dll::guid_display_order(id))
}

/// The Passport part of a chained login's name: the client information Passport
/// recorded, "PassportUser" where it recorded none, nothing before Passport started.
pub open spec fn passport_part(p: PassportSecurityProvider, slot1: Option<CtxtHandle>) -> Option<Seq<char>> {
    match slot1 {
        None => None,
        Some(h) => match p.session_at(h) {
            Some(s) => if s.client_info@.len() > 0 {
                Some(s.client_info@)
            } else {
                Some("PassportUser"@)
            },
            None => Some("PassportUser"@),
        },
    }
}

/// The name a finished login reports.
pub open spec fn username_of(a: ServerAuth, pkg: AuthPackage, h: CtxtHandle) -> Seq<char> {
    match pkg {
        AuthPackage::GateKeeper => (match a.gk_provider.session_at(h) {
            Some(s) => gk_id_name(s.gatekeeper_id@),
            None => "GateKeeperUser"@,
        }) + "@GateKeeper"@,
        AuthPackage::GateKeeperPassport => match a.gkp_provider.combined_at(h) {
            None => "GateKeeperPassportUser"@ + "@GateKeeperPassport"@,
            Some(c) => {
                let g = match c.slot0_context {
                    Some(g) => match a.gkp_provider.sub_gk.session_at(g) {
                        Some(s) => Some(gk_id_name(s.gatekeeper_id@)),
                        None => None,
                    },
                    None => None,
                };
                let p = passport_part(a.gkp_provider.sub_passport, c.slot1_context);
                (match (g, p) {
                    (Some(g), Some(p)) => g + "+"@ + p,
                    (Some(g), None) => g,
                    (None, Some(p)) => p,
                    (None, None) => "GateKeeperPassportUser"@,
                }) + "@GateKeeperPassport"@
            },
        },
        AuthPackage::Ntlm => if a.ntlm_provider.has_session(h) {
            let s = a.ntlm_provider.sessions@[h.dw_lower];
            let user = match s.authenticated_username {
                Some(u) => u@,
                None => "NtlmUser"@,
            };
            let domain = match s.authenticated_domain {
                Some(d) => d@,
                None => Seq::empty(),
            };
            user + "@"@ + (if domain.len() == 0 { "localhost"@ } else { domain })
        } else {
            "NtlmUser"@ + "@NTLM"@
        },
        AuthPackage::NtlmPassport => match a.ntlm_passport_provider.combined_at(h) {
            None => "NtlmUser+PassportUser"@ + "@NTLMPassport"@,
            Some(c) => {
                let s = match c.slot0_context {
                    Some(n) => if a.ntlm_passport_provider.sub_ntlm.has_session(n) {
                        Some(a.ntlm_passport_provider.sub_ntlm.sessions@[n.dw_lower])
                    } else {
                        None
                    },
                    None => None,
                };
                let user = match s {
                    Some(s) => match s.authenticated_username {
                        Some(u) => u@,
                        None => "NtlmUser"@,
                    },
                    None => "NtlmUser"@,
                };
                let domain = match s {
                    Some(s) => match s.authenticated_domain {
                        Some(d) => d@,
                        None => Seq::empty(),
                    },
                    None => Seq::empty(),
                };
                let p = passport_part(a.ntlm_passport_provider.sub_passport, c.slot1_context);
                (match p {
                    Some(p) => user + "+"@ + p,
                    None => user,
                }) + "@"@ + (if domain.len() == 0 { "localhost"@ } else { domain })
            },
        },
    }
}

impl ServerAuth {
    /// Fresh providers of the four packages, with credentials acquired from each.
    pub fn new() -> (r: Self)
        ensures
            r.wf(),
            r.gk_provider.sessions@.is_empty(),
            r.gkp_provider.sessions@.is_empty(),
            r.ntlm_provider.sessions@.is_empty(),
            r.ntlm_passport_provider.sessions@.is_empty(),
            r.gk_cred == r.gk_provider.base.creds,
            r.gkp_cred == r.gkp_provider.base.creds,
            r.ntlm_cred == r.ntlm_provider.base.creds,
            r.ntlm_passport_cred == r.ntlm_passport_provider.base.creds,
    {
        let gk_provider = GateKeeperSecurityProvider::new();
        let gkp_provider = GateKeeperPassportSecurityProvider::new();
        let ntlm_provider = NtlmSecurityProvider::new();
        let ntlm_passport_provider = NtlmPassportSecurityProvider::new();
        let mut gk_cred = CredHandle { dw_lower: 0, dw_upper: 0 };
        let _ = gk_provider.acquire_credentials_handle(None, "GateKeeper", 2, None, &mut gk_cred);
        let mut gkp_cred = CredHandle { dw_lower: 0, dw_upper: 0 };
        let _ = gkp_provider.acquire_credentials_handle(None, "GateKeeperPassport", 2, None, &mut gkp_cred);
        let mut ntlm_cred = CredHandle { dw_lower: 0, dw_upper: 0 };
        let _ = ntlm_provider.acquire_credentials_handle(None, "NTLM", 2, None, &mut ntlm_cred);
        let mut ntlm_passport_cred = CredHandle { dw_lower: 0, dw_upper: 0 };
        let _ = ntlm_passport_provider.acquire_credentials_handle(None, "NTLMPassport", 2, None,
            &mut ntlm_passport_cred);
        let r = ServerAuth {
            gk_provider,
            gkp_provider,
            ntlm_provider,
            ntlm_passport_provider,
            gk_cred,
            gkp_cred,
            ntlm_cred,
            ntlm_passport_cred,
        };
        proof {
            assert(r.gk_provider.sessions@ =~= Map::empty());
            assert(r.ntlm_provider.sessions@ =~= Map::empty());
            assert(r.ntlm_passport_provider.sessions@ =~= Map::empty());
        }
        r
    }

    /// Sets the operator accounts the NTLM and NTLMPassport providers authenticate
    /// clients against.
    pub fn set_accounts(&mut self, accounts: Vault)
        requires
            old(self).wf(),
            accounts.wf(),
        ensures
            final(self).wf(),
            final(self).ntlm_provider.accounts@ == accounts@,
            final(self).ntlm_passport_provider.sub_ntlm.accounts@ == accounts@,
            final(self).can_accept() == old(self).can_accept(),
            final(self).gk_provider == old(self).gk_provider,
            final(self).gkp_provider == old(self).gkp_provider,
            final(self).ntlm_provider.sessions@ == old(self).ntlm_provider.sessions@,
            final(self).ntlm_passport_provider.sessions@ == old(self).ntlm_passport_provider.sessions@,
            final(self).ntlm_passport_provider.sub_ntlm.sessions@ == old(self).ntlm_passport_provider.sub_ntlm.sessions@,
            final(self).gk_cred == old(self).gk_cred,
            final(self).gkp_cred == old(self).gkp_cred,
            final(self).ntlm_cred == old(self).ntlm_cred,
            final(self).ntlm_passport_cred == old(self).ntlm_passport_cred,
    {
        let copy = accounts.duplicate();
        self.ntlm_provider.set_accounts(accounts);
        self.ntlm_passport_provider.set_accounts(copy);
    }

    /// Whether every provider can still hand out a context handle.
    pub fn handles_left(&self) -> (r: bool)
        ensures
            r == self.can_accept(),
    {
        self.gk_provider.next_handle_id < usize::MAX && self.gkp_provider.next_handle_id < usize::MAX
            && self.gkp_provider.sub_gk.next_handle_id < usize::MAX
            && self.gkp_provider.sub_passport.next_handle_id < usize::MAX
            && self.ntlm_provider.next_handle_id < usize::MAX
            && self.ntlm_passport_provider.next_handle_id < usize::MAX
            && self.ntlm_passport_provider.sub_ntlm.next_handle_id < usize::MAX
            && self.ntlm_passport_provider.sub_passport.next_handle_id < usize::MAX
    }

    /// Runs the server step of the provider of `pkg`.
    fn accept_with(
        &mut self,
        pkg: AuthPackage,
        context: Option<&CtxtHandle>,
        input_buffers: &[SecBuffer],
        new_context: &mut CtxtHandle,
        output_buffers: &mut [SecBuffer],
    ) -> (r: Result<SspiError, SspiError>)
        requires
            old(self).wf(),
            old(self).can_accept(),
        ensures
            final(self).wf(),
            exists|w: StepWitness| #[trigger] Self::accepted(*old(self), *final(self), pkg,
                crate::gatekeeper_passport::context_of(context), input_buffers@, old(output_buffers)@,
                final(output_buffers)@, *old(new_context), *final(new_context), r, w),
    {
        let mut attr: u32 = 0;
        let ghost empty: Seq<SecBuffer> = Seq::empty();
        match pkg {
            AuthPackage::GateKeeper => {
                let cred = self.gk_cred;
                let r = self.gk_provider.accept_security_context(&cred, context, input_buffers, 0, 16,
                    new_context, output_buffers, &mut attr);
                proof {
                    let w: StepWitness = (*new_context, r, empty, None);
                    assert(Self::accepted(*old(self), *self, pkg, crate::gatekeeper_passport::context_of(context),
                        input_buffers@, old(output_buffers)@, output_buffers@, *old(new_context), *new_context, r, w));
                }
                r
            },
            AuthPackage::GateKeeperPassport => {
                let cred = self.gkp_cred;
                let r = self.gkp_provider.accept_security_context(&cred, context, input_buffers, 0, 16,
                    new_context, output_buffers, &mut attr);
                proof {
                    let w0 = choose|w0: (CtxtHandle, Result<SspiError, SspiError>, Seq<SecBuffer>)| #[trigger]
                        old(self).gkp_provider.server_step(self.gkp_provider,
                        crate::gatekeeper_passport::context_of(context), 16, input_buffers@, old(output_buffers)@,
                        output_buffers@, *old(new_context), *new_context, r, w0);
                    let w: StepWitness = (w0.0, w0.1, w0.2, None);
                    assert(Self::accepted(*old(self), *self, pkg, crate::gatekeeper_passport::context_of(context),
                        input_buffers@, old(output_buffers)@, output_buffers@, *old(new_context), *new_context, r, w));
                }
                r
            },
            AuthPackage::Ntlm => {
                let cred = self.ntlm_cred;
                let r = self.ntlm_provider.accept_security_context(&cred, context, input_buffers, 0, 16,
                    new_context, output_buffers, &mut attr);
                proof {
                    let nw = choose|nw: NtlmOutcome| #[trigger] old(self).ntlm_provider.server_step(
                        self.ntlm_provider, cred, crate::gatekeeper_passport::context_of(context),
                        input_buffers@, old(output_buffers)@, output_buffers@, *old(new_context), *new_context, r, nw);
                    let w: StepWitness = (*new_context, r, empty, nw);
                    assert(Self::accepted(*old(self), *self, pkg, crate::gatekeeper_passport::context_of(context),
                        input_buffers@, old(output_buffers)@, output_buffers@, *old(new_context), *new_context, r, w));
                }
                r
            },
            AuthPackage::NtlmPassport => {
                let cred = self.ntlm_passport_cred;
                let r = self.ntlm_passport_provider.accept_security_context(&cred, context, input_buffers, 0, 16,
                    new_context, output_buffers, &mut attr);
                proof {
                    let w = choose|w: StepWitness| #[trigger] old(self).ntlm_passport_provider.server_step(
                        self.ntlm_passport_provider, crate::gatekeeper_passport::context_of(context), 16,
                        input_buffers@, old(output_buffers)@, output_buffers@, *old(new_context), *new_context, r, w);
                    assert(Self::accepted(*old(self), *self, pkg, crate::gatekeeper_passport::context_of(context),
                        input_buffers@, old(output_buffers)@, output_buffers@, *old(new_context), *new_context, r, w));
                }
                r
            },
        }
    }

    /// Has the provider of `pkg` delete the context `h`.
    fn delete_with(&mut self, pkg: AuthPackage, h: &CtxtHandle)
        requires
            old(self).wf(),
        ensures
            final(self).wf(),
            Self::deleted(*old(self), *final(self), pkg, *h),
    {
        match pkg {
            AuthPackage::GateKeeper => {
                let _ = self.gk_provider.delete_security_context(h);
            },
            AuthPackage::GateKeeperPassport => {
                let _ = self.gkp_provider.delete_security_context(h);
            },
            AuthPackage::Ntlm => {
                let _ = self.ntlm_provider.delete_security_context(h);
            },
            AuthPackage::NtlmPassport => {
                let _ = self.ntlm_passport_provider.delete_security_context(h);
            },
        }
    }

    /// Ends a connection's login: the provider deletes the context under way and the
    /// connection forgets its package and context.
    pub fn cleanup_session(&mut self, session: &mut AuthSession)
        requires
            old(self).wf(),
        ensures
            final(self).wf(),
            Self::cleaned_up(*old(self), *old(session), *final(self)),
            *final(session) == (AuthSession { active_package: None, active_context: None }),
    {
        if let Some(ctx) = session.active_context {
            if let Some(pkg) = session.active_package {
                self.delete_with(pkg, &ctx);
            }
        }
        session.active_context = None;
        session.active_package = None;
    }
}

/// Everything a command's handling goes through: the providers after ending an earlier
/// login, after the step, the buffers handed over and back, the new context, the step's
/// result and the provider's outcome.
pub type AuthTrace = (ServerAuth, ServerAuth, Seq<SecBuffer>, Seq<SecBuffer>, Seq<SecBuffer>, CtxtHandle,
    Result<SspiError, SspiError>, StepWitness);

/// `r` is a continuing answer carrying `bytes`.
pub open spec fn continues_with(r: Result<AuthOutcome, SspiError>, bytes: Seq<u8>) -> bool {
    match r {
        Ok(AuthOutcome::Continue(v)) => v@ == bytes,
        _ => false,
    }
}

/// `r` reports a finished login under `name`.
pub open spec fn succeeds_with(r: Result<AuthOutcome, SspiError>, name: Seq<char>) -> bool {
    match r {
        Ok(AuthOutcome::Success(n)) => n@ == name,
        _ => false,
    }
}

/// No login under way.
pub open spec fn idle() -> AuthSession {
    AuthSession { active_package: None, active_context: None }
}

/// How an `AUTH` command is handled. Stage `I` ends any login under way and opens a new
/// one with the package's provider; stage `S` continues the login under way, which must
/// be of the same package. A step that asks to continue leaves the login open with the
/// new context; a step that completes reports the login's name and deletes its context;
/// a failing `S` step ends the login, a failing `I` step leaves the package noted and
/// no context.
pub open spec fn auth_step(
    pre: ServerAuth,
    sess: AuthSession,
    pkg: AuthPackage,
    stage: char,
    payload: Seq<u8>,
    post: ServerAuth,
    sess_post: AuthSession,
    r: Result<AuthOutcome, SspiError>,
    t: AuthTrace,
) -> bool {
    let tok = crate::wire::unescaped(payload);
    let (mid, acc, ins, outs, outs2, nc, res, w) = t;
    if stage == 'I' {
        &&& ServerAuth::cleaned_up(pre, sess, mid)
        &&& opening_inputs(pkg, tok, ins)
        &&& single_empty_token(outs)
        &&& ServerAuth::accepted(mid, acc, pkg, None, ins, outs, outs2, CtxtHandle { dw_lower: 0, dw_upper: 0 },
            nc, res, w)
        &&& match res {
            Ok(SspiError::ContinueNeeded) => {
                &&& post == acc
                &&& sess_post == (AuthSession { active_package: Some(pkg), active_context: Some(nc) })
                &&& continues_with(r, first_bytes(outs2))
            },
            Ok(SspiError::Success) => {
                &&& ServerAuth::deleted(acc, post, pkg, nc)
                &&& sess_post == idle()
                &&& succeeds_with(r, username_of(acc, pkg, nc))
            },
            Ok(other) => {
                &&& post == acc
                &&& sess_post == (AuthSession { active_package: Some(pkg), active_context: None })
                &&& r matches Err(e) && e == other
            },
            Err(e) => {
                &&& post == acc
                &&& sess_post == (AuthSession { active_package: Some(pkg), active_context: None })
                &&& r matches Err(e2) && e2 == e
            },
        }
    } else if stage == 'S' {
        if sess.active_context is Some && sess.active_package == Some(pkg) {
            let ctx = sess.active_context.unwrap();
            &&& continuing_inputs(tok, ins)
            &&& single_empty_token(outs)
            &&& ServerAuth::accepted(pre, acc, pkg, Some(ctx), ins, outs, outs2, ctx, nc, res, w)
            &&& match res {
                Ok(SspiError::ContinueNeeded) => {
                    &&& post == acc
                    &&& sess_post == (AuthSession { active_package: Some(pkg), active_context: Some(nc) })
                    &&& continues_with(r, first_bytes(outs2))
                },
                Ok(SspiError::Success) => {
                    &&& ServerAuth::deleted(acc, post, pkg, nc)
                    &&& sess_post == idle()
                    &&& succeeds_with(r, username_of(acc, pkg, nc))
                },
                Ok(other) => {
                    &&& ServerAuth::deleted(acc, post, pkg, ctx)
                    &&& sess_post == idle()
                    &&& r matches Err(e) && e == other
                },
                Err(e) => {
                    &&& ServerAuth::deleted(acc, post, pkg, ctx)
                    &&& sess_post == idle()
                    &&& r matches Err(e2) && e2 == e
                },
            }
        } else {
            &&& r matches Err(e) && e == SspiError::InvalidHandle
            &&& post == pre
            &&& sess_post == sess
        }
    } else {
        &&& r matches Err(e) && e == SspiError::NotSupported
        &&& post == pre
        &&& sess_post == sess
    }
}

impl ServerAuth {
    /// The Passport part of a chained login's name; see `passport_part`.
    fn passport_name(p: &PassportSecurityProvider, slot1: Option<CtxtHandle>) -> (r: Option<String>)
        ensures
            match passport_part(*p, slot1) {
                Some(x) => r is Some && r.unwrap()@ == x,
                None => r is None,
            },
    {
        match slot1 {
            None => None,
            Some(h) => match p.sessions.get(&h.dw_lower) {
                Some(s) => if s.h_context == h && s.client_info.unicode_len() > 0 {
                    Some(s.client_info.clone())
                } else {
                    Some(String::from_str("PassportUser"))
                },
                None => Some(String::from_str("PassportUser")),
            },
        }
    }

    /// The name a GateKeeper context reports, if the provider knows the context.
    fn gk_name(p: &GateKeeperSecurityProvider, h: CtxtHandle) -> (r: Option<String>)
        ensures
            match p.session_at(h) {
                Some(s) => r is Some && r.unwrap()@ == gk_id_name(s.gatekeeper_id@),
                None => r is None,
            },
    {
        match p.sessions.get(&h.dw_lower) {
            Some(s) => if s.h_context == h {
                Some(format_gatekeeper_id(&s.gatekeeper_id))
            } else {
                None
            },
            None => None,
        }
    }

    /// The user and domain an NTLM context authenticated, if the provider knows it.
    fn ntlm_names(p: &NtlmSecurityProvider, h: CtxtHandle) -> (r: (String, String))
        ensures
            p.has_session(h) ==> r.0@ == (match p.sessions@[h.dw_lower].authenticated_username {
                Some(u) => u@,
                None => "NtlmUser"@,
            }),
            p.has_session(h) ==> r.1@ == (match p.sessions@[h.dw_lower].authenticated_domain {
                Some(d) => d@,
                None => Seq::<char>::empty(),
            }),
            !p.has_session(h) ==> r.0@ == "NtlmUser"@ && r.1@ == Seq::<char>::empty(),
    {
        match p.sessions.get(&h.dw_lower) {
            Some(s) => if s.h_context == h {
                let u = match &s.authenticated_username {
                    Some(u) => u.clone(),
                    None => String::from_str("NtlmUser"),
                };
                let d = match &s.authenticated_domain {
                    Some(d) => d.clone(),
                    None => String::new(),
                };
                (u, d)
            } else {
                (String::from_str("NtlmUser"), String::new())
            },
            None => (String::from_str("NtlmUser"), String::new()),
        }
    }

    /// The name a finished login reports; see `username_of`.
    pub fn get_username(&self, pkg: AuthPackage, h: &CtxtHandle) -> (r: String)
        ensures
            r@ == username_of(*self, pkg, *h),
    {
        match pkg {
            AuthPackage::GateKeeper => {
                let mut base = match Self::gk_name(&self.gk_provider, *h) {
                    Some(n) => n,
                    None => String::from_str("GateKeeperUser"),
                };
                base.append("@GateKeeper");
                base
            },
            AuthPackage::GateKeeperPassport => {
                let c = match self.gkp_provider.sessions.get(&h.dw_lower) {
                    Some(c) => if c.h_context == *h {
                        *c
                    } else {
                        let mut n = String::from_str("GateKeeperPassportUser");
                        n.append("@GateKeeperPassport");
                        return n;
                    },
                    None => {
                        let mut n = String::from_str("GateKeeperPassportUser");
                        n.append("@GateKeeperPassport");
                        return n;
                    },
                };
                let g = match c.slot0_context {
                    Some(g) => Self::gk_name(&self.gkp_provider.sub_gk, g),
                    None => None,
                };
                let p = Self::passport_name(&self.gkp_provider.sub_passport, c.slot1_context);
                let mut base = match (g, p) {
                    (Some(g), Some(p)) => {
                        let mut x = g;
                        x.append("+");
                        x.append(p.as_str());
                        x
                    },
                    (Some(g), None) => g,
                    (None, Some(p)) => p,
                    (None, None) => String::from_str("GateKeeperPassportUser"),
                };
                base.append("@GateKeeperPassport");
                base
            },
            AuthPackage::Ntlm => {
                if self.ntlm_provider_has(*h) {
                    let (u, d) = Self::ntlm_names(&self.ntlm_provider, *h);
                    let mut n = u;
                    n.append("@");
                    if d.unicode_len() == 0 {
                        n.append("localhost");
                    } else {
                        n.append(d.as_str());
                    }
                    n
                } else {
                    let mut n = String::from_str("NtlmUser");
                    n.append("@NTLM");
                    n
                }
            },
            AuthPackage::NtlmPassport => {
                let c = match self.ntlm_passport_provider.sessions.get(&h.dw_lower) {
                    Some(c) => if c.h_context == *h {
                        *c
                    } else {
                        let mut n = String::from_str("NtlmUser+PassportUser");
                        n.append("@NTLMPassport");
                        return n;
                    },
                    None => {
                        let mut n = String::from_str("NtlmUser+PassportUser");
                        n.append("@NTLMPassport");
                        return n;
                    },
                };
                let (u, d) = match c.slot0_context {
                    Some(n) => Self::ntlm_names(&self.ntlm_passport_provider.sub_ntlm, n),
                    None => (String::from_str("NtlmUser"), String::new()),
                };
                let p = Self::passport_name(&self.ntlm_passport_provider.sub_passport, c.slot1_context);
                let mut n = match p {
                    Some(p) => {
                        let mut x = u;
                        x.append("+");
                        x.append(p.as_str());
                        x
                    },
                    None => u,
                };
                n.append("@");
                if d.unicode_len() == 0 {
                    n.append("localhost");
                } else {
                    n.append(d.as_str());
                }
                n
            },
        }
    }

    /// Whether the NTLM provider knows a context.
    fn ntlm_provider_has(&self, h: CtxtHandle) -> (r: bool)
        ensures
            r == self.ntlm_provider.has_session(h),
    {
        match self.ntlm_provider.sessions.get(&h.dw_lower) {
            Some(s) => s.h_context == h,
            None => false,
        }
    }
}

impl ServerAuth {
    /// Handles one `AUTH` command of a connection; see `auth_step`.
    pub fn process_auth(
        &mut self,
        session: &mut AuthSession,
        package: AuthPackage,
        stage: char,
        payload: &[u8],
    ) -> (r: Result<AuthOutcome, SspiError>)
        requires
            old(self).wf(),
            old(self).can_accept(),
        ensures
            final(self).wf(),
            exists|t: AuthTrace| #[trigger] auth_step(*old(self), *old(session), package, stage, payload@,
                *final(self), *final(session), r, t),
    {
        let tok = unescape(payload);
        if stage == 'I' {
            self.cleanup_session(session);
            let ghost mid = *self;
            session.active_package = Some(package);
            let mut new_context = CtxtHandle { dw_lower: 0, dw_upper: 0 };
            let input_buffers: Vec<SecBuffer> = if package == AuthPackage::GateKeeper
                || package == AuthPackage::GateKeeperPassport {
                let localhost: Vec<u8> = vec![108u8, 111, 99, 97, 108, 104, 111, 115, 116];
                let flag: Vec<u8> = vec![1u8];
                assert(localhost@ =~= seq![108u8, 111, 99, 97, 108, 104, 111, 115, 116]);
                assert(flag@ =~= seq![1u8]);
                vec![
                    SecBuffer { buffer_type: SecBufferType::Token, bytes: tok },
                    SecBuffer { buffer_type: SecBufferType::PkgParams, bytes: localhost },
                    SecBuffer { buffer_type: SecBufferType::PkgParams, bytes: flag },
                ]
            } else {
                vec![SecBuffer { buffer_type: SecBufferType::Token, bytes: tok }]
            };
            let mut output_buffers: Vec<SecBuffer> = vec![
                SecBuffer { buffer_type: SecBufferType::Token, bytes: Vec::new() },
            ];
            let ghost outs = output_buffers@;
            let ghost nc0 = new_context;
            let res = self.accept_with(package, None, input_buffers.as_slice(), &mut new_context,
                output_buffers.as_mut_slice());
            let ghost acc = *self;
            let ghost outs2 = output_buffers@;
            let ghost w = choose|w: StepWitness| #[trigger] Self::accepted(mid, acc, package,
                crate::gatekeeper_passport::context_of(None), input_buffers@, outs, outs2, nc0, new_context, res, w);
            let ghost t: AuthTrace = (mid, acc, input_buffers@, outs, outs2, new_context, res, w);
            proof {
                assert(opening_inputs(package, crate::wire::unescaped(payload@), input_buffers@));
            }
            match res {
                Ok(SspiError::ContinueNeeded) => {
                    session.active_context = Some(new_context);
                    let out = first_buffer_bytes(output_buffers.as_slice());
                    let r = Ok(AuthOutcome::Continue(out));
                    proof {
                        assert(auth_step(*old(self), *old(session), package, stage, payload@, *self, *session, r, t));
                    }
                    r
                },
                Ok(SspiError::Success) => {
                    let username = self.get_username(package, &new_context);
                    self.delete_with(package, &new_context);
                    session.active_package = None;
                    let r = Ok(AuthOutcome::Success(username));
                    proof {
                        assert(auth_step(*old(self), *old(session), package, stage, payload@, *self, *session, r, t));
                    }
                    r
                },
                Ok(other) => {
                    let r = Err(other);
                    proof {
                        assert(auth_step(*old(self), *old(session), package, stage, payload@, *self, *session, r, t));
                    }
                    r
                },
                Err(e) => {
                    let r = Err(e);
                    proof {
                        assert(auth_step(*old(self), *old(session), package, stage, payload@, *self, *session, r, t));
                    }
                    r
                },
            }
        } else if stage == 'S' {
            let ghost none_t: AuthTrace = (*self, *self, Seq::empty(), Seq::empty(), Seq::empty(),
                CtxtHandle { dw_lower: 0, dw_upper: 0 }, Err(SspiError::InvalidHandle),
                (CtxtHandle { dw_lower: 0, dw_upper: 0 }, Err(SspiError::InvalidHandle), Seq::empty(), None));
            let ctx = match session.active_context {
                Some(c) => c,
                None => {
                    let r = Err(SspiError::InvalidHandle);
                    proof {
                        assert(auth_step(*old(self), *old(session), package, stage, payload@, *self, *session, r,
                            none_t));
                    }
                    return r;
                },
            };
            let act = match session.active_package {
                Some(p) => p,
                None => {
                    let r = Err(SspiError::InvalidHandle);
                    proof {
                        assert(auth_step(*old(self), *old(session), package, stage, payload@, *self, *session, r,
                            none_t));
                    }
                    return r;
                },
            };
            if act != package {
                let r = Err(SspiError::InvalidHandle);
                proof {
                    assert(auth_step(*old(self), *old(session), package, stage, payload@, *self, *session, r,
                        none_t));
                }
                return r;
            }
            let input_buffers: Vec<SecBuffer> = vec![SecBuffer { buffer_type: SecBufferType::Token, bytes: tok }];
            let mut output_buffers: Vec<SecBuffer> = vec![
                SecBuffer { buffer_type: SecBufferType::Token, bytes: Vec::new() },
            ];
            let ghost outs = output_buffers@;
            let mut new_context = ctx;
            let res = self.accept_with(package, Some(&ctx), input_buffers.as_slice(), &mut new_context,
                output_buffers.as_mut_slice());
            let ghost acc = *self;
            let ghost outs2 = output_buffers@;
            let ghost w = choose|w: StepWitness| #[trigger] Self::accepted(*old(self), acc, package,
                crate::gatekeeper_passport::context_of(Some(&ctx)), input_buffers@, outs, outs2, ctx, new_context,
                res, w);
            let ghost t: AuthTrace = (*old(self), acc, input_buffers@, outs, outs2, new_context, res, w);
            match res {
                Ok(SspiError::ContinueNeeded) => {
                    session.active_context = Some(new_context);
                    let out = first_buffer_bytes(output_buffers.as_slice());
                    let r = Ok(AuthOutcome::Continue(out));
                    proof {
                        assert(auth_step(*old(self), *old(session), package, stage, payload@, *self, *session, r, t));
                    }
                    r
                },
                Ok(SspiError::Success) => {
                    let username = self.get_username(package, &new_context);
                    self.delete_with(package, &new_context);
                    session.active_context = None;
                    session.active_package = None;
                    let r = Ok(AuthOutcome::Success(username));
                    proof {
                        assert(auth_step(*old(self), *old(session), package, stage, payload@, *self, *session, r, t));
                    }
                    r
                },
                Ok(other) => {
                    self.cleanup_session(session);
                    let r = Err(other);
                    proof {
                        assert(auth_step(*old(self), *old(session), package, stage, payload@, *self, *session, r, t));
                    }
                    r
                },
                Err(e) => {
                    self.cleanup_session(session);
                    let r = Err(e);
                    proof {
                        assert(auth_step(*old(self), *old(session), package, stage, payload@, *self, *session, r, t));
                    }
                    r
                },
            }
        } else {
            let r = Err(SspiError::NotSupported);
            proof {
                let t: AuthTrace = (*self, *self, Seq::empty(), Seq::empty(), Seq::empty(),
                    CtxtHandle { dw_lower: 0, dw_upper: 0 }, Err(SspiError::NotSupported),
                    (CtxtHandle { dw_lower: 0, dw_upper: 0 }, Err(SspiError::NotSupported), Seq::empty(), None));
                assert(auth_step(*old(self), *old(session), package, stage, payload@, *self, *session, r, t));
            }
            r
        }
    }
}

/// A copy of the bytes of the first buffer, or nothing where there is none.
fn first_buffer_bytes(bufs: &[SecBuffer]) -> (r: Vec<u8>)
    ensures
        r@ == first_bytes(bufs@),
{
    if bufs.len() > 0 {
        let v = crate::bytes::copy_range(bufs[0].bytes.as_slice(), 0, bufs[0].bytes.len());
        assert(bufs@[0].bytes@.subrange(0, bufs@[0].bytes@.len() as int) =~= bufs@[0].bytes@);
        v
    } else {
        Vec::new()
    }
}

/// A chained GateKeeperPassport login that holds both a GateKeeper session (with ID
/// `id`) and a Passport session with client information `info` (not empty) reports both
/// identities: the ID in GUID order as uppercase hexadecimal, `+`, the Passport client
/// information, then `@GateKeeperPassport`.
pub proof fn lemma_chained_name_has_both(a: ServerAuth, h: CtxtHandle, g: CtxtHandle, p: CtxtHandle)
    requires
        a.gkp_provider.combined_at(h) matches Some(c) && c.slot0_context == Some(g) && c.slot1_context == Some(p),
        a.gkp_provider.sub_gk.session_at(g) is Some,
        a.gkp_provider.sub_passport.session_at(p) matches Some(ps) && ps.client_info@.len() > 0,
    ensures
        username_of(a, AuthPackage::GateKeeperPassport, h) == crate::dll::hex_upper(crate::dll::guid_display_order(
            a.gkp_provider.sub_gk.session_at(g).unwrap().gatekeeper_id@)) + seq!['+']
            + a.gkp_provider.sub_passport.session_at(p).unwrap().client_info@ + seq![
            '@', 'G', 'a', 't', 'e', 'K', 'e', 'e', 'p', 'e', 'r', 'P', 'a', 's', 's', 'p', 'o', 'r', 't'],
{
    reveal_strlit("+");
    reveal_strlit("@GateKeeperPassport");
    assert("+"@ =~= seq!['+']);
    assert("@GateKeeperPassport"@ =~= seq!['@', 'G', 'a', 't', 'e', 'K', 'e', 'e', 'p', 'e', 'r', 'P', 'a', 's', 's',
        'p', 'o', 'r', 't']);
}

} // verus!
