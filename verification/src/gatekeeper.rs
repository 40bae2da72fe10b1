//! GateKeeper security provider (GKSSP): the MSN Chat challenge-response handshake.
//!
//! Client step 1 sends `GKSSP\0\0\0 | version | 1`; the server answers
//! `GKSSP\0\0\0 | version | 2 | challenge(8)`; the client answers
//! `GKSSP\0\0\0 | version | 3 | HMAC-MD5(16) [| GateKeeper ID(16)]`, which the server checks.

use vstd::prelude::*;
use std::collections::HashMap;
use vstd::string::StringExecFns;

use crate::types::{SspiError, CredHandle, CtxtHandle, SecBufferType, SecBuffer, SecurityProvider};
use crate::default::DefaultSecurityProvider;
use crate::buffers::{BufferQuery, find_first, find_first_from, replace_bytes};
use crate::bytes::{read_le_u32, push_le_u32, push_all, copy_range, array16_from, array8_from, bytes_equal};
use crate::crypto::hmac_md5;
use crate::text::string_from_utf8_lossy;

verus! {

broadcast use vstd::std_specs::hash::group_hash_axioms;

// ---------------------------------------------------------------------------
// Wire format
// ---------------------------------------------------------------------------

/// The eight-byte token header `"GKSSP\0\0\0"`.
pub open spec fn gk_magic() -> Seq<u8> {
    seq![0x47u8, 0x4Bu8, 0x53u8, 0x53u8, 0x50u8, 0u8, 0u8, 0u8]
}

/// A token header: magic, version and step.
pub open spec fn gk_header(version: u32, step: u32) -> Seq<u8> {
    gk_magic() + crate::bytes::le_bytes(version) + crate::bytes::le_bytes(step)
}

/// The token starts with `"GKSSP\0"`.
pub open spec fn has_gk_magic(tok: Seq<u8>) -> bool {
    tok.len() >= 6 && tok.subrange(0, 6) == gk_magic().subrange(0, 6)
}

/// The version field of a token.
pub open spec fn token_version(tok: Seq<u8>) -> u32 {
    crate::bytes::le_u32_at(tok, 8)
}

/// The step field of a token.
pub open spec fn token_step(tok: Seq<u8>) -> u32 {
    crate::bytes::le_u32_at(tok, 12)
}

/// The shared key of the control: `"SRFMKSJANDRESKKC"`.
pub open spec fn gk_shared_key() -> Seq<u8> {
    seq![
        0x53u8, 0x52u8, 0x46u8, 0x4Du8, 0x4Bu8, 0x53u8, 0x4Au8, 0x41u8,
        0x4Eu8, 0x44u8, 0x52u8, 0x45u8, 0x53u8, 0x4Bu8, 0x4Bu8, 0x43u8,
    ]
}

/// The eight challenge bytes the server sends: byte `i` is `(i * 37 + 101) % 254 + 1`.
pub open spec fn server_challenge() -> Seq<u8> {
    Seq::new(8, |i: int| ((i * 37 + 101) % 254 + 1) as u8)
}

/// The hostname bytes that enter the HMAC: its UTF-8 encoding, cut to 15 bytes.
pub open spec fn host_prefix(host: Seq<char>) -> Seq<u8> {
    let b = vstd::utf8::encode_utf8(host);
    if b.len() > 15 {
        b.subrange(0, 15)
    } else {
        b
    }
}

/// The HMAC input: the challenge, followed by the hostname prefix from version 3 on.
pub open spec fn hmac_input(challenge: Seq<u8>, host: Seq<char>, version: u32) -> Seq<u8> {
    if version >= 3 {
        challenge + host_prefix(host)
    } else {
        challenge
    }
}

/// The HMAC-MD5 response that proves knowledge of `key` for a challenge and hostname.
pub open spec fn expected_tag(key: Seq<u8>, challenge: Seq<u8>, host: Seq<char>, version: u32) -> Seq<u8> {
    crate::crypto::hmac_md5_tag(key, hmac_input(challenge, host, version))
}

/// The client's step-3 token: header, HMAC, and (from version 2 on) the GateKeeper ID.
pub open spec fn client_response(version: u32, tag: Seq<u8>, id: Seq<u8>) -> Seq<u8> {
    if version == 1 {
        gk_header(version, 3) + tag
    } else {
        gk_header(version, 3) + tag + id
    }
}

/// The server's step-2 token for a version.
pub open spec fn server_token(version: u32) -> Seq<u8> {
    gk_header(version, 2) + server_challenge()
}

/// Whether a server accepts a protocol version.
pub open spec fn version_accepted(version: u32, allow_older: bool) -> bool {
    if allow_older {
        1 <= version <= 4
    } else {
        version >= 3
    }
}

/// The version a client announces: a 4-byte package parameter read little-endian, else 3.
pub open spec fn client_version(inputs: Seq<SecBuffer>) -> u32 {
    match crate::buffers::first_buffer(inputs, BufferQuery::GkVersion) {
        Some(b) => crate::bytes::le_u32_at(b.bytes@, 0),
        None => 3,
    }
}

/// The compatibility flag of a server: the second package parameter is non-empty and
/// its first byte is not zero.
pub open spec fn server_allow_older(inputs: Seq<SecBuffer>) -> bool {
    match crate::buffers::first_match(inputs, BufferQuery::OfType(SecBufferType::PkgParams)) {
        Some(i) => match crate::buffers::first_match_from(
            inputs,
            BufferQuery::OfType(SecBufferType::PkgParams),
            i + 1,
        ) {
            Some(j) => inputs[j].bytes@.len() > 0 && inputs[j].bytes@[0] != 0,
            None => false,
        },
        None => false,
    }
}

/// The hostname bytes a server takes: its first package parameter.
pub open spec fn server_host_bytes(inputs: Seq<SecBuffer>) -> Seq<u8> {
    crate::buffers::first_buffer(inputs, BufferQuery::OfType(SecBufferType::PkgParams)).unwrap().bytes@
}

/// A challenge token the client accepts in its second step.
pub open spec fn client_challenge_ok(tok: Seq<u8>) -> bool {
    &&& tok.len() == 24
    &&& has_gk_magic(tok)
    &&& 1 <= token_version(tok) <= 4
    &&& token_step(tok) == 2
}

/// An initialization token the server accepts in its first step.
pub open spec fn server_init_ok(tok: Seq<u8>, allow_older: bool) -> bool {
    &&& tok.len() >= 16
    &&& has_gk_magic(tok)
    &&& version_accepted(token_version(tok), allow_older)
    &&& token_step(tok) == 1
}

/// A response token whose form the server accepts in its second step.
pub open spec fn server_response_form_ok(tok: Seq<u8>, allow_older: bool) -> bool {
    &&& (tok.len() == 32 || tok.len() == 48)
    &&& has_gk_magic(tok)
    &&& version_accepted(token_version(tok), allow_older)
    &&& token_step(tok) == 3
    &&& (token_version(tok) == 1 ==> tok.len() == 32)
    &&& (token_version(tok) > 1 ==> tok.len() == 48)
}

/// The seed sequence of the legacy ID generator after `n` steps.
pub open spec fn lcg_state(seed: u64, n: nat) -> u64
    decreases n,
{
    if n == 0 {
        seed
    } else {
        let s = lcg_state(seed, (n - 1) as nat);
        vstd::wrapping::u64_specs::wrapping_add(
            vstd::wrapping::u64_specs::wrapping_mul(s, 6364136223846793005u64),
            1442695040888963407u64,
        )
    }
}

/// The 16-byte ID that the server gives a version-1 client: byte `i` is bits 32..40 of
/// the generator state after `i + 1` steps.
pub open spec fn legacy_id(seed: u64) -> Seq<u8> {
    Seq::new(16, |i: int| (lcg_state(seed, (i + 1) as nat) >> 32u64) as u8)
}

// ---------------------------------------------------------------------------
// Sessions
// ---------------------------------------------------------------------------

/// State flags of a GateKeeper session.
#[derive(Debug, Clone, Copy, PartialEq, Eq, Structural)]
pub struct GkStateFlags {
    pub is_validated_input: bool,
    pub is_init_output: bool,
    pub is_step2_ready: bool,
    pub is_step2_hmac_done: bool,
}

impl Default for GkStateFlags {
    fn default() -> (r: Self)
        ensures
            r == no_flags(),
    {
        GkStateFlags {
            is_validated_input: false,
            is_init_output: false,
            is_step2_ready: false,
            is_step2_hmac_done: false,
        }
    }
}

/// All flags cleared.
pub open spec fn no_flags() -> GkStateFlags {
    GkStateFlags {
        is_validated_input: false,
        is_init_output: false,
        is_step2_ready: false,
        is_step2_hmac_done: false,
    }
}

/// The details of one GateKeeper session.
pub struct GateKeeperSession {
    pub h_context: CtxtHandle,
    pub flags: GkStateFlags,
    pub challenge: [u8; 8],
    pub hostname: String,
    pub hmac_response: [u8; 16],
    pub gatekeeper_id: [u8; 16],
    /// Shared key of the control binary.
    pub gk_shared_key: [u8; 16],
    /// Whether the server accepts protocol versions 1 and 2.
    pub allow_older_versions: bool,
}

/// A session as `GateKeeperSession::new` makes it for handle `h`.
pub open spec fn is_new_session(s: GateKeeperSession, h: CtxtHandle) -> bool {
    &&& s.h_context == h
    &&& s.flags == no_flags()
    &&& s.challenge@ == Seq::new(8, |i: int| 0u8)
    &&& s.hostname@ == Seq::<char>::empty()
    &&& s.hmac_response@ == Seq::new(16, |i: int| 0u8)
    &&& s.gatekeeper_id@ == Seq::new(16, |i: int| 0u8)
    &&& s.gk_shared_key@ == gk_shared_key()
    &&& !s.allow_older_versions
}

impl GateKeeperSession {
    /// A fresh session for a handle, holding the control's shared key.
    pub fn new(h_context: CtxtHandle) -> (r: Self)
        ensures
            is_new_session(r, h_context),
    {
        let key: [u8; 16] = [
            0x53, 0x52, 0x46, 0x4D, 0x4B, 0x53, 0x4A, 0x41, 0x4E, 0x44, 0x52, 0x45, 0x53, 0x4B,
            0x4B, 0x43,
        ];
        let r = GateKeeperSession {
            h_context,
            flags: GkStateFlags::default(),
            challenge: [0, 0, 0, 0, 0, 0, 0, 0],
            hostname: String::new(),
            hmac_response: [0, 0, 0, 0, 0, 0, 0, 0, 0, 0, 0, 0, 0, 0, 0, 0],
            gatekeeper_id: [0, 0, 0, 0, 0, 0, 0, 0, 0, 0, 0, 0, 0, 0, 0, 0],
            gk_shared_key: key,
            allow_older_versions: false,
        };
        assert(r.challenge@ =~= Seq::new(8, |i: int| 0u8));
        assert(r.hmac_response@ =~= Seq::new(16, |i: int| 0u8));
        assert(r.gatekeeper_id@ =~= Seq::new(16, |i: int| 0u8));
        assert(r.gk_shared_key@ =~= gk_shared_key());
        r
    }
}

/// A session after the client's first step: new, with its ID, hostname and output flag.
pub open spec fn is_client_started(s: GateKeeperSession, h: CtxtHandle, id: Seq<u8>, host: Seq<u8>) -> bool {
    &&& s.h_context == h
    &&& s.flags == GkStateFlags { is_init_output: true, ..no_flags() }
    &&& s.challenge@ == Seq::new(8, |i: int| 0u8)
    &&& s.hostname@ == crate::text::lossy_utf8(host)
    &&& s.hmac_response@ == Seq::new(16, |i: int| 0u8)
    &&& s.gatekeeper_id@ == id
    &&& s.gk_shared_key@ == gk_shared_key()
    &&& !s.allow_older_versions
}

/// A session after the server's first step.
pub open spec fn is_server_started(s: GateKeeperSession, h: CtxtHandle, host: Seq<u8>, allow: bool) -> bool {
    &&& s.h_context == h
    &&& s.flags == GkStateFlags { is_validated_input: true, ..no_flags() }
    &&& s.challenge@ == server_challenge()
    &&& s.hostname@ == crate::text::lossy_utf8(host)
    &&& s.hmac_response@ == Seq::new(16, |i: int| 0u8)
    &&& s.gatekeeper_id@ == Seq::new(16, |i: int| 0u8)
    &&& s.gk_shared_key@ == gk_shared_key()
    &&& s.allow_older_versions == allow
}

/// The client's session `new` after its second step on session `old` with challenge `tok`.
pub open spec fn is_client_finished(old: GateKeeperSession, new: GateKeeperSession, tok: Seq<u8>) -> bool {
    &&& new.h_context == old.h_context
    &&& new.flags == GkStateFlags { is_step2_ready: true, is_step2_hmac_done: true, ..old.flags }
    &&& new.challenge@ == tok.subrange(16, 24)
    &&& new.hostname@ == old.hostname@
    &&& new.hmac_response@ == expected_tag(
        old.gk_shared_key@,
        tok.subrange(16, 24),
        old.hostname@,
        token_version(tok),
    )
    &&& new.gatekeeper_id@ == old.gatekeeper_id@
    &&& new.gk_shared_key@ == old.gk_shared_key@
    &&& new.allow_older_versions == old.allow_older_versions
}

/// The server's session `new` after accepting the response `tok` on session `old`.
pub open spec fn is_server_finished(old: GateKeeperSession, new: GateKeeperSession, tok: Seq<u8>) -> bool {
    &&& new.h_context == old.h_context
    &&& new.flags == GkStateFlags { is_step2_hmac_done: true, ..old.flags }
    &&& new.challenge@ == old.challenge@
    &&& new.hostname@ == old.hostname@
    &&& new.hmac_response@ == old.hmac_response@
    &&& (token_version(tok) != 1 ==> new.gatekeeper_id@ == tok.subrange(32, 48))
    &&& (token_version(tok) == 1 ==> exists|seed: u64| new.gatekeeper_id@ == legacy_id(seed))
    &&& new.gk_shared_key@ == old.gk_shared_key@
    &&& new.allow_older_versions == old.allow_older_versions
}

/// Whether the server's check of a response succeeds on a session.
pub open spec fn server_response_valid(s: GateKeeperSession, tok: Seq<u8>) -> bool {
    tok.subrange(16, 32) == expected_tag(
        s.gk_shared_key@,
        s.challenge@,
        s.hostname@,
        token_version(tok),
    )
}

/// `new` is `old` with the entry at `k` set or replaced, and nothing else changed.
pub open spec fn map_updated_at<V>(old: Map<usize, V>, new: Map<usize, V>, k: usize) -> bool {
    &&& new.dom() == old.dom().insert(k)
    &&& forall|j: usize| j != k && #[trigger] old.contains_key(j) ==> new[j] == old[j]
}

// ---------------------------------------------------------------------------
// Token helpers
// ---------------------------------------------------------------------------

/// Whether the token starts with `"GKSSP\0"`.
pub fn check_gk_magic(tok: &[u8]) -> (r: bool)
    ensures
        r == has_gk_magic(tok@),
{
    if tok.len() < 6 {
        return false;
    }
    let r = tok[0] == 0x47 && tok[1] == 0x4B && tok[2] == 0x53 && tok[3] == 0x53 && tok[4]
        == 0x50 && tok[5] == 0;
    proof {
        if r {
            assert(tok@.subrange(0, 6) =~= gk_magic().subrange(0, 6));
        } else {
            if tok@.subrange(0, 6) == gk_magic().subrange(0, 6) {
                assert(tok@[0] == tok@.subrange(0, 6)[0]);
                assert(tok@[1] == tok@.subrange(0, 6)[1]);
                assert(tok@[2] == tok@.subrange(0, 6)[2]);
                assert(tok@[3] == tok@.subrange(0, 6)[3]);
                assert(tok@[4] == tok@.subrange(0, 6)[4]);
                assert(tok@[5] == tok@.subrange(0, 6)[5]);
            }
        }
    }
    r
}

/// Builds a token header.
pub fn header_bytes(version: u32, step: u32) -> (r: Vec<u8>)
    ensures
        r@ == gk_header(version, step),
{
    let mut v: Vec<u8> = Vec::new();
    v.push(0x47);
    v.push(0x4B);
    v.push(0x53);
    v.push(0x53);
    v.push(0x50);
    v.push(0);
    v.push(0);
    v.push(0);
    assert(v@ =~= gk_magic());
    push_le_u32(&mut v, version);
    push_le_u32(&mut v, step);
    v
}

/// The eight challenge bytes a server issues.
pub fn make_server_challenge() -> (r: [u8; 8])
    ensures
        r@ == server_challenge(),
{
    let mut c = [0u8; 8];
    let mut i: usize = 0;
    while i < 8
        invariant
            i <= 8,
            forall|j: int| 0 <= j < i ==> c@[j] == ((j * 37 + 101) % 254 + 1) as u8,
        decreases 8 - i,
    {
        c[i] = ((i * 37 + 101) % 254 + 1) as u8;
        i = i + 1;
    }
    assert(c@ =~= server_challenge());
    c
}

/// The HMAC input for a challenge, a hostname and a version.
pub fn build_hmac_input(challenge: &[u8; 8], host: &String, version: u32) -> (r: Vec<u8>)
    ensures
        r@ == hmac_input(challenge@, host@, version),
{
    let mut payload: Vec<u8> = Vec::new();
    push_all(&mut payload, challenge.as_slice());
    if version >= 3 {
        let hb = host.as_str().as_bytes();
        let n = if hb.len() > 15 {
            15
        } else {
            hb.len()
        };
        let prefix = copy_range(hb, 0, n);
        push_all(&mut payload, prefix.as_slice());
        proof {
            if hb@.len() <= 15 {
                assert(hb@.subrange(0, n as int) =~= hb@);
            }
        }
    }
    payload
}

/// Computes the 16-byte ID given to a version-1 client from a seed.
pub fn legacy_gatekeeper_id(seed: u64) -> (r: [u8; 16])
    ensures
        r@ == legacy_id(seed),
{
    let mut s = seed;
    let mut id = [0u8; 16];
    let mut i: usize = 0;
    while i < 16
        invariant
            i <= 16,
            s == lcg_state(seed, i as nat),
            forall|j: int| 0 <= j < i ==> id@[j] == (lcg_state(seed, (j + 1) as nat) >> 32u64) as u8,
        decreases 16 - i,
    {
        s = s.wrapping_mul(6364136223846793005).wrapping_add(1442695040888963407);
        id[i] = (s >> 32) as u8;
        i = i + 1;
    }
    assert(id@ =~= legacy_id(seed));
    id
}

/// Nanoseconds since the Unix epoch on the system clock, if the clock is past it.
///
/// Trusted: reads `std::time::SystemTime::now()`; nothing is stated of the value, which
/// depends on the clock.
#[verifier::external_body]
fn clock_nanos() -> (r: Option<u128>) {
    std::time::SystemTime::now().duration_since(std::time::UNIX_EPOCH).ok().map(|d| d.as_nanos())
}

/// The seed of the legacy ID generator for a clock reading (42 without one).
pub fn legacy_seed(nanos: Option<u128>) -> (r: u64)
    ensures
        r == (match nanos {
            Some(n) => n as u64,
            None => 42u64,
        }),
{
    match nanos {
        Some(n) => n as u64,
        None => 42,
    }
}

// ---------------------------------------------------------------------------
// The provider
// ---------------------------------------------------------------------------

/// GateKeeper security provider: client and server sides of the GKSSP handshake.
pub struct GateKeeperSecurityProvider {
    pub base: DefaultSecurityProvider,
    /// Active sessions, keyed by the lower word of their context handle.
    pub sessions: HashMap<usize, GateKeeperSession>,
    /// The lower word of the next context handle to hand out.
    pub next_handle_id: usize,
}

impl GateKeeperSecurityProvider {
    /// How a client-side call changes the provider, its output buffers and the new-context
    /// handle, and what it returns (`self` before the call, `post` after it).
    #[verifier::opaque]
    pub open spec fn client_step(
        self,
        post: Self,
        credential: CredHandle,
        context: Option<CtxtHandle>,
        has_target: bool,
        target_data_rep: u32,
        inputs: Seq<SecBuffer>,
        outs_pre: Seq<SecBuffer>,
        outs_post: Seq<SecBuffer>,
        ctx_pre: CtxtHandle,
        ctx_post: CtxtHandle,
        r: Result<SspiError, SspiError>,
    ) -> bool {
        &&& post.base == self.base
        &&& {
            let refusal = self.client_refusal(
                credential,
                context,
                has_target,
                target_data_rep,
                inputs,
                outs_pre,
            );
            let out_i = crate::buffers::first_match(outs_pre, BufferQuery::OfType(SecBufferType::Token)).unwrap();
            match refusal {
                Some(e) => {
                    &&& r == Err::<SspiError, SspiError>(e)
                    &&& post == self
                    &&& ctx_post == ctx_pre
                    &&& outs_post == outs_pre
                },
                None => match context {
                    None => {
                        let ctx = CtxtHandle { dw_lower: self.next_handle_id, dw_upper: 0x1000 };
                        &&& r == Ok::<SspiError, SspiError>(SspiError::ContinueNeeded)
                        &&& ctx_post == ctx
                        &&& post.next_handle_id == self.next_handle_id + 1
                        &&& map_updated_at(self.sessions@, post.sessions@, ctx.dw_lower)
                        &&& is_client_started(
                            post.sessions@[ctx.dw_lower],
                            ctx,
                            crate::buffers::first_buffer(inputs, BufferQuery::GkId).unwrap().bytes@,
                            crate::buffers::first_buffer(inputs, BufferQuery::GkHost).unwrap().bytes@,
                        )
                        &&& crate::buffers::bytes_replaced(
                            outs_pre,
                            outs_post,
                            out_i,
                            gk_header(client_version(inputs), 1),
                        )
                    },
                    Some(h) => {
                        let s = self.session_at(h).unwrap();
                        let tok = crate::buffers::first_buffer(inputs, BufferQuery::OfType(SecBufferType::Token)).unwrap().bytes@;
                        let v = token_version(tok);
                        &&& r == Ok::<SspiError, SspiError>(SspiError::Success)
                        &&& ctx_post == ctx_pre
                        &&& post.next_handle_id == self.next_handle_id
                        &&& map_updated_at(self.sessions@, post.sessions@, h.dw_lower)
                        &&& is_client_finished(s, post.sessions@[h.dw_lower], tok)
                        &&& crate::buffers::bytes_replaced(
                            outs_pre,
                            outs_post,
                            out_i,
                            client_response(
                                v,
                                expected_tag(s.gk_shared_key@, tok.subrange(16, 24), s.hostname@, v),
                                s.gatekeeper_id@,
                            ),
                        )
                    },
                },
            }
        }
    }

    /// How a server-side call changes the provider, its output buffers and the new-context
    /// handle, and what it returns (`self` before the call, `post` after it).
    #[verifier::opaque]
    pub open spec fn server_step(
        self,
        post: Self,
        credential: CredHandle,
        context: Option<CtxtHandle>,
        target_data_rep: u32,
        inputs: Seq<SecBuffer>,
        outs_pre: Seq<SecBuffer>,
        outs_post: Seq<SecBuffer>,
        ctx_pre: CtxtHandle,
        ctx_post: CtxtHandle,
        r: Result<SspiError, SspiError>,
    ) -> bool {
        &&& post.base == self.base
        &&& {
            let refusal = self.server_refusal(
                credential,
                context,
                target_data_rep,
                inputs,
                outs_pre,
            );
            let out_i = crate::buffers::first_match(outs_pre, BufferQuery::OfType(SecBufferType::Token)).unwrap();
            let tok = crate::buffers::first_buffer(inputs, BufferQuery::OfType(SecBufferType::Token)).unwrap().bytes@;
            match refusal {
                Some(e) => {
                    &&& r == Err::<SspiError, SspiError>(e)
                    &&& post == self
                    &&& ctx_post == ctx_pre
                    &&& outs_post == outs_pre
                },
                None => match context {
                    None => {
                        let ctx = CtxtHandle { dw_lower: self.next_handle_id, dw_upper: 0x2000 };
                        &&& r == Ok::<SspiError, SspiError>(SspiError::ContinueNeeded)
                        &&& ctx_post == ctx
                        &&& post.next_handle_id == self.next_handle_id + 1
                        &&& map_updated_at(self.sessions@, post.sessions@, ctx.dw_lower)
                        &&& is_server_started(
                            post.sessions@[ctx.dw_lower],
                            ctx,
                            server_host_bytes(inputs),
                            server_allow_older(inputs),
                        )
                        &&& crate::buffers::bytes_replaced(
                            outs_pre,
                            outs_post,
                            out_i,
                            server_token(token_version(tok)),
                        )
                    },
                    Some(h) => {
                        &&& r == Ok::<SspiError, SspiError>(SspiError::Success)
                        &&& ctx_post == ctx_pre
                        &&& post.next_handle_id == self.next_handle_id
                        &&& map_updated_at(self.sessions@, post.sessions@, h.dw_lower)
                        &&& is_server_finished(
                            self.session_at(h).unwrap(),
                            post.sessions@[h.dw_lower],
                            tok,
                        )
                        &&& outs_post == outs_pre
                    },
                },
            }
        }
    }

    /// The session that a context handle names, if any.
    pub open spec fn session_at(&self, h: CtxtHandle) -> Option<GateKeeperSession> {
        if self.sessions@.contains_key(h.dw_lower) && self.sessions@[h.dw_lower].h_context == h {
            Some(self.sessions@[h.dw_lower])
        } else {
            None
        }
    }

    /// The refusal, if any, of a client-side call.
    pub open spec fn client_refusal(
        &self,
        credential: CredHandle,
        context: Option<CtxtHandle>,
        has_target: bool,
        target_data_rep: u32,
        inputs: Seq<SecBuffer>,
        outputs: Seq<SecBuffer>,
    ) -> Option<SspiError> {
        if credential.dw_lower != self.base.creds.dw_lower {
            Some(SspiError::UnknownCredentials)
        } else if has_target {
            Some(SspiError::TargetUnknown)
        } else if target_data_rep != 16 {
            Some(SspiError::NotSupported)
        } else if crate::buffers::first_match(outputs, BufferQuery::OfType(SecBufferType::Token)) is None {
            Some(SspiError::InvalidToken)
        } else {
            match context {
                None => if crate::buffers::first_match(inputs, BufferQuery::GkId) is None || crate::buffers::first_match(
                    inputs,
                    BufferQuery::GkHost,
                ) is None {
                    Some(SspiError::InvalidToken)
                } else {
                    None
                },
                Some(h) => if self.session_at(h) is None {
                    Some(SspiError::InvalidHandle)
                } else {
                    match crate::buffers::first_buffer(inputs, BufferQuery::OfType(SecBufferType::Token)) {
                        None => Some(SspiError::InvalidToken),
                        Some(t) => if client_challenge_ok(t.bytes@) {
                            None
                        } else {
                            Some(SspiError::InvalidToken)
                        },
                    }
                },
            }
        }
    }

    /// The refusal, if any, of a server-side call.
    pub open spec fn server_refusal(
        &self,
        credential: CredHandle,
        context: Option<CtxtHandle>,
        target_data_rep: u32,
        inputs: Seq<SecBuffer>,
        outputs: Seq<SecBuffer>,
    ) -> Option<SspiError> {
        if credential.dw_lower != self.base.creds.dw_lower {
            Some(SspiError::UnknownCredentials)
        } else if target_data_rep != 16 {
            Some(SspiError::NotSupported)
        } else if crate::buffers::first_match(inputs, BufferQuery::OfType(SecBufferType::Token)) is None {
            Some(SspiError::InvalidToken)
        } else {
            let tok = crate::buffers::first_buffer(inputs, BufferQuery::OfType(SecBufferType::Token)).unwrap().bytes@;
            match context {
                None => if crate::buffers::first_match(outputs, BufferQuery::OfType(SecBufferType::Token)) is None {
                    Some(SspiError::InvalidToken)
                } else if !(tok.len() >= 16 && has_gk_magic(tok)) {
                    Some(SspiError::InvalidToken)
                } else if crate::buffers::first_match(inputs, BufferQuery::OfType(SecBufferType::PkgParams)) is None {
                    Some(SspiError::InvalidToken)
                } else if !server_init_ok(tok, server_allow_older(inputs)) {
                    Some(SspiError::InvalidToken)
                } else {
                    None
                },
                Some(h) => match self.session_at(h) {
                    None => Some(SspiError::InvalidHandle),
                    Some(s) => if !server_response_form_ok(tok, s.allow_older_versions) {
                        Some(SspiError::InvalidToken)
                    } else if !server_response_valid(s, tok) {
                        Some(SspiError::LogonDenied)
                    } else {
                        None
                    },
                },
            }
        }
    }

    /// A GateKeeper provider named "GateKeeper" with credentials (0x3001, 0x8888).
    pub fn new() -> (r: Self)
        ensures
            r.base.name@ == "GateKeeper"@,
            r.base.creds == (CredHandle { dw_lower: 0x3001, dw_upper: 0x8888 }),
            r.sessions@ == Map::<usize, GateKeeperSession>::empty(),
            r.next_handle_id == 1,
    {
        GateKeeperSecurityProvider {
            base: DefaultSecurityProvider {
                name: String::from_str("GateKeeper"),
                creds: CredHandle { dw_lower: 0x3001, dw_upper: 0x8888 },
            },
            sessions: HashMap::new(),
            next_handle_id: 1,
        }
    }
}

impl Default for GateKeeperSecurityProvider {
    fn default() -> (r: Self)
        ensures
            r.base.name@ == "GateKeeper"@,
            r.base.creds == (CredHandle { dw_lower: 0x3001, dw_upper: 0x8888 }),
            r.sessions@ == Map::<usize, GateKeeperSession>::empty(),
            r.next_handle_id == 1,
    {
        Self::new()
    }
}

impl SecurityProvider for GateKeeperSecurityProvider {
    /// Every session is stored under the lower word of its handle, below the next handle,
    /// and holds the control's shared key.
    open spec fn inv(&self) -> bool {
        forall|k: usize| #[trigger] self.sessions@.contains_key(k) ==> {
            &&& self.sessions@[k].h_context.dw_lower == k
            &&& (self.sessions@[k].h_context.dw_upper == 0x1000 || self.sessions@[k].h_context.dw_upper == 0x2000)
            &&& k < self.next_handle_id
            &&& self.sessions@[k].gk_shared_key@ == gk_shared_key()
        }
    }

    open spec fn can_allocate(&self) -> bool {
        self.next_handle_id < usize::MAX
    }

    fn name(&self) -> (r: &str)
        ensures
            r@ == self.base.name@,
    {
        self.base.name()
    }

    fn initialize(&self) -> (r: Result<(), SspiError>)
        ensures
            r is Ok,
    {
        self.base.initialize()
    }

    fn shutdown(&self) -> (r: Result<(), SspiError>)
        ensures
            r is Ok,
    {
        self.base.shutdown()
    }

    fn acquire_credentials_handle(
        &self,
        principal: Option<&str>,
        package: &str,
        cred_use: u32,
        auth_data: Option<&[u8]>,
        handle: &mut CredHandle,
    ) -> (r: Result<(), SspiError>)
        ensures
            r is Ok,
            *final(handle) == self.base.creds,
    {
        self.base.acquire_credentials_handle(principal, package, cred_use, auth_data, handle)
    }

    fn free_credentials_handle(&self, handle: &CredHandle) -> (r: Result<(), SspiError>)
        ensures
            r is Ok,
    {
        self.base.free_credentials_handle(handle)
    }

    /// Client side. Without a context: opens a session from the GateKeeper ID and hostname
    /// parameters and emits the step-1 token. With one: answers the server's challenge
    /// with the HMAC-MD5 response.
    fn initialize_security_context(
        &mut self,
        credential: &CredHandle,
        context: Option<&CtxtHandle>,
        target_name: Option<&str>,
        context_req: u32,
        target_data_rep: u32,
        input_buffers: &[SecBuffer],
        new_context: &mut CtxtHandle,
        output_buffers: &mut [SecBuffer],
        context_attr: &mut u32,
    ) -> (r: Result<SspiError, SspiError>)
        ensures
            *final(context_attr) == *old(context_attr),
            old(self).client_step(
                *final(self),
                *credential,
                match context { Some(c) => Some(*c), None => None },
                target_name is Some,
                target_data_rep,
                input_buffers@,
                old(output_buffers)@,
                final(output_buffers)@,
                *old(new_context),
                *final(new_context),
                r,
            ),
    {
        proof {
            reveal(GateKeeperSecurityProvider::client_step);
        }
        if credential.dw_lower != self.base.creds.dw_lower {
            return Err(SspiError::UnknownCredentials);
        }
        if target_name.is_some() {
            return Err(SspiError::TargetUnknown);
        }
        if target_data_rep != 16 {
            return Err(SspiError::NotSupported);
        }
        let out_i = match find_first(output_buffers, BufferQuery::OfType(SecBufferType::Token)) {
            Some(i) => i,
            None => return Err(SspiError::InvalidToken),
        };
        match context {
            None => {
                let id_i = match find_first(input_buffers, BufferQuery::GkId) {
                    Some(i) => i,
                    None => return Err(SspiError::InvalidToken),
                };
                let host_i = match find_first(input_buffers, BufferQuery::GkHost) {
                    Some(i) => i,
                    None => return Err(SspiError::InvalidToken),
                };
                let client_version = match find_first(input_buffers, BufferQuery::GkVersion) {
                    Some(i) => read_le_u32(input_buffers[i].bytes.as_slice(), 0),
                    None => 3,
                };
                let id = self.next_handle_id;
                let ctxt = CtxtHandle { dw_lower: id, dw_upper: 0x1000 };
                self.next_handle_id = id + 1;
                *new_context = ctxt;

                let mut session = GateKeeperSession::new(ctxt);
                session.gatekeeper_id = array16_from(input_buffers[id_i].bytes.as_slice(), 0);
                session.hostname = string_from_utf8_lossy(input_buffers[host_i].bytes.as_slice());
                session.flags.is_init_output = true;

                let token = header_bytes(client_version, 1);
                replace_bytes(output_buffers, out_i, token);
                self.sessions.insert(id, session);
                proof {
                    assert(input_buffers@[id_i as int].bytes@.subrange(0, 16) =~= input_buffers@[id_i as int].bytes@);
                    assert(final(self).sessions@.dom() =~= old(self).sessions@.dom().insert(id));
                }
                Ok(SspiError::ContinueNeeded)
            },
            Some(ctxt) => {
                let key = ctxt.dw_lower;
                let current = match self.sessions.get(&key) {
                    Some(s) => if s.h_context.dw_upper == ctxt.dw_upper {
                        s
                    } else {
                        return Err(SspiError::InvalidHandle);
                    },
                    None => return Err(SspiError::InvalidHandle),
                };
                let tok_i = match find_first(input_buffers, BufferQuery::OfType(SecBufferType::Token)) {
                    Some(i) => i,
                    None => return Err(SspiError::InvalidToken),
                };
                let tok = input_buffers[tok_i].bytes.as_slice();
                if tok.len() != 24 || !check_gk_magic(tok) {
                    return Err(SspiError::InvalidToken);
                }
                let version = read_le_u32(tok, 8);
                let step = read_le_u32(tok, 12);
                if (version < 1 || version > 4) || step != 2 {
                    return Err(SspiError::InvalidToken);
                }
                let challenge = array8_from(tok, 16);
                let payload = build_hmac_input(&challenge, &current.hostname, version);
                let tag = match hmac_md5(current.gk_shared_key.as_slice(), payload.as_slice()) {
                    Some(t) => t,
                    None => return Err(SspiError::InvalidToken),
                };
                let mut session = self.sessions.remove(&key).unwrap();
                session.challenge = challenge;
                session.flags.is_step2_ready = true;
                session.hmac_response = tag;
                session.flags.is_step2_hmac_done = true;

                let mut response = header_bytes(version, 3);
                push_all(&mut response, session.hmac_response.as_slice());
                if version != 1 {
                    push_all(&mut response, session.gatekeeper_id.as_slice());
                }
                replace_bytes(output_buffers, out_i, response);
                self.sessions.insert(key, session);
                proof {
                    assert(final(self).sessions@.dom() =~= old(self).sessions@.dom().insert(key));
                }
                Ok(SspiError::Success)
            },
        }
    }

    /// Server side. Without a context: checks the client's step-1 token and the hostname
    /// parameter, opens a session and emits the challenge. With one: checks the client's
    /// HMAC response and records the client's GateKeeper ID.
    fn accept_security_context(
        &mut self,
        credential: &CredHandle,
        context: Option<&CtxtHandle>,
        input_buffers: &[SecBuffer],
        context_req: u32,
        target_data_rep: u32,
        new_context: &mut CtxtHandle,
        output_buffers: &mut [SecBuffer],
        context_attr: &mut u32,
    ) -> (r: Result<SspiError, SspiError>)
        ensures
            *final(context_attr) == *old(context_attr),
            old(self).server_step(
                *final(self),
                *credential,
                match context { Some(c) => Some(*c), None => None },
                target_data_rep,
                input_buffers@,
                old(output_buffers)@,
                final(output_buffers)@,
                *old(new_context),
                *final(new_context),
                r,
            ),
    {
        proof {
            reveal(GateKeeperSecurityProvider::server_step);
        }
        if credential.dw_lower != self.base.creds.dw_lower {
            return Err(SspiError::UnknownCredentials);
        }
        if target_data_rep != 16 {
            return Err(SspiError::NotSupported);
        }
        let tok_i = match find_first(input_buffers, BufferQuery::OfType(SecBufferType::Token)) {
            Some(i) => i,
            None => return Err(SspiError::InvalidToken),
        };
        let tok = input_buffers[tok_i].bytes.as_slice();
        match context {
            None => {
                let out_i = match find_first(output_buffers, BufferQuery::OfType(SecBufferType::Token)) {
                    Some(i) => i,
                    None => return Err(SspiError::InvalidToken),
                };
                if tok.len() < 16 || !check_gk_magic(tok) {
                    return Err(SspiError::InvalidToken);
                }
                let version = read_le_u32(tok, 8);
                let step = read_le_u32(tok, 12);
                let host_i = match find_first(input_buffers, BufferQuery::OfType(SecBufferType::PkgParams)) {
                    Some(i) => i,
                    None => return Err(SspiError::InvalidToken),
                };
                let allow_older_versions = match find_first_from(
                    input_buffers,
                    BufferQuery::OfType(SecBufferType::PkgParams),
                    host_i + 1,
                ) {
                    Some(j) => input_buffers[j].bytes.len() > 0 && input_buffers[j].bytes[0] != 0,
                    None => false,
                };
                let is_version_ok = if allow_older_versions {
                    version >= 1 && version <= 4
                } else {
                    version >= 3
                };
                if !is_version_ok || step != 1 {
                    return Err(SspiError::InvalidToken);
                }
                let id = self.next_handle_id;
                let ctxt = CtxtHandle { dw_lower: id, dw_upper: 0x2000 };
                self.next_handle_id = id + 1;
                *new_context = ctxt;

                let mut session = GateKeeperSession::new(ctxt);
                session.hostname = string_from_utf8_lossy(input_buffers[host_i].bytes.as_slice());
                session.allow_older_versions = allow_older_versions;
                session.flags.is_validated_input = true;
                session.challenge = make_server_challenge();

                let mut server_tok = header_bytes(version, 2);
                push_all(&mut server_tok, session.challenge.as_slice());
                replace_bytes(output_buffers, out_i, server_tok);
                self.sessions.insert(id, session);
                proof {
                    assert(final(self).sessions@.dom() =~= old(self).sessions@.dom().insert(id));
                }
                Ok(SspiError::ContinueNeeded)
            },
            Some(ctxt) => {
                let key = ctxt.dw_lower;
                let current = match self.sessions.get(&key) {
                    Some(s) => if s.h_context.dw_upper == ctxt.dw_upper {
                        s
                    } else {
                        return Err(SspiError::InvalidHandle);
                    },
                    None => return Err(SspiError::InvalidHandle),
                };
                let token_len = tok.len();
                if (token_len != 32 && token_len != 48) || !check_gk_magic(tok) {
                    return Err(SspiError::InvalidToken);
                }
                let version = read_le_u32(tok, 8);
                let step = read_le_u32(tok, 12);
                let is_version_ok = if current.allow_older_versions {
                    version >= 1 && version <= 4
                } else {
                    version >= 3
                };
                if !is_version_ok || step != 3 {
                    return Err(SspiError::InvalidToken);
                }
                if version == 1 && token_len != 32 {
                    return Err(SspiError::InvalidToken);
                }
                if version > 1 && token_len != 48 {
                    return Err(SspiError::InvalidToken);
                }
                let payload = build_hmac_input(&current.challenge, &current.hostname, version);
                let expected = match hmac_md5(current.gk_shared_key.as_slice(), payload.as_slice()) {
                    Some(t) => t,
                    None => return Err(SspiError::InvalidToken),
                };
                let client_hmac = copy_range(tok, 16, 32);
                if !bytes_equal(client_hmac.as_slice(), expected.as_slice()) {
                    return Err(SspiError::LogonDenied);
                }
                let mut session = self.sessions.remove(&key).unwrap();
                if version == 1 {
                    let seed = legacy_seed(clock_nanos());
                    session.gatekeeper_id = legacy_gatekeeper_id(seed);
                } else {
                    session.gatekeeper_id = array16_from(tok, 32);
                }
                session.flags.is_step2_hmac_done = true;
                self.sessions.insert(key, session);
                proof {
                    assert(final(self).sessions@.dom() =~= old(self).sessions@.dom().insert(key));
                }
                Ok(SspiError::Success)
            },
        }
    }

    /// Removes the session of a context, if there is one.
    fn delete_security_context(&mut self, context: &CtxtHandle) -> (r: Result<(), SspiError>)
        ensures
            r is Ok,
            final(self).base == old(self).base,
            final(self).next_handle_id == old(self).next_handle_id,
            final(self).sessions@ == (if old(self).session_at(*context) is Some {
                old(self).sessions@.remove(context.dw_lower)
            } else {
                old(self).sessions@
            }),
    {
        let key = context.dw_lower;
        let present = match self.sessions.get(&key) {
            Some(s) => s.h_context.dw_upper == context.dw_upper,
            None => false,
        };
        if present {
            self.sessions.remove(&key);
        }
        Ok(())
    }
}

// ---------------------------------------------------------------------------
// Handshake laws
// ---------------------------------------------------------------------------

/// The version and step fields of any token that starts with a header read back as
/// written.
pub proof fn lemma_header_fields(version: u32, step: u32, rest: Seq<u8>)
    ensures
        token_version(gk_header(version, step) + rest) == version,
        token_step(gk_header(version, step) + rest) == step,
        has_gk_magic(gk_header(version, step) + rest),
        (gk_header(version, step) + rest).len() == 16 + rest.len(),
{
    let t = gk_header(version, step) + rest;
    assert(t.subrange(8, 12) =~= crate::bytes::le_bytes(version));
    assert(t.subrange(12, 16) =~= crate::bytes::le_bytes(step));
    crate::bytes::lemma_le_roundtrip(version, t, 8);
    crate::bytes::lemma_le_roundtrip(step, t, 12);
    assert(t.subrange(0, 6) =~= gk_magic().subrange(0, 6));
}

/// A GateKeeper client and server that agree on the hostname complete the handshake:
/// the server takes the client's step-1 token exactly when it accepts the version, the
/// client takes the server's challenge, and the server accepts the client's response.
pub proof fn lemma_gatekeeper_handshake(
    client: GateKeeperSession,
    client_done: GateKeeperSession,
    server: GateKeeperSession,
    client_handle: CtxtHandle,
    server_handle: CtxtHandle,
    id: Seq<u8>,
    client_host: Seq<u8>,
    server_host: Seq<u8>,
    allow_older: bool,
    version: u32,
)
    requires
        is_client_started(client, client_handle, id, client_host),
        is_server_started(server, server_handle, server_host, allow_older),
        crate::text::lossy_utf8(client_host) == crate::text::lossy_utf8(server_host),
        is_client_finished(client, client_done, server_token(version)),
    ensures
        server_init_ok(gk_header(version, 1), allow_older) == version_accepted(version, allow_older),
        version_accepted(version, allow_older) && version <= 4 ==> {
            let response = client_response(version, client_done.hmac_response@, client_done.gatekeeper_id@);
            &&& client_challenge_ok(server_token(version))
            &&& server_response_form_ok(response, allow_older)
            &&& server_response_valid(server, response)
        },
{
    lemma_header_fields(version, 1, Seq::empty());
    assert(gk_header(version, 1) + Seq::empty() =~= gk_header(version, 1));
    lemma_header_fields(version, 2, server_challenge());
    let tok = server_token(version);
    assert(tok.subrange(16, 24) =~= server_challenge());
    let tag = client_done.hmac_response@;
    let gid = client_done.gatekeeper_id@;
    if version == 1 {
        lemma_header_fields(version, 3, tag);
        let response = client_response(version, tag, gid);
        assert(response.subrange(16, 32) =~= tag);
    } else {
        lemma_header_fields(version, 3, tag + gid);
        let response = client_response(version, tag, gid);
        assert(response =~= gk_header(version, 3) + (tag + gid));
        assert(response.subrange(16, 32) =~= tag);
    }
}

/// How a call moves the handle counter: a call without a context that succeeds hands
/// out `ctx_post`, whose lower word is the provider's next one and no context's key
/// before, and the counter moves on by one; any other call leaves the counter and the
/// new-context handle alone.
pub open spec fn handle_counted(
    pre: GateKeeperSecurityProvider,
    post: GateKeeperSecurityProvider,
    context: Option<CtxtHandle>,
    upper: usize,
    ctx_pre: CtxtHandle,
    ctx_post: CtxtHandle,
    r: Result<SspiError, SspiError>,
) -> bool {
    if context is None && r is Ok {
        &&& ctx_post == (CtxtHandle { dw_lower: pre.next_handle_id, dw_upper: upper })
        &&& !pre.sessions@.contains_key(ctx_post.dw_lower)
        &&& post.next_handle_id == pre.next_handle_id + 1
    } else {
        &&& post.next_handle_id == pre.next_handle_id
        &&& ctx_post == ctx_pre
    }
}

/// Every client call counts handles as `handle_counted` says, client handles having
/// upper word 0x1000.
pub proof fn lemma_client_handles(
    pre: GateKeeperSecurityProvider,
    post: GateKeeperSecurityProvider,
    credential: CredHandle,
    context: Option<CtxtHandle>,
    has_target: bool,
    target_data_rep: u32,
    inputs: Seq<SecBuffer>,
    outs_pre: Seq<SecBuffer>,
    outs_post: Seq<SecBuffer>,
    ctx_pre: CtxtHandle,
    ctx_post: CtxtHandle,
    r: Result<SspiError, SspiError>,
)
    requires
        pre.inv(),
        pre.client_step(post, credential, context, has_target, target_data_rep, inputs, outs_pre, outs_post,
            ctx_pre, ctx_post, r),
    ensures
        handle_counted(pre, post, context, 0x1000, ctx_pre, ctx_post, r),
{
    reveal(GateKeeperSecurityProvider::client_step);
}

/// Every server call counts handles as `handle_counted` says, server handles having
/// upper word 0x2000.
pub proof fn lemma_server_handles(
    pre: GateKeeperSecurityProvider,
    post: GateKeeperSecurityProvider,
    credential: CredHandle,
    context: Option<CtxtHandle>,
    target_data_rep: u32,
    inputs: Seq<SecBuffer>,
    outs_pre: Seq<SecBuffer>,
    outs_post: Seq<SecBuffer>,
    ctx_pre: CtxtHandle,
    ctx_post: CtxtHandle,
    r: Result<SspiError, SspiError>,
)
    requires
        pre.inv(),
        pre.server_step(post, credential, context, target_data_rep, inputs, outs_pre, outs_post, ctx_pre,
            ctx_post, r),
    ensures
        handle_counted(pre, post, context, 0x2000, ctx_pre, ctx_post, r),
{
    reveal(GateKeeperSecurityProvider::server_step);
}

/// One call on a GateKeeper provider as a run of calls sees it: the side (`true` for
/// the client), the context passed, the new-context handle before and after, and the
/// result.
pub type GkCall = (bool, Option<CtxtHandle>, CtxtHandle, CtxtHandle, Result<SspiError, SspiError>);

/// `post` is `pre` after the call `c`, made with some credential, buffers and
/// parameters.
pub open spec fn gk_call(pre: GateKeeperSecurityProvider, post: GateKeeperSecurityProvider, c: GkCall) -> bool {
    if c.0 {
        exists|credential: CredHandle, has_target: bool, rep: u32, inputs: Seq<SecBuffer>,
            outs_pre: Seq<SecBuffer>, outs_post: Seq<SecBuffer>|
            #[trigger] pre.client_step(post, credential, c.1, has_target, rep, inputs, outs_pre, outs_post,
                c.2, c.3, c.4)
    } else {
        exists|credential: CredHandle, rep: u32, inputs: Seq<SecBuffer>, outs_pre: Seq<SecBuffer>,
            outs_post: Seq<SecBuffer>|
            #[trigger] pre.server_step(post, credential, c.1, rep, inputs, outs_pre, outs_post, c.2, c.3, c.4)
    }
}

/// Whether a call hands out a new context: it had no context and succeeded.
pub open spec fn hands_out(c: GkCall) -> bool {
    c.1 is None && c.4 is Ok
}

/// How many calls of a run handed out a new context.
pub open spec fn handed_out(calls: Seq<GkCall>) -> nat
    decreases calls.len(),
{
    if calls.len() == 0 {
        0
    } else {
        handed_out(calls.drop_last()) + if hands_out(calls.last()) { 1nat } else { 0nat }
    }
}

/// `states[k + 1]` is `states[k]` after `calls[k]`, for every call of the run, and every
/// state keeps the provider's invariant (as every provider method ensures).
pub open spec fn gk_run(states: Seq<GateKeeperSecurityProvider>, calls: Seq<GkCall>) -> bool {
    &&& states.len() == calls.len() + 1
    &&& forall|k: int| 0 <= k < calls.len() ==> #[trigger] states[k].inv()
        && gk_call(states[k], states[k + 1], calls[k])
}

/// Over a run of calls, the handle counter has moved on by one for each call that
/// handed out a context, and by nothing for every other call, refused ones included.
proof fn lemma_run_counter(states: Seq<GateKeeperSecurityProvider>, calls: Seq<GkCall>, k: int)
    requires
        gk_run(states, calls),
        0 <= k <= calls.len(),
    ensures
        states[k].next_handle_id == states[0].next_handle_id + handed_out(calls.take(k)),
    decreases k,
{
    if k > 0 {
        lemma_run_counter(states, calls, k - 1);
        lemma_call_counts(states[k - 1], states[k], calls[k - 1]);
        assert(calls.take(k).drop_last() =~= calls.take(k - 1));
    }
}

/// One call counts handles as `handle_counted` says.
proof fn lemma_call_counts(pre: GateKeeperSecurityProvider, post: GateKeeperSecurityProvider, c: GkCall)
    requires
        pre.inv(),
        gk_call(pre, post, c),
    ensures
        handle_counted(pre, post, c.1, if c.0 { 0x1000usize } else { 0x2000usize }, c.2, c.3, c.4),
{
    if c.0 {
        let (credential, has_target, rep, inputs, outs_pre, outs_post) = choose|credential: CredHandle,
            has_target: bool, rep: u32, inputs: Seq<SecBuffer>, outs_pre: Seq<SecBuffer>, outs_post: Seq<SecBuffer>|
            #[trigger] pre.client_step(post, credential, c.1, has_target, rep, inputs, outs_pre, outs_post, c.2,
                c.3, c.4);
        lemma_client_handles(pre, post, credential, c.1, has_target, rep, inputs, outs_pre, outs_post, c.2, c.3, c.4);
    } else {
        let (credential, rep, inputs, outs_pre, outs_post) = choose|credential: CredHandle, rep: u32,
            inputs: Seq<SecBuffer>, outs_pre: Seq<SecBuffer>, outs_post: Seq<SecBuffer>|
            #[trigger] pre.server_step(post, credential, c.1, rep, inputs, outs_pre, outs_post, c.2, c.3, c.4);
        lemma_server_handles(pre, post, credential, c.1, rep, inputs, outs_pre, outs_post, c.2, c.3, c.4);
    }
}

/// Handle allocation over any run of client and server calls on one GateKeeper
/// provider, refused calls included: call `j`, if it hands out a context, hands out the
/// handle whose lower word is the first counter value plus the number of contexts
/// handed out before it (upper word 0x1000 from the client side, 0x2000 from the server
/// side), a handle no context of the provider held before that call.
pub proof fn lemma_handle_allocation(states: Seq<GateKeeperSecurityProvider>, calls: Seq<GkCall>, j: int)
    requires
        gk_run(states, calls),
        0 <= j < calls.len(),
        hands_out(calls[j]),
    ensures
        calls[j].3 == (CtxtHandle {
            dw_lower: (states[0].next_handle_id + handed_out(calls.take(j))) as usize,
            dw_upper: if calls[j].0 { 0x1000usize } else { 0x2000usize },
        }),
        !states[j].sessions@.contains_key(calls[j].3.dw_lower),
{
    lemma_run_counter(states, calls, j);
    lemma_call_counts(states[j], states[j + 1], calls[j]);
}

/// Two contexts handed out in a run of calls on one GateKeeper provider, the second
/// (`j`) after the first (`i`): the second handle's lower word is larger, so the
/// handles differ, and exactly one larger where no call between them handed out a
/// context.
pub proof fn lemma_handles_in_order(states: Seq<GateKeeperSecurityProvider>, calls: Seq<GkCall>, i: int, j: int)
    requires
        gk_run(states, calls),
        0 <= i < j < calls.len(),
        hands_out(calls[i]),
        hands_out(calls[j]),
    ensures
        calls[i].3.dw_lower < calls[j].3.dw_lower,
        calls[i].3 != calls[j].3,
        (forall|k: int| i < k < j ==> !hands_out(#[trigger] calls[k]))
            ==> calls[j].3.dw_lower == calls[i].3.dw_lower + 1,
{
    lemma_handle_allocation(states, calls, i);
    lemma_handle_allocation(states, calls, j);
    lemma_run_counter(states, calls, i + 1);
    lemma_call_counts(states[i], states[i + 1], calls[i]);
    lemma_run_counter(states, calls, i);
    lemma_run_counter(states, calls, j);
    lemma_call_counts(states[j], states[j + 1], calls[j]);
    lemma_handed_out_grows(calls, i + 1, j);
    if forall|k: int| i < k < j ==> !hands_out(#[trigger] calls[k]) {
        lemma_handed_out_flat(calls, i + 1, j);
    }
}

/// Counting over a longer prefix counts at least as many.
proof fn lemma_handed_out_grows(calls: Seq<GkCall>, a: int, b: int)
    requires
        0 <= a <= b <= calls.len(),
    ensures
        handed_out(calls.take(a)) <= handed_out(calls.take(b)),
    decreases b - a,
{
    if a < b {
        lemma_handed_out_grows(calls, a, b - 1);
        assert(calls.take(b).drop_last() =~= calls.take(b - 1));
    }
}

/// Calls that hand out nothing leave the count unchanged.
proof fn lemma_handed_out_flat(calls: Seq<GkCall>, a: int, b: int)
    requires
        0 <= a <= b <= calls.len(),
        forall|k: int| a <= k < b ==> !hands_out(#[trigger] calls[k]),
    ensures
        handed_out(calls.take(a)) == handed_out(calls.take(b)),
    decreases b - a,
{
    if a < b {
        lemma_handed_out_flat(calls, a, b - 1);
        assert(calls.take(b).drop_last() =~= calls.take(b - 1));
    }
}

/// The bytes of the first token buffer, if there is one.
pub open spec fn token_of(inputs: Seq<SecBuffer>) -> Option<Seq<u8>> {
    match crate::buffers::first_buffer(inputs, BufferQuery::OfType(SecBufferType::Token)) {
        Some(b) => Some(b.bytes@),
        None => None,
    }
}

/// The bytes a step left in the output buffer it writes: the first token buffer of
/// `outs_pre`.
pub open spec fn token_written(outs_pre: Seq<SecBuffer>, outs_post: Seq<SecBuffer>) -> Seq<u8> {
    outs_post[crate::buffers::first_match(outs_pre, BufferQuery::OfType(SecBufferType::Token)).unwrap()].bytes@
}

/// A GateKeeper handshake over provider calls completes. The client's first call (no
/// context, announcing a version up to 4) succeeds; the server's first call on the
/// client's token succeeds, with a hostname that reads as the client's; then the
/// client's second call on the server's token (with an output token buffer) and the
/// server's second call on the client's answer both succeed, and from version 2 on the
/// server holds the GateKeeper ID the client was given.
pub proof fn lemma_handshake_over_calls(
    c0: GateKeeperSecurityProvider, c1: GateKeeperSecurityProvider, c2: GateKeeperSecurityProvider,
    s0: GateKeeperSecurityProvider, s1: GateKeeperSecurityProvider, s2: GateKeeperSecurityProvider,
    in1: Seq<SecBuffer>, o1a: Seq<SecBuffer>, o1b: Seq<SecBuffer>, cx0: CtxtHandle, cx1: CtxtHandle,
    r1: Result<SspiError, SspiError>,
    in2: Seq<SecBuffer>, o2a: Seq<SecBuffer>, o2b: Seq<SecBuffer>, sx0: CtxtHandle, sx1: CtxtHandle,
    r2: Result<SspiError, SspiError>,
    in3: Seq<SecBuffer>, o3a: Seq<SecBuffer>, o3b: Seq<SecBuffer>, cx2: CtxtHandle,
    r3: Result<SspiError, SspiError>,
    in4: Seq<SecBuffer>, o4a: Seq<SecBuffer>, o4b: Seq<SecBuffer>, sx2: CtxtHandle,
    r4: Result<SspiError, SspiError>,
)
    requires
        c0.client_step(c1, c0.base.creds, None, false, 16, in1, o1a, o1b, cx0, cx1, r1),
        r1 is Ok,
        client_version(in1) <= 4,
        s0.server_step(s1, s0.base.creds, None, 16, in2, o2a, o2b, sx0, sx1, r2),
        r2 is Ok,
        token_of(in2) == Some(token_written(o1a, o1b)),
        crate::text::lossy_utf8(crate::buffers::first_buffer(in1, BufferQuery::GkHost).unwrap().bytes@)
            == crate::text::lossy_utf8(server_host_bytes(in2)),
        c1.client_step(c2, c1.base.creds, Some(cx1), false, 16, in3, o3a, o3b, cx1, cx2, r3),
        token_of(in3) == Some(token_written(o2a, o2b)),
        crate::buffers::first_match(o3a, BufferQuery::OfType(SecBufferType::Token)) is Some,
        s1.server_step(s2, s1.base.creds, Some(sx1), 16, in4, o4a, o4b, sx1, sx2, r4),
        token_of(in4) == Some(token_written(o3a, o3b)),
    ensures
        r3 == Ok::<SspiError, SspiError>(SspiError::Success),
        r4 == Ok::<SspiError, SspiError>(SspiError::Success),
        client_version(in1) >= 2 ==> s2.sessions@[sx1.dw_lower].gatekeeper_id@
            == crate::buffers::first_buffer(in1, BufferQuery::GkId).unwrap().bytes@,
{
    reveal(GateKeeperSecurityProvider::client_step);
    reveal(GateKeeperSecurityProvider::server_step);
    let v = client_version(in1);
    let id = crate::buffers::first_buffer(in1, BufferQuery::GkId).unwrap().bytes@;
    let host1 = crate::buffers::first_buffer(in1, BufferQuery::GkHost).unwrap().bytes@;
    let host2 = server_host_bytes(in2);
    let allow = server_allow_older(in2);
    let cs1 = c1.sessions@[cx1.dw_lower];
    let ss1 = s1.sessions@[sx1.dw_lower];
    // first calls
    lemma_header_fields(v, 1, Seq::empty());
    assert(gk_header(v, 1) + Seq::<u8>::empty() =~= gk_header(v, 1));
    let tok2 = gk_header(v, 1);
    assert(token_written(o1a, o1b) == tok2);
    assert(server_init_ok(tok2, allow));
    assert(version_accepted(v, allow));
    assert(is_client_started(cs1, cx1, id, host1));
    assert(is_server_started(ss1, sx1, host2, allow));
    assert(token_written(o2a, o2b) == server_token(v));
    // client's second call
    let tok3 = server_token(v);
    assert(c1.session_at(cx1) == Some(cs1));
    let cs2 = c2.sessions@[cx1.dw_lower];
    lemma_header_fields(v, 2, server_challenge());
    assert(client_challenge_ok(tok3));
    assert(r3 == Ok::<SspiError, SspiError>(SspiError::Success));
    assert(is_client_finished(cs1, cs2, tok3));
    lemma_gatekeeper_handshake(cs1, cs2, ss1, cx1, sx1, id, host1, host2, allow, v);
    let response = client_response(v, cs2.hmac_response@, cs2.gatekeeper_id@);
    assert(token_written(o3a, o3b) == response);
    // server's second call
    assert(s1.session_at(sx1) == Some(ss1));
    assert(server_response_form_ok(response, allow));
    assert(server_response_valid(ss1, response));
    assert(r4 == Ok::<SspiError, SspiError>(SspiError::Success));
    if v >= 2 {
        let tag = cs2.hmac_response@;
        lemma_header_fields(v, 3, tag + id);
        assert(response =~= gk_header(v, 3) + (tag + id));
        assert(response.subrange(32, 48) =~= id);
    }
}

/// What the GateKeeper HMAC covers. Before version 3 it is the challenge alone. From
/// version 3 on it is the challenge followed by the hostname's UTF-8 bytes, as many as
/// there are up to 15: its length is the challenge's plus min(15, hostname bytes), its
/// first bytes are the challenge and the rest are the hostname's first bytes. So the
/// tag a client sends, and the one a server expects, for version 3 or later is the
/// HMAC-MD5 of exactly those bytes under the shared key.
pub proof fn lemma_hmac_covers_hostname(challenge: Seq<u8>, host: Seq<char>, version: u32)
    ensures
        version < 3 ==> hmac_input(challenge, host, version) == challenge,
        version >= 3 ==> {
            let b = vstd::utf8::encode_utf8(host);
            let m = if b.len() < 15 { b.len() } else { 15 };
            let x = hmac_input(challenge, host, version);
            &&& x.len() == challenge.len() + m
            &&& forall|i: int| 0 <= i < challenge.len() ==> x[i] == challenge[i]
            &&& forall|i: int| 0 <= i < m ==> x[challenge.len() + i] == b[i]
        },
        expected_tag(gk_shared_key(), challenge, host, version) == crate::crypto::hmac_md5_tag(
            seq![0x53u8, 0x52, 0x46, 0x4D, 0x4B, 0x53, 0x4A, 0x41, 0x4E, 0x44, 0x52, 0x45, 0x53, 0x4B, 0x4B, 0x43],
            if version >= 3 {
                let b = vstd::utf8::encode_utf8(host);
                challenge + b.take(if b.len() < 15 { b.len() as int } else { 15 })
            } else {
                challenge
            },
        ),
{
    let b = vstd::utf8::encode_utf8(host);
    assert(gk_shared_key() =~= seq![0x53u8, 0x52, 0x46, 0x4D, 0x4B, 0x53, 0x4A, 0x41, 0x4E, 0x44, 0x52, 0x45,
        0x53, 0x4B, 0x4B, 0x43]);
    if version >= 3 {
        if b.len() <= 15 {
            assert(b.take(b.len() as int) =~= b);
        } else {
            assert(b.take(15) =~= b.subrange(0, 15));
        }
    }
}

/// The answer a GateKeeper client sends in its second step carries, in bytes 16..32,
/// the HMAC-MD5 under the shared key `"SRFMKSJANDRESKKC"` of the server's 8 challenge
/// bytes, followed from version 3 on by the first (up to 15) UTF-8 bytes of the
/// hostname the client was given.
pub proof fn lemma_client_answer_tag(
    pre: GateKeeperSecurityProvider,
    post: GateKeeperSecurityProvider,
    credential: CredHandle,
    h: CtxtHandle,
    has_target: bool,
    target_data_rep: u32,
    inputs: Seq<SecBuffer>,
    outs_pre: Seq<SecBuffer>,
    outs_post: Seq<SecBuffer>,
    ctx_pre: CtxtHandle,
    ctx_post: CtxtHandle,
    r: Result<SspiError, SspiError>,
)
    requires
        pre.inv(),
        pre.client_step(post, credential, Some(h), has_target, target_data_rep, inputs, outs_pre, outs_post,
            ctx_pre, ctx_post, r),
        r is Ok,
    ensures
        ({
            let tok = token_of(inputs).unwrap();
            let challenge = tok.subrange(16, 24);
            let b = vstd::utf8::encode_utf8(pre.sessions@[h.dw_lower].hostname@);
            token_written(outs_pre, outs_post).subrange(16, 32) == crate::crypto::hmac_md5_tag(
                seq![0x53u8, 0x52, 0x46, 0x4D, 0x4B, 0x53, 0x4A, 0x41, 0x4E, 0x44, 0x52, 0x45, 0x53, 0x4B, 0x4B, 0x43],
                if token_version(tok) >= 3 {
                    challenge + b.take(if b.len() < 15 { b.len() as int } else { 15 })
                } else {
                    challenge
                },
            )
        }),
{
    reveal(GateKeeperSecurityProvider::client_step);
    let tok = token_of(inputs).unwrap();
    let s = pre.sessions@[h.dw_lower];
    let v = token_version(tok);
    assert(pre.sessions@.contains_key(h.dw_lower));
    lemma_hmac_covers_hostname(tok.subrange(16, 24), s.hostname@, v);
    let s2 = post.sessions@[h.dw_lower];
    let tag = expected_tag(s.gk_shared_key@, tok.subrange(16, 24), s.hostname@, v);
    assert(s2.hmac_response@ == tag);
    assert(tag.len() == 16);
    let resp = client_response(v, tag, s.gatekeeper_id@);
    if v == 1 {
        assert(resp.subrange(16, 32) =~= tag);
    } else {
        assert(resp =~= gk_header(v, 3) + tag + s.gatekeeper_id@);
        assert(resp.subrange(16, 32) =~= tag);
    }
}

} // verus!
