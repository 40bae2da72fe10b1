//! The decisions behind the SSPI exports: which provider a handle or package name
//! routes to, the package table, the strings handed back to C callers, and the
//! display form of a GateKeeper ID.
//!
//! The exports themselves work on raw pointers and stay in the program around the
//! library; they call these functions for everything they decide.

use vstd::prelude::*;
use crate::types::{CredHandle, CtxtHandle, SecBuffer, SecBufferType};
use crate::buffers::{BufferQuery, find_first};
use crate::bytes::copy_range;
use crate::text::{push_char, ascii_lower_equals};

use vstd::string::{StrSliceExecFns, StringExecFns};
use crate::gatekeeper::GateKeeperSecurityProvider;
use crate::ntlm::NtlmSecurityProvider;
use crate::types::SecurityProvider;

verus! {

/// The uppercase hexadecimal digit of a value below 16.
pub open spec fn hex_digit_upper(v: int) -> char {
    if v < 10 {
        (('0' as int) + v) as char
    } else {
        (('A' as int) + v - 10) as char
    }
}

/// Two uppercase hexadecimal digits per byte, high half first.
pub open spec fn hex_upper(bytes: Seq<u8>) -> Seq<char> {
    Seq::new(
        (2 * bytes.len()) as nat,
        |i: int| if i % 2 == 0 {
            hex_digit_upper(bytes[i / 2] as int / 16)
        } else {
            hex_digit_upper(bytes[i / 2] as int % 16)
        },
    )
}

/// The bytes of a GateKeeper ID in GUID display order: the first four bytes reversed,
/// then the next two reversed, the next two reversed, and the last eight as they are.
pub open spec fn guid_display_order(b: Seq<u8>) -> Seq<u8> {
    seq![b[3], b[2], b[1], b[0], b[5], b[4], b[7], b[6]] + b.subrange(8, 16)
}

/// The uppercase hexadecimal digit of a value below 16.
fn upper_digit(v: u8) -> (r: char)
    requires
        v < 16,
    ensures
        r == hex_digit_upper(v as int),
{
    if v < 10 {
        (v + 48) as char
    } else {
        (v + 55) as char
    }
}

/// Formats a 16-byte GateKeeper ID as 32 uppercase hexadecimal digits, its bytes in
/// GUID display order.
pub fn format_gatekeeper_id(bytes: &[u8; 16]) -> (r: String)
    ensures
        r@ == hex_upper(guid_display_order(bytes@)),
{
    let order: [usize; 16] = [3, 2, 1, 0, 5, 4, 7, 6, 8, 9, 10, 11, 12, 13, 14, 15];
    let ghost g = guid_display_order(bytes@);
    proof {
        assert(forall|k: int| 0 <= k < 16 ==> bytes@[order@[k] as int] == #[trigger] g[k]) by {
            assert(g.len() == 16);
        }
    }
    let mut s = String::new();
    let mut i: usize = 0;
    while i < 16
        invariant
            i <= 16,
            g == guid_display_order(bytes@),
            g.len() == 16,
            forall|k: int| 0 <= k < 16 ==> #[trigger] order@[k] < 16,
            forall|k: int| 0 <= k < 16 ==> bytes@[order@[k] as int] == #[trigger] g[k],
            s@ == hex_upper(g.take(i as int)),
        decreases 16 - i,
    {
        let b = bytes[order[i]];
        let ghost before = s@;
        push_char(&mut s, upper_digit(b / 16));
        push_char(&mut s, upper_digit(b % 16));
        proof {
            assert(g[i as int] == b);
            assert(s@ =~= hex_upper(g.take(i + 1)));
        }
        i = i + 1;
    }
    proof {
        assert(g.take(16) =~= g);
    }
    s
}

/// The providers the exports route to.
#[derive(Debug, Clone, Copy, PartialEq, Eq, Structural)]
pub enum PackageKind {
    GateKeeper,
    Ntlm,
}

/// The provider a credentials handle belongs to, by its upper word.
pub open spec fn credential_owner(h: CredHandle) -> Option<PackageKind> {
    if h.dw_upper == 0x8888 {
        Some(PackageKind::GateKeeper)
    } else if h.dw_upper == 0x6666 {
        Some(PackageKind::Ntlm)
    } else {
        None
    }
}

/// The provider a context handle belongs to, by its upper word.
pub open spec fn context_owner(h: CtxtHandle) -> Option<PackageKind> {
    if h.dw_upper == 0x1000 || h.dw_upper == 0x2000 {
        Some(PackageKind::GateKeeper)
    } else if h.dw_upper == 0x5000 || h.dw_upper == 0x6000 {
        Some(PackageKind::Ntlm)
    } else {
        None
    }
}

/// The provider a package name names, without regard to ASCII case.
pub open spec fn package_owner(name: Seq<char>) -> Option<PackageKind> {
    if crate::text::ascii_lowercase(name) == seq!['g', 'a', 't', 'e', 'k', 'e', 'e', 'p', 'e', 'r'] {
        Some(PackageKind::GateKeeper)
    } else if crate::text::ascii_lowercase(name) == seq!['n', 't', 'l', 'm'] {
        Some(PackageKind::Ntlm)
    } else {
        None
    }
}

/// Routes a credentials handle: upper word 0x8888 to GateKeeper, 0x6666 to NTLM.
pub fn provider_for_credential(h: &CredHandle) -> (r: Option<PackageKind>)
    ensures
        r == credential_owner(*h),
{
    if h.dw_upper == 0x8888 {
        Some(PackageKind::GateKeeper)
    } else if h.dw_upper == 0x6666 {
        Some(PackageKind::Ntlm)
    } else {
        None
    }
}

/// Routes a context handle: upper words 0x1000 and 0x2000 to GateKeeper, 0x5000 and
/// 0x6000 to NTLM.
pub fn provider_for_context(h: &CtxtHandle) -> (r: Option<PackageKind>)
    ensures
        r == context_owner(*h),
{
    if h.dw_upper == 0x1000 || h.dw_upper == 0x2000 {
        Some(PackageKind::GateKeeper)
    } else if h.dw_upper == 0x5000 || h.dw_upper == 0x6000 {
        Some(PackageKind::Ntlm)
    } else {
        None
    }
}

/// Routes a package name: "gatekeeper" and "ntlm" in any ASCII case.
pub fn provider_for_package(name: &str) -> (r: Option<PackageKind>)
    ensures
        r == package_owner(name@),
{
    let gk = ['g', 'a', 't', 'e', 'k', 'e', 'e', 'p', 'e', 'r'];
    let ntlm = ['n', 't', 'l', 'm'];
    assert(gk@ =~= seq!['g', 'a', 't', 'e', 'k', 'e', 'e', 'p', 'e', 'r']);
    assert(ntlm@ =~= seq!['n', 't', 'l', 'm']);
    if ascii_lower_equals(name, &gk) {
        Some(PackageKind::GateKeeper)
    } else if ascii_lower_equals(name, &ntlm) {
        Some(PackageKind::Ntlm)
    } else {
        None
    }
}

/// Which strings a caller of the exports works with.
#[derive(Debug, Clone, Copy, PartialEq, Eq, Structural)]
pub enum CharSet {
    /// Byte strings (the `A` exports).
    Ansi,
    /// UTF-16 strings (the `W` exports).
    Wide,
}

/// One entry of the package table.
#[derive(Debug)]
pub struct PackageInfo {
    pub capabilities: u32,
    pub version: u16,
    pub rpc_id: u16,
    pub max_token: u32,
    pub name: String,
    pub comment: String,
}

/// The comment of the NTLM package as each character set lists it.
pub open spec fn ntlm_comment(cs: CharSet) -> Seq<char> {
    match cs {
        CharSet::Ansi => "NTLM Security Package"@,
        CharSet::Wide => "Microsoft NTLM Security Provider"@,
    }
}

/// The package table: GateKeeper (capabilities 0x34, version 1, RPC id 0xFFFF, tokens up
/// to 0x40 bytes), then NTLM (capabilities 0x14, version 1, RPC id 10, tokens up to 2888
/// bytes).
pub fn security_packages(cs: CharSet) -> (r: Vec<PackageInfo>)
    ensures
        r@.len() == 2,
        r@[0].name@ == "GateKeeper"@,
        r@[0].comment@ == "GateKeeper Security Package"@,
        r@[0].capabilities == 0x34,
        r@[0].version == 1,
        r@[0].rpc_id == 0xFFFF,
        r@[0].max_token == 0x40,
        r@[1].name@ == "NTLM"@,
        r@[1].comment@ == ntlm_comment(cs),
        r@[1].capabilities == 0x14,
        r@[1].version == 1,
        r@[1].rpc_id == 10,
        r@[1].max_token == 2888,
{
    let ntlm_text = match cs {
        CharSet::Ansi => String::from_str("NTLM Security Package"),
        CharSet::Wide => String::from_str("Microsoft NTLM Security Provider"),
    };
    let mut v: Vec<PackageInfo> = Vec::new();
    v.push(PackageInfo {
        capabilities: 0x34,
        version: 1,
        rpc_id: 0xFFFF,
        max_token: 0x40,
        name: String::from_str("GateKeeper"),
        comment: String::from_str("GateKeeper Security Package"),
    });
    v.push(PackageInfo {
        capabilities: 0x14,
        version: 1,
        rpc_id: 10,
        max_token: 2888,
        name: String::from_str("NTLM"),
        comment: ntlm_text,
    });
    v
}

/// A string as a C byte string: its UTF-8 bytes and a terminating zero.
pub fn ansi_z(s: &str) -> (r: Vec<u8>)
    ensures
        r@ == vstd::utf8::encode_utf8(s@).push(0u8),
{
    let b = s.as_bytes();
    let n = b.len();
    let mut out: Vec<u8> = Vec::new();
    let mut i: usize = 0;
    while i < n
        invariant
            n == b@.len(),
            i <= n,
            out@ == b@.take(i as int),
        decreases n - i,
    {
        out.push(b[i]);
        assert(b@.take(i + 1) =~= b@.take(i as int).push(b@[i as int]));
        i = i + 1;
    }
    assert(b@.take(n as int) =~= b@);
    out.push(0);
    out
}

/// The UTF-16 code units of a string.
pub open spec fn utf16(s: Seq<char>) -> Seq<u16>
    decreases s.len(),
{
    if s.len() == 0 {
        Seq::empty()
    } else {
        utf16(s.drop_last()) + crate::vault::utf16_units(s.last())
    }
}

/// A string as a C wide string: its UTF-16 code units and a terminating zero.
pub fn wide_z(s: &str) -> (r: Vec<u16>)
    ensures
        r@ == utf16(s@).push(0u16),
{
    let n = s.unicode_len();
    let mut out: Vec<u16> = Vec::new();
    let mut i: usize = 0;
    while i < n
        invariant
            n == s@.len(),
            i <= n,
            out@ == utf16(s@.take(i as int)),
        decreases n - i,
    {
        let c = s.get_char(i);
        let v: u32 = c as u32;
        if v < 0x10000 {
            out.push(v as u16);
        } else {
            let w: u32 = v - 0x10000;
            out.push((0xD800 + w / 0x400) as u16);
            out.push((0xDC00 + w % 0x400) as u16);
        }
        assert(s@.take(i + 1).drop_last() =~= s@.take(i as int));
        assert(out@ =~= utf16(s@.take(i + 1)));
        i = i + 1;
    }
    assert(s@.take(n as int) =~= s@);
    out.push(0);
    out
}

/// The name an NTLM context reports: "domain\user" where both are known and the domain
/// is not empty, the user alone where only it is known, else "user".
pub open spec fn ntlm_display_name(domain: Option<Seq<char>>, user: Option<Seq<char>>) -> Seq<char> {
    match (domain, user) {
        (Some(d), Some(u)) => if d.len() > 0 {
            d + seq!['\\'] + u
        } else {
            u
        },
        (_, Some(u)) => u,
        _ => "user"@,
    }
}

/// The name an NTLM context reports; see `ntlm_display_name`.
pub fn ntlm_context_name(domain: Option<&str>, user: Option<&str>) -> (r: String)
    ensures
        r@ == ntlm_display_name(
            match domain { Some(d) => Some(d@), None => None },
            match user { Some(u) => Some(u@), None => None },
        ),
{
    match (domain, user) {
        (Some(d), Some(u)) => {
            if d.unicode_len() > 0 {
                let mut s = String::from_str(d);
                push_char(&mut s, '\\');
                s.append(u);
                s
            } else {
                String::from_str(u)
            }
        },
        (_, Some(u)) => String::from_str(u),
        _ => String::from_str("user"),
    }
}

/// The user name a context reports: for a GateKeeper context the display form of the
/// client's GateKeeper ID (none if the provider does not know the context); for an NTLM
/// context the name of `ntlm_display_name`, "user" if the provider does not know it;
/// none for any other handle.
pub open spec fn context_user(gk: GateKeeperSecurityProvider, ntlm: NtlmSecurityProvider, h: CtxtHandle) -> Option<Seq<char>> {
    match context_owner(h) {
        Some(PackageKind::GateKeeper) => match gk.session_at(h) {
            Some(s) => Some(hex_upper(guid_display_order(s.gatekeeper_id@))),
            None => None,
        },
        Some(PackageKind::Ntlm) => if ntlm.has_session(h) {
            let s = ntlm.sessions@[h.dw_lower];
            Some(ntlm_display_name(
                match s.authenticated_domain { Some(d) => Some(d@), None => None },
                match s.authenticated_username { Some(u) => Some(u@), None => None },
            ))
        } else {
            Some("user"@)
        },
        None => None,
    }
}

/// What goes back into a C caller's buffer of type `ty` that has room for `capacity`
/// bytes: the bytes of the first library buffer of that type, as many as fit; nothing
/// where no library buffer has that type (the caller's buffer is then left alone).
pub open spec fn written_back(buffers: Seq<SecBuffer>, ty: SecBufferType, capacity: u32) -> Option<Seq<u8>> {
    match crate::buffers::first_match(buffers, BufferQuery::OfType(ty)) {
        Some(i) => {
            let b = buffers[i].bytes@;
            Some(if b.len() <= capacity { b } else { b.take(capacity as int) })
        },
        None => None,
    }
}

/// The bytes to write back into a C caller's buffer; see `written_back`. The caller's
/// buffer length becomes the length of the result.
pub fn write_back_bytes(buffers: &[SecBuffer], ty: SecBufferType, capacity: u32) -> (r: Option<Vec<u8>>)
    ensures
        match written_back(buffers@, ty, capacity) {
            Some(b) => r is Some && r.unwrap()@ == b,
            None => r is None,
        },
{
    match find_first(buffers, BufferQuery::OfType(ty)) {
        Some(i) => {
            let src = buffers[i].bytes.as_slice();
            let cap = capacity as usize;
            let len = if src.len() <= cap { src.len() } else { cap };
            let out = copy_range(src, 0, len);
            proof {
                assert(src@.subrange(0, src@.len() as int) =~= src@);
            }
            Some(out)
        },
        None => None,
    }
}

/// Every context the GateKeeper provider holds routes back to GateKeeper, and every
/// context the NTLM provider holds routes back to NTLM: the upper words the providers
/// hand out are the ones the exports route by.
pub proof fn lemma_contexts_route_home(gk: GateKeeperSecurityProvider, ntlm: NtlmSecurityProvider, k: usize)
    requires
        gk.inv(),
        ntlm.inv(),
    ensures
        gk.sessions@.contains_key(k) ==> context_owner(gk.sessions@[k].h_context) == Some(PackageKind::GateKeeper),
        ntlm.sessions@.contains_key(k) ==> context_owner(ntlm.sessions@[k].h_context) == Some(PackageKind::Ntlm),
{
}

/// After a GateKeeper context is deleted (as `delete_security_context` leaves the
/// provider, `after` from `before`), the exports report no user name for it, and the
/// provider knows it no more (`session_at` is none, so a further step on it with
/// otherwise valid arguments is refused as an invalid handle).
pub proof fn lemma_deleted_context_forgotten(
    before: GateKeeperSecurityProvider,
    after: GateKeeperSecurityProvider,
    ntlm: NtlmSecurityProvider,
    h: CtxtHandle,
)
    requires
        context_owner(h) == Some(PackageKind::GateKeeper),
        after.sessions@ == (if before.session_at(h) is Some {
            before.sessions@.remove(h.dw_lower)
        } else {
            before.sessions@
        }),
    ensures
        after.session_at(h) is None,
        context_user(after, ntlm, h) is None,
{
}

/// The name an NTLM context that its provider knows reports: with a recorded domain `d`
/// that is not empty and a recorded user `u`, the domain, a backslash and the user;
/// with an empty domain, the user alone.
pub proof fn lemma_ntlm_name_has_domain(gk: GateKeeperSecurityProvider, ntlm: NtlmSecurityProvider, h: CtxtHandle)
    requires
        h.dw_upper == 0x5000 || h.dw_upper == 0x6000,
        ntlm.has_session(h),
        ntlm.sessions@[h.dw_lower].authenticated_domain is Some,
        ntlm.sessions@[h.dw_lower].authenticated_username is Some,
    ensures
        ({
            let d = ntlm.sessions@[h.dw_lower].authenticated_domain.unwrap()@;
            let u = ntlm.sessions@[h.dw_lower].authenticated_username.unwrap()@;
            context_user(gk, ntlm, h) == Some(if d.len() > 0 { d + seq!['\\'] + u } else { u })
        }),
{
}

/// The user name a context reports; see `context_user`.
pub fn context_user_name(gk: &GateKeeperSecurityProvider, ntlm: &NtlmSecurityProvider, h: &CtxtHandle) -> (r: Option<String>)
    ensures
        match context_user(*gk, *ntlm, *h) {
            Some(n) => r is Some && r.unwrap()@ == n,
            None => r is None,
        },
{
    match provider_for_context(h) {
        Some(PackageKind::GateKeeper) => match gk.sessions.get(&h.dw_lower) {
            Some(s) => if s.h_context == *h {
                Some(format_gatekeeper_id(&s.gatekeeper_id))
            } else {
                None
            },
            None => None,
        },
        Some(PackageKind::Ntlm) => match ntlm.sessions.get(&h.dw_lower) {
            Some(s) => if s.h_context == *h {
                let d = match &s.authenticated_domain {
                    Some(d) => Some(d.as_str()),
                    None => None,
                };
                let u = match &s.authenticated_username {
                    Some(u) => Some(u.as_str()),
                    None => None,
                };
                Some(ntlm_context_name(d, u))
            } else {
                Some(String::from_str("user"))
            },
            None => Some(String::from_str("user")),
        },
        None => None,
    }
}

} // verus!
