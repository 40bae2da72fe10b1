//! The operator credential vault: account records, domain and username normalisation,
//! NT password hashes, and the AES-256-GCM sealing of the vault file's bytes.
//!
//! Reading and writing the files and the JSON text of the records is done by the
//! program around the library; this module holds the rules.

use vstd::prelude::*;
use vstd::string::StrSliceExecFns;
use crate::text::{trim_str, lowercase_str, ascii_lower_equals, str_equals_chars};
use crate::crypto::{aes256gcm_encrypt, aes256gcm_decrypt, md4, hex_encode, random_bytes};
use crate::bytes::copy_range;

verus! {

/// The privilege level of an operator account.
#[derive(Debug, Clone, Copy, PartialEq, Eq, Structural)]
pub enum UserLevel {
    Admin,
    Sysop,
    Guide,
}

/// The display name of a level.
pub open spec fn level_name(l: UserLevel) -> Seq<char> {
    match l {
        UserLevel::Admin => "Admin"@,
        UserLevel::Sysop => "Sysop"@,
        UserLevel::Guide => "Guide"@,
    }
}

/// The level a name stands for, compared without regard to ASCII case.
pub open spec fn level_of_name(s: Seq<char>) -> Option<UserLevel> {
    let l = crate::text::ascii_lowercase(s);
    if l == seq!['a', 'd', 'm', 'i', 'n'] {
        Some(UserLevel::Admin)
    } else if l == seq!['s', 'y', 's', 'o', 'p'] {
        Some(UserLevel::Sysop)
    } else if l == seq!['g', 'u', 'i', 'd', 'e'] {
        Some(UserLevel::Guide)
    } else {
        None
    }
}

/// The message that refuses a name that is no level.
pub open spec fn invalid_level_message(s: Seq<char>) -> Seq<char> {
    "Invalid user level: "@ + s + ". Allowed values: admin, sysop, guide"@
}

impl UserLevel {
    /// The display name: "Admin", "Sysop" or "Guide".
    pub fn to_string(&self) -> (r: String)
        ensures
            r@ == level_name(*self),
    {
        match self {
            UserLevel::Admin => String::from_str("Admin"),
            UserLevel::Sysop => String::from_str("Sysop"),
            UserLevel::Guide => String::from_str("Guide"),
        }
    }

    /// Parses "admin", "sysop" or "guide" in any ASCII case.
    pub fn from_str(s: &str) -> (r: Result<UserLevel, String>)
        ensures
            match level_of_name(s@) {
                Some(l) => r == Ok::<UserLevel, String>(l),
                None => r is Err && r->Err_0@ == invalid_level_message(s@),
            },
    {
        let admin = ['a', 'd', 'm', 'i', 'n'];
        let sysop = ['s', 'y', 's', 'o', 'p'];
        let guide = ['g', 'u', 'i', 'd', 'e'];
        assert(admin@ =~= seq!['a', 'd', 'm', 'i', 'n']);
        assert(sysop@ =~= seq!['s', 'y', 's', 'o', 'p']);
        assert(guide@ =~= seq!['g', 'u', 'i', 'd', 'e']);
        if ascii_lower_equals(s, &admin) {
            Ok(UserLevel::Admin)
        } else if ascii_lower_equals(s, &sysop) {
            Ok(UserLevel::Sysop)
        } else if ascii_lower_equals(s, &guide) {
            Ok(UserLevel::Guide)
        } else {
            let mut msg = String::from_str("Invalid user level: ");
            msg.append(s);
            msg.append(". Allowed values: admin, sysop, guide");
            Err(msg)
        }
    }
}

/// One operator account of the vault.
#[derive(Debug)]
pub struct VaultAccount {
    /// The username as the operator typed it (case kept).
    pub username: String,
    /// The NT hash of the password, as lowercase hexadecimal.
    pub nt_hash: String,
    pub level: UserLevel,
    /// The account's domain, lowercase, or empty where it has none.
    pub domain: String,
}

impl View for VaultAccount {
    type V = (Seq<char>, Seq<char>, UserLevel, Seq<char>);

    open spec fn view(&self) -> Self::V {
        (self.username@, self.nt_hash@, self.level, self.domain@)
    }
}

impl VaultAccount {
    /// A copy of the account.
    pub fn duplicate(&self) -> (r: VaultAccount)
        ensures
            r@ == self@,
    {
        VaultAccount {
            username: self.username.clone(),
            nt_hash: self.nt_hash.clone(),
            level: self.level,
            domain: self.domain.clone(),
        }
    }
}

/// Why a vault operation failed.
#[derive(Debug, Clone, PartialEq, Eq)]
pub enum VaultError {
    /// Reading or writing a file failed, or no random bytes could be drawn.
    Io(String),
    /// The vault did not decrypt under the key, or the plaintext was too long to seal.
    Crypto,
    /// The vault's JSON text could not be read or written.
    Json(String),
    /// A hexadecimal field did not decode.
    Hex(String),
    /// The vault file is too short to hold a nonce, or its contents are no vault.
    InvalidVault,
}

/// Whether a trimmed, lowercased domain names no real domain.
pub open spec fn domain_is_absent(d: Seq<char>) -> bool {
    d.len() == 0 || d == seq!['.'] || d == seq!['w', 'o', 'r', 'k', 'g', 'r', 'o', 'u', 'p']
}

/// The domain as the vault compares it: trimmed and lowercased.
pub open spec fn domain_key(domain: Seq<char>) -> Seq<char> {
    crate::text::lowercased(crate::text::trimmed(domain))
}

/// The domain an account is stored with: empty where none is named.
pub open spec fn stored_domain(domain: Seq<char>) -> Seq<char> {
    if domain_is_absent(domain_key(domain)) {
        Seq::empty()
    } else {
        domain_key(domain)
    }
}

/// Whether an already trimmed and lowercased domain names no real domain: it is empty,
/// "." or "workgroup".
pub fn is_absent_domain_name(d: &str) -> (r: bool)
    ensures
        r == domain_is_absent(d@),
{
    let dot = ['.'];
    let workgroup = ['w', 'o', 'r', 'k', 'g', 'r', 'o', 'u', 'p'];
    assert(dot@ =~= seq!['.']);
    assert(workgroup@ =~= seq!['w', 'o', 'r', 'k', 'g', 'r', 'o', 'u', 'p']);
    d.unicode_len() == 0 || str_equals_chars(d, &dot) || str_equals_chars(d, &workgroup)
}

/// Whether a domain is treated as non-existent: after trimming and lowercasing it is
/// empty, "." or "workgroup".
pub fn is_non_existent_domain(domain: &str) -> (r: bool)
    ensures
        r == domain_is_absent(domain_key(domain@)),
        crate::text::all_ascii(crate::text::trimmed(domain@))
            ==> domain_key(domain@) == crate::text::ascii_lowercase(crate::text::trimmed(domain@)),
        crate::text::is_trim_of(domain@, crate::text::trimmed(domain@)),
{
    let d = lowercase_str(trim_str(domain));
    is_absent_domain_name(d.as_str())
}

/// The domain an account is stored with: empty for a non-existent domain, else the
/// trimmed, lowercased domain.
pub fn normalize_domain(domain: &str) -> (r: String)
    ensures
        r@ == stored_domain(domain@),
        crate::text::all_ascii(crate::text::trimmed(domain@))
            ==> domain_key(domain@) == crate::text::ascii_lowercase(crate::text::trimmed(domain@)),
        crate::text::is_trim_of(domain@, crate::text::trimmed(domain@)),
{
    let d = lowercase_str(trim_str(domain));
    if is_absent_domain_name(d.as_str()) {
        String::new()
    } else {
        d
    }
}

/// The 16-bit code units of a character in UTF-16.
pub open spec fn utf16_units(c: char) -> Seq<u16> {
    let v = c as int;
    if v < 0x10000 {
        seq![v as u16]
    } else {
        seq![(0xD800 + (v - 0x10000) / 0x400) as u16, (0xDC00 + (v - 0x10000) % 0x400) as u16]
    }
}

/// A code unit as two little-endian bytes.
pub open spec fn unit_le(u: u16) -> Seq<u8> {
    seq![(u % 256) as u8, (u / 256) as u8]
}

/// The UTF-16LE bytes of one character.
pub open spec fn char_utf16le(c: char) -> Seq<u8> {
    let u = utf16_units(c);
    if u.len() == 1 {
        unit_le(u[0])
    } else {
        unit_le(u[0]) + unit_le(u[1])
    }
}

/// The UTF-16LE encoding of a string.
pub open spec fn utf16le(s: Seq<char>) -> Seq<u8>
    decreases s.len(),
{
    if s.len() == 0 {
        Seq::empty()
    } else {
        utf16le(s.drop_last()) + char_utf16le(s.last())
    }
}

/// The NT hash of a password: MD4 of its UTF-16LE encoding.
pub open spec fn nt_hash_of(password: Seq<char>) -> Seq<u8> {
    crate::crypto::md4_digest(utf16le(password))
}

/// Appends the UTF-16LE bytes of one character.
fn push_char_utf16le(out: &mut Vec<u8>, c: char)
    ensures
        final(out)@ == old(out)@ + char_utf16le(c),
{
    let v: u32 = c as u32;
    if v < 0x10000 {
        out.push((v % 256) as u8);
        out.push((v / 256) as u8);
    } else {
        let w: u32 = v - 0x10000;
        let hi: u32 = 0xD800 + w / 0x400;
        let lo: u32 = 0xDC00 + w % 0x400;
        out.push((hi % 256) as u8);
        out.push((hi / 256) as u8);
        out.push((lo % 256) as u8);
        out.push((lo / 256) as u8);
    }
    proof {
        let u = utf16_units(c);
        assert(final(out)@ =~= old(out)@ + char_utf16le(c));
    }
}

/// The UTF-16LE encoding of a string.
pub fn utf16le_bytes(s: &str) -> (r: Vec<u8>)
    ensures
        r@ == utf16le(s@),
{
    let n = s.unicode_len();
    let mut out: Vec<u8> = Vec::new();
    let mut i: usize = 0;
    while i < n
        invariant
            n == s@.len(),
            i <= n,
            out@ == utf16le(s@.take(i as int)),
        decreases n - i,
    {
        let c = s.get_char(i);
        push_char_utf16le(&mut out, c);
        assert(s@.take(i + 1).drop_last() =~= s@.take(i as int));
        i = i + 1;
    }
    assert(s@.take(n as int) =~= s@);
    out
}

/// The NT hash of a password: MD4 of its UTF-16LE encoding.
pub fn nt_hash(password: &str) -> (r: [u8; 16])
    ensures
        r@ == nt_hash_of(password@),
{
    let bytes = utf16le_bytes(password);
    md4(bytes.as_slice())
}

/// The NT hash of a password as lowercase hexadecimal, as the vault stores it.
pub fn nt_hash_hex(password: &str) -> (r: String)
    ensures
        r@ == crate::crypto::hex_lower(nt_hash_of(password@)),
{
    let h = nt_hash(password);
    hex_encode(&h)
}

/// The nonce length of a sealed vault.
pub open spec fn nonce_len() -> int {
    12
}

/// What opening a vault file's bytes gives: the 12-byte nonce comes first, the
/// AES-256-GCM ciphertext after it.
pub open spec fn vault_opened(key: Seq<u8>, file: Seq<u8>) -> Result<Seq<u8>, VaultError> {
    if file.len() < nonce_len() {
        Err(VaultError::InvalidVault)
    } else {
        match crate::crypto::aes256gcm_opened(key, file.take(nonce_len()), file.skip(nonce_len())) {
            Some(p) => Ok(p),
            None => Err(VaultError::Crypto),
        }
    }
}

/// Seals a vault's plaintext: the nonce followed by the AES-256-GCM ciphertext.
/// Opening the result with the same key gives the plaintext back.
pub fn seal_vault(key: &[u8; 32], nonce: &[u8; 12], plaintext: &[u8]) -> (r: Result<Vec<u8>, VaultError>)
    ensures
        plaintext@.len() <= crate::crypto::aes_gcm_max_plaintext() <==> r is Ok,
        r is Err ==> r == Err::<Vec<u8>, VaultError>(VaultError::Crypto),
        r is Ok ==> r->Ok_0@ == nonce@ + crate::crypto::aes256gcm_sealed(key@, nonce@, plaintext@),
        r is Ok ==> vault_opened(key@, r->Ok_0@) == Ok::<Seq<u8>, VaultError>(plaintext@),
        r is Ok ==> r->Ok_0@.len() == 12 + plaintext@.len() + 16,
{
    match aes256gcm_encrypt(key, nonce, plaintext) {
        Some(ct) => {
            let mut out: Vec<u8> = Vec::new();
            let mut i: usize = 0;
            while i < 12
                invariant
                    i <= 12,
                    out@ == nonce@.take(i as int),
                decreases 12 - i,
            {
                out.push(nonce[i]);
                assert(nonce@.take(i + 1) =~= nonce@.take(i as int).push(nonce@[i as int]));
                i = i + 1;
            }
            let ghost head = out@;
            let n = ct.len();
            let mut j: usize = 0;
            while j < n
                invariant
                    n == ct@.len(),
                    j <= n,
                    head == nonce@,
                    out@ == head + ct@.take(j as int),
                decreases n - j,
            {
                out.push(ct[j]);
                assert(ct@.take(j + 1) =~= ct@.take(j as int).push(ct@[j as int]));
                j = j + 1;
            }
            proof {
                assert(nonce@.take(12) =~= nonce@);
                assert(ct@.take(n as int) =~= ct@);
                assert(out@.take(12) =~= nonce@);
                assert(out@.skip(12) =~= ct@);
            }
            Ok(out)
        },
        None => Err(VaultError::Crypto),
    }
}

/// Opens a vault file's bytes: files shorter than the nonce are no vault; a ciphertext
/// that does not decrypt under the key is a crypto failure.
pub fn open_vault(key: &[u8; 32], file: &[u8]) -> (r: Result<Vec<u8>, VaultError>)
    ensures
        match vault_opened(key@, file@) {
            Ok(p) => r is Ok && r->Ok_0@ == p,
            Err(e) => r == Err::<Vec<u8>, VaultError>(e),
        },
{
    if file.len() < 12 {
        return Err(VaultError::InvalidVault);
    }
    let mut nonce = [0u8; 12];
    let mut i: usize = 0;
    while i < 12
        invariant
            i <= 12,
            12 <= file@.len(),
            forall|j: int| 0 <= j < i ==> nonce@[j] == file@[j],
        decreases 12 - i,
    {
        nonce[i] = file[i];
        i = i + 1;
    }
    assert(nonce@ =~= file@.take(12));
    let ct = copy_range(file, 12, file.len());
    assert(ct@ =~= file@.skip(12));
    match aes256gcm_decrypt(key, &nonce, ct.as_slice()) {
        Some(p) => Ok(p),
        None => Err(VaultError::Crypto),
    }
}

/// Draws a fresh 12-byte nonce, if the generator delivers.
pub fn new_vault_nonce() -> (r: Option<[u8; 12]>) {
    match random_bytes(12) {
        Some(v) => {
            let mut out = [0u8; 12];
            let mut i: usize = 0;
            while i < 12
                invariant
                    i <= 12,
                    v@.len() == 12,
                decreases 12 - i,
            {
                out[i] = v[i];
                i = i + 1;
            }
            Some(out)
        },
        None => None,
    }
}

/// Draws a fresh 32-byte master key, if the generator delivers.
pub fn generate_master_key() -> (r: Option<[u8; 32]>) {
    match random_bytes(32) {
        Some(v) => {
            let mut out = [0u8; 32];
            let mut i: usize = 0;
            while i < 32
                invariant
                    i <= 32,
                    v@.len() == 32,
                decreases 32 - i,
            {
                out[i] = v[i];
                i = i + 1;
            }
            Some(out)
        },
        None => None,
    }
}

/// The bytes of a vault file sealed under `nonce`: the nonce, then the ciphertext.
pub open spec fn sealed_file(key: Seq<u8>, nonce: Seq<u8>, plaintext: Seq<u8>) -> Seq<u8> {
    nonce + crate::crypto::aes256gcm_sealed(key, nonce, plaintext)
}

/// Seals a vault's plaintext under a freshly drawn nonce. The result is the file sealed
/// under some 12-byte nonce, and opens with the same key to the plaintext. It fails
/// only where the generator delivers no nonce (an I/O error) or the plaintext is too
/// long to encrypt (a crypto error).
pub fn encrypt_vault(key: &[u8; 32], plaintext: &[u8]) -> (r: Result<Vec<u8>, VaultError>)
    ensures
        r is Ok ==> exists|n: Seq<u8>| n.len() == 12 && r->Ok_0@ == #[trigger] sealed_file(key@, n, plaintext@),
        r is Ok ==> vault_opened(key@, r->Ok_0@) == Ok::<Seq<u8>, VaultError>(plaintext@),
        r is Ok ==> r->Ok_0@.len() == 12 + plaintext@.len() + 16,
        plaintext@.len() > crate::crypto::aes_gcm_max_plaintext() ==> r is Err,
        r is Err ==> match r->Err_0 {
            VaultError::Io(m) => m@ == "Secure random generation failed"@,
            VaultError::Crypto => plaintext@.len() > crate::crypto::aes_gcm_max_plaintext(),
            _ => false,
        },
{
    match new_vault_nonce() {
        Some(nonce) => {
            let r = seal_vault(key, &nonce, plaintext);
            proof {
                if r is Ok {
                    assert(r->Ok_0@ == sealed_file(key@, nonce@, plaintext@));
                }
            }
            r
        },
        None => Err(VaultError::Io(String::from_str("Secure random generation failed"))),
    }
}

/// One record of the vault: the key it is found under and its account.
#[derive(Debug)]
pub struct VaultEntry {
    pub key: String,
    pub account: VaultAccount,
}

/// The accounts of a sequence of records, a later record replacing an earlier one
/// under the same key.
pub open spec fn entries_map(s: Seq<VaultEntry>) -> Map<Seq<char>, (Seq<char>, Seq<char>, UserLevel, Seq<char>)>
    decreases s.len(),
{
    if s.len() == 0 {
        Map::empty()
    } else {
        entries_map(s.drop_last()).insert(s.last().key@, s.last().account@)
    }
}

/// No two records share a key.
pub open spec fn keys_distinct(s: Seq<VaultEntry>) -> bool {
    forall|i: int, j: int| 0 <= i < j < s.len() ==> #[trigger] s[i].key@ != #[trigger] s[j].key@
}

/// The key is that of some record.
proof fn lemma_entries_contains(s: Seq<VaultEntry>, k: Seq<char>)
    ensures
        entries_map(s).contains_key(k) <==> exists|i: int| 0 <= i < s.len() && #[trigger] s[i].key@ == k,
    decreases s.len(),
{
    if s.len() > 0 {
        lemma_entries_contains(s.drop_last(), k);
        if entries_map(s).contains_key(k) && s.last().key@ != k {
            let i = choose|i: int| 0 <= i < s.drop_last().len() && #[trigger] s.drop_last()[i].key@ == k;
            assert(s[i].key@ == k);
        }
        if exists|i: int| 0 <= i < s.len() && #[trigger] s[i].key@ == k {
            let i = choose|i: int| 0 <= i < s.len() && #[trigger] s[i].key@ == k;
            if i < s.len() - 1 {
                assert(s.drop_last()[i].key@ == k);
            }
        }
    }
}

/// With distinct keys, each record's account is found under its key.
pub(crate) proof fn lemma_entries_value(s: Seq<VaultEntry>, i: int)
    requires
        keys_distinct(s),
        0 <= i < s.len(),
    ensures
        entries_map(s).contains_key(s[i].key@),
        entries_map(s)[s[i].key@] == s[i].account@,
    decreases s.len(),
{
    if i < s.len() - 1 {
        assert(s.drop_last()[i] == s[i]);
        lemma_entries_value(s.drop_last(), i);
        assert(s[i].key@ != s[s.len() - 1].key@);
    }
}

/// Replacing a record by one with the same key replaces that key's account.
proof fn lemma_entries_update(s: Seq<VaultEntry>, i: int, e: VaultEntry)
    requires
        keys_distinct(s),
        0 <= i < s.len(),
        s[i].key@ == e.key@,
    ensures
        entries_map(s.update(i, e)) == entries_map(s).insert(e.key@, e.account@),
    decreases s.len(),
{
    let t = s.update(i, e);
    if i == s.len() - 1 {
        assert(t.drop_last() =~= s.drop_last());
        assert(entries_map(t) =~= entries_map(s).insert(e.key@, e.account@));
    } else {
        assert(t.drop_last() =~= s.drop_last().update(i, e));
        lemma_entries_update(s.drop_last(), i, e);
        assert(s[i].key@ != s[s.len() - 1].key@);
        assert(entries_map(t) =~= entries_map(s).insert(e.key@, e.account@));
    }
}

/// Records with the same keys and accounts, in the same order, hold the same accounts.
proof fn lemma_entries_same(s: Seq<VaultEntry>, t: Seq<VaultEntry>)
    requires
        s.len() == t.len(),
        forall|j: int| 0 <= j < s.len() ==> #[trigger] s[j].key@ == t[j].key@ && s[j].account@ == t[j].account@,
    ensures
        entries_map(s) == entries_map(t),
        keys_distinct(t) ==> keys_distinct(s),
    decreases s.len(),
{
    if s.len() > 0 {
        lemma_entries_same(s.drop_last(), t.drop_last());
        assert(s[s.len() - 1].key@ == t[t.len() - 1].key@);
    }
    if keys_distinct(t) {
        assert forall|a: int, b: int| 0 <= a < b < s.len() implies #[trigger] s[a].key@ != #[trigger] s[b].key@ by {
            assert(s[a].key@ == t[a].key@);
            assert(s[b].key@ == t[b].key@);
        }
    }
}

/// With distinct keys, there are as many accounts as records.
proof fn lemma_entries_len(s: Seq<VaultEntry>)
    requires
        keys_distinct(s),
    ensures
        entries_map(s).dom().finite(),
        entries_map(s).dom().len() == s.len(),
    decreases s.len(),
{
    if s.len() > 0 {
        lemma_entries_len(s.drop_last());
        lemma_entries_contains(s.drop_last(), s.last().key@);
        if entries_map(s.drop_last()).contains_key(s.last().key@) {
            let i = choose|i: int| 0 <= i < s.drop_last().len() && #[trigger] s.drop_last()[i].key@ == s.last().key@;
            assert(s[i].key@ == s[s.len() - 1].key@);
        }
    }
}

/// With distinct keys, removing a record removes its key's account, and the keys stay
/// distinct.
proof fn lemma_entries_remove(s: Seq<VaultEntry>, i: int)
    requires
        keys_distinct(s),
        0 <= i < s.len(),
    ensures
        keys_distinct(s.remove(i)),
        entries_map(s.remove(i)) == entries_map(s).remove(s[i].key@),
    decreases s.len(),
{
    let t = s.remove(i);
    let k = s[i].key@;
    assert forall|a: int, b: int| 0 <= a < b < t.len() implies #[trigger] t[a].key@ != #[trigger] t[b].key@ by {
        let a2 = if a < i { a } else { a + 1 };
        let b2 = if b < i { b } else { b + 1 };
        assert(t[a] == s[a2]);
        assert(t[b] == s[b2]);
    }
    if i == s.len() - 1 {
        assert(t =~= s.drop_last());
        lemma_entries_contains(t, k);
        if entries_map(t).contains_key(k) {
            let j = choose|j: int| 0 <= j < t.len() && #[trigger] t[j].key@ == k;
            assert(s[j].key@ == k);
        }
        assert(entries_map(t) =~= entries_map(s).remove(k));
    } else {
        assert(t.drop_last() =~= s.drop_last().remove(i));
        assert(t.last() == s.last());
        assert(s.drop_last()[i] == s[i]);
        lemma_entries_remove(s.drop_last(), i);
        assert(s[i].key@ != s[s.len() - 1].key@);
        assert(entries_map(t) =~= entries_map(s).remove(k));
    }
}

/// The operator accounts, each under its key (the lowercased username).
pub struct Vault {
    entries: Vec<VaultEntry>,
}

impl View for Vault {
    type V = Map<Seq<char>, (Seq<char>, Seq<char>, UserLevel, Seq<char>)>;

    closed spec fn view(&self) -> Self::V {
        entries_map(self.entries@)
    }
}

/// The key and account that adding a user stores.
pub open spec fn added_account(
    username: Seq<char>,
    password: Seq<char>,
    domain: Seq<char>,
    level: UserLevel,
) -> (Seq<char>, Seq<char>, UserLevel, Seq<char>) {
    (crate::text::trimmed(username), crate::crypto::hex_lower(nt_hash_of(password)), level, stored_domain(domain))
}

/// A record read from the vault file, its username filled in from the key where empty.
pub open spec fn loaded_account(key: Seq<char>, a: (Seq<char>, Seq<char>, UserLevel, Seq<char>)) -> (Seq<char>, Seq<char>, UserLevel, Seq<char>) {
    if a.0.len() == 0 {
        (key, a.1, a.2, a.3)
    } else {
        a
    }
}

/// The accounts of records read from the vault file, in order, a later record replacing
/// an earlier one under the same key.
pub open spec fn loaded_map(records: Seq<(String, VaultAccount)>) -> Map<Seq<char>, (Seq<char>, Seq<char>, UserLevel, Seq<char>)>
    decreases records.len(),
{
    if records.len() == 0 {
        Map::empty()
    } else {
        let (k, a) = records.last();
        loaded_map(records.drop_last()).insert(k@, loaded_account(k@, a@))
    }
}

/// The accounts of a legacy vault's (username, hash) pairs: each becomes a Guide of
/// "ircx.msn.com" under its lowercased username.
pub open spec fn legacy_map(records: Seq<(String, String)>) -> Map<Seq<char>, (Seq<char>, Seq<char>, UserLevel, Seq<char>)>
    decreases records.len(),
{
    if records.len() == 0 {
        Map::empty()
    } else {
        let (u, h) = records.last();
        legacy_map(records.drop_last()).insert(crate::text::lowercased(u@), (u@, h@, UserLevel::Guide, "ircx.msn.com"@))
    }
}

/// Why the vault editor refused to save an account.
#[derive(Debug, Clone, Copy, PartialEq, Eq, Structural)]
pub enum SaveError {
    /// The username is empty once trimmed.
    EmptyUsername,
    /// A new account was given no password.
    PasswordRequired,
    /// The master key is not loaded.
    MasterKeyMissing,
    /// The account being edited is no longer in the vault.
    EditedAccountMissing,
}

/// The characters of an optional string.
pub open spec fn opt_view(s: Option<&str>) -> Option<Seq<char>> {
    match s {
        Some(t) => Some(t@),
        None => None,
    }
}

/// What saving an account from the vault editor makes of the vault's accounts: the
/// checks in order (a username, a password for a new account, the master key, and for
/// an edit without a password the edited account), then the account under the
/// lowercase trimmed username.
pub open spec fn saved_vault(
    vault: Map<Seq<char>, (Seq<char>, Seq<char>, UserLevel, Seq<char>)>,
    key_loaded: bool,
    editing: Option<Seq<char>>,
    username: Seq<char>,
    password: Seq<char>,
    domain: Seq<char>,
    level: UserLevel,
) -> Result<Map<Seq<char>, (Seq<char>, Seq<char>, UserLevel, Seq<char>)>, SaveError> {
    let name = crate::text::trimmed(username);
    let keep_hash = editing is Some && password.len() == 0;
    if name.len() == 0 {
        Err(SaveError::EmptyUsername)
    } else if editing is None && password.len() == 0 {
        Err(SaveError::PasswordRequired)
    } else if !key_loaded {
        Err(SaveError::MasterKeyMissing)
    } else if keep_hash && !vault.contains_key(editing->0) {
        Err(SaveError::EditedAccountMissing)
    } else {
        let hash = if keep_hash {
            vault[editing->0].1
        } else {
            crate::crypto::hex_lower(nt_hash_of(password))
        };
        Ok(vault.insert(crate::text::lowercased(name), (name, hash, level, stored_domain(domain))))
    }
}

impl Vault {
    /// No two records share a key.
    pub closed spec fn wf(&self) -> bool {
        keys_distinct(self.entries@)
    }

    /// An empty vault.
    pub fn new() -> (r: Vault)
        ensures
            r.wf(),
            r@ == Map::<Seq<char>, (Seq<char>, Seq<char>, UserLevel, Seq<char>)>::empty(),
    {
        Vault { entries: Vec::new() }
    }

    /// The number of accounts.
    pub fn len(&self) -> (r: usize)
        requires
            self.wf(),
        ensures
            self@.dom().finite(),
            r == self@.dom().len(),
    {
        proof {
            lemma_entries_len(self.entries@);
        }
        self.entries.len()
    }

    /// The position of the record under `key`, if any.
    fn position(&self, key: &str) -> (r: Option<usize>)
        requires
            self.wf(),
        ensures
            match r {
                Some(i) => i < self.entries@.len() && self.entries@[i as int].key@ == key@,
                None => !self@.contains_key(key@),
            },
    {
        let n = self.entries.len();
        let mut i: usize = 0;
        while i < n
            invariant
                n == self.entries@.len(),
                i <= n,
                forall|j: int| 0 <= j < i ==> #[trigger] self.entries@[j].key@ != key@,
            decreases n - i,
        {
            if str_equals_chars_of(self.entries[i].key.as_str(), key) {
                return Some(i);
            }
            i = i + 1;
        }
        proof {
            lemma_entries_contains(self.entries@, key@);
        }
        None
    }

    /// The account stored under `key`, if any.
    pub fn get(&self, key: &str) -> (r: Option<&VaultAccount>)
        requires
            self.wf(),
        ensures
            match r {
                Some(a) => self@.contains_key(key@) && self@[key@] == a@,
                None => !self@.contains_key(key@),
            },
    {
        match self.position(key) {
            Some(i) => {
                proof {
                    lemma_entries_value(self.entries@, i as int);
                }
                Some(&self.entries[i].account)
            },
            None => None,
        }
    }

    /// Whether an account is stored under `key`.
    pub fn contains_key(&self, key: &str) -> (r: bool)
        requires
            self.wf(),
        ensures
            r == self@.contains_key(key@),
    {
        match self.get(key) {
            Some(_) => true,
            None => false,
        }
    }

    /// Stores `account` under `key`, replacing any account stored there.
    pub fn insert(&mut self, key: String, account: VaultAccount)
        requires
            old(self).wf(),
        ensures
            final(self).wf(),
            final(self)@ == old(self)@.insert(key@, account@),
    {
        match self.position(key.as_str()) {
            Some(i) => {
                let e = VaultEntry { key, account };
                proof {
                    lemma_entries_update(self.entries@, i as int, e);
                }
                self.entries.set(i, e);
            },
            None => {
                proof {
                    lemma_entries_contains(self.entries@, key@);
                }
                let e = VaultEntry { key, account };
                self.entries.push(e);
                proof {
                    assert(self.entries@.drop_last() =~= old(self).entries@);
                }
            },
        }
    }

    /// Adds or replaces an operator: the key is the lowercased username, the stored
    /// username is trimmed, the password is kept as its NT hash in lowercase hexadecimal,
    /// and a non-existent domain is stored as empty, any other trimmed and lowercased.
    pub fn add_user(&mut self, username: &str, password: &str, domain: &str, level: UserLevel)
        requires
            old(self).wf(),
        ensures
            final(self).wf(),
            final(self)@ == old(self)@.insert(crate::text::lowercased(username@), added_account(username@, password@, domain@, level)),
            crate::text::all_ascii(username@)
                ==> crate::text::lowercased(username@) == crate::text::ascii_lowercase(username@),
            crate::text::all_ascii(crate::text::trimmed(domain@))
                ==> domain_key(domain@) == crate::text::ascii_lowercase(crate::text::trimmed(domain@)),
            crate::text::is_trim_of(username@, crate::text::trimmed(username@)),
            crate::text::is_trim_of(domain@, crate::text::trimmed(domain@)),
    {
        let key = lowercase_str(username);
        let account = VaultAccount {
            username: String::from_str(trim_str(username)),
            nt_hash: nt_hash_hex(password),
            level,
            domain: normalize_domain(domain),
        };
        self.insert(key, account);
    }

    /// Removes the account stored under `key`; whether there was one.
    pub fn remove(&mut self, key: &str) -> (r: bool)
        requires
            old(self).wf(),
        ensures
            final(self).wf(),
            r == old(self)@.contains_key(key@),
            final(self)@ == old(self)@.remove(key@),
    {
        match self.position(key) {
            Some(i) => {
                proof {
                    lemma_entries_remove(self.entries@, i as int);
                }
                self.entries.remove(i);
                proof {
                    lemma_entries_value(old(self).entries@, i as int);
                }
                true
            },
            None => {
                proof {
                    assert(old(self)@.remove(key@) =~= old(self)@);
                }
                false
            },
        }
    }

    /// Saves an account from the vault editor. `editing` names the key of the account
    /// being edited, if any; `key_loaded` says whether the master key is at hand. The
    /// username is trimmed and the account stored under its lowercase form; an edit
    /// with an empty password keeps the edited account's hash.
    pub fn save_account(
        &mut self,
        key_loaded: bool,
        editing: Option<&str>,
        username: &str,
        password: &str,
        domain: &str,
        level: UserLevel,
    ) -> (r: Result<(), SaveError>)
        requires
            old(self).wf(),
        ensures
            final(self).wf(),
            match saved_vault(old(self)@, key_loaded, opt_view(editing), username@, password@, domain@, level) {
                Ok(m) => r is Ok && final(self)@ == m,
                Err(e) => r == Err::<(), SaveError>(e) && final(self)@ == old(self)@,
            },
            r is Ok && crate::text::all_ascii(crate::text::trimmed(username@))
                ==> crate::text::lowercased(crate::text::trimmed(username@))
                == crate::text::ascii_lowercase(crate::text::trimmed(username@)),
            crate::text::is_trim_of(username@, crate::text::trimmed(username@)),
    {
        let name = trim_str(username);
        if name.unicode_len() == 0 {
            return Err(SaveError::EmptyUsername);
        }
        let is_edit = editing.is_some();
        let no_password = password.unicode_len() == 0;
        if !is_edit && no_password {
            return Err(SaveError::PasswordRequired);
        }
        if !key_loaded {
            return Err(SaveError::MasterKeyMissing);
        }
        let domain_stored = normalize_domain(domain);
        let hash = match editing {
            Some(old_key) if no_password => match self.get(old_key) {
                Some(acc) => acc.nt_hash.clone(),
                None => {
                    return Err(SaveError::EditedAccountMissing);
                },
            },
            _ => nt_hash_hex(password),
        };
        let key = lowercase_str(name);
        self.insert(key, VaultAccount { username: String::from_str(name), nt_hash: hash, level, domain: domain_stored });
        Ok(())
    }

    /// The vault of records read from the vault file, in order; a record without a
    /// username takes its key as username.
    pub fn from_records(records: Vec<(String, VaultAccount)>) -> (r: Vault)
        ensures
            r.wf(),
            r@ == loaded_map(records@),
    {
        let mut v = Vault::new();
        let ghost all = records@;
        let n = records.len();
        let mut i: usize = 0;
        while i < n
            invariant
                n == all.len(),
                records@ == all,
                i <= n,
                v.wf(),
                v@ == loaded_map(all.take(i as int)),
            decreases n - i,
        {
            let (k, a) = take_record(&records, i);
            let a2 = if a.username.unicode_len() == 0 {
                VaultAccount { username: k.clone(), nt_hash: a.nt_hash, level: a.level, domain: a.domain }
            } else {
                a
            };
            v.insert(k, a2);
            assert(all.take(i + 1).drop_last() =~= all.take(i as int));
            i = i + 1;
        }
        assert(all.take(n as int) =~= all);
        v
    }

    /// The vault of a legacy vault's (username, hash) pairs, in order: each becomes a
    /// Guide of "ircx.msn.com" under its lowercased username.
    pub fn from_legacy(records: Vec<(String, String)>) -> (r: Vault)
        ensures
            r.wf(),
            r@ == legacy_map(records@),
    {
        let mut v = Vault::new();
        let n = records.len();
        let mut i: usize = 0;
        while i < n
            invariant
                n == records@.len(),
                i <= n,
                v.wf(),
                v@ == legacy_map(records@.take(i as int)),
            decreases n - i,
        {
            let u = records[i].0.clone();
            let h = records[i].1.clone();
            let key = lowercase_str(u.as_str());
            v.insert(key, VaultAccount { username: u, nt_hash: h, level: UserLevel::Guide, domain: String::from_str("ircx.msn.com") });
            assert(records@.take(i + 1).drop_last() =~= records@.take(i as int));
            i = i + 1;
        }
        assert(records@.take(n as int) =~= records@);
        v
    }

    /// A copy of the vault.
    pub fn duplicate(&self) -> (r: Vault)
        requires
            self.wf(),
        ensures
            r.wf(),
            r@ == self@,
    {
        let mut entries: Vec<VaultEntry> = Vec::new();
        let n = self.entries.len();
        let mut i: usize = 0;
        while i < n
            invariant
                n == self.entries@.len(),
                i <= n,
                entries@.len() == i,
                forall|j: int| 0 <= j < i ==> #[trigger] entries@[j].key@ == self.entries@[j].key@
                    && entries@[j].account@ == self.entries@[j].account@,
            decreases n - i,
        {
            let e = &self.entries[i];
            entries.push(VaultEntry { key: e.key.clone(), account: e.account.duplicate() });
            i = i + 1;
        }
        proof {
            lemma_entries_same(entries@, self.entries@);
        }
        Vault { entries }
    }

    /// The records, for writing the vault file: their accounts are the vault's.
    pub fn entries(&self) -> (r: &[VaultEntry])
        requires
            self.wf(),
        ensures
            keys_distinct(r@),
            entries_map(r@) == self@,
    {
        self.entries.as_slice()
    }
}

/// A copy of the record at `i`.
fn take_record(records: &Vec<(String, VaultAccount)>, i: usize) -> (r: (String, VaultAccount))
    requires
        i < records@.len(),
    ensures
        r.0@ == records@[i as int].0@,
        r.1@ == records@[i as int].1@,
{
    (records[i].0.clone(), records[i].1.duplicate())
}

/// Whether two strings hold the same characters.
fn str_equals_chars_of(a: &str, b: &str) -> (r: bool)
    ensures
        r == (a@ == b@),
{
    let n = a.unicode_len();
    if n != b.unicode_len() {
        return false;
    }
    let mut i: usize = 0;
    while i < n
        invariant
            n == a@.len(),
            n == b@.len(),
            i <= n,
            forall|j: int| 0 <= j < i ==> a@[j] == b@[j],
        decreases n - i,
    {
        if a.get_char(i) != b.get_char(i) {
            return false;
        }
        i = i + 1;
    }
    assert(a@ =~= b@);
    true
}

} // verus!
