//! The IRCX `AUTH` line protocol that carries the handshake tokens: byte escaping,
//! line framing of the incoming stream, and the `AUTH` commands and replies.

use vstd::prelude::*;

verus! {

/// The escape character `\`.
pub open spec fn backslash() -> u8 {
    92
}

/// The letter that stands for an escaped byte, if the byte is one that is escaped.
pub open spec fn escape_code(b: u8) -> Option<u8> {
    if b == 13 {
        Some(114u8)
    } else if b == 10 {
        Some(110u8)
    } else if b == 0 {
        Some(48u8)
    } else if b == 44 {
        Some(99u8)
    } else if b == 9 {
        Some(116u8)
    } else if b == 32 {
        Some(98u8)
    } else if b == 92 {
        Some(92u8)
    } else {
        None
    }
}

/// The byte an escape letter stands for, if it is one: `\r`, `\n`, `\0`, `\c` (comma),
/// `\t`, `\b` (space) and `\\`.
pub open spec fn unescape_code(c: u8) -> Option<u8> {
    if c == 114 {
        Some(13u8)
    } else if c == 110 {
        Some(10u8)
    } else if c == 48 {
        Some(0u8)
    } else if c == 99 {
        Some(44u8)
    } else if c == 116 {
        Some(9u8)
    } else if c == 98 {
        Some(32u8)
    } else if c == 92 {
        Some(92u8)
    } else {
        None
    }
}

/// The escaped form of one byte.
pub open spec fn escape_byte(b: u8) -> Seq<u8> {
    match escape_code(b) {
        Some(c) => seq![backslash(), c],
        None => seq![b],
    }
}

/// The escaped form of a byte string: each byte escaped in turn.
pub open spec fn escaped(s: Seq<u8>) -> Seq<u8>
    decreases s.len(),
{
    if s.len() == 0 {
        Seq::empty()
    } else {
        escaped(s.drop_last()) + escape_byte(s.last())
    }
}

/// The bytes an escaped string stands for: a backslash and a known letter give its
/// byte; any other byte, a lone backslash included, stands for itself.
pub open spec fn unescaped(s: Seq<u8>) -> Seq<u8>
    decreases s.len(),
{
    if s.len() == 0 {
        Seq::empty()
    } else if s[0] == backslash() && s.len() >= 2 && unescape_code(s[1]) is Some {
        seq![unescape_code(s[1]).unwrap()] + unescaped(s.skip(2))
    } else {
        seq![s[0]] + unescaped(s.skip(1))
    }
}

/// Escapes the bytes that may not travel raw in an `AUTH` line.
pub fn escape(bytes: &[u8]) -> (r: Vec<u8>)
    ensures
        r@ == escaped(bytes@),
{
    let mut out: Vec<u8> = Vec::new();
    let n = bytes.len();
    let mut i: usize = 0;
    while i < n
        invariant
            n == bytes@.len(),
            i <= n,
            out@ == escaped(bytes@.take(i as int)),
        decreases n - i,
    {
        let b = bytes[i];
        let code: u8 = if b == 13 {
            114
        } else if b == 10 {
            110
        } else if b == 0 {
            48
        } else if b == 44 {
            99
        } else if b == 9 {
            116
        } else if b == 32 {
            98
        } else if b == 92 {
            92
        } else {
            0
        };
        if code != 0 {
            out.push(92);
            out.push(code);
        } else {
            out.push(b);
        }
        proof {
            assert(bytes@.take(i + 1).drop_last() =~= bytes@.take(i as int));
            assert(out@ =~= escaped(bytes@.take(i + 1)));
        }
        i = i + 1;
    }
    proof {
        assert(bytes@.take(n as int) =~= bytes@);
    }
    out
}

/// Turns an escaped payload back into its bytes.
pub fn unescape(s: &[u8]) -> (r: Vec<u8>)
    ensures
        r@ == unescaped(s@),
{
    let mut out: Vec<u8> = Vec::new();
    let n = s.len();
    let mut i: usize = 0;
    proof {
        assert(s@.skip(0) =~= s@);
        assert(out@ + unescaped(s@) =~= unescaped(s@));
    }
    while i < n
        invariant
            n == s@.len(),
            i <= n,
            out@ + unescaped(s@.skip(i as int)) == unescaped(s@),
        decreases n - i,
    {
        let b = s[i];
        let ghost rest = s@.skip(i as int);
        if b == 92 && i + 1 < n {
            let next = s[i + 1];
            let decoded: Option<u8> = if next == 114 {
                Some(13)
            } else if next == 110 {
                Some(10)
            } else if next == 48 {
                Some(0)
            } else if next == 99 {
                Some(44)
            } else if next == 116 {
                Some(9)
            } else if next == 98 {
                Some(32)
            } else if next == 92 {
                Some(92)
            } else {
                None
            };
            match decoded {
                Some(d) => {
                    proof {
                        assert(rest[0] == b && rest[1] == next);
                        assert(rest.skip(2) =~= s@.skip(i + 2));
                    }
                    out.push(d);
                    i = i + 2;
                },
                None => {
                    proof {
                        assert(rest[0] == b && rest[1] == next);
                        assert(rest.skip(1) =~= s@.skip(i + 1));
                    }
                    out.push(b);
                    i = i + 1;
                },
            }
        } else {
            proof {
                assert(rest[0] == b);
                assert(rest.skip(1) =~= s@.skip(i + 1));
            }
            out.push(b);
            i = i + 1;
        }
    }
    proof {
        assert(s@.skip(n as int) =~= Seq::<u8>::empty());
        assert(out@ + Seq::<u8>::empty() =~= out@);
    }
    out
}

/// The escaped form of a string is its first byte's escape followed by the rest's.
proof fn lemma_escaped_front(s: Seq<u8>)
    requires
        s.len() > 0,
    ensures
        escaped(s) == escape_byte(s[0]) + escaped(s.skip(1)),
    decreases s.len(),
{
    if s.len() == 1 {
        assert(s.drop_last() =~= Seq::<u8>::empty());
        assert(s.skip(1) =~= Seq::<u8>::empty());
        assert(escaped(s) =~= escape_byte(s[0]) + escaped(s.skip(1)));
    } else {
        lemma_escaped_front(s.drop_last());
        assert(s.drop_last().skip(1) =~= s.skip(1).drop_last());
        assert(s.skip(1).last() == s.last());
        assert(escaped(s) =~= escape_byte(s[0]) + escaped(s.skip(1)));
    }
}

/// Unescaping undoes escaping: `unescape(escape(x)) == x` for every byte string.
pub proof fn lemma_unescape_escape(s: Seq<u8>)
    ensures
        unescaped(escaped(s)) == s,
    decreases s.len(),
{
    if s.len() == 0 {
        assert(escaped(s) =~= Seq::<u8>::empty());
    } else {
        lemma_escaped_front(s);
        lemma_unescape_escape(s.skip(1));
        let e = escaped(s);
        let head = escape_byte(s[0]);
        let tail = escaped(s.skip(1));
        assert(e == head + tail);
        if escape_code(s[0]) is Some {
            assert(e[0] == backslash() && e[1] == escape_code(s[0]).unwrap());
            assert(e.skip(2) =~= tail);
        } else {
            assert(e[0] == s[0]);
            assert(e.skip(1) =~= tail);
        }
        assert(unescaped(e) =~= s);
    }
}

/// The packages the `AUTH` command names.
#[derive(Debug, Clone, Copy, PartialEq, Eq, Structural)]
pub enum AuthPackage {
    GateKeeper,
    GateKeeperPassport,
    Ntlm,
    NtlmPassport,
}

/// The bytes of a package's name on the wire.
pub open spec fn package_name_bytes(p: AuthPackage) -> Seq<u8> {
    match p {
        AuthPackage::GateKeeper => seq![71u8, 97, 116, 101, 75, 101, 101, 112, 101, 114],
        AuthPackage::GateKeeperPassport => seq![71u8, 97, 116, 101, 75, 101, 101, 112, 101, 114, 80, 97,
            115, 115, 112, 111, 114, 116],
        AuthPackage::Ntlm => seq![78u8, 84, 76, 77],
        AuthPackage::NtlmPassport => seq![78u8, 84, 76, 77, 80, 97, 115, 115, 112, 111, 114, 116],
    }
}

/// The package whose name a byte string is, if any.
pub open spec fn package_named(b: Seq<u8>) -> Option<AuthPackage> {
    if b == package_name_bytes(AuthPackage::GateKeeper) {
        Some(AuthPackage::GateKeeper)
    } else if b == package_name_bytes(AuthPackage::GateKeeperPassport) {
        Some(AuthPackage::GateKeeperPassport)
    } else if b == package_name_bytes(AuthPackage::Ntlm) {
        Some(AuthPackage::Ntlm)
    } else if b == package_name_bytes(AuthPackage::NtlmPassport) {
        Some(AuthPackage::NtlmPassport)
    } else {
        None
    }
}

impl AuthPackage {
    /// The package's name on the wire: "GateKeeper", "GateKeeperPassport", "NTLM" or
    /// "NTLMPassport".
    pub fn name_bytes(&self) -> (r: Vec<u8>)
        ensures
            r@ == package_name_bytes(*self),
    {
        let v: Vec<u8> = match self {
            AuthPackage::GateKeeper => vec![71u8, 97, 116, 101, 75, 101, 101, 112, 101, 114],
            AuthPackage::GateKeeperPassport => vec![71u8, 97, 116, 101, 75, 101, 101, 112, 101, 114, 80, 97,
                115, 115, 112, 111, 114, 116],
            AuthPackage::Ntlm => vec![78u8, 84, 76, 77],
            AuthPackage::NtlmPassport => vec![78u8, 84, 76, 77, 80, 97, 115, 115, 112, 111, 114, 116],
        };
        proof {
            assert(v@ =~= package_name_bytes(*self));
        }
        v
    }
}

/// The position of the first `b` in `s`, if any.
#[verifier::opaque]
pub open spec fn first_index_of(s: Seq<u8>, b: u8) -> Option<int> {
    if exists|i: int| 0 <= i < s.len() && s[i] == b {
        Some(choose|i: int| 0 <= i < s.len() && s[i] == b && forall|j: int| 0 <= j < i ==> s[j] != b)
    } else {
        None
    }
}

/// The first `b` is at `k` when `b` is there and nowhere before.
proof fn lemma_first_index_is(s: Seq<u8>, b: u8, k: int)
    requires
        0 <= k < s.len(),
        s[k] == b,
        forall|j: int| 0 <= j < k ==> s[j] != b,
    ensures
        first_index_of(s, b) == Some(k),
{
    reveal(first_index_of);
    let c = choose|i: int| 0 <= i < s.len() && s[i] == b && forall|j: int| 0 <= j < i ==> s[j] != b;
    assert(0 <= k < s.len() && s[k] == b && forall|j: int| 0 <= j < k ==> s[j] != b);
    if c < k {
        assert(s[c] != b);
    } else if c > k {
        assert(s[k] != b);
    }
}

/// There is no first `b` when `b` is nowhere.
proof fn lemma_first_index_none(s: Seq<u8>, b: u8)
    requires
        forall|j: int| 0 <= j < s.len() ==> s[j] != b,
    ensures
        first_index_of(s, b) is None,
{
    reveal(first_index_of);
}

/// Finds the first `b` in `s`.
fn find_byte(s: &[u8], b: u8) -> (r: Option<usize>)
    ensures
        match r {
            Some(i) => i < s@.len() && first_index_of(s@, b) == Some(i as int),
            None => first_index_of(s@, b) is None,
        },
{
    let n = s.len();
    let mut i: usize = 0;
    while i < n
        invariant
            n == s@.len(),
            i <= n,
            forall|j: int| 0 <= j < i ==> s@[j] != b,
        decreases n - i,
    {
        if s[i] == b {
            proof {
                lemma_first_index_is(s@, b, i as int);
            }
            return Some(i);
        }
        i = i + 1;
    }
    proof {
        lemma_first_index_none(s@, b);
    }
    None
}

/// The stage byte and payload after the package name: the stage runs to the next space
/// (or the end) and must start with `I` or `S`; a leading `:` of the payload is dropped.
pub open spec fn parsed_stage_payload(rest2: Seq<u8>) -> Option<(u8, Seq<u8>)> {
    let (stage_bytes, payload_part) = match first_index_of(rest2, 32) {
        Some(j) => (rest2.take(j), rest2.skip(j + 1)),
        None => (rest2, Seq::<u8>::empty()),
    };
    if stage_bytes.len() == 0 || (stage_bytes[0] != 73 && stage_bytes[0] != 83) {
        None
    } else {
        let payload = if payload_part.len() > 0 && payload_part[0] == 58 {
            payload_part.skip(1)
        } else {
            payload_part
        };
        Some((stage_bytes[0], payload))
    }
}

/// The package, stage byte and payload an `AUTH` line carries:
/// `AUTH <package> <stage>[ [:]<payload>]`, the package one of the four names.
pub open spec fn parsed_auth_line(line: Seq<u8>) -> Option<(AuthPackage, u8, Seq<u8>)> {
    if !(line.len() >= 5 && line.take(5) == seq![65u8, 85, 84, 72, 32]) {
        None
    } else {
        let rest = line.skip(5);
        match first_index_of(rest, 32) {
            None => None,
            Some(sp1) => match package_named(rest.take(sp1)) {
                None => None,
                Some(pkg) => match parsed_stage_payload(rest.skip(sp1 + 1)) {
                    None => None,
                    Some((stage, payload)) => Some((pkg, stage, payload)),
                },
            },
        }
    }
}

/// Parses the stage and payload that follow the package name.
fn parse_stage_payload(rest2: Vec<u8>) -> (r: Option<(u8, Vec<u8>)>)
    ensures
        match parsed_stage_payload(rest2@) {
            None => r is None,
            Some((stage, payload)) => r is Some && r.unwrap().0 == stage && r.unwrap().1@ == payload,
        },
{
    let ghost r2 = rest2@;
    let (stage_bytes, payload_part) = match find_byte(rest2.as_slice(), 32) {
        Some(j) => {
            assert(j < rest2@.len());
            let a = crate::bytes::copy_range(rest2.as_slice(), 0, j);
            let b = crate::bytes::copy_range(rest2.as_slice(), j + 1, rest2.len());
            assert(a@ =~= r2.take(j as int));
            assert(b@ =~= r2.skip(j + 1));
            (a, b)
        },
        None => (rest2, Vec::new()),
    };
    if stage_bytes.len() == 0 {
        return None;
    }
    let stage = stage_bytes[0];
    if stage != 73 && stage != 83 {
        return None;
    }
    let payload = if payload_part.len() > 0 && payload_part[0] == 58 {
        let p = crate::bytes::copy_range(payload_part.as_slice(), 1, payload_part.len());
        assert(p@ =~= payload_part@.skip(1));
        p
    } else {
        payload_part
    };
    Some((stage, payload))
}

/// The package named by `b`, compared byte for byte.
fn package_of(b: &[u8]) -> (r: Option<AuthPackage>)
    ensures
        r == package_named(b@),
{
    let gk = AuthPackage::GateKeeper.name_bytes();
    let gkp = AuthPackage::GateKeeperPassport.name_bytes();
    let ntlm = AuthPackage::Ntlm.name_bytes();
    let ntlmp = AuthPackage::NtlmPassport.name_bytes();
    if crate::bytes::bytes_equal(b, gk.as_slice()) {
        Some(AuthPackage::GateKeeper)
    } else if crate::bytes::bytes_equal(b, gkp.as_slice()) {
        Some(AuthPackage::GateKeeperPassport)
    } else if crate::bytes::bytes_equal(b, ntlm.as_slice()) {
        Some(AuthPackage::Ntlm)
    } else if crate::bytes::bytes_equal(b, ntlmp.as_slice()) {
        Some(AuthPackage::NtlmPassport)
    } else {
        None
    }
}

/// Parses an `AUTH` line into its package, stage (`'I'` or `'S'`) and payload.
pub fn parse_auth_line(line: &[u8]) -> (r: Option<(AuthPackage, char, Vec<u8>)>)
    ensures
        match parsed_auth_line(line@) {
            None => r is None,
            Some((pkg, stage, payload)) => r is Some && r.unwrap().0 == pkg && r.unwrap().1 == (stage as char)
                && r.unwrap().2@ == payload,
        },
{
    if line.len() < 5 {
        return None;
    }
    let head = crate::bytes::copy_range(line, 0, 5);
    let auth: Vec<u8> = vec![65u8, 85, 84, 72, 32];
    assert(head@ =~= line@.take(5));
    assert(auth@ =~= seq![65u8, 85, 84, 72, 32]);
    if !crate::bytes::bytes_equal(head.as_slice(), auth.as_slice()) {
        return None;
    }
    let rest = crate::bytes::copy_range(line, 5, line.len());
    assert(rest@ =~= line@.skip(5));
    let sp1 = match find_byte(rest.as_slice(), 32) {
        Some(i) => i,
        None => return None,
    };
    let pkg_bytes = crate::bytes::copy_range(rest.as_slice(), 0, sp1);
    assert(pkg_bytes@ =~= rest@.take(sp1 as int));
    let pkg = match package_of(pkg_bytes.as_slice()) {
        Some(p) => p,
        None => return None,
    };
    let rest2 = crate::bytes::copy_range(rest.as_slice(), sp1 + 1, rest.len());
    assert(rest2@ =~= rest@.skip(sp1 + 1));
    match parse_stage_payload(rest2) {
        Some((stage, payload)) => Some((pkg, stage as char, payload)),
        None => None,
    }
}

/// Whether a byte ends a line: CR or LF.
pub open spec fn is_line_end(b: u8) -> bool {
    b == 13 || b == 10
}

/// Whether a segment holds nothing but spaces and tabs.
pub open spec fn is_blank(s: Seq<u8>) -> bool {
    forall|i: int| 0 <= i < s.len() ==> (s[i] == 32 || s[i] == 9 || s[i] == 13 || s[i] == 10)
}

/// Scans `s` from `i`, the current line having begun at `start`: the non-blank lines that
/// end in `s` from there, and where the unfinished tail begins.
pub open spec fn scan_lines(s: Seq<u8>, start: int, i: int) -> (Seq<Seq<u8>>, int)
    decreases s.len() - i,
{
    if i >= s.len() || i < 0 {
        (Seq::empty(), start)
    } else if is_line_end(s[i]) {
        let (ls, st) = scan_lines(s, i + 1, i + 1);
        if !is_blank(s.subrange(start, i)) {
            (seq![s.subrange(start, i)] + ls, st)
        } else {
            (ls, st)
        }
    } else {
        scan_lines(s, start, i + 1)
    }
}

/// Scanning `s + b` up to the end of `s` finds what scanning `s` finds, and then goes on
/// from where the unfinished line of `s` began.
proof fn lemma_scan_prefix(s: Seq<u8>, b: Seq<u8>, start: int, i: int)
    requires
        0 <= start <= i <= s.len(),
    ensures
        ({
            let inner = scan_lines(s, start, i);
            let outer = scan_lines(s + b, inner.1, s.len() as int);
            &&& scan_lines(s + b, start, i).0 == inner.0 + outer.0
            &&& scan_lines(s + b, start, i).1 == outer.1
        }),
    decreases s.len() - i,
{
    let t = s + b;
    if i == s.len() {
        assert(scan_lines(s, start, i).0 =~= Seq::<Seq<u8>>::empty());
        assert(scan_lines(t, start, i).0 =~= Seq::<Seq<u8>>::empty() + scan_lines(t, start, i).0);
    } else {
        assert(t[i] == s[i]);
        if is_line_end(s[i]) {
            lemma_scan_prefix(s, b, i + 1, i + 1);
            assert(t.subrange(start, i) =~= s.subrange(start, i));
            let inner = scan_lines(s, i + 1, i + 1);
            let outer = scan_lines(t, inner.1, s.len() as int);
            if !is_blank(s.subrange(start, i)) {
                assert(seq![s.subrange(start, i)] + (inner.0 + outer.0) =~= (seq![s.subrange(start, i)] + inner.0) + outer.0);
            }
        } else {
            lemma_scan_prefix(s, b, start, i + 1);
        }
    }
}

/// Scanning is the same on the bytes from `d` on, all positions moved back by `d`.
proof fn lemma_scan_shift(s: Seq<u8>, d: int, start: int, i: int)
    requires
        0 <= d <= start <= i,
        d <= s.len(),
    ensures
        scan_lines(s.skip(d), start - d, i - d).0 == scan_lines(s, start, i).0,
        scan_lines(s.skip(d), start - d, i - d).1 + d == scan_lines(s, start, i).1,
    decreases s.len() - i,
{
    let t = s.skip(d);
    if i >= s.len() {
    } else {
        assert(t[i - d] == s[i]);
        if is_line_end(s[i]) {
            lemma_scan_shift(s, d, i + 1, i + 1);
            assert(t.subrange(start - d, i - d) =~= s.subrange(start, i));
            assert((i - d) + 1 == (i + 1) - d);
        } else {
            lemma_scan_shift(s, d, start, i + 1);
            assert((i - d) + 1 == (i + 1) - d);
        }
    }
}

/// Bytes that end no line move the scan on without finding a line.
proof fn lemma_scan_skip_plain(s: Seq<u8>, start: int, i: int, j: int)
    requires
        0 <= start <= i <= j <= s.len(),
        forall|k: int| i <= k < j ==> !is_line_end(#[trigger] s[k]),
    ensures
        scan_lines(s, start, i) == scan_lines(s, start, j),
    decreases j - i,
{
    if i < j {
        lemma_scan_skip_plain(s, start, i + 1, j);
    }
}

/// The unfinished tail a scan leaves holds no line end.
proof fn lemma_scan_tail(s: Seq<u8>, start: int, i: int)
    requires
        0 <= start <= i <= s.len(),
        forall|k: int| start <= k < i ==> !is_line_end(#[trigger] s[k]),
    ensures
        start <= scan_lines(s, start, i).1 <= s.len(),
        forall|k: int| scan_lines(s, start, i).1 <= k < s.len() ==> !is_line_end(#[trigger] s[k]),
    decreases s.len() - i,
{
    if i < s.len() {
        if is_line_end(s[i]) {
            lemma_scan_tail(s, i + 1, i + 1);
        } else {
            lemma_scan_tail(s, start, i + 1);
        }
    }
}

/// Feeding a buffer holding `pending` first `a` and then `b` hands out the same lines, in
/// the same order, and leaves the same bytes buffered as feeding it `a + b` at once.
pub proof fn lemma_feed_in_pieces(pending: Seq<u8>, a: Seq<u8>, b: Seq<u8>)
    ensures
        ({
            let first = scan_lines(pending + a, 0, 0);
            let mid = (pending + a).skip(first.1);
            let second = scan_lines(mid + b, 0, 0);
            let whole = scan_lines(pending + a + b, 0, 0);
            &&& whole.0 == first.0 + second.0
            &&& (pending + a + b).skip(whole.1) == (mid + b).skip(second.1)
        }),
{
    let s = pending + a;
    let full = s + b;
    let first = scan_lines(s, 0, 0);
    let t1 = first.1;
    let mid = s.skip(t1);
    lemma_scan_prefix(s, b, 0, 0);
    lemma_scan_tail(s, 0, 0);
    lemma_scan_shift(full, t1, t1, s.len() as int);
    assert(full.skip(t1) =~= mid + b);
    let m = mid + b;
    assert forall|k: int| 0 <= k < s.len() - t1 implies !is_line_end(#[trigger] m[k]) by {
        assert(m[k] == s[k + t1]);
    }
    lemma_scan_skip_plain(m, 0, 0, s.len() - t1);
    let second = scan_lines(m, 0, 0);
    lemma_scan_tail(m, 0, 0);
    assert(scan_lines(full, 0, 0).1 == second.1 + t1);
    assert(full.skip(second.1 + t1) =~= m.skip(second.1));
}

/// Buffers an incoming byte stream and cuts it into lines at CR and LF.
pub struct LineBuffer {
    buffer: Vec<u8>,
}

impl View for LineBuffer {
    type V = Seq<u8>;

    /// The bytes received but not yet part of a finished line.
    closed spec fn view(&self) -> Seq<u8> {
        self.buffer@
    }
}

impl LineBuffer {
    /// An empty buffer.
    pub fn new() -> (r: Self)
        ensures
            r@ == Seq::<u8>::empty(),
    {
        LineBuffer { buffer: Vec::new() }
    }

    /// Appends `data` and hands out every line it finishes, in order, except lines of
    /// nothing but spaces and tabs; the unfinished tail stays buffered.
    pub fn feed(&mut self, data: &[u8]) -> (r: Vec<Vec<u8>>)
        ensures
            ({
                let s = old(self)@ + data@;
                let (ls, st) = scan_lines(s, 0, 0);
                &&& r@.len() == ls.len()
                &&& forall|k: int| 0 <= k < ls.len() ==> #[trigger] r@[k]@ == ls[k]
                &&& final(self)@ == s.skip(st)
            }),
    {
        let ghost s = self.buffer@ + data@;
        crate::bytes::push_all(&mut self.buffer, data);
        assert(self.buffer@ =~= s);
        let n = self.buffer.len();
        let mut lines: Vec<Vec<u8>> = Vec::new();
        let mut start: usize = 0;
        let mut i: usize = 0;
        let ghost all = scan_lines(s, 0, 0);
        while i < n
            invariant
                self.buffer@ == s,
                n == s.len(),
                start <= i <= n,
                forall|k: int| start <= k < i ==> !is_line_end(#[trigger] s[k]),
                ({
                    let (rest, st) = scan_lines(s, start as int, i as int);
                    &&& all.1 == st
                    &&& all.0.len() == lines@.len() + rest.len()
                    &&& forall|k: int| 0 <= k < lines@.len() ==> #[trigger] lines@[k]@ == all.0[k]
                    &&& forall|k: int| 0 <= k < rest.len() ==> #[trigger] rest[k] == all.0[lines@.len() + k]
                }),
            decreases n - i,
        {
            let b = self.buffer[i];
            if b == 13 || b == 10 {
                let seg = crate::bytes::copy_range(self.buffer.as_slice(), start, i);
                let ghost old_lines = lines@;
                if !blank_bytes(seg.as_slice()) {
                    lines.push(seg);
                }
                proof {
                    assert(seg@ == s.subrange(start as int, i as int));
                    let (ls, st) = scan_lines(s, i + 1, i + 1);
                    if !is_blank(s.subrange(start as int, i as int)) {
                        assert(scan_lines(s, start as int, i as int).0 =~= seq![s.subrange(start as int, i as int)] + ls);
                        assert forall|k: int| 0 <= k < ls.len() implies #[trigger] ls[k] == all.0[lines@.len() + k] by {
                            assert(scan_lines(s, start as int, i as int).0[k + 1] == ls[k]);
                        }
                        assert(lines@[old_lines.len() as int]@ == all.0[old_lines.len() as int]) by {
                            assert(scan_lines(s, start as int, i as int).0[0] == s.subrange(start as int, i as int));
                        }
                    }
                }
                start = i + 1;
            }
            i = i + 1;
        }
        proof {
            assert(scan_lines(s, start as int, n as int).0 =~= Seq::<Seq<u8>>::empty());
        }
        let tail = crate::bytes::copy_range(self.buffer.as_slice(), start, n);
        assert(tail@ =~= s.skip(start as int));
        self.buffer = tail;
        lines
    }
}

/// Whether a byte string holds nothing but spaces, tabs, CR and LF.
fn blank_bytes(b: &[u8]) -> (r: bool)
    ensures
        r == is_blank(b@),
{
    let n = b.len();
    let mut i: usize = 0;
    while i < n
        invariant
            n == b@.len(),
            i <= n,
            forall|k: int| 0 <= k < i ==> (b@[k] == 32 || b@[k] == 9 || b@[k] == 13 || b@[k] == 10),
        decreases n - i,
    {
        let c = b[i];
        if !(c == 32 || c == 9 || c == 13 || c == 10) {
            return false;
        }
        i = i + 1;
    }
    true
}

/// `AUTH <package> <stage> :<escaped token>`: the command that carries a token.
pub open spec fn auth_command(pkg: AuthPackage, stage: u8, token: Seq<u8>) -> Seq<u8> {
    seq![65u8, 85, 84, 72, 32] + package_name_bytes(pkg) + seq![32u8, stage, 32u8, 58u8] + escaped(token)
}

/// `AUTH <package> * <username> 0`: the reply that reports a finished login.
pub open spec fn success_line(pkg: AuthPackage, username: Seq<u8>) -> Seq<u8> {
    seq![65u8, 85, 84, 72, 32] + package_name_bytes(pkg) + seq![32u8, 42u8, 32u8] + username + seq![32u8, 48u8]
}

/// `:server 910 * :Auth failed`: the reply that reports a refused login.
pub open spec fn failure_line() -> Seq<u8> {
    seq![58u8, 115, 101, 114, 118, 101, 114, 32, 57, 49, 48, 32, 42, 32, 58, 65, 117, 116, 104, 32, 102, 97,
        105, 108, 101, 100]
}

/// Builds the command that carries a token: stage `I` opens a login, `S` continues it
/// (the server answers continuing logins with stage `S` as well).
pub fn auth_command_line(pkg: AuthPackage, stage: u8, token: &[u8]) -> (r: Vec<u8>)
    ensures
        r@ == auth_command(pkg, stage, token@),
{
    let mut out: Vec<u8> = vec![65u8, 85, 84, 72, 32];
    let name = pkg.name_bytes();
    crate::bytes::push_all(&mut out, name.as_slice());
    out.push(32);
    out.push(stage);
    out.push(32);
    out.push(58);
    let esc = escape(token);
    crate::bytes::push_all(&mut out, esc.as_slice());
    proof {
        assert(out@ =~= auth_command(pkg, stage, token@));
    }
    out
}

/// Builds the reply that reports a finished login for `username`.
pub fn success_reply(pkg: AuthPackage, username: &str) -> (r: Vec<u8>)
    ensures
        r@ == success_line(pkg, vstd::utf8::encode_utf8(username@)),
{
    let mut out: Vec<u8> = vec![65u8, 85, 84, 72, 32];
    let name = pkg.name_bytes();
    crate::bytes::push_all(&mut out, name.as_slice());
    out.push(32);
    out.push(42);
    out.push(32);
    crate::bytes::push_all(&mut out, username.as_bytes());
    out.push(32);
    out.push(48);
    proof {
        assert(out@ =~= success_line(pkg, vstd::utf8::encode_utf8(username@)));
    }
    out
}

/// Builds the reply that reports a refused login.
pub fn failure_reply() -> (r: Vec<u8>)
    ensures
        r@ == failure_line(),
{
    let v: Vec<u8> = vec![58u8, 115, 101, 114, 118, 101, 114, 32, 57, 49, 48, 32, 42, 32, 58, 65, 117, 116, 104,
        32, 102, 97, 105, 108, 101, 100];
    proof {
        assert(v@ =~= failure_line());
    }
    v
}

/// The token a continuing reply `AUTH <package> S :<escaped token>` carries, if the line
/// is one for that package.
pub open spec fn reply_token(line: Seq<u8>, pkg: AuthPackage) -> Option<Seq<u8>> {
    let prefix = seq![65u8, 85, 84, 72, 32] + package_name_bytes(pkg) + seq![32u8, 83u8, 32u8, 58u8];
    if line.len() >= prefix.len() && line.take(prefix.len() as int) == prefix {
        Some(unescaped(line.skip(prefix.len() as int)))
    } else {
        None
    }
}

/// Reads the token out of a continuing reply for `pkg`.
pub fn parse_continue_reply(line: &[u8], pkg: AuthPackage) -> (r: Option<Vec<u8>>)
    ensures
        match reply_token(line@, pkg) {
            Some(t) => r is Some && r.unwrap()@ == t,
            None => r is None,
        },
{
    let mut prefix: Vec<u8> = vec![65u8, 85, 84, 72, 32];
    let name = pkg.name_bytes();
    crate::bytes::push_all(&mut prefix, name.as_slice());
    prefix.push(32);
    prefix.push(83);
    prefix.push(32);
    prefix.push(58);
    assert(prefix@ =~= seq![65u8, 85, 84, 72, 32] + package_name_bytes(pkg) + seq![32u8, 83u8, 32u8, 58u8]);
    let n = prefix.len();
    if line.len() < n {
        return None;
    }
    let head = crate::bytes::copy_range(line, 0, n);
    assert(head@ =~= line@.take(n as int));
    if !crate::bytes::bytes_equal(head.as_slice(), prefix.as_slice()) {
        return None;
    }
    let rest = crate::bytes::copy_range(line, n, line.len());
    assert(rest@ =~= line@.skip(n as int));
    Some(unescape(rest.as_slice()))
}

/// Drops every CR byte of a line read from the stream.
pub fn drop_cr(bytes: &[u8]) -> (r: Vec<u8>)
    ensures
        r@ == bytes@.filter(|b: u8| b != 13),
{
    let mut out: Vec<u8> = Vec::new();
    let n = bytes.len();
    let mut i: usize = 0;
    while i < n
        invariant
            n == bytes@.len(),
            i <= n,
            out@ == bytes@.take(i as int).filter(|b: u8| b != 13),
        decreases n - i,
    {
        if bytes[i] != 13 {
            out.push(bytes[i]);
        }
        proof {
            reveal(Seq::filter);
            assert(bytes@.take(i + 1).drop_last() =~= bytes@.take(i as int));
        }
        i = i + 1;
    }
    assert(bytes@.take(n as int) =~= bytes@);
    out
}

/// An escaped string holds no space.
proof fn lemma_escaped_has_no_space(s: Seq<u8>)
    ensures
        forall|i: int| 0 <= i < escaped(s).len() ==> escaped(s)[i] != 32,
    decreases s.len(),
{
    if s.len() > 0 {
        lemma_escaped_has_no_space(s.drop_last());
        let e = escaped(s);
        let a = escaped(s.drop_last());
        let b = escape_byte(s.last());
        assert(e == a + b);
        assert forall|i: int| 0 <= i < e.len() implies e[i] != 32 by {
            if i < a.len() {
                assert(e[i] == a[i]);
            } else {
                assert(e[i] == b[i - a.len()]);
            }
        }
    }
}

/// The first space of `prefix + seq![32] + rest` is the one after `prefix` when
/// `prefix` has none.
proof fn lemma_first_space(prefix: Seq<u8>, rest: Seq<u8>)
    requires
        forall|i: int| 0 <= i < prefix.len() ==> prefix[i] != 32,
    ensures
        first_index_of(prefix + seq![32u8] + rest, 32) == Some(prefix.len() as int),
{
    let s = prefix + seq![32u8] + rest;
    let k = prefix.len() as int;
    assert forall|j: int| 0 <= j < k implies s[j] != 32 by {
        assert(s[j] == prefix[j]);
    }
    lemma_first_index_is(s, 32, k);
}

/// The stage and payload part of a command is read back as its stage and escaped token.
proof fn lemma_stage_payload_roundtrip(stage: u8, esc: Seq<u8>)
    requires
        stage == 73 || stage == 83,
    ensures
        parsed_stage_payload(seq![stage] + seq![32u8] + (seq![58u8] + esc)) == Some((stage, esc)),
{
    let rest2 = seq![stage] + seq![32u8] + (seq![58u8] + esc);
    lemma_first_space(seq![stage], seq![58u8] + esc);
    assert(rest2.take(1) =~= seq![stage]);
    assert(rest2.skip(2) =~= seq![58u8] + esc);
    assert((seq![58u8] + esc).skip(1) =~= esc);
}

/// A command that carries a token is read back by the parser as that package and stage,
/// with the escaped token as payload; unescaping that payload gives the token back.
pub proof fn lemma_auth_command_roundtrip(pkg: AuthPackage, stage: u8, token: Seq<u8>)
    requires
        stage == 73 || stage == 83,
    ensures
        parsed_auth_line(auth_command(pkg, stage, token)) == Some((pkg, stage, escaped(token))),
        unescaped(escaped(token)) == token,
{
    let line = auth_command(pkg, stage, token);
    let name = package_name_bytes(pkg);
    let esc = escaped(token);
    let tail = seq![stage, 32u8, 58u8] + esc;
    assert(line =~= seq![65u8, 85, 84, 72, 32] + (name + seq![32u8] + tail));
    assert(line.take(5) =~= seq![65u8, 85, 84, 72, 32]);
    let rest = line.skip(5);
    assert(rest =~= name + seq![32u8] + tail);
    assert(forall|i: int| 0 <= i < name.len() ==> name[i] != 32);
    lemma_first_space(name, tail);
    assert(rest.take(name.len() as int) =~= name);
    assert(package_named(name) == Some(pkg));
    assert(rest.skip(name.len() as int + 1) =~= tail);
    assert(tail =~= seq![stage] + seq![32u8] + (seq![58u8] + esc));
    lemma_stage_payload_roundtrip(stage, esc);
    lemma_unescape_escape(token);
}

} // verus!
