//! Locating and filling buffers in a list of SSPI buffers.

use vstd::prelude::*;
use crate::types::{SecBuffer, SecBufferType};

verus! {

/// What a provider looks for in a buffer list.
#[derive(Debug, Clone, Copy, PartialEq, Eq, Structural)]
pub enum BufferQuery {
    /// A buffer of the given type.
    OfType(SecBufferType),
    /// A package-parameter buffer of exactly 16 bytes (a GateKeeper ID).
    GkId,
    /// A package-parameter buffer shorter than 16 bytes and not of 4 bytes (a hostname).
    GkHost,
    /// A package-parameter buffer of exactly 4 bytes (a version override).
    GkVersion,
    /// A buffer of any type whose bytes are not `"OK"`.
    NotOk,
}

/// The two bytes `"OK"`.
pub open spec fn ok_bytes() -> Seq<u8> {
    seq![0x4Fu8, 0x4Bu8]
}

/// Whether a buffer answers a query.
pub open spec fn query_matches(q: BufferQuery, b: SecBuffer) -> bool {
    match q {
        BufferQuery::OfType(t) => b.buffer_type == t,
        BufferQuery::GkId => b.buffer_type == SecBufferType::PkgParams && b.bytes@.len() == 16,
        BufferQuery::GkHost => b.buffer_type == SecBufferType::PkgParams && b.bytes@.len() < 16
            && b.bytes@.len() != 4,
        BufferQuery::GkVersion => b.buffer_type == SecBufferType::PkgParams && b.bytes@.len() == 4,
        BufferQuery::NotOk => b.bytes@ != ok_bytes(),
    }
}

/// `i` is the index of the first buffer at or after `start` in `s` that answers `q`.
pub open spec fn is_first_match_from(s: Seq<SecBuffer>, q: BufferQuery, start: int, i: int) -> bool {
    &&& 0 <= start <= i < s.len()
    &&& query_matches(q, s[i])
    &&& forall|j: int| start <= j < i ==> !query_matches(q, #[trigger] s[j])
}

/// The index of the first buffer at or after `start` in `s` that answers `q`, if there is one.
pub open spec fn first_match_from(s: Seq<SecBuffer>, q: BufferQuery, start: int) -> Option<int> {
    if exists|i: int| is_first_match_from(s, q, start, i) {
        Some(choose|i: int| is_first_match_from(s, q, start, i))
    } else {
        None
    }
}

/// The index of the first buffer in `s` that answers `q`, if there is one.
pub open spec fn first_match(s: Seq<SecBuffer>, q: BufferQuery) -> Option<int> {
    first_match_from(s, q, 0)
}

/// The first buffer in `s` that answers `q`, if there is one.
pub open spec fn first_buffer(s: Seq<SecBuffer>, q: BufferQuery) -> Option<SecBuffer> {
    match first_match(s, q) {
        Some(i) => Some(s[i]),
        None => None,
    }
}

/// The first match is the only index with its property.
pub proof fn lemma_first_match_is(s: Seq<SecBuffer>, q: BufferQuery, start: int, i: int)
    requires
        is_first_match_from(s, q, start, i),
    ensures
        first_match_from(s, q, start) == Some(i),
{
    let k = choose|k: int| is_first_match_from(s, q, start, k);
    assert(is_first_match_from(s, q, start, k));
    if k < i {
        assert(!query_matches(q, s[k]));
    } else if k > i {
        assert(!query_matches(q, s[i]));
    }
}

/// Without any buffer at or after `start` that answers `q` there is no match.
pub proof fn lemma_first_match_none(s: Seq<SecBuffer>, q: BufferQuery, start: int)
    requires
        forall|j: int| 0 <= start <= j < s.len() ==> !query_matches(q, #[trigger] s[j]),
    ensures
        first_match_from(s, q, start) is None,
{
}

/// Whether the buffer answers the query.
pub fn buffer_matches(q: BufferQuery, b: &SecBuffer) -> (r: bool)
    ensures
        r == query_matches(q, *b),
{
    match q {
        BufferQuery::OfType(t) => b.buffer_type == t,
        BufferQuery::GkId => b.buffer_type == SecBufferType::PkgParams && b.bytes.len() == 16,
        BufferQuery::GkHost => b.buffer_type == SecBufferType::PkgParams && b.bytes.len() < 16
            && b.bytes.len() != 4,
        BufferQuery::GkVersion => b.buffer_type == SecBufferType::PkgParams && b.bytes.len() == 4,
        BufferQuery::NotOk => {
            let is_ok = b.bytes.len() == 2 && b.bytes[0] == 0x4F && b.bytes[1] == 0x4B;
            proof {
                if is_ok {
                    assert(b.bytes@ =~= ok_bytes());
                }
            }
            !is_ok
        },
    }
}

/// Finds the index of the first buffer at or after `start` that answers the query.
pub fn find_first_from(bufs: &[SecBuffer], q: BufferQuery, start: usize) -> (r: Option<usize>)
    ensures
        match r {
            Some(i) => first_match_from(bufs@, q, start as int) == Some(i as int),
            None => first_match_from(bufs@, q, start as int) is None,
        },
{
    let mut i: usize = start;
    while i < bufs.len()
        invariant
            start <= i,
            forall|j: int| start <= j < i && j < bufs@.len() ==> !query_matches(q, #[trigger] bufs@[j]),
        decreases bufs@.len() - i,
    {
        if buffer_matches(q, &bufs[i]) {
            proof {
                lemma_first_match_is(bufs@, q, start as int, i as int);
            }
            return Some(i);
        }
        i = i + 1;
    }
    proof {
        lemma_first_match_none(bufs@, q, start as int);
    }
    None
}

/// Finds the index of the first buffer that answers the query.
pub fn find_first(bufs: &[SecBuffer], q: BufferQuery) -> (r: Option<usize>)
    ensures
        match r {
            Some(i) => first_match(bufs@, q) == Some(i as int),
            None => first_match(bufs@, q) is None,
        },
{
    find_first_from(bufs, q, 0)
}

/// `new` is `old` with the bytes of buffer `i` replaced by `bytes`.
pub open spec fn bytes_replaced(
    old: Seq<SecBuffer>,
    new: Seq<SecBuffer>,
    i: int,
    bytes: Seq<u8>,
) -> bool {
    &&& new.len() == old.len()
    &&& new[i].buffer_type == old[i].buffer_type
    &&& new[i].bytes@ == bytes
    &&& forall|j: int| 0 <= j < old.len() && j != i ==> #[trigger] new[j] == old[j]
}

/// Replaces the bytes of buffer `i`, keeping its type.
pub fn replace_bytes(bufs: &mut [SecBuffer], i: usize, bytes: Vec<u8>)
    requires
        i < old(bufs)@.len(),
    ensures
        bytes_replaced(old(bufs)@, final(bufs)@, i as int, bytes@),
{
    let t = bufs[i].buffer_type;
    bufs[i] = SecBuffer { buffer_type: t, bytes };
}

/// The two bytes `"OK"`, as a vector.
pub fn ok_vec() -> (r: Vec<u8>)
    ensures
        r@ == ok_bytes(),
{
    let mut v: Vec<u8> = Vec::new();
    v.push(0x4F);
    v.push(0x4B);
    assert(v@ =~= ok_bytes());
    v
}

/// Whether `b` holds exactly the two bytes `"OK"`.
pub fn is_ok_bytes(b: &[u8]) -> (r: bool)
    ensures
        r == (b@ == ok_bytes()),
{
    let res = b.len() == 2 && b[0] == 0x4F && b[1] == 0x4B;
    proof {
        if res {
            assert(b@ =~= ok_bytes());
        }
    }
    res
}

} // verus!
