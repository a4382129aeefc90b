//! Byte formats of the stored records: the little-endian list of meme ids
//! kept per user, and the per-user daily generation counter.

use vstd::prelude::*;

verus! {

/// Little-endian bytes of a 64-bit value.
pub open spec fn u64_le(v: u64) -> Seq<u8> {
    seq![
        (v & 0xff) as u8,
        ((v >> 8u64) & 0xff) as u8,
        ((v >> 16u64) & 0xff) as u8,
        ((v >> 24u64) & 0xff) as u8,
        ((v >> 32u64) & 0xff) as u8,
        ((v >> 40u64) & 0xff) as u8,
        ((v >> 48u64) & 0xff) as u8,
        ((v >> 56u64) & 0xff) as u8,
    ]
}

/// Little-endian bytes of a 32-bit value.
pub open spec fn u32_le(v: u32) -> Seq<u8> {
    seq![
        (v & 0xff) as u8,
        ((v >> 8u32) & 0xff) as u8,
        ((v >> 16u32) & 0xff) as u8,
        ((v >> 24u32) & 0xff) as u8,
    ]
}

/// The 64-bit value whose little-endian bytes are `b[at..at + 8]`.
pub open spec fn u64_from_le(b: Seq<u8>, at: int) -> u64 {
    u64_compose(b[at], b[at + 1], b[at + 2], b[at + 3], b[at + 4], b[at + 5], b[at + 6], b[at + 7])
}

/// The 32-bit value whose little-endian bytes are `b[at..at + 4]`.
pub open spec fn u32_from_le(b: Seq<u8>, at: int) -> u32 {
    u32_compose(b[at], b[at + 1], b[at + 2], b[at + 3])
}

pub open spec fn u64_compose(b0: u8, b1: u8, b2: u8, b3: u8, b4: u8, b5: u8, b6: u8, b7: u8) -> u64 {
    (b0 as u64) | ((b1 as u64) << 8u64) | ((b2 as u64) << 16u64) | ((b3 as u64) << 24u64) | ((
    b4 as u64) << 32u64) | ((b5 as u64) << 40u64) | ((b6 as u64) << 48u64) | ((b7 as u64)
        << 56u64)
}

pub open spec fn u32_compose(b0: u8, b1: u8, b2: u8, b3: u8) -> u32 {
    (b0 as u32) | ((b1 as u32) << 8u32) | ((b2 as u32) << 16u32) | ((b3 as u32) << 24u32)
}

/// Reading back the little-endian bytes of a 64-bit value gives the value.
pub proof fn lemma_u64_le_roundtrip(v: u64)
    ensures
        u64_from_le(u64_le(v), 0) == v,
{
    let b = u64_le(v);
    assert(u64_compose(
        (v & 0xff) as u8,
        ((v >> 8u64) & 0xff) as u8,
        ((v >> 16u64) & 0xff) as u8,
        ((v >> 24u64) & 0xff) as u8,
        ((v >> 32u64) & 0xff) as u8,
        ((v >> 40u64) & 0xff) as u8,
        ((v >> 48u64) & 0xff) as u8,
        ((v >> 56u64) & 0xff) as u8,
    ) == v) by (bit_vector);
}

/// Reading back the little-endian bytes of a 32-bit value gives the value.
pub proof fn lemma_u32_le_roundtrip(v: u32)
    ensures
        u32_from_le(u32_le(v), 0) == v,
{
    assert(u32_compose(
        (v & 0xff) as u8,
        ((v >> 8u32) & 0xff) as u8,
        ((v >> 16u32) & 0xff) as u8,
        ((v >> 24u32) & 0xff) as u8,
    ) == v) by (bit_vector);
}

/// Appends the little-endian bytes of `v` to `out`.
fn push_u64_le(out: &mut Vec<u8>, v: u64)
    ensures
        final(out)@ == old(out)@ + u64_le(v),
{
    let ghost start = out@;
    out.push((v & 0xff) as u8);
    out.push(((v >> 8u64) & 0xff) as u8);
    out.push(((v >> 16u64) & 0xff) as u8);
    out.push(((v >> 24u64) & 0xff) as u8);
    out.push(((v >> 32u64) & 0xff) as u8);
    out.push(((v >> 40u64) & 0xff) as u8);
    out.push(((v >> 48u64) & 0xff) as u8);
    out.push(((v >> 56u64) & 0xff) as u8);
    assert(out@ =~= start + u64_le(v));
}

/// Appends the little-endian bytes of `v` to `out`.
fn push_u32_le(out: &mut Vec<u8>, v: u32)
    ensures
        final(out)@ == old(out)@ + u32_le(v),
{
    let ghost start = out@;
    out.push((v & 0xff) as u8);
    out.push(((v >> 8u32) & 0xff) as u8);
    out.push(((v >> 16u32) & 0xff) as u8);
    out.push(((v >> 24u32) & 0xff) as u8);
    assert(out@ =~= start + u32_le(v));
}

/// Reads the little-endian 64-bit value at `b[at..at + 8]`.
fn read_u64_le(b: &[u8], at: usize) -> (r: u64)
    requires
        at + 8 <= b@.len(),
    ensures
        r == u64_from_le(b@, at as int),
{
    (b[at] as u64) | ((b[at + 1] as u64) << 8u64) | ((b[at + 2] as u64) << 16u64) | ((b[at
        + 3] as u64) << 24u64) | ((b[at + 4] as u64) << 32u64) | ((b[at + 5] as u64) << 40u64)
        | ((b[at + 6] as u64) << 48u64) | ((b[at + 7] as u64) << 56u64)
}

/// Reads the little-endian 32-bit value at `b[at..at + 4]`.
fn read_u32_le(b: &[u8], at: usize) -> (r: u32)
    requires
        at + 4 <= b@.len(),
    ensures
        r == u32_from_le(b@, at as int),
{
    (b[at] as u32) | ((b[at + 1] as u32) << 8u32) | ((b[at + 2] as u32) << 16u32) | ((b[at
        + 3] as u32) << 24u32)
}

/// The concatenated little-endian bytes of a list of values.
pub open spec fn encode_items(items: Seq<u64>) -> Seq<u8>
    decreases items.len(),
{
    if items.len() == 0 {
        Seq::empty()
    } else {
        encode_items(items.drop_last()) + u64_le(items.last())
    }
}

proof fn lemma_encode_items_len(items: Seq<u64>)
    ensures
        encode_items(items).len() == 8 * items.len(),
    decreases items.len(),
{
    if items.len() > 0 {
        lemma_encode_items_len(items.drop_last());
    }
}

proof fn lemma_encode_items_at(items: Seq<u64>, i: int, j: int)
    requires
        0 <= i < items.len(),
        0 <= j < 8,
    ensures
        encode_items(items).len() == 8 * items.len(),
        encode_items(items)[8 * i + j] == u64_le(items[i])[j],
    decreases items.len(),
{
    lemma_encode_items_len(items);
    lemma_encode_items_len(items.drop_last());
    if i < items.len() - 1 {
        lemma_encode_items_at(items.drop_last(), i, j);
    }
}

/// A list of meme ids in the fixed byte layout of the store: a little-endian
/// 32-bit count followed by each id as 8 little-endian bytes; at most
/// `MAX_LEN` ids are written.
#[derive(Clone, Debug, Default)]
pub struct StorableVecU64(pub Vec<u64>);

/// The greatest number of ids that the byte layout holds.
pub const MAX_LEN: usize = 1024;

/// The byte layout of a list: its count (at most `MAX_LEN`) and that many ids.
pub open spec fn encoded_list(items: Seq<u64>) -> Seq<u8> {
    let n = if items.len() <= MAX_LEN { items.len() } else { MAX_LEN as nat };
    u32_le(n as u32) + encode_items(items.take(n as int))
}

/// The ids read back from a byte layout: none when fewer than 4 bytes are
/// given; otherwise as many whole 8-byte ids as both the declared count
/// (capped at `MAX_LEN`) and the bytes present allow.
pub open spec fn decoded_list(b: Seq<u8>) -> Seq<u64> {
    if b.len() < 4 {
        Seq::empty()
    } else {
        let declared = u32_from_le(b, 0) as int;
        let cap = if declared <= MAX_LEN { declared } else { MAX_LEN as int };
        let present = (b.len() - 4) / 8;
        let n = if cap <= present { cap } else { present };
        Seq::new(n as nat, |i: int| u64_from_le(b, 4 + 8 * i))
    }
}

impl StorableVecU64 {
    /// The number of bytes needed to hold `len` ids.
    pub fn byte_capacity_for(len: usize) -> (r: usize)
        requires
            len <= MAX_LEN,
        ensures
            r == 4 + 8 * len,
    {
        4 + 8 * len
    }

    /// Wraps a list of ids.
    pub fn new(items: Vec<u64>) -> (r: Self)
        ensures
            r.0@ == items@,
    {
        StorableVecU64(items)
    }

    /// The bytes of this list in the store's layout.
    pub fn to_bytes(&self) -> (r: Vec<u8>)
        ensures
            r@ == encoded_list(self.0@),
    {
        let len = if self.0.len() < MAX_LEN { self.0.len() } else { MAX_LEN };
        let mut bytes: Vec<u8> = Vec::with_capacity(Self::byte_capacity_for(len));
        push_u32_le(&mut bytes, len as u32);
        let mut i: usize = 0;
        while i < len
            invariant
                len <= self.0@.len(),
                len <= MAX_LEN,
                i <= len,
                bytes@ == u32_le(len as u32) + encode_items(self.0@.take(i as int)),
            decreases len - i,
        {
            let item = self.0[i];
            push_u64_le(&mut bytes, item);
            proof {
                assert(self.0@.take(i as int + 1).drop_last() =~= self.0@.take(i as int));
            }
            i += 1;
        }
        proof {
            assert(len as nat == if self.0@.len() <= MAX_LEN { self.0@.len() } else { MAX_LEN as nat });
        }
        bytes
    }

    /// The bytes of this list in the store's layout, consuming it.
    pub fn into_bytes(self) -> (r: Vec<u8>)
        ensures
            r@ == encoded_list(self.0@),
    {
        self.to_bytes()
    }

    /// Reads a list back from its bytes; malformed or short input yields the
    /// ids that can be read, possibly none.
    pub fn from_bytes(b: &[u8]) -> (r: Self)
        ensures
            r.0@ == decoded_list(b@),
    {
        if b.len() < 4 {
            return StorableVecU64(Vec::new());
        }
        let declared = read_u32_le(b, 0) as usize;
        let len = if declared < MAX_LEN { declared } else { MAX_LEN };
        let mut v: Vec<u64> = Vec::with_capacity(len);
        let mut i: usize = 0;
        while i < len && 12 + i * 8 <= b.len()
            invariant
                len <= MAX_LEN,
                i <= len,
                4 + 8 * i <= b@.len(),
                v@ == Seq::new(i as nat, |k: int| u64_from_le(b@, 4 + 8 * k)),
            decreases len - i,
        {
            let item = read_u64_le(b, 4 + i * 8);
            v.push(item);
            i += 1;
            assert(v@ =~= Seq::new(i as nat, |k: int| u64_from_le(b@, 4 + 8 * k)));
        }
        proof {
            let declared_s = u32_from_le(b@, 0) as int;
            let cap = if declared_s <= MAX_LEN { declared_s } else { MAX_LEN as int };
            assert(cap == len);
            let present = (b@.len() - 4) / 8;
            if i < len {
                assert(12 + i * 8 > b@.len());
                assert(i == present);
            } else {
                assert(i <= present);
            }
            assert(decoded_list(b@) =~= v@);
        }
        StorableVecU64(v)
    }

    /// The ids of this list.
    pub fn into_vec(self) -> (r: Vec<u64>)
        ensures
            r@ == self.0@,
    {
        self.0
    }
}

/// Reading back the bytes of a list gives its first `MAX_LEN` ids: every
/// list of at most `MAX_LEN` ids is stored without loss.
pub proof fn lemma_list_roundtrip(items: Seq<u64>)
    ensures
        decoded_list(encoded_list(items)) == items.take(
            if items.len() <= MAX_LEN { items.len() as int } else { MAX_LEN as int },
        ),
        items.len() <= MAX_LEN ==> decoded_list(encoded_list(items)) == items,
{
    let n: int = if items.len() <= MAX_LEN { items.len() as int } else { MAX_LEN as int };
    let taken = items.take(n);
    let b = encoded_list(items);
    lemma_encode_items_len(taken);
    lemma_u32_le_roundtrip(n as u32);
    assert(u32_from_le(b, 0) == u32_from_le(u32_le(n as u32), 0));
    assert forall|i: int| 0 <= i < n implies u64_from_le(b, 4 + 8 * i) == taken[i] by {
        lemma_u64_le_roundtrip(taken[i]);
        assert forall|j: int| 0 <= j < 8 implies b[4 + 8 * i + j] == u64_le(taken[i])[j] by {
            lemma_encode_items_at(taken, i, j);
        }
        assert(u64_from_le(b, 4 + 8 * i) == u64_from_le(u64_le(taken[i]), 0));
    }
    assert(decoded_list(b) =~= taken);
    if items.len() <= MAX_LEN {
        assert(taken =~= items);
    }
}

/// How many memes a user generated on a given day.
#[derive(Clone, Copy, Debug, Default)]
pub struct DayUsage {
    pub day: u64,
    pub count: u8,
}

/// The 9-byte layout of a day counter: the day in little-endian, then the count.
pub open spec fn encoded_usage(u: DayUsage) -> Seq<u8> {
    u64_le(u.day).push(u.count)
}

impl DayUsage {
    /// The 9 bytes of this counter.
    pub fn to_bytes(&self) -> (r: Vec<u8>)
        ensures
            r@ == encoded_usage(*self),
    {
        let mut bytes: Vec<u8> = Vec::with_capacity(9);
        push_u64_le(&mut bytes, self.day);
        bytes.push(self.count);
        bytes
    }

    /// The 9 bytes of this counter, consuming it.
    pub fn into_bytes(self) -> (r: Vec<u8>)
        ensures
            r@ == encoded_usage(self),
    {
        self.to_bytes()
    }

    /// Reads a counter back; any input that is not exactly 9 bytes long gives
    /// the zero counter.
    pub fn from_bytes(b: &[u8]) -> (r: Self)
        ensures
            b@.len() != 9 ==> r.day == 0 && r.count == 0,
            b@.len() == 9 ==> r.day == u64_from_le(b@, 0) && r.count == b@[8],
    {
        if b.len() != 9 {
            return DayUsage { day: 0, count: 0 };
        }
        DayUsage { day: read_u64_le(b, 0), count: b[8] }
    }
}

/// Reading back the bytes of a day counter gives the counter.
pub proof fn lemma_usage_roundtrip(u: DayUsage)
    ensures
        encoded_usage(u).len() == 9,
        u64_from_le(encoded_usage(u), 0) == u.day,
        encoded_usage(u)[8] == u.count,
{
    lemma_u64_le_roundtrip(u.day);
    assert(u64_from_le(encoded_usage(u), 0) == u64_from_le(u64_le(u.day), 0));
}

} // verus!
