//! Generic-netlink message codec.
//!
//! A netlink message is a 16-byte header (length, type, flags, sequence,
//! port id, all little-endian on the supported hosts), followed for
//! generic-netlink commands by a 4-byte header (command, version, reserved)
//! and a stream of type/length/value attributes. Each attribute is a 2-byte
//! length (header included), a 2-byte id, the payload, and padding up to a
//! 4-byte boundary. A container attribute nests a further attribute stream
//! inside its payload.
//!
//! Decoding never fails: a truncated or malformed tail simply ends the
//! walk, and the attributes read so far stand. Lookup in a decoded table
//! follows the last-occurrence-wins policy: when one message repeats an
//! attribute id, the payload seen last is the one reported.

use vstd::prelude::*;

use crate::ScanError;

verus! {

/// Netlink message type of an acknowledgement or error message.
pub const NLMSG_ERROR: u16 = 2;

/// Netlink message type of the terminator of a multi-message dump.
pub const NLMSG_DONE: u16 = 3;

/// Flag on every request.
pub const NLM_F_REQUEST: u16 = 1;

/// Flag asking the kernel to acknowledge a request.
pub const NLM_F_ACK: u16 = 4;

/// Flag pair asking for a full dump.
pub const NLM_F_DUMP: u16 = 0x300;

/// Generic-netlink protocol version used by every nl80211 request.
pub const GENL_VERSION: u8 = 1;

/// The two high bits of a raw attribute id carry the nested and
/// network-byte-order flags; the id proper is the low 14 bits.
pub const NLA_ID_MASK: u16 = 0x3fff;

/// The value of the 16-bit little-endian integer at `pos`.
pub open spec fn spec_le16(b: Seq<u8>, pos: int) -> u16 {
    (b[pos] + 0x100 * b[pos + 1]) as u16
}

/// The value of the 32-bit little-endian integer at `pos`.
pub open spec fn spec_le32(b: Seq<u8>, pos: int) -> u32 {
    (b[pos] + 0x100 * b[pos + 1] + 0x1_0000 * b[pos + 2] + 0x100_0000 * b[pos + 3]) as u32
}

/// The value of the 64-bit little-endian integer at `pos`.
pub open spec fn spec_le64(b: Seq<u8>, pos: int) -> u64 {
    (spec_le32(b, pos) + 0x1_0000_0000 * spec_le32(b, pos + 4)) as u64
}

/// `n` rounded up to the next multiple of 4.
pub open spec fn spec_align4(n: int) -> int {
    if n % 4 == 0 {
        n
    } else {
        n + (4 - n % 4)
    }
}

/// The attribute stream of `b` starting at `pos`, as (id, payload) pairs
/// in order of appearance. The walk ends cleanly at the first truncated
/// or undersized attribute header.
pub open spec fn spec_parse_attrs(b: Seq<u8>, pos: int) -> Seq<(u16, Seq<u8>)>
    decreases b.len() - pos,
{
    if pos < 0 || pos + 4 > b.len() {
        Seq::empty()
    } else {
        let alen = spec_le16(b, pos) as int;
        let id = spec_le16(b, pos + 2) & NLA_ID_MASK;
        if alen < 4 || pos + alen > b.len() {
            Seq::empty()
        } else {
            let entry = (id, b.subrange(pos + 4, pos + alen));
            let next = pos + spec_align4(alen);
            if next <= b.len() {
                seq![entry] + spec_parse_attrs(b, next)
            } else {
                seq![entry]
            }
        }
    }
}

/// The payload of the last entry carrying `id`, if any.
pub open spec fn spec_attr_lookup(entries: Seq<(u16, Seq<u8>)>, id: u16) -> Option<Seq<u8>>
    decreases entries.len(),
{
    if entries.len() == 0 {
        None
    } else if entries.last().0 == id {
        Some(entries.last().1)
    } else {
        spec_attr_lookup(entries.drop_last(), id)
    }
}

/// The mathematical contents of a vector of (id, payload) pairs.
pub open spec fn spec_entries_view(entries: Seq<(u16, Vec<u8>)>) -> Seq<(u16, Seq<u8>)> {
    Seq::new(entries.len(), |i: int| (entries[i].0, entries[i].1@))
}

/// Read the 16-bit little-endian integer at `pos`.
pub fn read_le16(b: &Vec<u8>, pos: usize) -> (r: u16)
    requires
        pos + 2 <= b.len(),
    ensures
        r == spec_le16(b@, pos as int),
{
    b[pos] as u16 + 0x100 * (b[pos + 1] as u16)
}

/// Read the 32-bit little-endian integer at `pos`.
pub fn read_le32(b: &Vec<u8>, pos: usize) -> (r: u32)
    requires
        pos + 4 <= b.len(),
    ensures
        r == spec_le32(b@, pos as int),
{
    b[pos] as u32 + 0x100 * (b[pos + 1] as u32) + 0x1_0000 * (b[pos + 2] as u32) + 0x100_0000 * (
    b[pos + 3] as u32)
}

/// Read the 64-bit little-endian integer at `pos`.
pub fn read_le64(b: &Vec<u8>, pos: usize) -> (r: u64)
    requires
        pos + 8 <= b.len(),
    ensures
        r == spec_le64(b@, pos as int),
{
    let lo = read_le32(b, pos);
    let hi = read_le32(b, pos + 4);
    lo as u64 + 0x1_0000_0000 * (hi as u64)
}

/// Round `n` up to the next multiple of 4.
pub fn align4(n: usize) -> (r: usize)
    requires
        n + 3 <= usize::MAX,
    ensures
        r == spec_align4(n as int),
        n <= r <= n + 3,
{
    if n % 4 == 0 {
        n
    } else {
        n + (4 - n % 4)
    }
}

/// Copy of `b[from..to]` as a fresh vector.
pub fn copy_range(b: &Vec<u8>, from: usize, to: usize) -> (r: Vec<u8>)
    requires
        from <= to <= b.len(),
    ensures
        r@ == b@.subrange(from as int, to as int),
{
    let mut r: Vec<u8> = Vec::new();
    let mut i: usize = from;
    while i < to
        invariant
            from <= i <= to <= b.len(),
            r@ == b@.subrange(from as int, i as int),
        decreases to - i,
    {
        r.push(b[i]);
        assert(r@ =~= b@.subrange(from as int, (i + 1) as int));
        i = i + 1;
    }
    r
}

/// A decoded attribute stream: the (id, payload) pairs in order of
/// appearance on the wire.
pub struct AttributeTable {
    pub entries: Vec<(u16, Vec<u8>)>,
}

impl View for AttributeTable {
    type V = Seq<(u16, Seq<u8>)>;

    open spec fn view(&self) -> Seq<(u16, Seq<u8>)> {
        spec_entries_view(self.entries@)
    }
}

impl AttributeTable {
    /// Decode the attribute stream of `b` starting at `start`.
    pub fn decode(b: &Vec<u8>, start: usize) -> (t: AttributeTable)
        ensures
            t@ == spec_parse_attrs(b@, start as int),
    {
        let mut entries: Vec<(u16, Vec<u8>)> = Vec::new();
        if start >= b.len() {
            let t = AttributeTable { entries };
            assert(t@ =~= spec_parse_attrs(b@, start as int));
            return t;
        }
        let mut pos: usize = start;
        loop
            invariant_except_break
                spec_entries_view(entries@) + spec_parse_attrs(b@, pos as int)
                    == spec_parse_attrs(b@, start as int),
            invariant
                start <= pos <= b.len(),
            ensures
                spec_entries_view(entries@) == spec_parse_attrs(b@, start as int),
            decreases b@.len() - pos,
        {
            let ghost acc = spec_entries_view(entries@);
            if b.len() - pos < 4 {
                assert(acc =~= acc + spec_parse_attrs(b@, pos as int));
                break ;
            }
            let alen = read_le16(b, pos) as usize;
            let id = read_le16(b, pos + 2) & NLA_ID_MASK;
            if alen < 4 || alen > b.len() - pos {
                assert(acc =~= acc + spec_parse_attrs(b@, pos as int));
                break ;
            }
            let payload = copy_range(b, pos + 4, pos + alen);
            entries.push((id, payload));
            proof {
                assert(spec_entries_view(entries@) =~= acc + seq![
                    (id, b@.subrange(pos + 4, pos + alen)),
                ]);
            }
            let step = align4(alen);
            if step > b.len() - pos {
                proof {
                    let entry = (id, b@.subrange(pos + 4, pos + alen));
                    assert(spec_parse_attrs(b@, pos as int) =~= seq![entry]);
                    assert(spec_entries_view(entries@) =~= acc + spec_parse_attrs(b@, pos as int));
                }
                break ;
            }
            proof {
                let entry = (id, b@.subrange(pos + 4, pos + alen));
                let next = pos + spec_align4(alen as int);
                assert(spec_parse_attrs(b@, pos as int) =~= seq![entry] + spec_parse_attrs(
                    b@,
                    next,
                ));
                assert(spec_entries_view(entries@) + spec_parse_attrs(b@, next) =~= acc
                    + spec_parse_attrs(b@, pos as int));
            }
            pos = pos + step;
        }
        let t = AttributeTable { entries };
        t
    }

    /// The payload of the last attribute carrying `id`, if any.
    pub fn get(&self, id: u16) -> (r: Option<&Vec<u8>>)
        ensures
            match r {
                Some(p) => spec_attr_lookup(self@, id) == Some(p@),
                None => spec_attr_lookup(self@, id) is None,
            },
    {
        let mut i: usize = self.entries.len();
        assert(self@.take(i as int) =~= self@);
        while i > 0
            invariant
                i <= self.entries.len(),
                spec_attr_lookup(self@, id) == spec_attr_lookup(self@.take(i as int), id),
            decreases i,
        {
            i = i - 1;
            if self.entries[i].0 == id {
                assert(self@.take(i + 1).last() == (self.entries@[i as int].0,
                self.entries@[i as int].1@));
                return Some(&self.entries[i].1);
            }
            assert(self@.take(i + 1).drop_last() =~= self@.take(i as int));
        }
        assert(self@.take(0) =~= Seq::<(u16, Seq<u8>)>::empty());
        None
    }

    /// The 32-bit scalar carried by attribute `id`, if it is present with
    /// exactly that width.
    pub fn get_scalar_u32(&self, id: u16) -> (r: Result<u32, ScanError>)
        ensures
            r == spec_get_scalar_u32(self@, id),
    {
        match self.get(id) {
            Some(p) => if p.len() == 4 {
                Ok(read_le32(p, 0))
            } else {
                Err(ScanError::Decode(id))
            },
            None => Err(ScanError::Decode(id)),
        }
    }

    /// The 64-bit scalar carried by attribute `id`, if it is present with
    /// exactly that width.
    pub fn get_scalar_u64(&self, id: u16) -> (r: Result<u64, ScanError>)
        ensures
            r == spec_get_scalar_u64(self@, id),
    {
        match self.get(id) {
            Some(p) => if p.len() == 8 {
                Ok(read_le64(p, 0))
            } else {
                Err(ScanError::Decode(id))
            },
            None => Err(ScanError::Decode(id)),
        }
    }

    /// The signed 32-bit scalar carried by attribute `id`, if it is present
    /// with exactly that width.
    pub fn get_scalar_i32(&self, id: u16) -> (r: Result<i32, ScanError>)
        ensures
            r == spec_get_scalar_i32(self@, id),
    {
        match self.get_scalar_u32(id) {
            Ok(v) => Ok(v as i32),
            Err(e) => Err(e),
        }
    }

    /// The attribute stream nested inside attribute `id`, if present.
    pub fn get_nested(&self, id: u16) -> (r: Result<AttributeTable, ScanError>)
        ensures
            match spec_attr_lookup(self@, id) {
                Some(p) => r matches Ok(t) && t@ == spec_parse_attrs(p, 0),
                None => r == Err::<AttributeTable, ScanError>(ScanError::Decode(id)),
            },
    {
        match self.get(id) {
            Some(p) => Ok(AttributeTable::decode(p, 0)),
            None => Err(ScanError::Decode(id)),
        }
    }

    /// The payload of attribute `id` with its trailing terminator byte
    /// dropped, as a null-terminated name attribute carries it.
    pub fn get_bytes_trimmed(&self, id: u16) -> (r: Result<Vec<u8>, ScanError>)
        ensures
            match spec_attr_lookup(self@, id) {
                Some(p) => r matches Ok(v) && v@ == spec_trim_last(p),
                None => r == Err::<Vec<u8>, ScanError>(ScanError::Decode(id)),
            },
    {
        match self.get(id) {
            Some(p) => if p.len() > 0 {
                let v = copy_range(p, 0, p.len() - 1);
                assert(v@ =~= spec_trim_last(p@));
                Ok(v)
            } else {
                let v = copy_range(p, 0, 0);
                assert(v@ =~= spec_trim_last(p@));
                Ok(v)
            },
            None => Err(ScanError::Decode(id)),
        }
    }

    /// The payload of attribute `id`, if it is present with exactly `want`
    /// bytes, as a fixed-width field such as a MAC address carries it.
    pub fn get_bytes_exact(&self, id: u16, want: usize) -> (r: Result<Vec<u8>, ScanError>)
        ensures
            match spec_attr_lookup(self@, id) {
                Some(p) => if p.len() == want {
                    r matches Ok(v) && v@ == p
                } else {
                    r == Err::<Vec<u8>, ScanError>(ScanError::Decode(id))
                },
                None => r == Err::<Vec<u8>, ScanError>(ScanError::Decode(id)),
            },
    {
        match self.get(id) {
            Some(p) => if p.len() == want {
                let v = copy_range(p, 0, p.len());
                assert(v@ =~= p@);
                Ok(v)
            } else {
                Err(ScanError::Decode(id))
            },
            None => Err(ScanError::Decode(id)),
        }
    }
}

/// The result of asking table `t` for a 32-bit scalar under attribute `id`.
pub open spec fn spec_get_scalar_u32(t: Seq<(u16, Seq<u8>)>, id: u16) -> Result<u32, ScanError> {
    match spec_attr_lookup(t, id) {
        Some(p) => if p.len() == 4 {
            Ok(spec_le32(p, 0))
        } else {
            Err(ScanError::Decode(id))
        },
        None => Err(ScanError::Decode(id)),
    }
}

/// The result of asking table `t` for a 64-bit scalar under attribute `id`.
pub open spec fn spec_get_scalar_u64(t: Seq<(u16, Seq<u8>)>, id: u16) -> Result<u64, ScanError> {
    match spec_attr_lookup(t, id) {
        Some(p) => if p.len() == 8 {
            Ok(spec_le64(p, 0))
        } else {
            Err(ScanError::Decode(id))
        },
        None => Err(ScanError::Decode(id)),
    }
}

/// The result of asking table `t` for a signed 32-bit scalar under
/// attribute `id`.
pub open spec fn spec_get_scalar_i32(t: Seq<(u16, Seq<u8>)>, id: u16) -> Result<i32, ScanError> {
    match spec_get_scalar_u32(t, id) {
        Ok(v) => Ok(v as i32),
        Err(e) => Err(e),
    }
}

/// `p` with its final byte dropped; the empty sequence stays empty.
pub open spec fn spec_trim_last(p: Seq<u8>) -> Seq<u8> {
    if p.len() > 0 {
        p.drop_last()
    } else {
        p
    }
}

/// The two little-endian bytes of `v`.
pub open spec fn spec_u16_le(v: u16) -> Seq<u8> {
    seq![(v % 0x100) as u8, (v / 0x100) as u8]
}

/// The four little-endian bytes of `v`.
pub open spec fn spec_u32_le(v: u32) -> Seq<u8> {
    seq![
        (v % 0x100) as u8,
        ((v / 0x100) % 0x100) as u8,
        ((v / 0x1_0000) % 0x100) as u8,
        ((v / 0x100_0000) % 0x100) as u8,
    ]
}

/// `n` zero bytes.
pub open spec fn spec_zeros(n: nat) -> Seq<u8> {
    Seq::new(n, |i: int| 0u8)
}

/// One encoded attribute: length, id, payload, and padding up to the
/// 4-byte boundary.
pub open spec fn spec_encode_attr(id: u16, p: Seq<u8>) -> Seq<u8> {
    spec_u16_le((p.len() + 4) as u16) + spec_u16_le(id) + p + spec_zeros(
        (spec_align4(p.len() + 4 as int) - (p.len() + 4)) as nat,
    )
}

/// The encoded attribute stream: each attribute in order.
pub open spec fn spec_encode_attrs(attrs: Seq<(u16, Seq<u8>)>) -> Seq<u8>
    decreases attrs.len(),
{
    if attrs.len() == 0 {
        Seq::empty()
    } else {
        spec_encode_attrs(attrs.drop_last()) + spec_encode_attr(
            attrs.last().0,
            attrs.last().1,
        )
    }
}

/// A whole request message: netlink header (length, family, flags,
/// sequence 0, port 0), generic-netlink header (command, version),
/// then the attribute stream.
pub open spec fn spec_encode_request(
    family: u16,
    flags: u16,
    cmd: u8,
    attrs: Seq<(u16, Seq<u8>)>,
) -> Seq<u8> {
    let body = seq![cmd, GENL_VERSION, 0u8, 0u8] + spec_encode_attrs(attrs);
    spec_u32_le((16 + body.len()) as u32) + spec_u16_le(family) + spec_u16_le(flags) + spec_u32_le(
        0,
    ) + spec_u32_le(0) + body
}

/// Append the two little-endian bytes of `v`.
pub fn push_u16_le(out: &mut Vec<u8>, v: u16)
    requires
        old(out)@.len() + 2 <= usize::MAX,
    ensures
        final(out)@ == old(out)@ + spec_u16_le(v),
{
    out.push((v % 0x100) as u8);
    out.push((v / 0x100) as u8);
    assert(out@ =~= old(out)@ + spec_u16_le(v));
}

/// Append the four little-endian bytes of `v`.
pub fn push_u32_le(out: &mut Vec<u8>, v: u32)
    requires
        old(out)@.len() + 4 <= usize::MAX,
    ensures
        final(out)@ == old(out)@ + spec_u32_le(v),
{
    out.push((v % 0x100) as u8);
    out.push(((v / 0x100) % 0x100) as u8);
    out.push(((v / 0x1_0000) % 0x100) as u8);
    out.push(((v / 0x100_0000) % 0x100) as u8);
    assert(out@ =~= old(out)@ + spec_u32_le(v));
}

/// The four little-endian bytes of `v` as a fresh vector, the shape every
/// 32-bit scalar attribute payload takes.
pub fn u32_payload(v: u32) -> (r: Vec<u8>)
    ensures
        r@ == spec_u32_le(v),
{
    let mut out: Vec<u8> = Vec::new();
    push_u32_le(&mut out, v);
    assert(out@ =~= spec_u32_le(v));
    out
}

/// Append one encoded attribute.
fn push_attr(out: &mut Vec<u8>, id: u16, p: &Vec<u8>)
    requires
        p@.len() + 4 <= 0xffff,
        old(out)@.len() + p@.len() + 8 <= usize::MAX,
    ensures
        final(out)@ == old(out)@ + spec_encode_attr(id, p@),
{
    let alen: u16 = (p.len() + 4) as u16;
    push_u16_le(out, alen);
    push_u16_le(out, id);
    let mut i: usize = 0;
    while i < p.len()
        invariant
            i <= p@.len(),
            out@ == old(out)@ + spec_u16_le((p@.len() + 4) as u16) + spec_u16_le(id) + p@.subrange(
                0,
                i as int,
            ),
            p@.len() + 4 <= 0xffff,
            old(out)@.len() + p@.len() + 8 <= usize::MAX,
        decreases p@.len() - i,
    {
        out.push(p[i]);
        assert(out@ =~= old(out)@ + spec_u16_le((p@.len() + 4) as u16) + spec_u16_le(id)
            + p@.subrange(0, (i + 1) as int));
        i = i + 1;
    }
    assert(p@.subrange(0, p@.len() as int) =~= p@);
    let pad: usize = align4(p.len() + 4) - (p.len() + 4);
    let mut j: usize = 0;
    while j < pad
        invariant
            j <= pad,
            pad == spec_align4(p@.len() + 4 as int) - (p@.len() + 4),
            out@ == old(out)@ + spec_u16_le((p@.len() + 4) as u16) + spec_u16_le(id) + p@
                + spec_zeros(j as nat),
            old(out)@.len() + p@.len() + 8 <= usize::MAX,
        decreases pad - j,
    {
        out.push(0);
        assert(out@ =~= old(out)@ + spec_u16_le((p@.len() + 4) as u16) + spec_u16_le(id) + p@
            + spec_zeros((j + 1) as nat));
        j = j + 1;
    }
    assert(out@ =~= old(out)@ + spec_encode_attr(id, p@));
}

/// Appending one attribute extends the encoded stream by that attribute.
proof fn lemma_encode_attrs_step(s: Seq<(u16, Seq<u8>)>, i: int)
    requires
        0 <= i < s.len(),
    ensures
        spec_encode_attrs(s.take(i + 1)) == spec_encode_attrs(s.take(i)) + spec_encode_attr(
            s[i].0,
            s[i].1,
        ),
{
    assert(s.take(i + 1).drop_last() =~= s.take(i));
    assert(s.take(i + 1).last() == s[i]);
}

/// An attribute stream whose payloads are at most `c` bytes each encodes
/// to at most `c + 7` bytes per attribute.
pub proof fn lemma_encode_attrs_len(s: Seq<(u16, Seq<u8>)>, c: int)
    requires
        forall|i: int| 0 <= i < s.len() ==> (#[trigger] s[i]).1.len() <= c,
        0 <= c,
    ensures
        spec_encode_attrs(s).len() <= s.len() * (c + 7),
    decreases s.len(),
{
    if s.len() > 0 {
        lemma_encode_attrs_len(s.drop_last(), c);
        let p = s.last().1;
        assert(spec_encode_attr(s.last().0, p).len() <= p.len() + 7);
        assert((s.len() - 1) * (c + 7) + (c + 7) == s.len() * (c + 7)) by (nonlinear_arith);
    }
}

/// The encoding of a prefix is never longer than the whole encoding.
proof fn lemma_encode_attrs_prefix_len(s: Seq<(u16, Seq<u8>)>, i: int)
    requires
        0 <= i <= s.len(),
    ensures
        spec_encode_attrs(s.take(i)).len() <= spec_encode_attrs(s).len(),
    decreases s.len() - i,
{
    if i == s.len() {
        assert(s.take(i) =~= s);
    } else {
        lemma_encode_attrs_step(s, i);
        lemma_encode_attrs_prefix_len(s, i + 1);
    }
}

/// Encode one request message carrying `cmd` and the given attributes,
/// addressed to the generic-netlink family `family`.
pub fn encode_request(family: u16, flags: u16, cmd: u8, attrs: &Vec<(u16, Vec<u8>)>) -> (r: Vec<
    u8,
>)
    requires
        forall|i: int|
            0 <= i < attrs@.len() ==> (#[trigger] attrs@[i]).1@.len() + 4 <= 0xffff,
        spec_encode_attrs(spec_entries_view(attrs@)).len() + 20 <= 0xffff,
    ensures
        r@ == spec_encode_request(family, flags, cmd, spec_entries_view(attrs@)),
{
    let ghost all = spec_entries_view(attrs@);
    let mut body: Vec<u8> = Vec::new();
    body.push(cmd);
    body.push(GENL_VERSION);
    body.push(0);
    body.push(0);
    assert(body@ =~= seq![cmd, GENL_VERSION, 0u8, 0u8] + spec_encode_attrs(all.take(0)));
    let mut i: usize = 0;
    while i < attrs.len()
        invariant
            i <= attrs@.len(),
            all == spec_entries_view(attrs@),
            forall|k: int| 0 <= k < attrs@.len() ==> (#[trigger] attrs@[k]).1@.len() + 4 <= 0xffff,
            spec_encode_attrs(all).len() + 20 <= 0xffff,
            body@ == seq![cmd, GENL_VERSION, 0u8, 0u8] + spec_encode_attrs(all.take(i as int)),
        decreases attrs@.len() - i,
    {
        proof {
            lemma_encode_attrs_prefix_len(all, i as int);
        }
        push_attr(&mut body, attrs[i].0, &attrs[i].1);
        proof {
            lemma_encode_attrs_step(all, i as int);
            assert(body@ =~= seq![cmd, GENL_VERSION, 0u8, 0u8] + spec_encode_attrs(
                all.take(i + 1),
            ));
        }
        i = i + 1;
    }
    assert(all.take(attrs@.len() as int) =~= all);
    proof {
        lemma_encode_attrs_prefix_len(all, all.len() as int);
    }
    let total: u32 = (body.len() + 16) as u32;
    let mut r: Vec<u8> = Vec::new();
    push_u32_le(&mut r, total);
    push_u16_le(&mut r, family);
    push_u16_le(&mut r, flags);
    push_u32_le(&mut r, 0);
    push_u32_le(&mut r, 0);
    r.append(&mut body);
    assert(r@ =~= spec_encode_request(family, flags, cmd, all));
    r
}

/// The encoded stream also decomposes at the front: first attribute,
/// then the rest.
proof fn lemma_encode_attrs_first(s: Seq<(u16, Seq<u8>)>)
    requires
        s.len() > 0,
    ensures
        spec_encode_attrs(s) == spec_encode_attr(s[0].0, s[0].1) + spec_encode_attrs(
            s.drop_first(),
        ),
    decreases s.len(),
{
    if s.len() == 1 {
        assert(s.drop_last() =~= Seq::<(u16, Seq<u8>)>::empty());
        assert(s.drop_first() =~= Seq::<(u16, Seq<u8>)>::empty());
        assert(spec_encode_attrs(s) =~= spec_encode_attr(s[0].0, s[0].1) + spec_encode_attrs(
            s.drop_first(),
        ));
    } else {
        lemma_encode_attrs_first(s.drop_last());
        assert(s.drop_last()[0] == s[0]);
        assert(s.drop_first().drop_last() =~= s.drop_last().drop_first());
        assert(s.drop_first().last() == s.last());
        assert(spec_encode_attrs(s) =~= spec_encode_attr(s[0].0, s[0].1) + spec_encode_attrs(
            s.drop_first(),
        ));
    }
}

/// One encoded attribute is its aligned length long, and its bytes are
/// the length, the id, the payload and the padding in place.
proof fn lemma_encode_attr_bytes(id: u16, p: Seq<u8>)
    requires
        p.len() + 4 <= 0xffff,
    ensures
        spec_encode_attr(id, p).len() == spec_align4(p.len() + 4 as int),
        spec_encode_attr(id, p)[0] == (((p.len() + 4) as u16) % 0x100) as u8,
        spec_encode_attr(id, p)[1] == (((p.len() + 4) as u16) / 0x100) as u8,
        spec_encode_attr(id, p)[2] == (id % 0x100) as u8,
        spec_encode_attr(id, p)[3] == (id / 0x100) as u8,
        forall|j: int| 0 <= j < p.len() ==> spec_encode_attr(id, p)[4 + j] == p[j],
{
    let a = spec_encode_attr(id, p);
    let alen = p.len() + 4;
    assert(spec_align4(alen as int) - alen <= 3);
    assert(a.len() == spec_align4(alen as int));
    assert forall|j: int| 0 <= j < p.len() implies a[4 + j] == p[j] by {
        assert(a[4 + j] == (spec_u16_le((alen) as u16) + spec_u16_le(id) + p)[4 + j]);
    }
}

/// Parsing directly after any prefix recovers an encoded attribute
/// stream, provided no attribute id carries the reserved flag bits.
proof fn lemma_parse_encoded_attrs(prefix: Seq<u8>, s: Seq<(u16, Seq<u8>)>)
    requires
        forall|i: int|
            0 <= i < s.len() ==> (#[trigger] s[i]).1.len() + 4 <= 0xffff && s[i].0 <= NLA_ID_MASK,
    ensures
        spec_parse_attrs(prefix + spec_encode_attrs(s), prefix.len() as int) == s,
    decreases s.len(),
{
    let b = prefix + spec_encode_attrs(s);
    let off = prefix.len() as int;
    if s.len() == 0 {
        assert(spec_encode_attrs(s) =~= Seq::<u8>::empty());
        assert(b.len() == off);
        assert(spec_parse_attrs(b, off) =~= Seq::<(u16, Seq<u8>)>::empty());
        assert(s =~= Seq::<(u16, Seq<u8>)>::empty());
    } else {
        let id = s[0].0;
        let p = s[0].1;
        let alen = p.len() + 4;
        let a0 = spec_encode_attr(id, p);
        let rest = spec_encode_attrs(s.drop_first());
        lemma_encode_attrs_first(s);
        lemma_encode_attr_bytes(id, p);
        let prefix2 = prefix + a0;
        assert(b =~= prefix2 + rest);
        assert forall|j: int| 0 <= j < a0.len() implies b[off + j] == a0[j] by {
            assert(b[off + j] == (prefix + (a0 + rest))[off + j]);
        }
        assert(spec_le16(b, off) == (b[off] + 0x100 * b[off + 1]) as u16);
        assert(b[off] + 0x100 * b[off + 1] == ((alen as u16) % 0x100) + 0x100 * ((alen
            as u16) / 0x100));
        assert(((alen as u16) % 0x100) + 0x100 * ((alen as u16) / 0x100) == alen as u16);
        assert(spec_le16(b, off) == alen as u16);
        assert(b[off + 2] + 0x100 * b[off + 3] == (id % 0x100) + 0x100 * (id / 0x100));
        assert(spec_le16(b, off + 2) == id);
        assert(id & NLA_ID_MASK == id) by {
            assert(id & 0x3fff == id) by (bit_vector)
                requires
                    id <= 0x3fff,
            ;
        }
        assert(b.subrange(off + 4, off + alen) =~= p);
        let next = off + spec_align4(alen as int);
        assert(next == prefix2.len());
        assert(next <= b.len());
        lemma_parse_encoded_attrs(prefix2, s.drop_first());
        assert(spec_parse_attrs(b, next) == s.drop_first());
        assert(spec_parse_attrs(b, off) =~= seq![(id, b.subrange(off + 4, off + alen as int))]
            + spec_parse_attrs(b, next));
        assert((id, b.subrange(off + 4, off + alen as int)) == s[0]);
        assert(seq![s[0]] + s.drop_first() =~= s);
        assert(spec_parse_attrs(b, off) =~= s);
    }
}

/// What the encoder builds, the decoder reads back: decoding the
/// attribute stream of an encoded request yields exactly the attributes
/// the request was built from. Ids must stay inside the 14-bit id space,
/// whose two flag bits the decoder strips.
pub proof fn lemma_request_round_trip(family: u16, flags: u16, cmd: u8, attrs: Seq<(u16, Seq<u8>)>)
    requires
        forall|i: int|
            0 <= i < attrs.len() ==> (#[trigger] attrs[i]).1.len() + 4 <= 0xffff && attrs[i].0
                <= NLA_ID_MASK,
    ensures
        spec_parse_attrs(spec_encode_request(family, flags, cmd, attrs), 20) == attrs,
{
    let msg = spec_encode_request(family, flags, cmd, attrs);
    let body = seq![cmd, GENL_VERSION, 0u8, 0u8] + spec_encode_attrs(attrs);
    let header = spec_u32_le((16 + body.len()) as u32) + spec_u16_le(family) + spec_u16_le(flags)
        + spec_u32_le(0) + spec_u32_le(0) + seq![cmd, GENL_VERSION, 0u8, 0u8];
    assert(header.len() == 20);
    assert(msg =~= header + spec_encode_attrs(attrs));
    lemma_parse_encoded_attrs(header, attrs);
}

/// The netlink message type at the head of message `m`.
pub open spec fn spec_msg_type(m: Seq<u8>) -> u16 {
    spec_le16(m, 4)
}

/// Whether `m` is the terminator of a multi-message dump.
pub open spec fn spec_is_done(m: Seq<u8>) -> bool {
    m.len() >= 16 && spec_msg_type(m) == NLMSG_DONE
}

/// Whether `m` is the terminator of a multi-message dump.
pub fn is_done(m: &Vec<u8>) -> (r: bool)
    ensures
        r == spec_is_done(m@),
{
    m.len() >= 16 && msg_type(m) == NLMSG_DONE
}

/// The generic-netlink command byte of message `m`.
pub open spec fn spec_msg_cmd(m: Seq<u8>) -> u8 {
    m[16]
}

/// The errno-style code an acknowledgement message carries: zero for
/// success, negative for a rejected request. `None` when `m` is not an
/// acknowledgement message.
pub open spec fn spec_ack_code(m: Seq<u8>) -> Option<i32> {
    if m.len() >= 20 && spec_msg_type(m) == NLMSG_ERROR {
        Some(spec_le32(m, 16) as i32)
    } else {
        None
    }
}

/// Read the netlink message type of `m`.
pub fn msg_type(m: &Vec<u8>) -> (r: u16)
    requires
        m@.len() >= 16,
    ensures
        r == spec_msg_type(m@),
{
    read_le16(m, 4)
}

/// Read the generic-netlink command byte of `m`.
pub fn msg_cmd(m: &Vec<u8>) -> (r: u8)
    requires
        m@.len() >= 17,
    ensures
        r == spec_msg_cmd(m@),
{
    m[16]
}

/// Read the acknowledgement code of `m`, when `m` is an acknowledgement.
pub fn ack_code(m: &Vec<u8>) -> (r: Option<i32>)
    ensures
        r == spec_ack_code(m@),
{
    if m.len() >= 20 && msg_type(m) == NLMSG_ERROR {
        Some(read_le32(m, 16) as i32)
    } else {
        None
    }
}

/// The sequence of whole netlink messages at the front of a receive
/// buffer, each cut to its declared length. The walk ends cleanly at the
/// first truncated or undersized header.
pub open spec fn spec_split_messages(b: Seq<u8>, pos: int) -> Seq<Seq<u8>>
    decreases b.len() - pos,
{
    if pos < 0 || pos + 16 > b.len() {
        Seq::empty()
    } else {
        let mlen = spec_le32(b, pos) as int;
        if mlen < 16 || pos + mlen > b.len() {
            Seq::empty()
        } else {
            let msg = b.subrange(pos, pos + mlen);
            let next = pos + spec_align4(mlen);
            if next <= b.len() {
                seq![msg] + spec_split_messages(b, next)
            } else {
                seq![msg]
            }
        }
    }
}

/// The mathematical contents of a vector of byte vectors.
pub open spec fn spec_msgs_view(v: Seq<Vec<u8>>) -> Seq<Seq<u8>> {
    Seq::new(v.len(), |i: int| v[i]@)
}

/// Every encoded attribute stream is a multiple of 4 bytes long.
proof fn lemma_encode_attrs_len_aligned(s: Seq<(u16, Seq<u8>)>)
    ensures
        spec_encode_attrs(s).len() % 4 == 0,
    decreases s.len(),
{
    if s.len() > 0 {
        lemma_encode_attrs_len_aligned(s.drop_last());
        let p = s.last().1;
        let alen = p.len() + 4;
        assert(spec_encode_attr(s.last().0, p).len() == spec_align4(alen as int));
        assert(spec_align4(alen as int) % 4 == 0);
    }
}

/// Reading back the four little-endian bytes of `v` yields `v`.
proof fn lemma_le32_of_u32_le(b: Seq<u8>, pos: int, v: u32)
    requires
        0 <= pos,
        pos + 4 <= b.len(),
        b[pos] == spec_u32_le(v)[0],
        b[pos + 1] == spec_u32_le(v)[1],
        b[pos + 2] == spec_u32_le(v)[2],
        b[pos + 3] == spec_u32_le(v)[3],
    ensures
        spec_le32(b, pos) == v,
{
    assert(v % 0x100 + 0x100 * ((v / 0x100) % 0x100) + 0x1_0000 * ((v / 0x1_0000) % 0x100)
        + 0x100_0000 * ((v / 0x100_0000) % 0x100) == v) by (bit_vector);
}

/// A buffer holding exactly one encoded request splits into that one
/// whole message: its declared length is its own length, 4-byte aligned.
pub proof fn lemma_request_is_one_message(
    family: u16,
    flags: u16,
    cmd: u8,
    attrs: Seq<(u16, Seq<u8>)>,
)
    requires
        spec_encode_attrs(attrs).len() + 20 <= 0xffff,
    ensures
        spec_split_messages(spec_encode_request(family, flags, cmd, attrs), 0) == seq![
            spec_encode_request(family, flags, cmd, attrs),
        ],
{
    let msg = spec_encode_request(family, flags, cmd, attrs);
    let body = seq![cmd, GENL_VERSION, 0u8, 0u8] + spec_encode_attrs(attrs);
    let total = (16 + body.len()) as u32;
    assert(msg.len() == 16 + body.len());
    lemma_le32_of_u32_le(msg, 0, total);
    assert(spec_le32(msg, 0) == msg.len());
    lemma_encode_attrs_len_aligned(attrs);
    assert(msg.len() % 4 == 0);
    assert(spec_align4(msg.len() as int) == msg.len());
    assert(msg.subrange(0, msg.len() as int) =~= msg);
    assert(spec_split_messages(msg, msg.len() as int) =~= Seq::<Seq<u8>>::empty());
    assert(spec_split_messages(msg, 0) =~= seq![msg]);
}

/// Split a receive buffer into the netlink messages it carries, in order.
pub fn split_messages(b: &Vec<u8>) -> (r: Vec<Vec<u8>>)
    ensures
        spec_msgs_view(r@) == spec_split_messages(b@, 0),
{
    let mut msgs: Vec<Vec<u8>> = Vec::new();
    let mut pos: usize = 0;
    loop
        invariant_except_break
            spec_msgs_view(msgs@) + spec_split_messages(b@, pos as int) == spec_split_messages(
                b@,
                0,
            ),
        invariant
            pos <= b.len(),
        ensures
            spec_msgs_view(msgs@) == spec_split_messages(b@, 0),
        decreases b@.len() - pos,
    {
        let ghost acc = spec_msgs_view(msgs@);
        if b.len() - pos < 16 {
            assert(acc =~= acc + spec_split_messages(b@, pos as int));
            break ;
        }
        let mlen_raw = read_le32(b, pos);
        if mlen_raw < 16 || mlen_raw as usize > b.len() - pos {
            assert(acc =~= acc + spec_split_messages(b@, pos as int));
            break ;
        }
        let mlen = mlen_raw as usize;
        let msg = copy_range(b, pos, pos + mlen);
        msgs.push(msg);
        proof {
            assert(spec_msgs_view(msgs@) =~= acc + seq![b@.subrange(pos as int, pos + mlen)]);
        }
        let rem = mlen % 4;
        let pad: usize = if rem == 0 {
            0
        } else {
            4 - rem
        };
        assert(mlen + pad == spec_align4(mlen as int));
        if pad > b.len() - pos - mlen {
            proof {
                assert(spec_split_messages(b@, pos as int) =~= seq![
                    b@.subrange(pos as int, pos + mlen),
                ]);
                assert(spec_msgs_view(msgs@) =~= acc + spec_split_messages(b@, pos as int));
            }
            break ;
        }
        proof {
            let next = pos + spec_align4(mlen as int);
            assert(spec_split_messages(b@, pos as int) =~= seq![
                b@.subrange(pos as int, pos + mlen),
            ] + spec_split_messages(b@, next));
            assert(spec_msgs_view(msgs@) + spec_split_messages(b@, next) =~= acc
                + spec_split_messages(b@, pos as int));
        }
        pos = pos + mlen + pad;
    }
    msgs
}

} // verus!
