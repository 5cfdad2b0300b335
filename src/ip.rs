use vstd::prelude::*;

verus! {

/// Length of an IPv4 header without options.
pub const IPV4_HDR_LEN: usize = 20;

/// The 16-bit value of the big-endian byte pair `hi`, `lo`.
pub open spec fn be16(hi: u8, lo: u8) -> u16 {
    (hi * 0x100 + lo) as u16
}

/// Reads the big-endian 16-bit word at `bytes[i]`, `bytes[i + 1]`.
pub fn read_be16(bytes: &[u8], i: usize) -> (r: u16)
    requires
        i + 1 < bytes@.len(),
    ensures
        r == be16(bytes@[i as int], bytes@[i as int + 1]),
{
    (bytes[i] as u16) * 0x100 + bytes[i + 1] as u16
}

/// The fixed 20-byte IPv4 header at the start of a received datagram.
#[derive(Debug, Clone, Copy)]
pub struct HdrIpv4 {
    pub vers_ihl: u8,
    pub dcsp_ecn: u8,
    pub len: u16,
    pub id: u16,
    pub flags_off: u16,
    pub ttl: u8,
    pub protocol: u8,
    pub checksum: u16,
    pub src_addr: [u8; 4],
    pub dst_addr: [u8; 4],
}

impl HdrIpv4 {
    /// Whether `self` holds the header fields read from `b`.
    pub open spec fn read_from(self, b: Seq<u8>) -> bool {
        &&& b.len() >= IPV4_HDR_LEN
        &&& self.vers_ihl == b[0]
        &&& self.dcsp_ecn == b[1]
        &&& self.len == be16(b[2], b[3])
        &&& self.id == be16(b[4], b[5])
        &&& self.flags_off == be16(b[6], b[7])
        &&& self.ttl == b[8]
        &&& self.protocol == b[9]
        &&& self.checksum == be16(b[10], b[11])
        &&& self.src_addr@ == b.subrange(12, 16)
        &&& self.dst_addr@ == b.subrange(16, 20)
    }

    /// Parses the header at the start of `bytes`; `None` when fewer than
    /// 20 bytes are given. The header checksum is not validated.
    pub fn parse(bytes: &[u8]) -> (r: Option<HdrIpv4>)
        ensures
            r is None <==> bytes@.len() < IPV4_HDR_LEN,
            r matches Some(h) ==> h.read_from(bytes@),
    {
        if bytes.len() < IPV4_HDR_LEN {
            return None;
        }
        let h = HdrIpv4 {
            vers_ihl: bytes[0],
            dcsp_ecn: bytes[1],
            len: read_be16(bytes, 2),
            id: read_be16(bytes, 4),
            flags_off: read_be16(bytes, 6),
            ttl: bytes[8],
            protocol: bytes[9],
            checksum: read_be16(bytes, 10),
            src_addr: [bytes[12], bytes[13], bytes[14], bytes[15]],
            dst_addr: [bytes[16], bytes[17], bytes[18], bytes[19]],
        };
        assert(h.src_addr@ =~= bytes@.subrange(12, 16));
        assert(h.dst_addr@ =~= bytes@.subrange(16, 20));
        Some(h)
    }
}

} // verus!
