use vstd::prelude::*;

use crate::ip::{be16, read_be16, HdrIpv4, IPV4_HDR_LEN};
use crate::socket::SocketError;
use crate::util::{
    checksum_of, copy_range, extend_bytes, ip_checksum, lemma_checksum_self_inverting, put_word,
    CHECKSUM_MAX_LEN,
};

verus! {

/// Length of the ICMP Echo header.
pub const ICMP_HDR_LEN: usize = 8;

/// How many unexpected packets one request cycle tolerates.
pub const MAX_RECV_RETRIES: u8 = 8;

pub const ECHO_REQUEST: u8 = 8;

pub const ECHO_REQUEST_CODE: u8 = 0;

pub const ECHO_REPLY: u8 = 0;

pub const ECHO_REPLY_CODE: u8 = 0;

pub const DEST_UNREACHABLE: u8 = 3;

pub const HOST_UNREACHABLE_CODE: u8 = 1;

/// The two big-endian bytes of `v`.
pub open spec fn be_bytes(v: u16) -> Seq<u8> {
    seq![(v / 0x100) as u8, (v % 0x100) as u8]
}

/// An Echo Request message with its checksum field still zero.
pub open spec fn echo_request_unchecked(pid: u16, sequence: u16, payload: Seq<u8>) -> Seq<u8> {
    seq![ECHO_REQUEST, ECHO_REQUEST_CODE, 0u8, 0u8] + be_bytes(pid) + be_bytes(sequence) + payload
}

/// The Echo Request message as sent: the checksum of the message with a zero
/// checksum field, written big-endian into that field.
pub open spec fn echo_request_wire(pid: u16, sequence: u16, payload: Seq<u8>) -> Seq<u8> {
    let m = echo_request_unchecked(pid, sequence, payload);
    put_word(m, 2, checksum_of(m))
}

/// Type and code of an Echo Reply whose identifier and sequence are those of
/// the request.
pub open spec fn is_matching_reply(b: Seq<u8>, pid: u16, sequence: u16) -> bool {
    &&& b[0] == ECHO_REPLY
    &&& b[1] == ECHO_REPLY_CODE
    &&& be16(b[4], b[5]) == pid
    &&& be16(b[6], b[7]) == sequence
}

/// Type and code of a Destination Host Unreachable message.
pub open spec fn is_host_unreachable(b: Seq<u8>) -> bool {
    b[0] == DEST_UNREACHABLE && b[1] == HOST_UNREACHABLE_CODE
}

/// Why a received datagram produced no outcome.
#[derive(Debug, Clone, Copy, PartialEq, Eq, Structural)]
pub enum ResponseError {
    /// A packet that answers no request of this cycle; the cycle waits again.
    UnexpectedPacket,
    /// The datagram is shorter than an IPv4 header.
    MalformedHeader,
    /// The ICMP part is shorter than an ICMP header.
    TruncatedMessage,
    /// Too many unexpected packets arrived in one cycle.
    RetriesExceeded,
    /// The raw socket could not be created.
    SocketCreationFailed(SocketError),
    /// Sending the request failed.
    Send(SocketError),
    /// Receiving failed for a reason other than the timeout.
    Receive(SocketError),
}

/// A decoded ICMP message.
#[derive(Debug, Clone)]
pub struct IcmpMessage {
    pub icmp_type: u8,
    pub code: u8,
    pub checksum: u16,
    pub identifier: u16,
    pub sequence: u16,
    pub payload: Vec<u8>,
}

impl IcmpMessage {
    /// Whether `self` holds the fields of the ICMP message `b`.
    pub open spec fn read_from(self, b: Seq<u8>) -> bool {
        &&& b.len() >= ICMP_HDR_LEN
        &&& self.icmp_type == b[0]
        &&& self.code == b[1]
        &&& self.checksum == be16(b[2], b[3])
        &&& self.identifier == be16(b[4], b[5])
        &&& self.sequence == be16(b[6], b[7])
        &&& self.payload@ == b.subrange(ICMP_HDR_LEN as int, b.len() as int)
    }

    /// Decodes an ICMP message; fails when it is shorter than its header.
    pub fn decode(bytes: &[u8]) -> (r: Result<IcmpMessage, ResponseError>)
        ensures
            r is Err <==> bytes@.len() < ICMP_HDR_LEN,
            r matches Err(e) ==> e == ResponseError::TruncatedMessage,
            r matches Ok(m) ==> m.read_from(bytes@),
    {
        if bytes.len() < ICMP_HDR_LEN {
            return Err(ResponseError::TruncatedMessage);
        }
        Ok(IcmpMessage {
            icmp_type: bytes[0],
            code: bytes[1],
            checksum: read_be16(bytes, 2),
            identifier: read_be16(bytes, 4),
            sequence: read_be16(bytes, 6),
            payload: copy_range(bytes, ICMP_HDR_LEN, bytes.len()),
        })
    }
}

proof fn lemma_be16_of_be_bytes(v: u16)
    ensures
        be16(be_bytes(v)[0], be_bytes(v)[1]) == v,
{
    assert(v == (v / 0x100) * 0x100 + v % 0x100);
}

/// Decoding an encoded Echo Request gives back its identifier, sequence
/// number and payload, with the Echo Request type and code.
pub proof fn lemma_round_trip(pid: u16, sequence: u16, payload: Seq<u8>)
    requires
        payload.len() + ICMP_HDR_LEN <= CHECKSUM_MAX_LEN,
    ensures
        echo_request_wire(pid, sequence, payload).len() >= ICMP_HDR_LEN,
        forall|m: IcmpMessage| #[trigger]
            m.read_from(echo_request_wire(pid, sequence, payload)) ==> {
                &&& m.icmp_type == ECHO_REQUEST
                &&& m.code == ECHO_REQUEST_CODE
                &&& m.identifier == pid
                &&& m.sequence == sequence
                &&& m.payload@ == payload
            },
{
    let w = echo_request_wire(pid, sequence, payload);
    lemma_be16_of_be_bytes(pid);
    lemma_be16_of_be_bytes(sequence);
    assert(w[4] == be_bytes(pid)[0] && w[5] == be_bytes(pid)[1]);
    assert(w[6] == be_bytes(sequence)[0] && w[7] == be_bytes(sequence)[1]);
    assert(w.subrange(ICMP_HDR_LEN as int, w.len() as int) =~= payload);
}

/// The outcome of one request cycle.
#[derive(Debug, Clone)]
pub enum Response {
    /// The matching Echo Reply: source address, sequence number, TTL, round
    /// trip time in microseconds and the reply's payload.
    EchoReply { addr: [u8; 4], seq: u16, ttl: u8, rtt_micros: u64, data: Vec<u8> },
    /// The destination host was reported unreachable.
    HostUnreachable,
    /// No reply arrived within the timeout.
    Dropped,
}

impl Response {
    /// Whether `self` is the Echo Reply built from the ICMP message `b` with
    /// the given source address, sequence number, TTL and round trip time:
    /// its data is the payload of `b`, the bytes after the ICMP header.
    pub open spec fn is_echo_reply(self, b: Seq<u8>, addr: Seq<u8>, seq: u16, ttl: u8, rtt: u64) -> bool {
        &&& self matches Response::EchoReply { addr: a, seq: s, ttl: t, rtt_micros: x, data }
        &&& a@ == addr
        &&& s == seq
        &&& t == ttl
        &&& x == rtt
        &&& data@ == b.subrange(ICMP_HDR_LEN as int, b.len() as int)
    }

    /// Classifies the ICMP message `bytes` received for the request with
    /// identifier `req_pid` and sequence number `req_seq`; `addr` and `ttl`
    /// come from the datagram's IPv4 header.
    pub fn parse(bytes: &[u8], req_pid: u16, req_seq: u16, addr: [u8; 4], ttl: u8, rtt_micros: u64) -> (r: Result<Response, ResponseError>)
        ensures
            bytes@.len() < ICMP_HDR_LEN ==> r == Err::<Response, ResponseError>(ResponseError::TruncatedMessage),
            bytes@.len() >= ICMP_HDR_LEN && is_matching_reply(bytes@, req_pid, req_seq) ==> (r matches Ok(
                resp,
            ) && resp.is_echo_reply(bytes@, addr@, req_seq, ttl, rtt_micros)),
            bytes@.len() >= ICMP_HDR_LEN && !is_matching_reply(bytes@, req_pid, req_seq) && is_host_unreachable(bytes@)
                ==> r == Ok::<Response, ResponseError>(Response::HostUnreachable),
            bytes@.len() >= ICMP_HDR_LEN && !is_matching_reply(bytes@, req_pid, req_seq) && !is_host_unreachable(bytes@)
                ==> r == Err::<Response, ResponseError>(ResponseError::UnexpectedPacket),
    {
        let msg = match IcmpMessage::decode(bytes) {
            Ok(m) => m,
            Err(e) => return Err(e),
        };
        if msg.icmp_type == ECHO_REPLY && msg.code == ECHO_REPLY_CODE && msg.identifier == req_pid
            && msg.sequence == req_seq {
            Ok(Response::EchoReply { addr, seq: msg.sequence, ttl, rtt_micros, data: msg.payload })
        } else if msg.icmp_type == DEST_UNREACHABLE && msg.code == HOST_UNREACHABLE_CODE {
            Ok(Response::HostUnreachable)
        } else {
            Err(ResponseError::UnexpectedPacket)
        }
    }
}

/// What the request cycle does after one receive.
#[derive(Debug)]
pub enum ReplyStep {
    /// The cycle ends with this outcome.
    Finished(Response),
    /// Wait for another datagram; holds the number of unexpected packets so far.
    AwaitAgain(u8),
    /// The cycle fails.
    Failed(ResponseError),
}

/// One Echo Request: destination address, identifier, sequence number,
/// payload and receive timeout in milliseconds.
#[derive(Debug)]
pub struct Request {
    pub dst_addr: [u8; 4],
    pub pid: u16,
    pub seq: u16,
    pub payload: Vec<u8>,
    pub timeout: i32,
}

impl Request {
    pub fn new(dst_addr: [u8; 4], pid: u16, seq: u16, payload: Vec<u8>, timeout: i32) -> (r: Request)
        ensures
            r.dst_addr == dst_addr,
            r.pid == pid,
            r.seq == seq,
            r.payload == payload,
            r.timeout == timeout,
    {
        Request { dst_addr, pid, seq, payload, timeout }
    }

    /// Encodes the request as an ICMP Echo Request message.
    pub fn pack(&self) -> (r: Vec<u8>)
        requires
            self.payload@.len() + ICMP_HDR_LEN <= CHECKSUM_MAX_LEN,
        ensures
            r@ == echo_request_wire(self.pid, self.seq, self.payload@),
            checksum_of(r@) == 0,
    {
        let mut packet: Vec<u8> = Vec::new();
        packet.push(ECHO_REQUEST);
        packet.push(ECHO_REQUEST_CODE);
        packet.push(0u8);
        packet.push(0u8);
        packet.push((self.pid / 0x100) as u8);
        packet.push((self.pid % 0x100) as u8);
        packet.push((self.seq / 0x100) as u8);
        packet.push((self.seq % 0x100) as u8);
        extend_bytes(&mut packet, self.payload.as_slice());
        let ghost unchecked = echo_request_unchecked(self.pid, self.seq, self.payload@);
        assert(packet@ =~= unchecked);

        // Checksum over the message with a zero checksum field
        let checksum = ip_checksum(packet.as_slice());
        packet[2] = (checksum / 0x100) as u8;
        packet[3] = (checksum % 0x100) as u8;
        assert(packet@ =~= put_word(unchecked, 2, checksum));
        proof {
            lemma_checksum_self_inverting(unchecked, 2);
        }
        packet
    }

    /// How long the next receive of the cycle may wait, in milliseconds,
    /// once `waited_ms` have passed since the request was sent: one deadline
    /// covers every receive of the cycle.
    pub fn receive_wait(&self, waited_ms: u64) -> (r: i32)
        ensures
            r == if self.timeout > waited_ms {
                self.timeout - waited_ms
            } else {
                0
            },
    {
        if self.timeout <= 0 || waited_ms >= self.timeout as u64 {
            0
        } else {
            self.timeout - waited_ms as i32
        }
    }

    /// Decides the next step of the cycle after a receive, when `retries`
    /// unexpected packets have arrived so far. `received` is the datagram,
    /// IPv4 header included, or the transport's failure; `rtt_micros` the
    /// time since the request was sent.
    pub fn on_receive(&self, retries: u8, received: Result<Vec<u8>, SocketError>, rtt_micros: u64) -> (r: ReplyStep)
        requires
            retries < MAX_RECV_RETRIES,
        ensures
            match received {
                Err(e) => if e == SocketError::TimedOut {
                    r == ReplyStep::Finished(Response::Dropped)
                } else {
                    r == ReplyStep::Failed(ResponseError::Receive(e))
                },
                Ok(d) => if d@.len() < IPV4_HDR_LEN {
                    r == ReplyStep::Failed(ResponseError::MalformedHeader)
                } else {
                    let b = d@.subrange(IPV4_HDR_LEN as int, d@.len() as int);
                    if b.len() < ICMP_HDR_LEN {
                        r == ReplyStep::Failed(ResponseError::TruncatedMessage)
                    } else if is_matching_reply(b, self.pid, self.seq) {
                        r matches ReplyStep::Finished(resp) && resp.is_echo_reply(
                            b,
                            d@.subrange(12, 16),
                            self.seq,
                            d@[8],
                            rtt_micros,
                        )
                    } else if is_host_unreachable(b) {
                        r == ReplyStep::Finished(Response::HostUnreachable)
                    } else if retries + 1 < MAX_RECV_RETRIES {
                        r == ReplyStep::AwaitAgain((retries + 1) as u8)
                    } else {
                        r == ReplyStep::Failed(ResponseError::RetriesExceeded)
                    }
                },
            },
    {
        let datagram = match received {
            Ok(d) => d,
            Err(SocketError::TimedOut) => return ReplyStep::Finished(Response::Dropped),
            Err(e) => return ReplyStep::Failed(ResponseError::Receive(e)),
        };
        let hdr = match HdrIpv4::parse(datagram.as_slice()) {
            Some(h) => h,
            None => return ReplyStep::Failed(ResponseError::MalformedHeader),
        };
        let icmp = copy_range(datagram.as_slice(), IPV4_HDR_LEN, datagram.len());
        match Response::parse(icmp.as_slice(), self.pid, self.seq, hdr.src_addr, hdr.ttl, rtt_micros) {
            Ok(resp) => ReplyStep::Finished(resp),
            Err(ResponseError::UnexpectedPacket) => {
                if retries + 1 < MAX_RECV_RETRIES {
                    ReplyStep::AwaitAgain(retries + 1)
                } else {
                    ReplyStep::Failed(ResponseError::RetriesExceeded)
                }
            },
            Err(e) => ReplyStep::Failed(e),
        }
    }
}

} // verus!
