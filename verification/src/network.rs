//! Networking bookkeeping — addresses, reliable packets with checksums,
//! connection windows and the socket state machine.

use vstd::prelude::*;

use crate::assets::{duration_as_nanos, duration_since, prefixed, system_time_now, unix_epoch};
use crate::editor::{decimal, digit_char};
use crate::numeral::{digit_value, digits_value, parse_unsigned, parsed_unsigned};


verus! {

/// Network error types
#[derive(Debug, Clone, PartialEq, Eq)]
pub enum NetworkError {
    /// Connection failed
    ConnectionFailed(String),
    /// Connection refused
    ConnectionRefused(String),
    /// Connection timed out
    ConnectionTimeout(String),
    /// Invalid address
    InvalidAddress(String),
    /// Socket error
    SocketError(String),
    /// Send failed
    SendFailed(String),
    /// Receive failed
    ReceiveFailed(String),
    /// Protocol error
    ProtocolError(String),
    /// No route to host
    NoRouteToHost(String),
    /// Already connected
    AlreadyConnected(String),
    /// Not connected
    NotConnected(String),
    /// Connection reset
    ConnectionReset(String),
    /// Connection aborted
    ConnectionAborted(String),
    /// Address already in use
    AddressAlreadyInUse(String),
    /// Network unreachable
    NetworkUnreachable(String),
    /// Host unreachable
    HostUnreachable(String),
    /// Connection already in progress
    ConnectionInProgress(String),
    /// Connection reset by peer
    ConnectionResetByPeer(String),
    /// Connection aborted by local host
    ConnectionAbortedByLocal(String),
    /// Connection refused by peer
    ConnectionRefusedByPeer(String),
    /// Connection timeout
    ConnectionTimeoutByPeer(String),
    /// Unknown error
    Unknown(String),
}

/// The display text of a network error.
pub open spec fn network_error_text(e: NetworkError) -> Seq<char> {
    match e {
        NetworkError::ConnectionFailed(m) => "Connection failed: "@ + m@,
        NetworkError::ConnectionRefused(m) => "Connection refused: "@ + m@,
        NetworkError::ConnectionTimeout(m) => "Connection timed out: "@ + m@,
        NetworkError::InvalidAddress(m) => "Invalid address: "@ + m@,
        NetworkError::SocketError(m) => "Socket error: "@ + m@,
        NetworkError::SendFailed(m) => "Send failed: "@ + m@,
        NetworkError::ReceiveFailed(m) => "Receive failed: "@ + m@,
        NetworkError::ProtocolError(m) => "Protocol error: "@ + m@,
        NetworkError::NoRouteToHost(m) => "No route to host: "@ + m@,
        NetworkError::AlreadyConnected(m) => "Already connected: "@ + m@,
        NetworkError::NotConnected(m) => "Not connected: "@ + m@,
        NetworkError::ConnectionReset(m) => "Connection reset: "@ + m@,
        NetworkError::ConnectionAborted(m) => "Connection aborted: "@ + m@,
        NetworkError::AddressAlreadyInUse(m) => "Address already in use: "@ + m@,
        NetworkError::NetworkUnreachable(m) => "Network unreachable: "@ + m@,
        NetworkError::HostUnreachable(m) => "Host unreachable: "@ + m@,
        NetworkError::ConnectionInProgress(m) => "Connection in progress: "@ + m@,
        NetworkError::ConnectionResetByPeer(m) => "Connection reset by peer: "@ + m@,
        NetworkError::ConnectionAbortedByLocal(m) => "Connection aborted by local: "@ + m@,
        NetworkError::ConnectionRefusedByPeer(m) => "Connection refused by peer: "@ + m@,
        NetworkError::ConnectionTimeoutByPeer(m) => "Connection timeout by peer: "@ + m@,
        NetworkError::Unknown(m) => "Unknown error: "@ + m@,
    }
}

impl NetworkError {
    /// The display text of the error.
    pub fn message(&self) -> (s: String)
        ensures
            s@ == network_error_text(*self),
    {
        match self {
            NetworkError::ConnectionFailed(m) => prefixed("Connection failed: ", m),
            NetworkError::ConnectionRefused(m) => prefixed("Connection refused: ", m),
            NetworkError::ConnectionTimeout(m) => prefixed("Connection timed out: ", m),
            NetworkError::InvalidAddress(m) => prefixed("Invalid address: ", m),
            NetworkError::SocketError(m) => prefixed("Socket error: ", m),
            NetworkError::SendFailed(m) => prefixed("Send failed: ", m),
            NetworkError::ReceiveFailed(m) => prefixed("Receive failed: ", m),
            NetworkError::ProtocolError(m) => prefixed("Protocol error: ", m),
            NetworkError::NoRouteToHost(m) => prefixed("No route to host: ", m),
            NetworkError::AlreadyConnected(m) => prefixed("Already connected: ", m),
            NetworkError::NotConnected(m) => prefixed("Not connected: ", m),
            NetworkError::ConnectionReset(m) => prefixed("Connection reset: ", m),
            NetworkError::ConnectionAborted(m) => prefixed("Connection aborted: ", m),
            NetworkError::AddressAlreadyInUse(m) => prefixed("Address already in use: ", m),
            NetworkError::NetworkUnreachable(m) => prefixed("Network unreachable: ", m),
            NetworkError::HostUnreachable(m) => prefixed("Host unreachable: ", m),
            NetworkError::ConnectionInProgress(m) => prefixed("Connection in progress: ", m),
            NetworkError::ConnectionResetByPeer(m) => prefixed("Connection reset by peer: ", m),
            NetworkError::ConnectionAbortedByLocal(m) => prefixed("Connection aborted by local: ", m),
            NetworkError::ConnectionRefusedByPeer(m) => prefixed("Connection refused by peer: ", m),
            NetworkError::ConnectionTimeoutByPeer(m) => prefixed("Connection timeout by peer: ", m),
            NetworkError::Unknown(m) => prefixed("Unknown error: ", m),
        }
    }
}

/// An IP address, held as its four octets (IPv4) or eight 16-bit segments (IPv6).
#[derive(Debug, Clone, Copy, PartialEq, Eq, Structural, Hash)]
pub enum IpAddress {
    V4(u8, u8, u8, u8),
    V6(u16, u16, u16, u16, u16, u16, u16, u16),
}

impl IpAddress {
    /// The IPv4 loopback address 127.0.0.1.
    pub fn localhost() -> (a: IpAddress)
        ensures
            a == IpAddress::V4(127u8, 0u8, 0u8, 1u8),
    {
        IpAddress::V4(127u8, 0u8, 0u8, 1u8)
    }

    /// Loopback: 127.0.0.0/8 for IPv4, `::1` for IPv6.
    pub open spec fn spec_is_loopback(self) -> bool {
        match self {
            IpAddress::V4(a, _, _, _) => a == 127,
            IpAddress::V6(a, b, c, d, e, f, g, h) => a == 0 && b == 0 && c == 0 && d == 0 && e == 0 && f
                == 0 && g == 0 && h == 1,
        }
    }

    /// Multicast: 224.0.0.0/4 for IPv4, ff00::/8 for IPv6.
    pub open spec fn spec_is_multicast(self) -> bool {
        match self {
            IpAddress::V4(a, _, _, _) => 224 <= a <= 239,
            IpAddress::V6(a, _, _, _, _, _, _, _) => a >= 0xff00,
        }
    }

    /// True for loopback addresses.
    pub fn is_loopback(&self) -> (b: bool)
        ensures
            b == self.spec_is_loopback(),
    {
        match self {
            IpAddress::V4(a, _, _, _) => *a == 127,
            IpAddress::V6(a, b, c, d, e, f, g, h) => *a == 0 && *b == 0 && *c == 0 && *d == 0 && *e == 0
                && *f == 0 && *g == 0 && *h == 1,
        }
    }

    /// True for multicast addresses.
    pub fn is_multicast(&self) -> (b: bool)
        ensures
            b == self.spec_is_multicast(),
    {
        match self {
            IpAddress::V4(a, _, _, _) => 224 <= *a && *a <= 239,
            IpAddress::V6(a, _, _, _, _, _, _, _) => *a >= 0xff00,
        }
    }
}

/// Network address
#[derive(Debug, Clone, Copy, PartialEq, Eq, Structural, Hash)]
pub struct NetAddress {
    /// IP address
    pub ip: IpAddress,
    /// Port
    pub port: u16,
}

impl NetAddress {
    /// Create a new network address
    pub fn new(ip: IpAddress, port: u16) -> (a: NetAddress)
        ensures
            a == (NetAddress { ip, port }),
    {
        NetAddress { ip, port }
    }

    /// Check if address is localhost
    pub fn is_loopback(&self) -> (b: bool)
        ensures
            b == self.ip.spec_is_loopback(),
    {
        self.ip.is_loopback()
    }

    /// Check if address is multicast
    pub fn is_multicast(&self) -> (b: bool)
        ensures
            b == self.ip.spec_is_multicast(),
    {
        self.ip.is_multicast()
    }

    /// Check if address is IPv4
    pub fn is_ipv4(&self) -> (b: bool)
        ensures
            b == (self.ip is V4),
    {
        match self.ip {
            IpAddress::V4(..) => true,
            IpAddress::V6(..) => false,
        }
    }

    /// Check if address is IPv6
    pub fn is_ipv6(&self) -> (b: bool)
        ensures
            b == (self.ip is V6),
    {
        match self.ip {
            IpAddress::V4(..) => false,
            IpAddress::V6(..) => true,
        }
    }
}

/// The positions of `':'` in `s`, in order.
pub open spec fn colon_positions(s: Seq<char>) -> Seq<int>
    decreases s.len(),
{
    if s.len() == 0 {
        Seq::empty()
    } else if s.last() == ':' {
        colon_positions(s.drop_last()).push(s.len() - 1)
    } else {
        colon_positions(s.drop_last())
    }
}

/// Law: `colon_positions` lists exactly the positions of the colons of the
/// text, in increasing order.
pub proof fn law_colon_positions(s: Seq<char>)
    ensures
        forall|k: int| 0 <= k < s.len() && s[k] == ':' ==> #[trigger] colon_positions(s).contains(k),
        forall|a: int|
            0 <= a < colon_positions(s).len() ==> 0 <= #[trigger] colon_positions(s)[a] < s.len() && s[colon_positions(
                s,
            )[a]] == ':',
        forall|a: int, b: int|
            0 <= a < b < colon_positions(s).len() ==> #[trigger] colon_positions(s)[a] < #[trigger] colon_positions(
                s,
            )[b],
    decreases s.len(),
{
    if s.len() > 0 {
        let init = s.drop_last();
        law_colon_positions(init);
        let c = colon_positions(init);
        assert forall|k: int| 0 <= k < s.len() && s[k] == ':' implies #[trigger] colon_positions(s).contains(k) by {
            if k < s.len() - 1 {
                assert(init[k] == s[k]);
                assert(c.contains(k));
                let a = choose|a: int| 0 <= a < c.len() && c[a] == k;
                if s.last() == ':' {
                    assert(c.push(s.len() - 1)[a] == k);
                }
            } else {
                assert(c.push(s.len() - 1)[c.len() as int] == k);
            }
        }
        assert forall|a: int| 0 <= a < c.len() implies init[c[a]] == s[c[a]] by {}
    }
}

/// Split an address written `ip:port` at its colon. Fails, with the error
/// `InvalidAddress("Address must be in format 'ip:port'")`, unless the text
/// holds exactly one colon.
pub fn split_host_port(addr: &str) -> (r: Result<(String, String), NetworkError>)
    ensures
        colon_positions(addr@).len() != 1 ==> (r matches Err(NetworkError::InvalidAddress(m)) && m@
            == "Address must be in format 'ip:port'"@),
        colon_positions(addr@).len() == 1 ==> (r matches Ok((h, p)) && {
            let k = colon_positions(addr@)[0];
            &&& h@ == addr@.subrange(0, k)
            &&& p@ == addr@.subrange(k + 1, addr@.len() as int)
        }),
{
    let n = addr.unicode_len();
    let mut count: usize = 0;
    let mut pos: usize = 0;
    let mut i: usize = 0;
    while i < n
        invariant
            n == addr@.len(),
            i <= n,
            count == colon_positions(addr@.subrange(0, i as int)).len(),
            count >= 1 ==> pos == colon_positions(addr@.subrange(0, i as int))[0],
            count >= 1 ==> pos < i,
            count <= i,
        decreases n - i,
    {
        let ghost prefix = addr@.subrange(0, i + 1);
        assert(prefix.drop_last() =~= addr@.subrange(0, i as int));
        proof {
            lemma_colon_positions_prefix(addr@.subrange(0, i as int), addr@[i as int]);
            assert(prefix =~= addr@.subrange(0, i as int).push(addr@[i as int]));
        }
        if addr.get_char(i) == ':' {
            if count == 0 {
                pos = i;
            }
            count = count + 1;
        }
        i = i + 1;
    }
    assert(addr@.subrange(0, n as int) =~= addr@);
    if count != 1 {
        return Err(NetworkError::InvalidAddress(String::from_str("Address must be in format 'ip:port'")));
    }
    let host = addr.substring_char(0, pos).to_string();
    let port = addr.substring_char(pos + 1, n).to_string();
    Ok((host, port))
}

/// The first colon position of a text extended by one character stays the
/// same, and the count grows by one exactly when the character is a colon.
proof fn lemma_colon_positions_prefix(s: Seq<char>, c: char)
    ensures
        colon_positions(s.push(c)).len() == colon_positions(s).len() + (if c == ':' { 1int } else { 0int }),
        colon_positions(s).len() >= 1 ==> colon_positions(s.push(c))[0] == colon_positions(s)[0],
        colon_positions(s).len() == 0 && c == ':' ==> colon_positions(s.push(c))[0] == s.len(),
{
    assert(s.push(c).drop_last() =~= s);
}

/// The value of `text` read as a decimal `u16`, or `None` when
/// `u16::from_str` rejects it.
pub open spec fn u16_text_value(text: Seq<char>) -> Option<u16> {
    match parsed_unsigned(text, 10, u16::MAX as nat) {
        Some(v) => Some(v as u16),
        None => None,
    }
}

/// Read `text` as a decimal `u16`, as `<u16 as FromStr>::from_str` does.
fn parse_u16_text(text: &str) -> (r: Option<u16>)
    ensures
        r == u16_text_value(text@),
{
    match parse_unsigned(text, 10, 65535) {
        Some(v) => Some(v as u16),
        None => None,
    }
}

/// Decimal notation reads back: the digits of `decimal(n)` are worth `n`,
/// and the notation starts with a digit.
proof fn lemma_decimal_reads_back(n: nat)
    ensures
        digits_value(decimal(n), 10) == Some(n),
        decimal(n).len() > 0,
        '0' <= decimal(n)[0] <= '9',
    decreases n,
{
    let d = n % 10;
    assert(digit_value(digit_char(d), 10) == Some(d)) by {
        lemma_digit_char_value(d);
    }
    if n >= 10 {
        lemma_decimal_reads_back(n / 10);
        assert(decimal(n).drop_last() =~= decimal(n / 10));
        assert(decimal(n)[0] == decimal(n / 10)[0]);
        assert((n / 10) * 10 + d == n);
    } else {
        assert(decimal(n).drop_last() =~= Seq::<char>::empty());
        assert(d == n);
    }
}

/// The digit character of `d` is worth `d` in decimal.
proof fn lemma_digit_char_value(d: nat)
    requires
        d < 10,
    ensures
        digit_value(digit_char(d), 10) == Some(d),
{
}

/// Law: every port written in decimal notation is read back as itself, so
/// `port_from_text` accepts the text of every `u16` and gives that number.
pub proof fn law_port_text_reads_decimal(n: u16)
    ensures
        u16_text_value(decimal(n as nat)) == Some(n),
{
    lemma_decimal_reads_back(n as nat);
    let s = decimal(n as nat);
    assert(s[0] != '+');
}

/// The port of an address: `port_text` read as a `u16`, or the error
/// `InvalidAddress("Invalid port: <port_text>")`.
pub fn port_from_text(port_text: &str) -> (r: Result<u16, NetworkError>)
    ensures
        u16_text_value(port_text@) matches Some(v) ==> r == Ok::<u16, NetworkError>(v),
        u16_text_value(port_text@) is None ==> (r matches Err(NetworkError::InvalidAddress(m)) && m@
            == "Invalid port: "@ + port_text@),
{
    match parse_u16_text(port_text) {
        Some(v) => Ok(v),
        None => {
            let mut m = String::from_str("Invalid port: ");
            m.append(port_text);
            Err(NetworkError::InvalidAddress(m))
        },
    }
}

/// The address written `host:port_text`, once the host text has been read
/// as the IP address `ip` (`None` when it is no IP address): the error
/// `InvalidAddress("Invalid IP address: <host>")` when there is no IP
/// address, else the error of `port_from_text`, else the address.
pub fn address_from_parts(host: &str, ip: Option<IpAddress>, port_text: &str) -> (r: Result<NetAddress, NetworkError>)
    ensures
        ip is None ==> (r matches Err(NetworkError::InvalidAddress(m)) && m@ == "Invalid IP address: "@ + host@),
        ip matches Some(a) ==> match u16_text_value(port_text@) {
            Some(port) => r == Ok::<NetAddress, NetworkError>(NetAddress { ip: a, port }),
            None => r matches Err(NetworkError::InvalidAddress(m)) && m@ == "Invalid port: "@ + port_text@,
        },
{
    match ip {
        None => {
            let mut m = String::from_str("Invalid IP address: ");
            m.append(host);
            Err(NetworkError::InvalidAddress(m))
        },
        Some(a) => match port_from_text(port_text) {
            Ok(port) => Ok(NetAddress::new(a, port)),
            Err(e) => Err(e),
        },
    }
}

/// What `<core::net::IpAddr as FromStr>::from_str` gives for `text`, taken
/// to the library's address type; `None` when it rejects the text.
pub uninterp spec fn ip_text_value(text: Seq<char>) -> Option<IpAddress>;

/// Calls `<core::net::IpAddr as FromStr>::from_str` on `text`: the contract
/// says only that the result is the one `ip_text_value` names for the text
/// (an IPv4 address keeps its four octets, an IPv6 address its eight
/// segments); which texts are accepted is not stated.
#[verifier::external_body]
fn parse_ip_text(text: &str) -> (r: Option<IpAddress>)
    ensures
        r == ip_text_value(text@),
{
    match text.parse::<core::net::IpAddr>() {
        Ok(core::net::IpAddr::V4(a)) => {
            let [b0, b1, b2, b3] = a.octets();
            Some(IpAddress::V4(b0, b1, b2, b3))
        },
        Ok(core::net::IpAddr::V6(a)) => {
            let [s0, s1, s2, s3, s4, s5, s6, s7] = a.segments();
            Some(IpAddress::V6(s0, s1, s2, s3, s4, s5, s6, s7))
        },
        Err(_) => None,
    }
}

impl NetAddress {
    /// Create an address from a string (e.g., "127.0.0.1:8080"). The text
    /// must hold exactly one colon; the part before it is read as an IP
    /// address and the part after it as a decimal port, and the first of
    /// these three steps that fails gives the error.
    pub fn from_string(addr: &str) -> (r: Result<NetAddress, NetworkError>)
        ensures
            colon_positions(addr@).len() != 1 ==> (r matches Err(NetworkError::InvalidAddress(m)) && m@
                == "Address must be in format 'ip:port'"@),
            colon_positions(addr@).len() == 1 ==> ({
                let k = colon_positions(addr@)[0];
                let host = addr@.subrange(0, k);
                let port_text = addr@.subrange(k + 1, addr@.len() as int);
                match ip_text_value(host) {
                    None => r matches Err(NetworkError::InvalidAddress(m)) && m@ == "Invalid IP address: "@
                        + host,
                    Some(a) => match u16_text_value(port_text) {
                        Some(port) => r == Ok::<NetAddress, NetworkError>(NetAddress { ip: a, port }),
                        None => r matches Err(NetworkError::InvalidAddress(m)) && m@ == "Invalid port: "@
                            + port_text,
                    },
                }
            }),
    {
        match split_host_port(addr) {
            Err(e) => Err(e),
            Ok((host, port_text)) => {
                let ip = parse_ip_text(host.as_str());
                address_from_parts(host.as_str(), ip, port_text.as_str())
            },
        }
    }
}

/// The number of nanoseconds since the Unix epoch by the machine's clock,
/// truncated to 64 bits; a clock set before the epoch reads as 0.
fn unix_nanos_now() -> u64 {
    match duration_since(system_time_now(), unix_epoch()) {
        Some(d) => duration_as_nanos(d) as u64,
        None => 0,
    }
}

/// The multiplier of the packet checksum (`0x5DEECE66D` truncated to 32 bits).
pub const CHECKSUM_MULTIPLIER: u32 = 0xDEECE66Du32;

/// The contribution of one byte to the checksum.
pub open spec fn byte_term(b: u8) -> u32 {
    vstd::wrapping::u32_specs::wrapping_mul(b as u32, CHECKSUM_MULTIPLIER)
}

/// The checksum of `data`: the XOR of the wrapped products of each byte with the multiplier.
pub open spec fn checksum_of(data: Seq<u8>) -> u32
    decreases data.len(),
{
    if data.len() == 0 {
        0
    } else {
        checksum_of(data.drop_last()) ^ byte_term(data.last())
    }
}

/// Compute `checksum_of(data)`.
fn compute_checksum(data: &Vec<u8>) -> (c: u32)
    ensures
        c == checksum_of(data@),
{
    let mut checksum: u32 = 0;
    let mut i: usize = 0;
    while i < data.len()
        invariant
            i <= data@.len(),
            checksum == checksum_of(data@.subrange(0, i as int)),
        decreases data@.len() - i,
    {
        assert(data@.subrange(0, i + 1).drop_last() =~= data@.subrange(0, i as int));
        checksum = checksum ^ (data[i] as u32).wrapping_mul(CHECKSUM_MULTIPLIER);
        i = i + 1;
    }
    assert(data@.subrange(0, i as int) =~= data@);
    checksum
}

/// Network message header
#[derive(Debug, Clone, Copy, PartialEq, Eq)]
pub struct NetMessageHeader {
    /// Message ID
    pub id: u32,
    /// Message sequence number
    pub sequence: u32,
    /// Message timestamp
    pub timestamp: u64,
    /// Message size (including header)
    pub size: u32,
    /// Message flags
    pub flags: u16,
}

/// Network message
#[derive(Debug, Clone, PartialEq, Eq)]
pub struct NetMessage {
    /// Message header
    pub header: NetMessageHeader,
    /// Message data
    pub data: Vec<u8>,
    /// Sender address
    pub sender: NetAddress,
    /// Receiver address
    pub receiver: NetAddress,
}

/// The size a message header records: the header's own size plus the data
/// length truncated to 32 bits.
pub open spec fn message_size(data_len: nat) -> int {
    vstd::layout::size_of::<NetMessageHeader>() + (data_len as u32)
}

impl NetMessage {
    /// A message stamped with the current time.
    pub fn new(id: u32, sequence: u32, data: Vec<u8>, sender: NetAddress, receiver: NetAddress) -> (m: NetMessage)
        requires
            message_size(data@.len()) <= u32::MAX,
        ensures
            m.header.id == id,
            m.header.sequence == sequence,
            m.header.size == message_size(data@.len()),
            m.header.flags == 0,
            m.data@ == data@,
            m.sender == sender,
            m.receiver == receiver,
    {
        let timestamp = unix_nanos_now();
        NetMessage::with_timestamp(id, sequence, data, sender, receiver, timestamp)
    }

    /// A message with the given timestamp; its size counts the header and the data.
    pub fn with_timestamp(
        id: u32,
        sequence: u32,
        data: Vec<u8>,
        sender: NetAddress,
        receiver: NetAddress,
        timestamp: u64,
    ) -> (m: NetMessage)
        requires
            message_size(data@.len()) <= u32::MAX,
        ensures
            m.header == (NetMessageHeader {
                id,
                sequence,
                timestamp,
                size: message_size(data@.len()) as u32,
                flags: 0,
            }),
            m.data@ == data@,
            m.sender == sender,
            m.receiver == receiver,
    {
        let header_size = std::mem::size_of::<NetMessageHeader>();
        let size = header_size as u32 + data.len() as u32;
        NetMessage { header: NetMessageHeader { id, sequence, timestamp, size, flags: 0 }, data, sender, receiver }
    }

    /// Get total size of message
    pub fn total_size(&self) -> (n: usize)
        ensures
            n == self.header.size,
    {
        self.header.size as usize
    }
}

/// Reliable ordered packet
#[derive(Debug, Clone, PartialEq, Eq)]
pub struct ReliablePacket {
    /// Packet sequence number
    pub sequence: u32,
    /// Packet ACK number
    pub ack: u32,
    /// Packet data
    pub data: Vec<u8>,
    /// Packet checksum
    pub checksum: u32,
    /// Packet timestamp
    pub timestamp: u64,
    /// Packet flags
    pub flags: u16,
}

impl ReliablePacket {
    /// A packet stamped with the current time.
    pub fn new(sequence: u32, ack: u32, data: Vec<u8>) -> (p: ReliablePacket)
        ensures
            p.sequence == sequence,
            p.ack == ack,
            p.data@ == data@,
            p.checksum == checksum_of(data@),
            p.flags == 0,
    {
        let timestamp = unix_nanos_now();
        ReliablePacket::with_timestamp(sequence, ack, data, timestamp)
    }

    /// A packet with the given timestamp; its checksum covers `data`.
    pub fn with_timestamp(sequence: u32, ack: u32, data: Vec<u8>, timestamp: u64) -> (p: ReliablePacket)
        ensures
            p.sequence == sequence,
            p.ack == ack,
            p.data@ == data@,
            p.checksum == checksum_of(data@),
            p.timestamp == timestamp,
            p.flags == 0,
    {
        let checksum = compute_checksum(&data);
        ReliablePacket { sequence, ack, data, checksum, timestamp, flags: 0 }
    }

    /// True when the stored checksum matches the data.
    pub fn verify_checksum(&self) -> (b: bool)
        ensures
            b == (self.checksum == checksum_of(self.data@)),
    {
        compute_checksum(&self.data) == self.checksum
    }
}

/// Connection state
#[derive(Debug, Clone, Copy, PartialEq, Eq, Structural, Hash)]
pub enum ConnectionState {
    /// Connection is not established
    Disconnected,
    /// Connection is being established
    Connecting,
    /// Connection is established
    Connected,
    /// Connection is closing
    Disconnecting,
    /// Connection is closed
    Closed,
}

/// Socket state
#[derive(Debug, Clone, Copy, PartialEq, Eq, Structural, Hash)]
pub enum SocketState {
    /// Socket is not connected
    Closed,
    /// Socket is listening for connections
    Listening,
    /// Socket is connected
    Connected,
    /// Socket is connecting
    Connecting,
    /// Socket is closing
    Closing,
}

/// Protocol type
#[derive(Debug, Clone, Copy, PartialEq, Eq, Structural, Hash)]
pub enum ProtocolType {
    /// Transmission Control Protocol
    TCP,
    /// User Datagram Protocol
    UDP,
    /// Internet Control Message Protocol
    ICMP,
    /// Raw protocol
    Raw,
    /// Unknown protocol
    Unknown,
}

/// Socket type
#[derive(Debug, Clone, Copy, PartialEq, Eq, Structural, Hash)]
pub enum SocketType {
    /// Stream socket (TCP)
    Stream,
    /// Datagram socket (UDP)
    Datagram,
    /// Raw socket
    Raw,
    /// Sequenced packet socket
    SeqPacket,
}

/// Game state
#[derive(Debug, Clone)]
pub struct GameState {
    /// Game state ID
    pub id: u32,
    /// Game state data
    pub data: Vec<u8>,
    /// Game state timestamp
    pub timestamp: u64,
}

/// Chat message
#[derive(Debug, Clone)]
pub struct ChatMessage {
    /// Sender address
    pub sender: NetAddress,
    /// Message content
    pub content: String,
    /// Message timestamp
    pub timestamp: u64,
}

/// Socket options
#[derive(Debug, Clone)]
pub struct SocketOptions {
    /// Keep-alive option
    keep_alive: bool,
    /// Reuse address option
    reuse_address: bool,
    /// Reuse port option
    reuse_port: bool,
    /// TCP no delay option
    tcp_no_delay: bool,
    /// TCP keep alive option
    tcp_keep_alive: bool,
    /// UDP checksum option
    udp_checksum: bool,
    /// Socket timeout in milliseconds
    timeout_ms: u32,
}

/// The abstract value of a set of socket options.
pub struct SocketOptionsView {
    pub keep_alive: bool,
    pub reuse_address: bool,
    pub reuse_port: bool,
    pub tcp_no_delay: bool,
    pub tcp_keep_alive: bool,
    pub udp_checksum: bool,
    pub timeout_ms: u32,
}

impl SocketOptions {
    /// The option values.
    pub closed spec fn view(&self) -> SocketOptionsView {
        SocketOptionsView {
            keep_alive: self.keep_alive,
            reuse_address: self.reuse_address,
            reuse_port: self.reuse_port,
            tcp_no_delay: self.tcp_no_delay,
            tcp_keep_alive: self.tcp_keep_alive,
            udp_checksum: self.udp_checksum,
            timeout_ms: self.timeout_ms,
        }
    }

    /// Set keep-alive option
    pub fn set_keep_alive(&mut self, enable: bool)
        ensures
            final(self)@ == (SocketOptionsView { keep_alive: enable, ..old(self)@ }),
    {
        self.keep_alive = enable;
    }

    /// Set reuse address option
    pub fn set_reuse_address(&mut self, enable: bool)
        ensures
            final(self)@ == (SocketOptionsView { reuse_address: enable, ..old(self)@ }),
    {
        self.reuse_address = enable;
    }

    /// Set reuse port option
    pub fn set_reuse_port(&mut self, enable: bool)
        ensures
            final(self)@ == (SocketOptionsView { reuse_port: enable, ..old(self)@ }),
    {
        self.reuse_port = enable;
    }

    /// Set TCP no delay option
    pub fn set_tcp_no_delay(&mut self, enable: bool)
        ensures
            final(self)@ == (SocketOptionsView { tcp_no_delay: enable, ..old(self)@ }),
    {
        self.tcp_no_delay = enable;
    }

    /// Set TCP keep alive option
    pub fn set_tcp_keep_alive(&mut self, enable: bool)
        ensures
            final(self)@ == (SocketOptionsView { tcp_keep_alive: enable, ..old(self)@ }),
    {
        self.tcp_keep_alive = enable;
    }

    /// Set UDP checksum option
    pub fn set_udp_checksum(&mut self, enable: bool)
        ensures
            final(self)@ == (SocketOptionsView { udp_checksum: enable, ..old(self)@ }),
    {
        self.udp_checksum = enable;
    }

    /// Set socket timeout
    pub fn set_timeout(&mut self, timeout_ms: u32)
        ensures
            final(self)@ == (SocketOptionsView { timeout_ms, ..old(self)@ }),
    {
        self.timeout_ms = timeout_ms;
    }
}

impl Default for SocketOptions {
    fn default() -> (o: SocketOptions)
        ensures
            o@ == (SocketOptionsView {
                keep_alive: false,
                reuse_address: false,
                reuse_port: false,
                tcp_no_delay: false,
                tcp_keep_alive: false,
                udp_checksum: true,
                timeout_ms: 5000,
            }),
    {
        SocketOptions {
            keep_alive: false,
            reuse_address: false,
            reuse_port: false,
            tcp_no_delay: false,
            tcp_keep_alive: false,
            udp_checksum: true,
            timeout_ms: 5000,
        }
    }
}


/// Append `data` to `buf`.
fn append_bytes(buf: &mut Vec<u8>, data: &[u8])
    ensures
        final(buf)@ == old(buf)@ + data@,
{
    buf.extend_from_slice(data);
    assert forall|i: int| 0 <= i < buf@.len() implies #[trigger] buf@[i] == (old(buf)@ + data@)[i] by {
        if i >= old(buf)@.len() {
            assert(cloned::<u8>(data@[i - old(buf)@.len()], buf@[i]));
        }
    }
    assert(buf@ =~= old(buf)@ + data@);
}

/// The abstract state of a connection.
pub struct ConnectionView {
    pub state: ConnectionState,
    pub local_addr: NetAddress,
    pub remote_addr: NetAddress,
    pub socket_type: SocketType,
    pub protocol: ProtocolType,
    pub send_window: usize,
    pub recv_window: usize,
    pub send_base: u32,
    pub recv_base: u32,
    pub send_next: u32,
    pub recv_next: u32,
    pub unacked: Seq<ReliablePacket>,
    pub recv_buffer: Seq<u8>,
    pub send_buffer: Seq<u8>,
    pub timeout_ms: u32,
    pub mtu: usize,
    pub last_received: u64,
}

/// Network connection
#[derive(Debug, Clone)]
pub struct Connection {
    /// Connection state
    state: ConnectionState,
    /// Local address
    local_addr: NetAddress,
    /// Remote address
    remote_addr: NetAddress,
    /// Socket type
    socket_type: SocketType,
    /// Protocol type
    protocol: ProtocolType,
    /// Send window size
    send_window: usize,
    /// Receive window size
    recv_window: usize,
    /// Send base sequence
    send_base: u32,
    /// Receive base sequence
    recv_base: u32,
    /// Send next sequence
    send_next: u32,
    /// Receive next sequence
    recv_next: u32,
    /// Unacknowledged packets
    unacked_packets: Vec<ReliablePacket>,
    /// Recently acknowledged packets
    recent_acks: Vec<u32>,
    /// Buffer for incoming data
    recv_buffer: Vec<u8>,
    /// Buffer for outgoing data
    send_buffer: Vec<u8>,
    /// Timeout in milliseconds
    timeout_ms: u32,
    /// Maximum packet size
    mtu: usize,
    /// Connection start time
    start_time: u64,
    /// Last packet sent time
    last_sent: u64,
    /// Last packet received time
    last_received: u64,
}

/// True when every packet of `packets` carries the checksum of its data.
pub open spec fn all_checksums_valid(packets: Seq<ReliablePacket>) -> bool {
    forall|k: int| 0 <= k < packets.len() ==> (#[trigger] packets[k]).checksum == checksum_of(packets[k].data@)
}

/// The state of a fresh connection between the two addresses.
pub open spec fn fresh_connection(
    local_addr: NetAddress,
    remote_addr: NetAddress,
    socket_type: SocketType,
    protocol: ProtocolType,
) -> ConnectionView {
    ConnectionView {
        state: ConnectionState::Disconnected,
        local_addr,
        remote_addr,
        socket_type,
        protocol,
        send_window: 64,
        recv_window: 64,
        send_base: 0,
        recv_base: 0,
        send_next: 0,
        recv_next: 0,
        unacked: Seq::empty(),
        recv_buffer: Seq::empty(),
        send_buffer: Seq::empty(),
        timeout_ms: 1000,
        mtu: 1400,
        last_received: 0,
    }
}

impl Connection {
    /// The abstract state of the connection.
    pub closed spec fn view(&self) -> ConnectionView {
        ConnectionView {
            state: self.state,
            local_addr: self.local_addr,
            remote_addr: self.remote_addr,
            socket_type: self.socket_type,
            protocol: self.protocol,
            send_window: self.send_window,
            recv_window: self.recv_window,
            send_base: self.send_base,
            recv_base: self.recv_base,
            send_next: self.send_next,
            recv_next: self.recv_next,
            unacked: self.unacked_packets@,
            recv_buffer: self.recv_buffer@,
            send_buffer: self.send_buffer@,
            timeout_ms: self.timeout_ms,
            mtu: self.mtu,
            last_received: self.last_received,
        }
    }

    /// Create a new, disconnected connection.
    pub fn new(
        local_addr: NetAddress,
        remote_addr: NetAddress,
        socket_type: SocketType,
        protocol: ProtocolType,
    ) -> (c: Connection)
        ensures
            c@ == fresh_connection(local_addr, remote_addr, socket_type, protocol),
    {
        let start_time = unix_nanos_now();
        let c = Connection {
            state: ConnectionState::Disconnected,
            local_addr,
            remote_addr,
            socket_type,
            protocol,
            send_window: 64,
            recv_window: 64,
            send_base: 0,
            recv_base: 0,
            send_next: 0,
            recv_next: 0,
            unacked_packets: Vec::new(),
            recent_acks: Vec::new(),
            recv_buffer: Vec::new(),
            send_buffer: Vec::new(),
            timeout_ms: 1000,
            mtu: 1400,
            start_time,
            last_sent: 0,
            last_received: 0,
        };
        assert(c@ =~= fresh_connection(local_addr, remote_addr, socket_type, protocol));
        c
    }

    /// Get local address
    pub fn local_addr(&self) -> (a: &NetAddress)
        ensures
            *a == self@.local_addr,
    {
        &self.local_addr
    }

    /// Get remote address
    pub fn remote_addr(&self) -> (a: &NetAddress)
        ensures
            *a == self@.remote_addr,
    {
        &self.remote_addr
    }

    /// Get connection state
    pub fn state(&self) -> (s: ConnectionState)
        ensures
            s == self@.state,
    {
        self.state
    }

    /// Check if connection is active
    pub fn is_active(&self) -> (b: bool)
        ensures
            b == (self@.state == ConnectionState::Connected),
    {
        self.state == ConnectionState::Connected
    }

    /// Get send window
    pub fn send_window(&self) -> (w: usize)
        ensures
            w == self@.send_window,
    {
        self.send_window
    }

    /// Get receive window
    pub fn recv_window(&self) -> (w: usize)
        ensures
            w == self@.recv_window,
    {
        self.recv_window
    }

    /// Get available receive buffer space
    pub fn available_recv(&self) -> (n: usize)
        requires
            self@.recv_buffer.len() <= self@.recv_window,
        ensures
            n == self@.recv_window - self@.recv_buffer.len(),
    {
        self.recv_window - self.recv_buffer.len()
    }

    /// Take the received data, if there is any.
    pub fn receive_data(&mut self) -> (r: Option<Vec<u8>>)
        ensures
            old(self)@.recv_buffer.len() == 0 ==> r is None && final(self)@ == old(self)@,
            old(self)@.recv_buffer.len() > 0 ==> {
                &&& r matches Some(d) && d@ == old(self)@.recv_buffer
                &&& final(self)@ == (ConnectionView { recv_buffer: Seq::empty(), ..old(self)@ })
            },
    {
        if self.recv_buffer.len() > 0 {
            let mut data: Vec<u8> = Vec::new();
            std::mem::swap(&mut data, &mut self.recv_buffer);
            assert(self@ =~= (ConnectionView { recv_buffer: Seq::empty(), ..old(self)@ }));
            Some(data)
        } else {
            None
        }
    }

    /// Queue data for sending. Fails when the connection is not active or the
    /// data does not fit the space left in the receive window.
    pub fn send_data(&mut self, data: &[u8]) -> (r: Result<(), NetworkError>)
        requires
            old(self)@.recv_buffer.len() <= old(self)@.recv_window,
            old(self)@.send_next < u32::MAX,
        ensures
            old(self)@.state != ConnectionState::Connected ==> (r matches Err(NetworkError::ConnectionFailed(_))
                && final(self)@ == old(self)@),
            old(self)@.state == ConnectionState::Connected && data@.len() > old(self)@.recv_window
                - old(self)@.recv_buffer.len() ==> (r matches Err(NetworkError::SendFailed(_)) && final(self)@
                == old(self)@),
            old(self)@.state == ConnectionState::Connected && data@.len() <= old(self)@.recv_window
                - old(self)@.recv_buffer.len() ==> r is Ok && final(self)@ == (ConnectionView {
                send_buffer: old(self)@.send_buffer + data@,
                send_next: (old(self)@.send_next + 1) as u32,
                ..old(self)@
            }),
    {
        if !self.is_active() {
            return Err(NetworkError::ConnectionFailed(String::from_str("Connection is not active")));
        }
        let data_len = data.len();
        if data_len > self.available_recv() {
            return Err(NetworkError::SendFailed(String::from_str("Send window full")));
        }
        append_bytes(&mut self.send_buffer, data);
        self.send_next = self.send_next + 1;
        Ok(())
    }

    /// Process a received packet: its data joins the receive buffer, the
    /// receive base advances to its ack if that is not behind, and an ACK for
    /// its sequence number is queued. Fails, changing nothing, when a queued
    /// packet fails its checksum.
    pub fn process_packet(&mut self, packet: ReliablePacket) -> (r: Result<(), NetworkError>)
        ensures
            !all_checksums_valid(old(self)@.unacked) ==> (r matches Err(NetworkError::ReceiveFailed(_))
                && final(self)@ == old(self)@),
            all_checksums_valid(old(self)@.unacked) ==> {
                &&& r is Ok
                &&& final(self)@.recv_base == (if packet.ack >= old(self)@.recv_base {
                    packet.ack
                } else {
                    old(self)@.recv_base
                })
                &&& final(self)@.recv_buffer == old(self)@.recv_buffer + packet.data@
                &&& final(self)@.unacked.len() == old(self)@.unacked.len() + 1
                &&& final(self)@.unacked.drop_last() == old(self)@.unacked
                &&& final(self)@.unacked.last().sequence == old(self)@.recv_next
                &&& final(self)@.unacked.last().ack == packet.sequence
                &&& final(self)@.unacked.last().data@ == Seq::<u8>::empty()
                &&& final(self)@.unacked.last().checksum == checksum_of(Seq::<u8>::empty())
                &&& final(self)@ == (ConnectionView {
                    recv_base: final(self)@.recv_base,
                    recv_buffer: final(self)@.recv_buffer,
                    unacked: final(self)@.unacked,
                    last_received: final(self)@.last_received,
                    ..old(self)@
                })
            },
    {
        if !self.verify_checksum() {
            return Err(NetworkError::ReceiveFailed(String::from_str("Packet checksum verification failed")));
        }
        if packet.ack >= self.recv_base {
            self.recv_base = packet.ack;
        }
        append_bytes(&mut self.recv_buffer, packet.data.as_slice());
        self.last_received = unix_nanos_now();
        let ack = self.send_ack(packet.sequence);
        match ack {
            Ok(()) => {},
            Err(e) => {
                return Err(e);
            },
        }
        assert(self@.unacked.drop_last() =~= old(self)@.unacked);
        Ok(())
    }

    /// Queue an ACK packet for `ack`, with sequence number `recv_next`.
    pub fn send_ack(&mut self, ack: u32) -> (r: Result<(), NetworkError>)
        ensures
            r is Ok,
            final(self)@.unacked.len() == old(self)@.unacked.len() + 1,
            final(self)@.unacked.drop_last() == old(self)@.unacked,
            final(self)@.unacked.last().sequence == old(self)@.recv_next,
            final(self)@.unacked.last().ack == ack,
            final(self)@.unacked.last().data@ == Seq::<u8>::empty(),
            final(self)@.unacked.last().checksum == checksum_of(Seq::<u8>::empty()),
            final(self)@ == (ConnectionView { unacked: final(self)@.unacked, ..old(self)@ }),
    {
        let ack_packet = ReliablePacket::new(self.recv_next, ack, Vec::new());
        self.unacked_packets.push(ack_packet);
        assert(self@.unacked.drop_last() =~= old(self)@.unacked);
        Ok(())
    }

    /// True when every queued packet passes its checksum check.
    pub fn verify_checksum(&self) -> (b: bool)
        ensures
            b == all_checksums_valid(self@.unacked),
    {
        let mut k: usize = 0;
        while k < self.unacked_packets.len()
            invariant
                k <= self.unacked_packets@.len(),
                forall|j: int| 0 <= j < k ==> (#[trigger] self.unacked_packets@[j]).checksum == checksum_of(
                    self.unacked_packets@[j].data@,
                ),
            decreases self.unacked_packets@.len() - k,
        {
            if !self.unacked_packets[k].verify_checksum() {
                return false;
            }
            k = k + 1;
        }
        true
    }

    /// Whether the connection is still within its timeout at time `now`
    /// (nanoseconds since the epoch): false when something was received and
    /// more than `timeout_ms * 1000` has elapsed since (elapsed time wrapping
    /// if the clock went back).
    pub fn within_timeout_at(&self, now: u64) -> (b: bool)
        ensures
            b == !(self@.last_received > 0 && vstd::wrapping::u64_specs::wrapping_sub(now, self@.last_received)
                > self@.timeout_ms as int * 1000),
    {
        if self.last_received > 0 {
            let time_since_received = now.wrapping_sub(self.last_received);
            if time_since_received > self.timeout_ms as u64 * 1000 {
                return false;
            }
        }
        true
    }

    /// Whether the connection is still within its timeout now.
    pub fn update_timeout(&mut self) -> (b: bool)
        ensures
            final(self)@ == old(self)@,
            old(self)@.last_received == 0 ==> b,
    {
        let timestamp = unix_nanos_now();
        self.within_timeout_at(timestamp)
    }
}


/// The abstract state of a socket.
pub struct SocketView {
    pub state: SocketState,
    pub local_addr: NetAddress,
    pub socket_type: SocketType,
    pub protocol: ProtocolType,
    /// The bound connections with their remote addresses, each address once.
    pub connections: Seq<(NetAddress, ConnectionView)>,
    pub recv_buffer: Seq<u8>,
    pub send_buffer: Seq<u8>,
    pub timeout_ms: u32,
    pub options: SocketOptionsView,
}

/// The connection recorded for `addr`, if any.
pub open spec fn connection_for(conns: Seq<(NetAddress, ConnectionView)>, addr: NetAddress) -> Option<ConnectionView>
    decreases conns.len(),
{
    if conns.len() == 0 {
        None
    } else if conns.last().0 == addr {
        Some(conns.last().1)
    } else {
        connection_for(conns.drop_last(), addr)
    }
}

/// The default local address of a socket: 127.0.0.1, port 0.
pub open spec fn default_local_addr() -> NetAddress {
    NetAddress { ip: IpAddress::V4(127u8, 0u8, 0u8, 1u8), port: 0 }
}

/// The state of a new socket of the given kind: closed, bound to
/// 127.0.0.1:0, without connections or buffered bytes, default options.
pub open spec fn fresh_socket(socket_type: SocketType, protocol: ProtocolType) -> SocketView {
    SocketView {
        state: SocketState::Closed,
        local_addr: default_local_addr(),
        socket_type,
        protocol,
        connections: Seq::empty(),
        recv_buffer: Seq::empty(),
        send_buffer: Seq::empty(),
        timeout_ms: 5000,
        options: SocketOptionsView {
            keep_alive: false,
            reuse_address: false,
            reuse_port: false,
            tcp_no_delay: false,
            tcp_keep_alive: false,
            udp_checksum: true,
            timeout_ms: 5000,
        },
    }
}

/// Network socket
#[derive(Debug)]
pub struct Socket {
    /// Socket state
    state: SocketState,
    /// Local address
    local_addr: NetAddress,
    /// Socket type
    socket_type: SocketType,
    /// Protocol type
    protocol: ProtocolType,
    /// Bound connections, each remote address at most once
    connections: Vec<(NetAddress, Connection)>,
    /// Buffer for incoming data
    recv_buffer: Vec<u8>,
    /// Buffer for outgoing data
    send_buffer: Vec<u8>,
    /// Socket timeout in milliseconds
    timeout_ms: u32,
    /// Socket options
    options: SocketOptions,
}

impl Socket {
    /// The abstract state of the socket.
    pub closed spec fn view(&self) -> SocketView {
        SocketView {
            state: self.state,
            local_addr: self.local_addr,
            socket_type: self.socket_type,
            protocol: self.protocol,
            connections: self.connections@.map_values(|p: (NetAddress, Connection)| (p.0, p.1@)),
            recv_buffer: self.recv_buffer@,
            send_buffer: self.send_buffer@,
            timeout_ms: self.timeout_ms,
            options: self.options@,
        }
    }

    /// Well-formedness: each remote address once; and no operation ever puts
    /// the socket in the `Connected`, `Connecting` or `Closing` state.
    pub closed spec fn wf(&self) -> bool {
        &&& (self.state == SocketState::Closed || self.state == SocketState::Listening)
        &&& forall|a: int, b: int|
            #![trigger self.connections@[a], self.connections@[b]]
            0 <= a < b < self.connections@.len() ==> self.connections@[a].0 != self.connections@[b].0
    }

    /// Create a new, closed socket bound to 127.0.0.1:0.
    pub fn new(socket_type: SocketType, protocol: ProtocolType) -> (r: Result<Socket, NetworkError>)
        ensures
            r matches Ok(s) && s.wf() && s@ == fresh_socket(socket_type, protocol),
    {
        let s = Socket {
            state: SocketState::Closed,
            local_addr: NetAddress::new(IpAddress::localhost(), 0),
            socket_type,
            protocol,
            connections: Vec::new(),
            recv_buffer: Vec::new(),
            send_buffer: Vec::new(),
            timeout_ms: 5000,
            options: SocketOptions::default(),
        };
        assert(s@.connections =~= Seq::<(NetAddress, ConnectionView)>::empty());
        Ok(s)
    }

    /// Bind socket to a local address; only a closed socket can be bound.
    pub fn bind(&mut self, addr: NetAddress) -> (r: Result<(), NetworkError>)
        requires
            old(self).wf(),
        ensures
            final(self).wf(),
            old(self)@.state != SocketState::Closed ==> (r matches Err(NetworkError::SocketError(_)) && final(self)@
                == old(self)@),
            old(self)@.state == SocketState::Closed ==> (r is Ok && final(self)@ == (SocketView {
                local_addr: addr,
                ..old(self)@
            })),
    {
        if self.state != SocketState::Closed {
            return Err(NetworkError::SocketError(String::from_str("Socket is already bound")));
        }
        self.local_addr = addr;
        self.state = SocketState::Closed;
        Ok(())
    }

    /// Listen for incoming connections; only a closed stream socket can listen.
    pub fn listen(&mut self, backlog: usize) -> (r: Result<(), NetworkError>)
        requires
            old(self).wf(),
        ensures
            final(self).wf(),
            old(self)@.socket_type != SocketType::Stream || old(self)@.state != SocketState::Closed ==> (r matches Err(
                NetworkError::SocketError(_),
            ) && final(self)@ == old(self)@),
            old(self)@.socket_type == SocketType::Stream && old(self)@.state == SocketState::Closed ==> (r is Ok
                && final(self)@ == (SocketView { state: SocketState::Listening, ..old(self)@ })),
    {
        if self.socket_type != SocketType::Stream {
            return Err(NetworkError::SocketError(String::from_str("Listen only supported for stream sockets")));
        }
        if self.state != SocketState::Closed {
            return Err(NetworkError::SocketError(String::from_str("Socket is not in closed state")));
        }
        self.state = SocketState::Listening;
        Ok(())
    }

    /// Accept a pending connection: the first recorded connection is handed
    /// out, and its place is taken by a fresh connection to the same remote
    /// address in the `Connected` state.
    pub fn accept(&mut self) -> (r: Result<Connection, NetworkError>)
        requires
            old(self).wf(),
        ensures
            final(self).wf(),
            old(self)@.socket_type != SocketType::Stream || old(self)@.state != SocketState::Listening
                || old(self)@.connections.len() == 0 ==> (r matches Err(NetworkError::SocketError(_))
                && final(self)@ == old(self)@),
            old(self)@.socket_type == SocketType::Stream && old(self)@.state == SocketState::Listening
                && old(self)@.connections.len() > 0 ==> {
                &&& r matches Ok(c) && c@ == old(self)@.connections[0].1
                &&& final(self)@ == (SocketView {
                    connections: old(self)@.connections.update(
                        0,
                        (
                            old(self)@.connections[0].0,
                            ConnectionView {
                                state: ConnectionState::Connected,
                                ..fresh_connection(
                                    old(self)@.local_addr,
                                    old(self)@.connections[0].0,
                                    old(self)@.socket_type,
                                    old(self)@.protocol,
                                )
                            },
                        ),
                    ),
                    ..old(self)@
                })
            },
    {
        if self.socket_type != SocketType::Stream {
            return Err(NetworkError::SocketError(String::from_str("Accept only supported for stream sockets")));
        }
        if self.state != SocketState::Listening {
            return Err(NetworkError::SocketError(String::from_str("Socket is not listening")));
        }
        if self.connections.len() == 0 {
            return Err(NetworkError::SocketError(String::from_str("No pending connections")));
        }
        let remote_addr = self.connections[0].0;
        let mut fresh = Connection::new(self.local_addr, remote_addr, self.socket_type, self.protocol);
        fresh.state = ConnectionState::Connected;
        let mut entry = (remote_addr, fresh);
        std::mem::swap(&mut entry, &mut self.connections[0]);
        proof {
            assert(self@.connections =~= old(self)@.connections.update(
                0,
                (
                    old(self)@.connections[0].0,
                    ConnectionView {
                        state: ConnectionState::Connected,
                        ..fresh_connection(
                            old(self)@.local_addr,
                            old(self)@.connections[0].0,
                            old(self)@.socket_type,
                            old(self)@.protocol,
                        )
                    },
                ),
            ));
            assert forall|a: int, b: int|
                #![trigger self.connections@[a], self.connections@[b]]
                0 <= a < b < self.connections@.len() implies self.connections@[a].0 != self.connections@[b].0 by {
                assert(self.connections@[a].0 == old(self).connections@[a].0);
                assert(self.connections@[b].0 == old(self).connections@[b].0);
            }
        }
        Ok(entry.1)
    }

    /// Record a new connection to `addr` in the `Connecting` state (replacing
    /// one to the same address); only a closed stream socket can connect.
    pub fn connect(&mut self, addr: NetAddress) -> (r: Result<(), NetworkError>)
        requires
            old(self).wf(),
        ensures
            final(self).wf(),
            old(self)@.socket_type != SocketType::Stream || old(self)@.state != SocketState::Closed ==> (r matches Err(
                NetworkError::SocketError(_),
            ) && final(self)@ == old(self)@),
            old(self)@.socket_type == SocketType::Stream && old(self)@.state == SocketState::Closed ==> {
                &&& r is Ok
                &&& connection_for(final(self)@.connections, addr) == Some(
                    ConnectionView {
                        state: ConnectionState::Connecting,
                        ..fresh_connection(old(self)@.local_addr, addr, old(self)@.socket_type, old(self)@.protocol)
                    },
                )
                &&& forall|other: NetAddress| other != addr ==> connection_for(final(self)@.connections, other)
                    == connection_for(old(self)@.connections, other)
                &&& final(self)@ == (SocketView { connections: final(self)@.connections, ..old(self)@ })
            },
    {
        if self.socket_type != SocketType::Stream {
            return Err(NetworkError::SocketError(String::from_str("Connect only supported for stream sockets")));
        }
        if self.state != SocketState::Closed {
            return Err(NetworkError::SocketError(String::from_str("Socket is already connected")));
        }
        let mut connection = Connection::new(self.local_addr, addr, self.socket_type, self.protocol);
        connection.state = ConnectionState::Connecting;
        let ghost cv = connection@;
        let n = self.connections.len();
        let mut k: usize = 0;
        while k < n
            invariant
                n == self.connections@.len(),
                k <= n,
                *self == *old(self),
                old(self).wf(),
                forall|j: int| 0 <= j < k ==> self.connections@[j].0 != addr,
                connection@ == cv,
                old(self)@.socket_type == SocketType::Stream,
                old(self)@.state == SocketState::Closed,
                cv == (ConnectionView {
                    state: ConnectionState::Connecting,
                    ..fresh_connection(old(self)@.local_addr, addr, old(self)@.socket_type, old(self)@.protocol)
                }),
            decreases n - k,
        {
            if self.connections[k].0 == addr {
                let ghost before = self.connections@;
                assert(before == old(self).connections@);
                self.connections.set(k, (addr, connection));
                proof {
                    let old_conns = old(self)@.connections;
                    assert(self.connections@ == before.update(k as int, (addr, connection)));
                    assert(connection@ == cv);
                    assert forall|j: int| 0 <= j < self.connections@.len() implies #[trigger] self@.connections[j]
                        == old_conns.update(k as int, (addr, cv))[j] by {
                        if j != k {
                            assert(self.connections@[j] == before[j]);
                        }
                    }
                    assert(self@.connections =~= old_conns.update(k as int, (addr, cv)));
                    lemma_connection_update(old_conns, k as int, addr, cv);
                    assert forall|a: int, b: int|
                        #![trigger self.connections@[a], self.connections@[b]]
                        0 <= a < b < self.connections@.len() implies self.connections@[a].0 != self.connections@[b].0 by {
                        assert(self.connections@[a].0 == old(self).connections@[a].0);
                        assert(self.connections@[b].0 == old(self).connections@[b].0);
                    }
                }
                return Ok(());
            }
            k = k + 1;
        }
        self.connections.push((addr, connection));
        proof {
            let old_conns = old(self)@.connections;
            assert(self@.connections =~= old_conns.push((addr, cv)));
            assert(self@.connections.drop_last() =~= old_conns);
            assert forall|a: int, b: int|
                #![trigger self.connections@[a], self.connections@[b]]
                0 <= a < b < self.connections@.len() implies self.connections@[a].0 != self.connections@[b].0 by {
                if b == n {
                    assert(self.connections@[a] == old(self).connections@[a]);
                }
            }
        }
        Ok(())
    }

    /// Send data over the active connections; only a connected socket can
    /// send, and no operation connects a socket, so this always fails.
    pub fn send(&mut self, data: &[u8]) -> (r: Result<usize, NetworkError>)
        requires
            old(self).wf(),
        ensures
            final(self).wf(),
            r matches Err(NetworkError::SocketError(_)),
            final(self)@ == old(self)@,
    {
        if self.state != SocketState::Connected {
            return Err(NetworkError::SocketError(String::from_str("Socket is not connected")));
        }
        // A well-formed socket is closed or listening, so this point is not reached.
        assert(!(self.wf() && self.state == SocketState::Connected));
        let mut total_sent: usize = 0;
        let mut k: usize = 0;
        while k < self.connections.len()
            invariant
                self.wf(),
                self.state == SocketState::Connected,
                k <= self.connections@.len(),
            decreases self.connections@.len() - k,
        {
            let active = self.connections[k].1.is_active();
            if active {
                let connection = &mut self.connections[k].1;
                match connection.send_data(data) {
                    Ok(()) => {
                        total_sent = total_sent + data.len();
                    },
                    Err(e) => {
                        return Err(e);
                    },
                }
            }
            k = k + 1;
        }
        Ok(total_sent)
    }

    /// Move received bytes into `buffer`: as many as fit, from the front.
    /// Returns how many were moved.
    pub fn receive(&mut self, buffer: &mut [u8]) -> (r: Result<usize, NetworkError>)
        requires
            old(self).wf(),
        ensures
            final(self).wf(),
            r matches Ok(n) && {
                &&& n as int == if old(self)@.recv_buffer.len() < old(buffer)@.len() {
                    old(self)@.recv_buffer.len() as int
                } else {
                    old(buffer)@.len() as int
                }
                &&& final(buffer)@ == old(self)@.recv_buffer.subrange(0, n as int) + old(buffer)@.subrange(
                    n as int,
                    old(buffer)@.len() as int,
                )
                &&& final(self)@ == (SocketView {
                    recv_buffer: old(self)@.recv_buffer.subrange(n as int, old(self)@.recv_buffer.len() as int),
                    ..old(self)@
                })
            },
    {
        if self.recv_buffer.len() == 0 {
            assert(old(self)@.recv_buffer.subrange(0, 0) + old(buffer)@.subrange(0, old(buffer)@.len() as int)
                =~= old(buffer)@);
            assert(old(self)@.recv_buffer.subrange(0, 0) =~= old(self)@.recv_buffer);
            return Ok(0);
        }
        let data_len = if self.recv_buffer.len() < buffer.len() { self.recv_buffer.len() } else { buffer.len() };
        let mut i: usize = 0;
        while i < data_len
            invariant
                data_len <= self.recv_buffer@.len(),
                data_len <= buffer@.len(),
                buffer@.len() == old(buffer)@.len(),
                i <= data_len,
                self.recv_buffer@ == old(self).recv_buffer@,
                forall|j: int| 0 <= j < i ==> buffer@[j] == self.recv_buffer@[j],
                forall|j: int| i <= j < buffer@.len() ==> buffer@[j] == old(buffer)@[j],
            decreases data_len - i,
        {
            buffer[i] = self.recv_buffer[i];
            i = i + 1;
        }
        let mut rest: Vec<u8> = Vec::new();
        let mut k: usize = data_len;
        while k < self.recv_buffer.len()
            invariant
                data_len <= k <= self.recv_buffer@.len(),
                self.recv_buffer@ == old(self).recv_buffer@,
                rest@ == self.recv_buffer@.subrange(data_len as int, k as int),
            decreases self.recv_buffer@.len() - k,
        {
            rest.push(self.recv_buffer[k]);
            assert(rest@ =~= self.recv_buffer@.subrange(data_len as int, k + 1));
            k = k + 1;
        }
        self.recv_buffer = rest;
        assert(buffer@ =~= old(self)@.recv_buffer.subrange(0, data_len as int) + old(buffer)@.subrange(
            data_len as int,
            old(buffer)@.len() as int,
        ));
        Ok(data_len)
    }

    /// Check if socket is readable
    pub fn is_readable(&self) -> (b: bool)
        ensures
            b == (self@.recv_buffer.len() > 0),
    {
        self.recv_buffer.len() > 0
    }

    /// Check if socket is writable
    pub fn is_writable(&self) -> (b: bool)
        ensures
            b == (self@.send_buffer.len() > 0),
    {
        self.send_buffer.len() > 0
    }

    /// Close socket: closed state, no connections, empty buffers.
    pub fn close(&mut self) -> (r: Result<(), NetworkError>)
        ensures
            final(self).wf(),
            r is Ok,
            final(self)@ == (SocketView {
                state: SocketState::Closed,
                connections: Seq::empty(),
                recv_buffer: Seq::empty(),
                send_buffer: Seq::empty(),
                ..old(self)@
            }),
    {
        self.state = SocketState::Closed;
        self.connections.clear();
        self.recv_buffer.clear();
        self.send_buffer.clear();
        assert(self@.connections =~= Seq::<(NetAddress, ConnectionView)>::empty());
        Ok(())
    }
}

/// Replacing the entry at position `k` (whose address is `addr`) makes `addr`
/// look up the new connection and leaves other addresses unchanged, when
/// addresses are distinct.
proof fn lemma_connection_update(
    conns: Seq<(NetAddress, ConnectionView)>,
    k: int,
    addr: NetAddress,
    c: ConnectionView,
)
    requires
        0 <= k < conns.len(),
        conns[k].0 == addr,
        forall|a: int, b: int| 0 <= a < b < conns.len() ==> conns[a].0 != conns[b].0,
    ensures
        connection_for(conns.update(k, (addr, c)), addr) == Some(c),
        forall|q: NetAddress| q != addr ==> connection_for(conns.update(k, (addr, c)), q) == connection_for(conns, q),
    decreases conns.len(),
{
    let u = conns.update(k, (addr, c));
    if k == conns.len() - 1 {
        assert(u.drop_last() =~= conns.drop_last());
    } else {
        assert(u.drop_last() =~= conns.drop_last().update(k, (addr, c)));
        assert(conns.last().0 != addr) by {
            assert(conns[conns.len() - 1] == conns.last());
        }
        lemma_connection_update(conns.drop_last(), k, addr, c);
        assert forall|q: NetAddress| q != addr implies connection_for(u, q) == connection_for(conns, q) by {
            assert(u.last() == conns.last());
            if conns.last().0 != q {
                assert(connection_for(u.drop_last(), q) == connection_for(conns.drop_last(), q));
            }
        }
    }
}

/// TCP stream
#[derive(Debug)]
pub struct TcpStream {
    socket: Socket,
}

impl TcpStream {
    /// The underlying socket state.
    pub closed spec fn view(&self) -> SocketView {
        self.socket@
    }

    /// Well-formedness: a well-formed TCP stream socket.
    pub closed spec fn wf(&self) -> bool {
        &&& self.socket.wf()
        &&& self.socket@.socket_type == SocketType::Stream
        &&& self.socket@.protocol == ProtocolType::TCP
    }

    /// Create a new TCP stream
    pub fn new() -> (r: Result<TcpStream, NetworkError>)
        ensures
            r matches Ok(t) && t.wf() && t@ == fresh_socket(SocketType::Stream, ProtocolType::TCP),
    {
        match Socket::new(SocketType::Stream, ProtocolType::TCP) {
            Ok(socket) => Ok(TcpStream { socket }),
            Err(e) => Err(e),
        }
    }

    /// Connect to server
    pub fn connect(&mut self, addr: NetAddress) -> (r: Result<(), NetworkError>)
        requires
            old(self).wf(),
        ensures
            final(self).wf(),
            old(self)@.state != SocketState::Closed ==> (r matches Err(NetworkError::SocketError(_))
                && final(self)@ == old(self)@),
            old(self)@.state == SocketState::Closed ==> {
                &&& r is Ok
                &&& connection_for(final(self)@.connections, addr) == Some(
                    ConnectionView {
                        state: ConnectionState::Connecting,
                        ..fresh_connection(old(self)@.local_addr, addr, SocketType::Stream, ProtocolType::TCP)
                    },
                )
                &&& forall|other: NetAddress| other != addr ==> connection_for(final(self)@.connections, other)
                    == connection_for(old(self)@.connections, other)
                &&& final(self)@ == (SocketView { connections: final(self)@.connections, ..old(self)@ })
            },
    {
        self.socket.connect(addr)
    }

    /// Send data
    pub fn send(&mut self, data: &[u8]) -> (r: Result<usize, NetworkError>)
        requires
            old(self).wf(),
        ensures
            final(self).wf(),
            r matches Err(NetworkError::SocketError(_)),
            final(self)@ == old(self)@,
    {
        self.socket.send(data)
    }

    /// Receive data
    pub fn receive(&mut self, buffer: &mut [u8]) -> (r: Result<usize, NetworkError>)
        requires
            old(self).wf(),
        ensures
            final(self).wf(),
            r matches Ok(n) && {
                &&& n as int == if old(self)@.recv_buffer.len() < old(buffer)@.len() {
                    old(self)@.recv_buffer.len() as int
                } else {
                    old(buffer)@.len() as int
                }
                &&& final(buffer)@ == old(self)@.recv_buffer.subrange(0, n as int) + old(buffer)@.subrange(
                    n as int,
                    old(buffer)@.len() as int,
                )
                &&& final(self)@ == (SocketView {
                    recv_buffer: old(self)@.recv_buffer.subrange(n as int, old(self)@.recv_buffer.len() as int),
                    ..old(self)@
                })
            },
    {
        self.socket.receive(buffer)
    }

    /// Close stream
    pub fn close(&mut self) -> (r: Result<(), NetworkError>)
        requires
            old(self).wf(),
        ensures
            final(self).wf(),
            r is Ok,
            final(self)@ == (SocketView {
                state: SocketState::Closed,
                connections: Seq::empty(),
                recv_buffer: Seq::empty(),
                send_buffer: Seq::empty(),
                ..old(self)@
            }),
    {
        self.socket.close()
    }
}

/// UDP socket
#[derive(Debug)]
pub struct UdpSocket {
    socket: Socket,
}

impl UdpSocket {
    /// The underlying socket state.
    pub closed spec fn view(&self) -> SocketView {
        self.socket@
    }

    /// Well-formedness: a well-formed UDP datagram socket.
    pub closed spec fn wf(&self) -> bool {
        &&& self.socket.wf()
        &&& self.socket@.socket_type == SocketType::Datagram
        &&& self.socket@.protocol == ProtocolType::UDP
    }

    /// Create a new UDP socket
    pub fn new() -> (r: Result<UdpSocket, NetworkError>)
        ensures
            r matches Ok(u) && u.wf() && u@ == fresh_socket(SocketType::Datagram, ProtocolType::UDP),
    {
        match Socket::new(SocketType::Datagram, ProtocolType::UDP) {
            Ok(socket) => Ok(UdpSocket { socket }),
            Err(e) => Err(e),
        }
    }

    /// Bind socket to address
    pub fn bind(&mut self, addr: NetAddress) -> (r: Result<(), NetworkError>)
        requires
            old(self).wf(),
        ensures
            final(self).wf(),
            old(self)@.state == SocketState::Closed ==> (r is Ok && final(self)@ == (SocketView {
                local_addr: addr,
                ..old(self)@
            })),
            old(self)@.state != SocketState::Closed ==> (r matches Err(NetworkError::SocketError(_))
                && final(self)@ == old(self)@),
    {
        self.socket.bind(addr)
    }

    /// Send datagram (through the socket's connections; the address is not used)
    pub fn send_to(&mut self, data: &[u8], addr: NetAddress) -> (r: Result<usize, NetworkError>)
        requires
            old(self).wf(),
        ensures
            final(self).wf(),
            r matches Err(NetworkError::SocketError(_)),
            final(self)@ == old(self)@,
    {
        self.socket.send(data)
    }

    /// Receive datagram; the sender is reported as 127.0.0.1:0.
    pub fn receive_from(&mut self, buffer: &mut [u8]) -> (r: Result<(usize, NetAddress), NetworkError>)
        requires
            old(self).wf(),
        ensures
            final(self).wf(),
            r matches Ok((n, a)) && {
                &&& a == default_local_addr()
                &&& n as int == if old(self)@.recv_buffer.len() < old(buffer)@.len() {
                    old(self)@.recv_buffer.len() as int
                } else {
                    old(buffer)@.len() as int
                }
                &&& final(buffer)@ == old(self)@.recv_buffer.subrange(0, n as int) + old(buffer)@.subrange(
                    n as int,
                    old(buffer)@.len() as int,
                )
                &&& final(self)@ == (SocketView {
                    recv_buffer: old(self)@.recv_buffer.subrange(n as int, old(self)@.recv_buffer.len() as int),
                    ..old(self)@
                })
            },
    {
        match self.socket.receive(buffer) {
            Ok(bytes) => Ok((bytes, NetAddress::new(IpAddress::localhost(), 0))),
            Err(e) => Err(e),
        }
    }

    /// Close socket
    pub fn close(&mut self) -> (r: Result<(), NetworkError>)
        requires
            old(self).wf(),
        ensures
            final(self).wf(),
            r is Ok,
            final(self)@ == (SocketView {
                state: SocketState::Closed,
                connections: Seq::empty(),
                recv_buffer: Seq::empty(),
                send_buffer: Seq::empty(),
                ..old(self)@
            }),
    {
        self.socket.close()
    }
}

/// Law: no sequence of socket operations connects a socket: every socket
/// is closed or listening, so `send` on it is always refused.
pub proof fn law_socket_never_connected(s: Socket)
    requires
        s.wf(),
    ensures
        s@.state == SocketState::Closed || s@.state == SocketState::Listening,
{
}

/// Law: the checksum of two byte runs laid end to end is the XOR of their checksums.
pub proof fn law_checksum_concat(a: Seq<u8>, b: Seq<u8>)
    ensures
        checksum_of(a + b) == checksum_of(a) ^ checksum_of(b),
    decreases b.len(),
{
    if b.len() == 0 {
        assert(a + b =~= a);
        let x = checksum_of(a);
        assert(x ^ 0u32 == x) by (bit_vector);
    } else {
        assert((a + b).drop_last() =~= a + b.drop_last());
        assert((a + b).last() == b.last());
        law_checksum_concat(a, b.drop_last());
        let x = checksum_of(a);
        let y = checksum_of(b.drop_last());
        let t = byte_term(b.last());
        assert((x ^ y) ^ t == x ^ (y ^ t)) by (bit_vector);
    }
}

/// Two different bytes never contribute the same term to the checksum.
proof fn lemma_byte_term_injective(x: u8, y: u8)
    requires
        x != y,
    ensures
        byte_term(x) != byte_term(y),
{
    let a = x as u32;
    let b = y as u32;
    assert(a < 256 && b < 256 && a != b ==> (a * 0xDEECE66Du32) % 0x1_0000_0000 != (b * 0xDEECE66Du32)
        % 0x1_0000_0000) by (bit_vector);
}

/// Law: changing a single byte of a packet's data always changes its checksum,
/// so a packet whose data was altered in one place fails `verify_checksum`.
pub proof fn law_single_byte_change_detected(data: Seq<u8>, k: int, b: u8)
    requires
        0 <= k < data.len(),
        data[k] != b,
    ensures
        checksum_of(data.update(k, b)) != checksum_of(data),
{
    let pre = data.subrange(0, k);
    let post = data.subrange(k + 1, data.len() as int);
    assert(data =~= pre + seq![data[k]] + post);
    assert(data.update(k, b) =~= pre + seq![b] + post);
    law_checksum_concat(pre + seq![data[k]], post);
    law_checksum_concat(pre + seq![b], post);
    law_checksum_concat(pre, seq![data[k]]);
    law_checksum_concat(pre, seq![b]);
    assert(seq![data[k]].drop_last() =~= Seq::<u8>::empty());
    assert(seq![b].drop_last() =~= Seq::<u8>::empty());
    lemma_byte_term_injective(data[k], b);
    let p = checksum_of(pre);
    let q = checksum_of(post);
    let s = checksum_of(seq![data[k]]);
    let t = checksum_of(seq![b]);
    assert(seq![data[k]].last() == data[k]);
    assert(seq![b].last() == b);
    assert(checksum_of(Seq::<u8>::empty()) == 0);
    assert(s == 0u32 ^ byte_term(data[k]));
    assert(t == 0u32 ^ byte_term(b));
    let u = byte_term(data[k]);
    let v = byte_term(b);
    assert(u != v ==> (p ^ (0u32 ^ u)) ^ q != (p ^ (0u32 ^ v)) ^ q) by (bit_vector);
}

/// Law: an address looks up the connection of its last entry, and nothing when no entry has that address.
pub proof fn law_connection_for_is_last_entry(index: Seq<(NetAddress, ConnectionView)>, key: NetAddress)
    ensures
        connection_for(index, key) is None <==> forall|k: int| 0 <= k < index.len() ==> (#[trigger] index[k]).0 != key,
        match connection_for(index, key) {
            Some(v) => exists|k: int|
                0 <= k < index.len() && #[trigger] index[k] == (key, v) && forall|j: int|
                    k < j < index.len() ==> (#[trigger] index[j]).0 != key,
            None => true,
        },
    decreases index.len(),
{
    if index.len() > 0 {
        let init = index.drop_last();
        law_connection_for_is_last_entry(init, key);
        let last = index.len() - 1;
        if index.last().0 == key {
            assert(index[last] == (key, index.last().1));
        } else {
            assert forall|k: int| 0 <= k < init.len() implies index[k] == init[k] by {}
            if let Some(v) = connection_for(init, key) {
                let k = choose|k: int|
                    0 <= k < init.len() && #[trigger] init[k] == (key, v) && forall|j: int|
                        k < j < init.len() ==> (#[trigger] init[j]).0 != key;
                assert(index[k] == (key, v));
                assert forall|j: int| k < j < index.len() implies (#[trigger] index[j]).0 != key by {
                    if j < last {
                        assert(init[j].0 != key);
                    }
                }
            } else {
                assert forall|k: int| 0 <= k < index.len() implies (#[trigger] index[k]).0 != key by {
                    if k < last {
                        assert(init[k].0 != key);
                    }
                }
            }
        }
    }
}

} // verus!
