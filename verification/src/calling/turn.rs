//! TURN relaying (RFC 5766): relay credentials, message building and parsing,
//! and the client's conversation with its server as a state machine.
use crate::bytes;
use crate::json;
use crate::json::{Json, JsonV};
use crate::text;
use vstd::prelude::*;
use vstd::utf8::*;

verus! {

pub const MAGIC_COOKIE: u32 = 0x2112A442;

pub const STUN_HEADER_SIZE: usize = 20;

pub const ALLOCATE_REQUEST: u16 = 0x0003;

pub const ALLOCATE_RESPONSE: u16 = 0x0103;

pub const ALLOCATE_ERROR_RESPONSE: u16 = 0x0113;

pub const CREATE_PERMISSION_REQUEST: u16 = 0x0008;

pub const CREATE_PERMISSION_RESPONSE: u16 = 0x0108;

pub const SEND_INDICATION: u16 = 0x0016;

pub const DATA_INDICATION: u16 = 0x0017;

pub const CHANNEL_BIND_REQUEST: u16 = 0x0009;

pub const CHANNEL_BIND_RESPONSE: u16 = 0x0109;

pub const ATTR_USERNAME: u16 = 0x0006;

pub const ATTR_MESSAGE_INTEGRITY: u16 = 0x0008;

pub const ATTR_ERROR_CODE: u16 = 0x0009;

pub const ATTR_XOR_MAPPED_ADDRESS: u16 = 0x0020;

pub const ATTR_FINGERPRINT: u16 = 0x8028;

pub const ATTR_REALM: u16 = 0x0014;

pub const ATTR_NONCE: u16 = 0x0015;

pub const ATTR_XOR_RELAYED_ADDRESS: u16 = 0x0016;

pub const ATTR_REQUESTED_TRANSPORT: u16 = 0x0019;

pub const ATTR_XOR_PEER_ADDRESS: u16 = 0x0012;

pub const ATTR_DATA: u16 = 0x0013;

pub const ATTR_LIFETIME: u16 = 0x000D;

pub const ATTR_CHANNEL_NUMBER: u16 = 0x000C;

/// What the FINGERPRINT checksum is combined with.
pub const FINGERPRINT_XOR: u32 = 0x5354554e;

/// The protocol number of UDP.
pub const TRANSPORT_UDP: u8 = 17;

/// The lifetime of an allocation whose server names none, in seconds.
pub const DEFAULT_LIFETIME: u32 = 600;

/// FlightProxy TURN server endpoint.
pub const FLIGHTPROXY_TURN_SERVER: &'static str = "api.flightproxy.teams.microsoft.com:3478";

/// FlightProxy REST endpoint for relay token acquisition.
pub const FLIGHTPROXY_RELAY_URL: &'static str =
    "https://api.flightproxy.teams.microsoft.com/api/v2/ep/relay/token";

// -- Relay configuration --

/// Transport for a TURN server.
#[derive(Debug, Clone, Copy, PartialEq, Eq, Structural)]
pub enum TurnTransport {
    Udp,
    Tcp,
    Tls,
}

/// A single TURN server entry.
#[derive(Debug, Clone)]
pub struct TurnServer {
    pub host: String,
    pub port: u16,
    pub transport: TurnTransport,
}

/// Relay configuration obtained from FlightProxy.
#[derive(Debug, Clone)]
pub struct RelayConfig {
    pub servers: Vec<TurnServer>,
    pub username: String,
    pub credential: String,
    /// Time-to-live in seconds.
    pub ttl: u32,
}

/// The model of a server entry.
pub struct ServerV {
    pub host: Seq<char>,
    pub port: u16,
    pub transport: TurnTransport,
}

impl View for TurnServer {
    type V = ServerV;

    open spec fn view(&self) -> ServerV {
        ServerV { host: self.host@, port: self.port, transport: self.transport }
    }
}

/// The models of a list of servers.
pub open spec fn servers_view(v: Seq<TurnServer>) -> Seq<ServerV> {
    Seq::new(v.len(), |i: int| v[i]@)
}

/// What stands before the first question mark, and what stands behind it.
pub open spec fn split_query(s: Seq<char>) -> (Seq<char>, Seq<char>) {
    match text::first_index(s, '?') {
        Some(i) => (s.take(i), s.skip(i + 1)),
        None => (s, Seq::empty()),
    }
}

/// The server that the part of a TURN URL behind its scheme names.
pub open spec fn server_of(rest: Seq<char>, scheme: TurnTransport) -> ServerV {
    let (host_port, query) = split_query(rest);
    let transport = if text::contains_text(query, "transport=tcp"@) {
        TurnTransport::Tcp
    } else if text::contains_text(query, "transport=tls"@) {
        TurnTransport::Tls
    } else {
        scheme
    };
    match text::last_index(host_port, ':') {
        Some(i) => ServerV {
            host: host_port.take(i),
            port: match bytes::port_number(host_port.skip(i + 1)) {
                Some(p) => p,
                None => 3478,
            },
            transport,
        },
        None => ServerV { host: host_port, port: 3478, transport },
    }
}

/// The server that a TURN URL names.
pub open spec fn turn_url(url: Seq<char>) -> Option<ServerV> {
    if "turns:"@.is_prefix_of(url) {
        Some(server_of(url.skip(6), TurnTransport::Tls))
    } else if "turn:"@.is_prefix_of(url) {
        Some(server_of(url.skip(5), TurnTransport::Udp))
    } else {
        None
    }
}

fn server_from(v: &Vec<char>, from: usize, scheme: TurnTransport) -> (r: TurnServer)
    requires
        from <= v@.len(),
    ensures
        r@ == server_of(v@.skip(from as int), scheme),
{
    let n: usize = v.len();
    let rest_text = text::text_of(v, from, n);
    let rest = text::chars_of(rest_text.as_str());
    proof {
        assert(rest@ =~= v@.skip(from as int));
    }
    let m: usize = rest.len();
    let (host_port, query) = match text::char_index_from(&rest, '?', 0) {
        Some(i) => {
            proof {
                assert(rest@.subrange(0, i as int) =~= rest@.take(i as int));
                assert(rest@.subrange(i + 1, m as int) =~= rest@.skip(i + 1));
            }
            (text::text_of(&rest, 0, i), text::text_of(&rest, i + 1, m))
        },
        None => (rest_text, String::new()),
    };
    let transport = if text::contains(query.as_str(), "transport=tcp") {
        TurnTransport::Tcp
    } else if text::contains(query.as_str(), "transport=tls") {
        TurnTransport::Tls
    } else {
        scheme
    };
    let hp = text::chars_of(host_port.as_str());
    let k: usize = hp.len();
    match text::char_last_index(&hp, ':') {
        Some(i) => {
            let host = text::text_of(&hp, 0, i);
            let tail = text::text_of(&hp, i + 1, k);
            proof {
                assert(hp@.subrange(0, i as int) =~= hp@.take(i as int));
                assert(hp@.subrange(i + 1, k as int) =~= hp@.skip(i + 1));
            }
            let port: u16 = match bytes::parse_port(tail.as_str()) {
                Some(p) => p,
                None => 3478,
            };
            TurnServer { host, port, transport }
        },
        None => TurnServer { host: host_port, port: 3478, transport },
    }
}

/// Parses a TURN URL like `turn:host:port?transport=udp` or `turns:host:port`.
pub fn parse_turn_url(url: &str) -> (r: Option<TurnServer>)
    ensures
        match r {
            Some(s) => turn_url(url@) == Some(s@),
            None => turn_url(url@) is None,
        },
{
    let v = text::chars_of(url);
    proof {
        reveal_strlit("turns:");
        reveal_strlit("turn:");
    }
    if text::starts_with(url, "turns:") {
        Some(server_from(&v, 6, TurnTransport::Tls))
    } else if text::starts_with(url, "turn:") {
        Some(server_from(&v, 5, TurnTransport::Udp))
    } else {
        None
    }
}

/// The server that stands in where a response lists none.
pub open spec fn default_server() -> ServerV {
    ServerV {
        host: "api.flightproxy.teams.microsoft.com"@,
        port: 3478,
        transport: TurnTransport::Udp,
    }
}

/// The servers among the listed URLs: those that are strings and TURN URLs.
pub open spec fn listed_servers(urls: Seq<JsonV>) -> Seq<ServerV>
    decreases urls.len(),
{
    if urls.len() == 0 {
        Seq::empty()
    } else {
        let rest = listed_servers(urls.drop_last());
        match urls.last() {
            JsonV::Str(s) => match turn_url(s) {
                Some(v) => rest.push(v),
                None => rest,
            },
            _ => rest,
        }
    }
}

/// The servers of a credential record, the default one where there is none.
pub open spec fn servers_of(record: JsonV) -> Seq<ServerV> {
    let listed = match json::arr_of(json::get_of(record, "urls"@)) {
        Some(a) => listed_servers(a),
        None => Seq::empty(),
    };
    if listed.len() == 0 {
        Seq::empty().push(default_server())
    } else {
        listed
    }
}

/// The first of two members that is there.
pub open spec fn either_member(record: JsonV, a: Seq<char>, b: Seq<char>) -> Option<JsonV> {
    match json::get_of(record, a) {
        Some(v) => Some(v),
        None => json::get_of(record, b),
    }
}

pub open spec fn text_or_empty(v: Option<JsonV>) -> Seq<char> {
    match json::str_of(v) {
        Some(s) => s,
        None => Seq::empty(),
    }
}

/// The lifetime of a credential record, an hour where it names none.
pub open spec fn ttl_of(record: JsonV) -> int {
    match json::u64_of(json::get_of(record, "ttl"@)) {
        Some(n) => n as int % 0x1_0000_0000,
        None => 3600,
    }
}

/// The record that a relay token response keeps its credentials in, and
/// whether it is the response itself.
pub open spec fn relay_record(body: JsonV) -> Option<(JsonV, bool)> {
    if json::str_of(json::get_of(body, "username"@)) is Some {
        Some((body, true))
    } else {
        match json::arr_of(json::get_of(body, "TurnServerCredentials"@)) {
            Some(a) => if a.len() > 0 {
                Some((a[0], false))
            } else {
                None
            },
            None => None,
        }
    }
}

/// What a relay token response says.
pub open spec fn is_relay_config(body: JsonV, c: RelayConfig) -> bool {
    match relay_record(body) {
        Some((record, plain)) => {
            &&& c.username@ == text_or_empty(json::get_of(record, "username"@))
            &&& c.credential@ == text_or_empty(
                if plain {
                    either_member(record, "credential"@, "password"@)
                } else {
                    either_member(record, "password"@, "credential"@)
                },
            )
            &&& c.ttl == ttl_of(record)
            &&& servers_view(c.servers@) == servers_of(record)
        },
        None => false,
    }
}

fn read_servers(record: &Json) -> (r: Vec<TurnServer>)
    ensures
        servers_view(r@) == servers_of(record@),
{
    let mut out: Vec<TurnServer> = Vec::new();
    proof {
        assert(servers_view(out@) =~= Seq::empty());
    }
    match record.get("urls") {
        Some(Json::Arr(a)) => {
            proof {
                json::lemma_arr_view(*a);
            }
            let ghost urls = json::items_view(a@);
            let mut i: usize = 0;
            proof {
                assert(urls.take(0) =~= Seq::empty());
            }
            while i < a.len()
                invariant
                    i <= a@.len(),
                    urls == json::items_view(a@),
                    servers_view(out@) == listed_servers(urls.take(i as int)),
                decreases a@.len() - i,
            {
                proof {
                    assert(urls.take(i + 1).drop_last() =~= urls.take(i as int));
                    assert(urls.take(i + 1).last() == a@[i as int]@);
                }
                let ghost before = out@;
                if let Json::Str(s) = &a[i] {
                    if let Some(server) = parse_turn_url(s.as_str()) {
                        out.push(server);
                        proof {
                            assert(servers_view(out@) =~= servers_view(before).push(server@));
                        }
                    }
                }
                i = i + 1;
            }
            proof {
                assert(urls.take(i as int) =~= urls);
            }
        },
        _ => {},
    }
    if out.len() == 0 {
        out.push(
            TurnServer {
                host: "api.flightproxy.teams.microsoft.com".to_string(),
                port: 3478,
                transport: TurnTransport::Udp,
            },
        );
        proof {
            assert(servers_view(out@) =~= Seq::empty().push(default_server()));
        }
    }
    out
}

fn text_or_default(v: Option<&Json>) -> (r: String)
    ensures
        r@ == text_or_empty(json::opt_json(v)),
{
    match json::as_text(v) {
        Some(s) => s,
        None => String::new(),
    }
}

fn read_ttl(record: &Json) -> (r: u32)
    ensures
        r == ttl_of(record@),
{
    match json::as_number(record.get("ttl")) {
        Some(n) => (n % 0x1_0000_0000) as u32,
        None => 3600,
    }
}

/// Reads the relay token response: the credentials stand in the response
/// itself or in the first record of `TurnServerCredentials`. Any other form is
/// refused.
pub fn parse_relay_response(body: &Json) -> (r: Option<RelayConfig>)
    ensures
        match r {
            Some(c) => is_relay_config(body@, c),
            None => relay_record(body@) is None,
        },
{
    if let Some(username) = json::as_text(body.get("username")) {
        let credential = match body.get("credential") {
            Some(v) => text_or_default(Some(v)),
            None => text_or_default(body.get("password")),
        };
        return Some(
            RelayConfig { servers: read_servers(body), username, credential, ttl: read_ttl(body) },
        );
    }
    match body.get("TurnServerCredentials") {
        Some(Json::Arr(a)) => {
            proof {
                json::lemma_arr_view(*a);
            }
            if a.len() == 0 {
                return None;
            }
            let first = &a[0];
            let credential = match first.get("password") {
                Some(v) => text_or_default(Some(v)),
                None => text_or_default(first.get("credential")),
            };
            Some(
                RelayConfig {
                    servers: read_servers(first),
                    username: text_or_default(first.get("username")),
                    credential,
                    ttl: read_ttl(first),
                },
            )
        },
        _ => None,
    }
}

/// Reads relay credentials from the bytes of a reply; nothing where they are no JSON
/// text, or of a form that is not known.
pub fn read_relay_reply(body: &[u8]) -> (r: Option<RelayConfig>)
    ensures
        match r {
            Some(c) => json::json_bytes(body@) matches Some(v) && is_relay_config(v, c),
            None => json::json_bytes(body@) matches Some(v) ==> relay_record(v) is None,
        },
{
    match json::parse_json_bytes(body) {
        Some(v) => parse_relay_response(&v),
        None => None,
    }
}

/// What to do after a try for relay credentials.
#[derive(Clone, Copy, Debug, PartialEq, Eq, Structural)]
pub enum RelayStep {
    /// Read the reply.
    Read,
    /// Try again with a bearer token.
    TryBearer,
    /// Give up.
    Fail,
}

/// Decides what follows a try for relay credentials, by how the token was sent and
/// whether the reply was a success.
pub fn relay_step(bearer: bool, ok: bool) -> (r: RelayStep)
    ensures
        ok ==> r is Read,
        !ok && !bearer ==> r is TryBearer,
        !ok && bearer ==> r is Fail,
{
    if ok {
        RelayStep::Read
    } else if !bearer {
        RelayStep::TryBearer
    } else {
        RelayStep::Fail
    }
}

/// The header that carries the token on the two tries for relay credentials:
/// the Skype token header first, a bearer token where that was refused.
pub fn relay_auth_header(bearer: bool, skype_token: &str) -> (r: (String, String))
    ensures
        bearer ==> r.0@ == "Authorization"@ && r.1@ == "Bearer "@ + skype_token@,
        !bearer ==> r.0@ == "X-Skypetoken"@ && r.1@ == skype_token@,
{
    if bearer {
        ("Authorization".to_string(), text::join2("Bearer ", skype_token))
    } else {
        ("X-Skypetoken".to_string(), skype_token.to_string())
    }
}

/// The first server that is reached over UDP.
pub open spec fn first_udp(servers: Seq<TurnServer>, i: int) -> bool {
    &&& 0 <= i < servers.len()
    &&& servers[i].transport == TurnTransport::Udp
    &&& forall|j: int| 0 <= j < i ==> (#[trigger] servers[j]).transport != TurnTransport::Udp
}

/// The index of the first server that is reached over UDP.
pub fn first_udp_server(servers: &Vec<TurnServer>) -> (r: Option<usize>)
    ensures
        match r {
            Some(i) => first_udp(servers@, i as int),
            None => forall|j: int|
                0 <= j < servers@.len() ==> (#[trigger] servers@[j]).transport
                    != TurnTransport::Udp,
        },
{
    let mut i: usize = 0;
    while i < servers.len()
        invariant
            i <= servers@.len(),
            forall|j: int|
                0 <= j < i ==> (#[trigger] servers@[j]).transport != TurnTransport::Udp,
        decreases servers@.len() - i,
    {
        if servers[i].transport == TurnTransport::Udp {
            return Some(i);
        }
        i = i + 1;
    }
    None
}

// -- Addresses --

/// An IP address by its octets.
#[derive(Debug, Clone, Copy, PartialEq, Eq)]
pub enum IpAddress {
    V4([u8; 4]),
    V6([u8; 16]),
}

/// An IP address and a port.
#[derive(Debug, Clone, Copy, PartialEq, Eq)]
pub struct SocketAddress {
    pub ip: IpAddress,
    pub port: u16,
}

/// The model of an address: its octets, four or sixteen, and its port.
pub struct AddressV {
    pub octets: Seq<u8>,
    pub port: u16,
}

impl View for SocketAddress {
    type V = AddressV;

    open spec fn view(&self) -> AddressV {
        AddressV {
            octets: match self.ip {
                IpAddress::V4(a) => a@,
                IpAddress::V6(a) => a@,
            },
            port: self.port,
        }
    }
}

pub open spec fn opt_address(o: Option<SocketAddress>) -> Option<AddressV> {
    match o {
        Some(a) => Some(a@),
        None => None,
    }
}

/// The bytes that an address is combined with: the cookie and the transaction
/// id, or zeros where that is shorter than twelve bytes.
pub open spec fn xor_key(txn: Seq<u8>) -> Seq<u8> {
    bytes::be32(MAGIC_COOKIE as int) + (if txn.len() >= 12 {
        txn.take(12)
    } else {
        bytes::zeros(12)
    })
}

/// Byte by byte exclusive or of `s` with the front of `key`.
pub open spec fn xored(s: Seq<u8>, key: Seq<u8>) -> Seq<u8> {
    Seq::new(s.len(), |i: int| s[i] ^ key[i])
}

/// An address in XOR form: a zero byte, the family, the port and the octets.
pub open spec fn xor_encoded(a: AddressV, txn: Seq<u8>) -> Seq<u8> {
    Seq::empty().push(0u8).push(
        if a.octets.len() == 4 {
            1u8
        } else {
            2u8
        },
    ) + bytes::be16((a.port ^ 0x2112u16) as int) + xored(a.octets, xor_key(txn))
}

/// The address that a value in XOR form stands for.
pub open spec fn xor_decoded(value: Seq<u8>, txn: Seq<u8>) -> Option<AddressV> {
    if value.len() < 4 {
        None
    } else {
        let port = (bytes::number16(value[2], value[3]) as u16) ^ 0x2112u16;
        if value[1] == 1 && value.len() >= 8 {
            Some(AddressV { octets: xored(value.subrange(4, 8), xor_key(txn)), port })
        } else if value[1] == 2 && value.len() >= 20 {
            Some(AddressV { octets: xored(value.subrange(4, 20), xor_key(txn)), port })
        } else {
            None
        }
    }
}

/// Decoding gives back the address that was encoded, under the same
/// transaction id.
pub proof fn law_xor_address_round_trip(a: AddressV, txn: Seq<u8>)
    requires
        a.octets.len() == 4 || a.octets.len() == 16,
    ensures
        xor_decoded(xor_encoded(a, txn), txn) == Some(a),
{
    let e = xor_encoded(a, txn);
    let key = xor_key(txn);
    let n = a.octets.len() as int;
    let x: u16 = a.port ^ 0x2112u16;
    bytes::lemma_be16_number(x as int);
    let p: u16 = a.port;
    assert((p ^ 0x2112u16) ^ 0x2112u16 == p) by (bit_vector);
    assert(e.subrange(4, 4 + n) =~= xored(a.octets, key));
    assert forall|i: int| 0 <= i < n implies xored(xored(a.octets, key), key)[i]
        == #[trigger] a.octets[i] by {
        let b: u8 = a.octets[i];
        let k: u8 = key[i];
        assert((b ^ k) ^ k == b) by (bit_vector);
    }
    assert(xored(xored(a.octets, key), key) =~= a.octets);
}

fn make_xor_key(txn: &[u8]) -> (r: Vec<u8>)
    ensures
        r@ == xor_key(txn@),
        r@.len() == 16,
{
    let mut key: Vec<u8> = Vec::new();
    bytes::append_be32(&mut key, MAGIC_COOKIE);
    proof {
        assert(key@ =~= bytes::be32(MAGIC_COOKIE as int));
    }
    if txn.len() >= 12 {
        let head = bytes::copy_range(txn, 0, 12);
        proof {
            assert(head@ =~= txn@.take(12));
        }
        bytes::append_bytes(&mut key, head.as_slice());
    } else {
        bytes::append_zeros(&mut key, 12);
    }
    key
}

fn append_xored(out: &mut Vec<u8>, s: &[u8], key: &Vec<u8>)
    requires
        s@.len() <= key@.len(),
    ensures
        final(out)@ == old(out)@ + xored(s@, key@),
{
    let mut i: usize = 0;
    proof {
        assert(old(out)@ + xored(s@, key@).take(0) =~= old(out)@);
    }
    while i < s.len()
        invariant
            i <= s@.len() <= key@.len(),
            out@ == old(out)@ + xored(s@, key@).take(i as int),
        decreases s@.len() - i,
    {
        out.push(s[i] ^ key[i]);
        proof {
            assert(old(out)@ + xored(s@, key@).take(i + 1) =~= (old(out)@ + xored(s@, key@).take(
                i as int,
            )).push(s@[i as int] ^ key@[i as int]));
        }
        i = i + 1;
    }
    proof {
        assert(xored(s@, key@).take(i as int) =~= xored(s@, key@));
    }
}

/// Writes an address in XOR form.
pub fn encode_xor_address(addr: SocketAddress, txn_id: &[u8]) -> (r: Vec<u8>)
    ensures
        r@ == xor_encoded(addr@, txn_id@),
{
    let key = make_xor_key(txn_id);
    let mut val: Vec<u8> = Vec::new();
    val.push(0u8);
    let xport: u16 = addr.port ^ 0x2112u16;
    match addr.ip {
        IpAddress::V4(ip) => {
            val.push(1u8);
            proof {
                assert(val@ =~= Seq::empty().push(0u8).push(1u8));
            }
            bytes::append_be16(&mut val, xport);
            append_xored(&mut val, ip.as_slice(), &key);
        },
        IpAddress::V6(ip) => {
            val.push(2u8);
            proof {
                assert(val@ =~= Seq::empty().push(0u8).push(2u8));
            }
            bytes::append_be16(&mut val, xport);
            append_xored(&mut val, ip.as_slice(), &key);
        },
    }
    val
}

/// Reads an address in XOR form.
pub fn decode_xor_address(value: &[u8], txn_id: &[u8]) -> (r: Option<SocketAddress>)
    ensures
        opt_address(r) == xor_decoded(value@, txn_id@),
{
    if value.len() < 4 {
        return None;
    }
    let key = make_xor_key(txn_id);
    let port: u16 = bytes::read_be16(value, 2) ^ 0x2112u16;
    let family: u8 = value[1];
    if family == 1 && value.len() >= 8 {
        let ip: [u8; 4] = [
            value[4] ^ key[0],
            value[5] ^ key[1],
            value[6] ^ key[2],
            value[7] ^ key[3],
        ];
        proof {
            assert(ip@ =~= xored(value@.subrange(4, 8), key@));
        }
        Some(SocketAddress { ip: IpAddress::V4(ip), port })
    } else if family == 2 && value.len() >= 20 {
        let mut ip: [u8; 16] = [0u8; 16];
        let mut i: usize = 0;
        while i < 16
            invariant
                i <= 16,
                value@.len() >= 20,
                key@.len() == 16,
                ip@.len() == 16,
                forall|j: int| 0 <= j < i ==> #[trigger] ip@[j] == value@[4 + j] ^ key@[j],
            decreases 16 - i,
        {
            ip[i] = value[4 + i] ^ key[i];
            i = i + 1;
        }
        proof {
            assert(ip@ =~= xored(value@.subrange(4, 20), key@));
        }
        Some(SocketAddress { ip: IpAddress::V6(ip), port })
    } else {
        None
    }
}

// -- Messages --

/// `data` with the message length in its header set to `n`, modulo 65536.
pub open spec fn with_length(data: Seq<u8>, n: int) -> Seq<u8> {
    data.update(2, bytes::be16(n % 65536)[0]).update(3, bytes::be16(n % 65536)[1])
}

/// The header of a message that has no attributes yet.
pub open spec fn stun_header(msg_type: u16, txn: Seq<u8>) -> Seq<u8> {
    bytes::be16(msg_type as int) + bytes::be16(0) + bytes::be32(MAGIC_COOKIE as int) + txn
}

/// The length of a value with its padding to whole groups of four bytes.
pub open spec fn padded(len: int) -> int {
    (len + 3) / 4 * 4
}

/// One attribute: its type, its length, its value and zeros up to a multiple
/// of four bytes.
pub open spec fn attr_bytes(kind: u16, value: Seq<u8>) -> Seq<u8> {
    bytes::be16(kind as int) + bytes::be16(value.len() as int % 65536) + value + bytes::zeros(
        (padded(value.len() as int) - value.len()) as nat,
    )
}

/// The credentials as attributes: the user name, then realm and nonce where
/// they are known.
pub open spec fn auth_bytes(
    username: Seq<char>,
    realm: Option<Seq<char>>,
    nonce: Option<Seq<char>>,
) -> Seq<u8> {
    attr_bytes(ATTR_USERNAME, encode_utf8(username)) + (match realm {
        Some(r) => attr_bytes(ATTR_REALM, encode_utf8(r)),
        None => Seq::empty(),
    }) + (match nonce {
        Some(n) => attr_bytes(ATTR_NONCE, encode_utf8(n)),
        None => Seq::empty(),
    })
}

/// An Allocate request for a UDP relay.
pub open spec fn allocate_request(
    txn: Seq<u8>,
    username: Option<Seq<char>>,
    realm: Option<Seq<char>>,
    nonce: Option<Seq<char>>,
) -> Seq<u8> {
    let transport = Seq::empty().push(TRANSPORT_UDP) + bytes::zeros(3);
    let body = stun_header(ALLOCATE_REQUEST, txn) + attr_bytes(ATTR_REQUESTED_TRANSPORT, transport)
        + (match username {
        Some(u) => auth_bytes(u, realm, nonce),
        None => Seq::empty(),
    });
    with_length(body, body.len() - 20)
}

/// Writes the header of a message.
pub fn build_stun_header(msg_type: u16, txn_id: &[u8; 12]) -> (r: Vec<u8>)
    ensures
        r@ == stun_header(msg_type, txn_id@),
        r@.len() == 20,
{
    let mut buf: Vec<u8> = Vec::new();
    bytes::append_be16(&mut buf, msg_type);
    bytes::append_be16(&mut buf, 0u16);
    bytes::append_be32(&mut buf, MAGIC_COOKIE);
    bytes::append_bytes(&mut buf, txn_id.as_slice());
    proof {
        assert(buf@ =~= stun_header(msg_type, txn_id@));
    }
    buf
}

/// Appends one attribute.
pub fn append_attr(buf: &mut Vec<u8>, attr_type: u16, value: &[u8])
    ensures
        final(buf)@ == old(buf)@ + attr_bytes(attr_type, value@),
{
    bytes::append_be16(buf, attr_type);
    bytes::append_be16(buf, (value.len() % 65536) as u16);
    bytes::append_bytes(buf, value);
    let pad: usize = (4 - (value.len() % 4)) % 4;
    bytes::append_zeros(buf, pad);
    proof {
        assert(pad == padded(value@.len() as int) - value@.len());
        assert(buf@ =~= old(buf)@ + attr_bytes(attr_type, value@));
    }
}

/// Appends the credentials.
pub fn append_auth_attrs(
    buf: &mut Vec<u8>,
    username: &str,
    realm: Option<&str>,
    nonce: Option<&str>,
)
    ensures
        final(buf)@ == old(buf)@ + auth_bytes(
            username@,
            text::opt_str(realm),
            text::opt_str(nonce),
        ),
{
    append_attr(buf, ATTR_USERNAME, username.as_bytes());
    if let Some(r) = realm {
        append_attr(buf, ATTR_REALM, r.as_bytes());
    }
    if let Some(n) = nonce {
        append_attr(buf, ATTR_NONCE, n.as_bytes());
    }
    proof {
        assert(buf@ =~= old(buf)@ + auth_bytes(
            username@,
            text::opt_str(realm),
            text::opt_str(nonce),
        ));
    }
}

fn set_length(buf: &mut Vec<u8>, n: usize)
    requires
        old(buf)@.len() >= 4,
    ensures
        final(buf)@ == with_length(old(buf)@, n as int),
{
    let m: u16 = (n % 65536) as u16;
    buf.set(2, (m / 256) as u8);
    buf.set(3, (m % 256) as u8);
}

/// Builds an Allocate request, with credentials where a user name is given.
pub fn build_allocate_request(
    txn_id: &[u8; 12],
    username: Option<&str>,
    realm: Option<&str>,
    nonce: Option<&str>,
) -> (r: Vec<u8>)
    ensures
        r@ == allocate_request(
            txn_id@,
            text::opt_str(username),
            text::opt_str(realm),
            text::opt_str(nonce),
        ),
        r@.len() >= 20,
{
    let mut buf = build_stun_header(ALLOCATE_REQUEST, txn_id);
    let transport: [u8; 4] = [TRANSPORT_UDP, 0, 0, 0];
    append_attr(&mut buf, ATTR_REQUESTED_TRANSPORT, transport.as_slice());
    proof {
        assert(transport@ =~= Seq::empty().push(TRANSPORT_UDP) + bytes::zeros(3));
    }
    let ghost before = buf@;
    if let Some(u) = username {
        append_auth_attrs(&mut buf, u, realm, nonce);
    } else {
        proof {
            assert(before + Seq::<u8>::empty() =~= before);
        }
    }
    let n: usize = buf.len() - STUN_HEADER_SIZE;
    set_length(&mut buf, n);
    buf
}

// -- Integrity and fingerprint --

/// What HMAC-SHA1 gives for a key and a message.
pub uninterp spec fn hmac_sha1_of(key: Seq<u8>, message: Seq<u8>) -> Seq<u8>;

/// What MD5 gives for a message.
pub uninterp spec fn md5_of(message: Seq<u8>) -> Seq<u8>;

/// `hmac::Hmac<sha1::Sha1>` over one message: twenty bytes that depend on the
/// key and the message alone. A key of any length is taken.
#[verifier::external_body]
fn hmac_sha1(key: &[u8], message: &[u8]) -> (r: Vec<u8>)
    ensures
        r@ == hmac_sha1_of(key@, message@),
        r@.len() == 20,
{
    let mut mac = <hmac::Hmac<sha1::Sha1> as hmac::Mac>::new_from_slice(key).expect("HMAC key");
    hmac::Mac::update(&mut mac, message);
    hmac::Mac::finalize(mac).into_bytes().to_vec()
}

/// `md5::compute`: the sixteen bytes of the digest, which depend on the
/// message alone.
#[verifier::external_body]
fn md5_digest(message: &[u8]) -> (r: Vec<u8>)
    ensures
        r@ == md5_of(message@),
        r@.len() == 16,
{
    md5::compute(message).0.to_vec()
}

/// One step of the reflected CRC-32 with polynomial 0xEDB88320.
pub open spec fn crc_bit(c: u32) -> u32 {
    if c & 1 != 0 {
        (c >> 1) ^ 0xEDB88320u32
    } else {
        c >> 1
    }
}

/// `n` such steps.
pub open spec fn crc_bits(c: u32, n: nat) -> u32
    decreases n,
{
    if n == 0 {
        c
    } else {
        crc_bit(crc_bits(c, (n - 1) as nat))
    }
}

/// The register behind the bytes of `data`.
pub open spec fn crc_register(data: Seq<u8>) -> u32
    decreases data.len(),
{
    if data.len() == 0 {
        0xFFFFFFFFu32
    } else {
        crc_bits(crc_register(data.drop_last()) ^ (data.last() as u32), 8)
    }
}

/// The CRC-32 of `data`.
pub open spec fn crc_of(data: Seq<u8>) -> u32 {
    crc_register(data) ^ 0xFFFFFFFFu32
}

/// The CRC-32 of `data`.
pub fn crc32(data: &[u8]) -> (r: u32)
    ensures
        r == crc_of(data@),
{
    let mut crc: u32 = 0xFFFFFFFFu32;
    let mut i: usize = 0;
    while i < data.len()
        invariant
            i <= data@.len(),
            crc == crc_register(data@.take(i as int)),
        decreases data@.len() - i,
    {
        let start: u32 = crc ^ (data[i] as u32);
        let mut c: u32 = start;
        let mut k: usize = 0;
        while k < 8
            invariant
                k <= 8,
                c == crc_bits(start, k as nat),
            decreases 8 - k,
        {
            if c & 1 != 0 {
                c = (c >> 1) ^ 0xEDB88320u32;
            } else {
                c = c >> 1;
            }
            k = k + 1;
        }
        crc = c;
        proof {
            assert(data@.take(i + 1).drop_last() =~= data@.take(i as int));
        }
        i = i + 1;
    }
    proof {
        assert(data@.take(i as int) =~= data@);
    }
    crc ^ 0xFFFFFFFFu32
}

/// A message with its integrity attribute: the length in the header counts it,
/// and the keyed hash covers the message up to it.
pub open spec fn with_integrity(data: Seq<u8>, key: Seq<u8>) -> Seq<u8> {
    let counted = with_length(data, data.len() as int + 4);
    counted + attr_bytes(ATTR_MESSAGE_INTEGRITY, hmac_sha1_of(key, counted))
}

/// A message with its fingerprint attribute: the length in the header counts
/// it, and the checksum covers the message up to it.
pub open spec fn with_fingerprint(data: Seq<u8>) -> Seq<u8> {
    let counted = with_length(data, data.len() - 12);
    counted + attr_bytes(
        ATTR_FINGERPRINT,
        bytes::be32((crc_of(counted) ^ FINGERPRINT_XOR) as int),
    )
}

/// The fingerprint is the last attribute of its message, the header counts it,
/// and it is the checksum of everything before it.
pub proof fn law_fingerprint_covers_message(data: Seq<u8>)
    requires
        data.len() >= 20,
    ensures
        ({
            let m = with_fingerprint(data);
            let n = m.len() as int;
            &&& n == data.len() + 8
            &&& bytes::number16(m[2], m[3]) == (n - 20) % 65536
            &&& bytes::number16(m[n - 8], m[n - 7]) == ATTR_FINGERPRINT
            &&& bytes::number32(m[n - 4], m[n - 3], m[n - 2], m[n - 1]) == crc_of(m.take(n - 8))
                ^ 0x5354554e
        }),
{
    let m = with_fingerprint(data);
    let n = m.len() as int;
    let counted = with_length(data, data.len() - 12);
    let f = crc_of(counted) ^ FINGERPRINT_XOR;
    bytes::lemma_be32_number(f as int);
    bytes::lemma_be16_number(ATTR_FINGERPRINT as int);
    bytes::lemma_be16_number((n - 20) % 65536);
    assert(m.take(n - 8) =~= counted);
    assert(m[2] == counted[2] && m[3] == counted[3]);
}

// Only the low sixteen bits of a length are written.
proof fn lemma_length_wraps(data: Seq<u8>, more: int)
    ensures
        with_length(data, data.len() - 20 + more) == with_length(
            data,
            (data.len() - 20) % 65536 + more,
        ),
{
    vstd::arithmetic::div_mod::lemma_add_mod_noop_right(more, data.len() - 20, 65536);
}

fn add_integrity(buf: &mut Vec<u8>, key: &[u8])
    requires
        old(buf)@.len() >= 20,
    ensures
        final(buf)@ == with_integrity(old(buf)@, key@),
        final(buf)@.len() >= 20,
{
    let n: usize = (buf.len() - 20) % 65536 + 24;
    let ghost start = buf@;
    proof {
        lemma_length_wraps(start, 24);
    }
    set_length(buf, n);
    let mac = hmac_sha1(key, buf.as_slice());
    append_attr(buf, ATTR_MESSAGE_INTEGRITY, mac.as_slice());
}

fn add_fingerprint(buf: &mut Vec<u8>)
    requires
        old(buf)@.len() >= 20,
    ensures
        final(buf)@ == with_fingerprint(old(buf)@),
{
    let n: usize = (buf.len() - 20) % 65536 + 8;
    let ghost start = buf@;
    proof {
        lemma_length_wraps(start, 8);
    }
    set_length(buf, n);
    let fingerprint: u32 = crc32(buf.as_slice()) ^ FINGERPRINT_XOR;
    let mut value: Vec<u8> = Vec::new();
    bytes::append_be32(&mut value, fingerprint);
    proof {
        assert(value@ =~= bytes::be32(fingerprint as int));
    }
    append_attr(buf, ATTR_FINGERPRINT, value.as_slice());
}

/// Closes a message with MESSAGE-INTEGRITY and FINGERPRINT.
pub fn add_message_integrity_and_fingerprint(buf: Vec<u8>, key: &[u8]) -> (r: Vec<u8>)
    requires
        buf@.len() >= 20,
    ensures
        r@ == with_fingerprint(with_integrity(buf@, key@)),
{
    let mut buf = buf;
    add_integrity(&mut buf, key);
    add_fingerprint(&mut buf);
    buf
}

/// The key of the long-term credentials: MD5 over user name, realm and
/// password, with colons between them.
pub open spec fn long_term_key(
    username: Seq<char>,
    realm: Seq<char>,
    password: Seq<char>,
) -> Seq<u8> {
    md5_of(encode_utf8(username + ":"@ + realm + ":"@ + password))
}

/// Computes the key of the long-term credentials.
pub fn compute_long_term_key(username: &str, realm: &str, password: &str) -> (r: Vec<u8>)
    ensures
        r@ == long_term_key(username@, realm@, password@),
        r@.len() == 16,
{
    let mut input = username.to_string();
    input.append(":");
    input.append(realm);
    input.append(":");
    input.append(password);
    md5_digest(input.as_str().as_bytes())
}

/// The priority of a relay candidate, the lowest of all kinds.
pub fn compute_relay_priority(local_preference: u16, component: u8) -> (r: u32)
    ensures
        r == if component > 0 {
            local_preference * 256 + 256 - component
        } else {
            (local_preference / 2) * 512 + 256
        },
{
    if component > 0 {
        local_preference as u32 * 256 + (256 - component as u32)
    } else {
        (local_preference as u32 / 2) * 512 + 256
    }
}

/// A relay candidate: the allocated address, reached from the local one.
pub struct RelayCandidate {
    pub foundation: String,
    pub component: u8,
    pub priority: u32,
    pub address: SocketAddress,
    pub related: SocketAddress,
}

/// The candidate for an allocated relay address.
pub fn relay_candidate(relay: SocketAddress, local: SocketAddress) -> (r: RelayCandidate)
    ensures
        r.foundation@ == "3"@,
        r.component == 1,
        r.priority == 511,
        r.address == relay,
        r.related == local,
{
    RelayCandidate {
        foundation: "3".to_string(),
        component: 1,
        priority: compute_relay_priority(1, 1),
        address: relay,
        related: local,
    }
}

// -- Reading messages --

/// One attribute of a received message.
pub struct Attr {
    pub kind: u16,
    pub value: Vec<u8>,
}

/// The model of an attribute.
pub struct AttrV {
    pub kind: u16,
    pub value: Seq<u8>,
}

impl View for Attr {
    type V = AttrV;

    open spec fn view(&self) -> AttrV {
        AttrV { kind: self.kind, value: self.value@ }
    }
}

pub open spec fn attrs_view(v: Seq<Attr>) -> Seq<AttrV> {
    Seq::new(v.len(), |i: int| v[i]@)
}

/// The attributes that stand in `data[pos..end]`, up to the first that is cut
/// short.
pub open spec fn attr_list(data: Seq<u8>, pos: int, end: int) -> Seq<AttrV>
    decreases end + 4 - pos,
{
    if pos < 0 || pos + 4 > end {
        Seq::empty()
    } else {
        let len = bytes::number16(data[pos + 2], data[pos + 3]);
        if pos + 4 + len > end {
            Seq::empty()
        } else {
            Seq::empty().push(
                AttrV {
                    kind: bytes::number16(data[pos], data[pos + 1]) as u16,
                    value: data.subrange(pos + 4, pos + 4 + len),
                },
            ) + attr_list(data, pos + 4 + padded(len), end)
        }
    }
}

/// A run of attributes, one behind the other.
pub open spec fn attrs_bytes(list: Seq<AttrV>) -> Seq<u8>
    decreases list.len(),
{
    if list.len() == 0 {
        Seq::empty()
    } else {
        attr_bytes(list[0].kind, list[0].value) + attrs_bytes(list.skip(1))
    }
}

/// Reading a run of attributes gives back the attributes that were written.
pub proof fn law_attributes_round_trip(data: Seq<u8>, pos: int, list: Seq<AttrV>)
    requires
        0 <= pos <= data.len(),
        data.skip(pos) == attrs_bytes(list),
        forall|i: int| 0 <= i < list.len() ==> (#[trigger] list[i]).value.len() < 65536,
    ensures
        attr_list(data, pos, data.len() as int) == list,
    decreases list.len(),
{
    let end = data.len() as int;
    if list.len() == 0 {
        assert(data.skip(pos).len() == 0);
        assert(list =~= Seq::empty());
    } else {
        let first = list[0];
        let head = attr_bytes(first.kind, first.value);
        let n = first.value.len() as int;
        let tail = data.skip(pos);
        assert(head.len() == 4 + padded(n));
        assert(tail.len() >= head.len());
        assert forall|i: int| 0 <= i < head.len() implies #[trigger] data[pos + i] == head[i] by {
            assert(tail[i] == data[pos + i]);
            assert((head + attrs_bytes(list.skip(1)))[i] == head[i]);
        }
        bytes::lemma_be16_number(first.kind as int);
        bytes::lemma_be16_number(n);
        assert(data[pos + 0] == head[0]);
        assert(data[pos + 1] == head[1]);
        assert(data[pos + 2] == head[2]);
        assert(data[pos + 3] == head[3]);
        assert(bytes::number16(data[pos + 2], data[pos + 3]) == n);
        assert(data.subrange(pos + 4, pos + 4 + n) =~= first.value) by {
            assert forall|i: int| 0 <= i < n implies data.subrange(pos + 4, pos + 4 + n)[i]
                == first.value[i] by {
                assert(data[pos + (4 + i)] == head[4 + i]);
            }
        }
        let next = pos + head.len();
        assert(data.skip(next) =~= attrs_bytes(list.skip(1))) by {
            assert(data.skip(next) =~= tail.skip(head.len() as int));
            assert((head + attrs_bytes(list.skip(1))).skip(head.len() as int) =~= attrs_bytes(
                list.skip(1),
            ));
        }
        assert forall|i: int| 0 <= i < list.skip(1).len() implies (#[trigger] list.skip(
            1,
        )[i]).value.len() < 65536 by {
            assert(list.skip(1)[i] == list[i + 1]);
        }
        law_attributes_round_trip(data, next, list.skip(1));
        assert(Seq::empty().push(first) + list.skip(1) =~= list);
    }
}

/// Lists the attributes of a message that stand before `attrs_end`.
pub fn iter_attrs(data: &[u8], attrs_end: usize) -> (r: Vec<Attr>)
    requires
        attrs_end <= data@.len(),
    ensures
        attrs_view(r@) == attr_list(data@, 20, attrs_end as int),
{
    let mut out: Vec<Attr> = Vec::new();
    let mut pos: usize = STUN_HEADER_SIZE;
    let ghost all = attr_list(data@, 20, attrs_end as int);
    proof {
        assert(attrs_view(out@) + all =~= all);
    }
    while pos <= attrs_end && attrs_end - pos >= 4
        invariant
            attrs_end <= data@.len(),
            all == attr_list(data@, 20, attrs_end as int),
            attrs_view(out@) + attr_list(data@, pos as int, attrs_end as int) == all,
        decreases attrs_end + 4 - pos,
    {
        let kind: u16 = bytes::read_be16(data, pos);
        let len: usize = bytes::read_be16(data, pos + 2) as usize;
        let start: usize = pos + 4;
        if len > attrs_end - start {
            proof {
                assert(attrs_view(out@) + Seq::empty() =~= attrs_view(out@));
            }
            return out;
        }
        let ghost before = out@;
        let attr = Attr { kind, value: bytes::copy_range(data, start, start + len) };
        out.push(attr);
        let step: usize = (len + 3) / 4 * 4;
        proof {
            let rest = attr_list(data@, start + step, attrs_end as int);
            assert(attrs_view(out@) + rest =~= attrs_view(before) + (Seq::empty().push(attr@)
                + rest));
        }
        if step > attrs_end - start {
            proof {
                assert(attrs_view(out@) + Seq::empty() =~= attrs_view(out@));
            }
            return out;
        }
        pos = start + step;
    }
    proof {
        assert(attrs_view(out@) + Seq::empty() =~= attrs_view(out@));
    }
    out
}

/// The value of the last attribute of a kind that holds at least `min` bytes.
pub open spec fn last_attr(list: Seq<AttrV>, kind: u16, min: nat) -> Option<Seq<u8>>
    decreases list.len(),
{
    if list.len() == 0 {
        None
    } else if list.last().kind == kind && list.last().value.len() >= min {
        Some(list.last().value)
    } else {
        last_attr(list.drop_last(), kind, min)
    }
}

fn find_last_attr(list: &Vec<Attr>, kind: u16, min: usize) -> (r: Option<usize>)
    ensures
        match r {
            Some(i) => i < list@.len() && list@[i as int].value@.len() >= min && last_attr(
                attrs_view(list@),
                kind,
                min as nat,
            ) == Some(list@[i as int].value@),
            None => last_attr(attrs_view(list@), kind, min as nat) is None,
        },
{
    let mut i: usize = list.len();
    let ghost all = attrs_view(list@);
    proof {
        assert(all.take(i as int) =~= all);
    }
    while i > 0
        invariant
            i <= list@.len(),
            all == attrs_view(list@),
            last_attr(all, kind, min as nat) == last_attr(all.take(i as int), kind, min as nat),
        decreases i,
    {
        proof {
            assert(all.take(i as int).last() == list@[i - 1]@);
            assert(all.take(i as int).drop_last() =~= all.take(i - 1));
        }
        if list[i - 1].kind == kind && list[i - 1].value.len() >= min {
            return Some(i - 1);
        }
        i = i - 1;
    }
    None
}

/// What a TURN server answered.
pub enum TurnResponse {
    AllocateSuccess {
        relay_addr: SocketAddress,
        mapped_addr: Option<SocketAddress>,
        lifetime: u32,
    },
    Success,
    Error { code: u16, reason: String, realm: Option<String>, nonce: Option<String> },
}

/// Why a TURN response was refused.
#[derive(Debug, Clone, Copy, PartialEq, Eq, Structural)]
pub enum TurnResponseError {
    /// An Allocate response without a relayed address.
    MissingRelayedAddress,
    /// A message type that answers no request.
    UnknownType(u16),
}

/// The end of the attributes: what the header says, but not beyond the data.
pub open spec fn attrs_limit(data: Seq<u8>) -> int {
    let said = 20 + bytes::number16(data[2], data[3]);
    if said < data.len() {
        said
    } else {
        data.len() as int
    }
}

/// The attributes of a whole message.
pub open spec fn message_attrs(data: Seq<u8>) -> Seq<AttrV> {
    attr_list(data, 20, attrs_limit(data))
}

/// The address in the last attribute of a kind.
pub open spec fn address_attr(data: Seq<u8>, kind: u16, txn: Seq<u8>) -> Option<AddressV> {
    match last_attr(message_attrs(data), kind, 0) {
        Some(v) => xor_decoded(v, txn),
        None => None,
    }
}

/// The text of the last attribute of a kind.
pub open spec fn text_attr(data: Seq<u8>, kind: u16) -> Option<Seq<char>> {
    match last_attr(message_attrs(data), kind, 0) {
        Some(v) => Some(bytes::utf8_lossy(v)),
        None => None,
    }
}

/// The error code of a message, zero where it names none.
pub open spec fn error_code(data: Seq<u8>) -> int {
    match last_attr(message_attrs(data), ATTR_ERROR_CODE, 4) {
        Some(v) => (v[2] & 7u8) * 100 + v[3],
        None => 0,
    }
}

/// The reason phrase of an error, empty where it names none.
pub open spec fn error_reason(data: Seq<u8>) -> Seq<char> {
    match last_attr(message_attrs(data), ATTR_ERROR_CODE, 5) {
        Some(v) => bytes::utf8_lossy(v.skip(4)),
        None => Seq::empty(),
    }
}

/// The lifetime that a message names.
pub open spec fn lifetime_of(data: Seq<u8>) -> int {
    match last_attr(message_attrs(data), ATTR_LIFETIME, 4) {
        Some(v) => bytes::number32(v[0], v[1], v[2], v[3]),
        None => DEFAULT_LIFETIME as int,
    }
}

/// True of the message types of error responses.
pub open spec fn is_error_type(msg_type: u16) -> bool {
    msg_type == ALLOCATE_ERROR_RESPONSE || (msg_type & 0x0110u16) == 0x0110u16
}

/// How a response reads.
pub open spec fn is_turn_response(
    data: Seq<u8>,
    msg_type: u16,
    r: Result<TurnResponse, TurnResponseError>,
) -> bool {
    let txn = data.subrange(8, 20);
    if is_error_type(msg_type) {
        r matches Ok(TurnResponse::Error { code, reason, realm, nonce }) && {
            &&& code == error_code(data)
            &&& reason@ == error_reason(data)
            &&& text::opt_text(realm) == text_attr(data, ATTR_REALM)
            &&& text::opt_text(nonce) == text_attr(data, ATTR_NONCE)
        }
    } else if msg_type == ALLOCATE_RESPONSE {
        match address_attr(data, ATTR_XOR_RELAYED_ADDRESS, txn) {
            Some(a) => r matches Ok(
                TurnResponse::AllocateSuccess { relay_addr, mapped_addr, lifetime },
            ) && {
                &&& relay_addr@ == a
                &&& opt_address(mapped_addr) == address_attr(data, ATTR_XOR_MAPPED_ADDRESS, txn)
                &&& lifetime == lifetime_of(data)
            },
            None => r == Err::<TurnResponse, TurnResponseError>(
                TurnResponseError::MissingRelayedAddress,
            ),
        }
    } else if msg_type == CREATE_PERMISSION_RESPONSE || msg_type == CHANNEL_BIND_RESPONSE {
        r == Ok::<TurnResponse, TurnResponseError>(TurnResponse::Success)
    } else {
        r == Err::<TurnResponse, TurnResponseError>(TurnResponseError::UnknownType(msg_type))
    }
}

fn limit_of(data: &[u8]) -> (r: usize)
    requires
        data@.len() >= 20,
    ensures
        r == attrs_limit(data@),
        r <= data@.len(),
{
    let len: usize = bytes::read_be16(data, 2) as usize;
    let said: usize = STUN_HEADER_SIZE + len;
    if said < data.len() {
        said
    } else {
        data.len()
    }
}

fn read_text_attr(list: &Vec<Attr>, kind: u16) -> (r: Option<String>)
    ensures
        match last_attr(attrs_view(list@), kind, 0) {
            Some(v) => text::opt_text(r) == Some(bytes::utf8_lossy(v)),
            None => r is None,
        },
{
    match find_last_attr(list, kind, 0) {
        Some(i) => Some(bytes::text_lossy(list[i].value.as_slice())),
        None => None,
    }
}

fn read_address_attr(list: &Vec<Attr>, kind: u16, txn: &[u8]) -> (r: Option<SocketAddress>)
    ensures
        match last_attr(attrs_view(list@), kind, 0) {
            Some(v) => opt_address(r) == xor_decoded(v, txn@),
            None => r is None,
        },
{
    match find_last_attr(list, kind, 0) {
        Some(i) => decode_xor_address(list[i].value.as_slice(), txn),
        None => None,
    }
}

/// Reads the response to a request from a message of the given type.
pub fn parse_turn_response(data: &[u8], msg_type: u16) -> (r: Result<
    TurnResponse,
    TurnResponseError,
>)
    requires
        data@.len() >= 20,
    ensures
        is_turn_response(data@, msg_type, r),
{
    let txn = bytes::copy_range(data, 8, 20);
    let list = iter_attrs(data, limit_of(data));
    if msg_type == ALLOCATE_ERROR_RESPONSE || (msg_type & 0x0110u16) == 0x0110u16 {
        let code: u16 = match find_last_attr(&list, ATTR_ERROR_CODE, 4) {
            Some(i) => {
                let b: u8 = list[i].value[2];
                assert(b & 7u8 <= 7u8) by (bit_vector);
                let class: u16 = (b & 7u8) as u16;
                class * 100 + list[i].value[3] as u16
            },
            None => 0,
        };
        let reason = match find_last_attr(&list, ATTR_ERROR_CODE, 5) {
            Some(i) => {
                let n: usize = list[i].value.len();
                let tail = bytes::copy_range(list[i].value.as_slice(), 4, n);
                proof {
                    assert(tail@ =~= list@[i as int].value@.skip(4));
                }
                bytes::text_lossy(tail.as_slice())
            },
            None => String::new(),
        };
        let realm = read_text_attr(&list, ATTR_REALM);
        let nonce = read_text_attr(&list, ATTR_NONCE);
        return Ok(TurnResponse::Error { code, reason, realm, nonce });
    }
    if msg_type == ALLOCATE_RESPONSE {
        let relay = read_address_attr(&list, ATTR_XOR_RELAYED_ADDRESS, txn.as_slice());
        let mapped_addr = read_address_attr(&list, ATTR_XOR_MAPPED_ADDRESS, txn.as_slice());
        let lifetime: u32 = match find_last_attr(&list, ATTR_LIFETIME, 4) {
            Some(i) => bytes::read_be32(list[i].value.as_slice(), 0),
            None => DEFAULT_LIFETIME,
        };
        return match relay {
            Some(relay_addr) => Ok(
                TurnResponse::AllocateSuccess { relay_addr, mapped_addr, lifetime },
            ),
            None => Err(TurnResponseError::MissingRelayedAddress),
        };
    }
    if msg_type == CREATE_PERMISSION_RESPONSE || msg_type == CHANNEL_BIND_RESPONSE {
        return Ok(TurnResponse::Success);
    }
    Err(TurnResponseError::UnknownType(msg_type))
}

/// What a Data indication carries: the peer's address and the payload, where
/// both are there.
pub open spec fn is_data_indication(
    data: Seq<u8>,
    txn: Seq<u8>,
    r: Option<(SocketAddress, Vec<u8>)>,
) -> bool {
    match (
        address_attr(data, ATTR_XOR_PEER_ADDRESS, txn),
        last_attr(message_attrs(data), ATTR_DATA, 0),
    ) {
        (Some(a), Some(p)) => r matches Some((addr, payload)) && addr@ == a && payload@ == p,
        _ => r is None,
    }
}

/// Reads a Data indication. One without a whole header has no attributes.
pub fn parse_data_indication(data: &[u8], txn_id: &[u8]) -> (r: Option<(SocketAddress, Vec<u8>)>)
    ensures
        is_data_indication(data@, txn_id@, r),
        data@.len() < 20 ==> r is None,
{
    if data.len() < STUN_HEADER_SIZE {
        assert(message_attrs(data@) =~= Seq::empty());
        return None;
    }
    let list = iter_attrs(data, limit_of(data));
    let peer = read_address_attr(&list, ATTR_XOR_PEER_ADDRESS, txn_id);
    match (peer, find_last_attr(&list, ATTR_DATA, 0)) {
        (Some(addr), Some(i)) => {
            let n: usize = list[i].value.len();
            let payload = bytes::copy_range(list[i].value.as_slice(), 0, n);
            proof {
                assert(payload@ =~= list@[i as int].value@);
            }
            Some((addr, payload))
        },
        _ => None,
    }
}

/// The message type in the first two bytes.
pub open spec fn type_of(data: Seq<u8>) -> int {
    bytes::number16(data[0], data[1])
}

/// The cookie in the second group of four bytes.
pub open spec fn cookie_of(data: Seq<u8>) -> int {
    bytes::number32(data[4], data[5], data[6], data[7])
}

/// True of a Data or Send indication.
pub fn is_turn_data_message(data: &[u8]) -> (r: bool)
    ensures
        r == (data@.len() >= 20 && cookie_of(data@) == 0x2112A442 && (type_of(data@)
            == 0x0017 || type_of(data@) == 0x0016)),
{
    if data.len() < STUN_HEADER_SIZE {
        return false;
    }
    let msg_type: u16 = bytes::read_be16(data, 0);
    let magic: u32 = bytes::read_be32(data, 4);
    magic == MAGIC_COOKIE && (msg_type == DATA_INDICATION || msg_type == SEND_INDICATION)
}

/// True of a ChannelData message: its first two bits are not both zero.
pub fn is_channel_data(data: &[u8]) -> (r: bool)
    ensures
        r == (data@.len() >= 4 && data@[0] >= 64),
{
    if data.len() < 4 {
        return false;
    }
    let b: u8 = data[0];
    assert((b & 0xC0u8) != 0 <==> b >= 64) by (bit_vector);
    (b & 0xC0u8) != 0
}

/// True of a message that answers the request with this transaction id.
pub open spec fn answers(data: Seq<u8>, txn: Seq<u8>) -> bool {
    data.len() >= 20 && cookie_of(data) == MAGIC_COOKIE && data.subrange(8, 20) == txn
}

/// Reads a received packet as the response to a request; a packet that is not
/// one is passed over.
pub fn response_for(data: &[u8], txn_id: &[u8; 12]) -> (r: Option<
    Result<TurnResponse, TurnResponseError>,
>)
    ensures
        match r {
            Some(x) => answers(data@, txn_id@) && is_turn_response(
                data@,
                type_of(data@) as u16,
                x,
            ),
            None => !answers(data@, txn_id@),
        },
{
    if data.len() < STUN_HEADER_SIZE {
        return None;
    }
    if bytes::read_be32(data, 4) != MAGIC_COOKIE {
        return None;
    }
    let txn = bytes::copy_range(data, 8, 20);
    if !bytes::same_bytes(txn.as_slice(), txn_id.as_slice()) {
        return None;
    }
    Some(parse_turn_response(data, bytes::read_be16(data, 0)))
}

/// The payload of a ChannelData message whose length is not cut short.
pub open spec fn channel_payload(data: Seq<u8>) -> Option<Seq<u8>> {
    if data.len() >= 4 && data[0] >= 64 && data.len() >= 4 + bytes::number16(data[2], data[3]) {
        Some(data.subrange(4, 4 + bytes::number16(data[2], data[3])))
    } else {
        None
    }
}

/// Reads a packet of relayed data. ChannelData does not say who the peer is:
/// it is given as coming from the server.
pub fn relayed_data(data: &[u8], server: SocketAddress) -> (r: Option<(SocketAddress, Vec<u8>)>)
    ensures
        match channel_payload(data@) {
            Some(p) => r matches Some((a, d)) && a == server && d@ == p,
            None => if data@.len() >= 20 && type_of(data@) == 0x0017 {
                is_data_indication(data@, data@.subrange(8, 20), r)
            } else {
                r is None
            },
        },
{
    if is_channel_data(data) {
        let len: usize = bytes::read_be16(data, 2) as usize;
        if data.len() >= 4 + len {
            return Some((server, bytes::copy_range(data, 4, 4 + len)));
        }
    }
    if data.len() >= STUN_HEADER_SIZE && bytes::read_be16(data, 0) == DATA_INDICATION {
        let txn = bytes::copy_range(data, 8, 20);
        return parse_data_indication(data, txn.as_slice());
    }
    None
}

// -- The client --

/// What a TURN client knows of its allocation.
pub struct TurnClient {
    pub username: String,
    pub credential: String,
    /// Realm and nonce, once the server has named them.
    pub realm: Option<String>,
    pub nonce: Option<String>,
    /// The allocated relay address, once there is one.
    pub relay_addr: Option<SocketAddress>,
    /// Allocation lifetime in seconds.
    pub lifetime: u32,
}

/// How an allocation goes on after a reply.
pub enum AllocateStep {
    /// The relay address is allocated.
    Done(SocketAddress),
    /// Ask again, with this message.
    Retry(Vec<u8>),
    /// The server refused: its code and its reason.
    Rejected(u16, String),
    /// The server asked for credentials without naming its realm.
    NoRealm,
    /// The server asked for credentials without naming a nonce.
    NoNonce,
    /// A reply that answers no Allocate request.
    Unexpected,
}

/// Why a channel could not be bound.
#[derive(Debug, Clone, Copy, PartialEq, Eq, Structural)]
pub enum TurnRequestError {
    /// The channel number is outside `0x4000..=0x7FFE`.
    ChannelOutOfRange,
    /// The realm is not known: nothing was allocated yet.
    NoRealm,
}

/// An authenticated Allocate request.
pub open spec fn signed_allocate(
    username: Seq<char>,
    realm: Seq<char>,
    nonce: Seq<char>,
    credential: Seq<char>,
    txn: Seq<u8>,
) -> Seq<u8> {
    with_fingerprint(
        with_integrity(
            allocate_request(txn, Some(username), Some(realm), Some(nonce)),
            long_term_key(username, realm, credential),
        ),
    )
}

/// A request with `body` behind its header, the credentials, and its closing
/// attributes.
pub open spec fn signed_request(
    msg_type: u16,
    txn: Seq<u8>,
    body: Seq<u8>,
    c: TurnClient,
    realm: Seq<char>,
) -> Seq<u8> {
    with_fingerprint(
        with_integrity(
            stun_header(msg_type, txn) + body + auth_bytes(
                c.username@,
                Some(realm),
                text::opt_text(c.nonce),
            ),
            long_term_key(c.username@, realm, c.credential@),
        ),
    )
}

/// A Send indication.
pub open spec fn send_message(peer: AddressV, payload: Seq<u8>, txn: Seq<u8>) -> Seq<u8> {
    let body = stun_header(SEND_INDICATION, txn) + attr_bytes(
        ATTR_XOR_PEER_ADDRESS,
        xor_encoded(peer, txn),
    ) + attr_bytes(ATTR_DATA, payload);
    with_length(body, body.len() - 20)
}

fn as_str_opt<'a>(o: &'a Option<String>) -> (r: Option<&'a str>)
    ensures
        text::opt_str(r) == text::opt_text(*o),
{
    match o {
        Some(s) => Some(s.as_str()),
        None => None,
    }
}

impl TurnClient {
    /// A client that has allocated nothing yet.
    pub fn new(username: &str, credential: &str) -> (r: TurnClient)
        ensures
            r.username@ == username@,
            r.credential@ == credential@,
            r.realm is None,
            r.nonce is None,
            r.relay_addr is None,
            r.lifetime == 600,
    {
        TurnClient {
            username: username.to_string(),
            credential: credential.to_string(),
            realm: None,
            nonce: None,
            relay_addr: None,
            lifetime: DEFAULT_LIFETIME,
        }
    }

    /// The allocated relay address, if any.
    pub fn relay_addr(&self) -> (r: Option<SocketAddress>)
        ensures
            r == self.relay_addr,
    {
        self.relay_addr
    }

    /// Takes the reply to the Allocate request without credentials. A refusal
    /// for want of them names the realm and the nonce, which are kept, and
    /// calls for the signed request under `txn2`.
    pub fn on_first_reply(&mut self, reply: TurnResponse, txn2: &[u8; 12]) -> (r: AllocateStep)
        ensures
            final(self).username == old(self).username,
            final(self).credential == old(self).credential,
            match reply {
                TurnResponse::AllocateSuccess { relay_addr, lifetime, .. } => {
                    &&& r == AllocateStep::Done(relay_addr)
                    &&& final(self).relay_addr == Some(relay_addr)
                    &&& final(self).lifetime == lifetime
                    &&& final(self).realm == old(self).realm
                    &&& final(self).nonce == old(self).nonce
                },
                TurnResponse::Error { code, reason, realm, nonce } => if code == 401 {
                    &&& final(self).realm == realm
                    &&& final(self).nonce == nonce
                    &&& final(self).relay_addr == old(self).relay_addr
                    &&& final(self).lifetime == old(self).lifetime
                    &&& match (realm, nonce) {
                        (None, _) => r is NoRealm,
                        (Some(_), None) => r is NoNonce,
                        (Some(re), Some(no)) => r matches AllocateStep::Retry(m) && m@
                            == signed_allocate(
                            old(self).username@,
                            re@,
                            no@,
                            old(self).credential@,
                            txn2@,
                        ),
                    }
                } else {
                    &&& r == AllocateStep::Rejected(code, reason)
                    &&& *final(self) == *old(self)
                },
                TurnResponse::Success => r is Unexpected && *final(self) == *old(self),
            },
    {
        match reply {
            TurnResponse::AllocateSuccess { relay_addr, mapped_addr: _, lifetime } => {
                self.relay_addr = Some(relay_addr);
                self.lifetime = lifetime;
                AllocateStep::Done(relay_addr)
            },
            TurnResponse::Error { code, reason, realm, nonce } => {
                if code != 401 {
                    return AllocateStep::Rejected(code, reason);
                }
                self.realm = realm;
                self.nonce = nonce;
                match (as_str_opt(&self.realm), as_str_opt(&self.nonce)) {
                    (None, _) => AllocateStep::NoRealm,
                    (Some(_), None) => AllocateStep::NoNonce,
                    (Some(re), Some(no)) => {
                        let key = compute_long_term_key(
                            self.username.as_str(),
                            re,
                            self.credential.as_str(),
                        );
                        let req = build_allocate_request(
                            txn2,
                            Some(self.username.as_str()),
                            Some(re),
                            Some(no),
                        );
                        AllocateStep::Retry(
                            add_message_integrity_and_fingerprint(req, key.as_slice()),
                        )
                    },
                }
            },
            TurnResponse::Success => AllocateStep::Unexpected,
        }
    }

    /// Takes the reply to the signed Allocate request.
    pub fn on_second_reply(&mut self, reply: TurnResponse) -> (r: AllocateStep)
        ensures
            final(self).username == old(self).username,
            final(self).credential == old(self).credential,
            final(self).realm == old(self).realm,
            final(self).nonce == old(self).nonce,
            match reply {
                TurnResponse::AllocateSuccess { relay_addr, lifetime, .. } => {
                    &&& r == AllocateStep::Done(relay_addr)
                    &&& final(self).relay_addr == Some(relay_addr)
                    &&& final(self).lifetime == lifetime
                },
                TurnResponse::Error { code, reason, .. } => {
                    &&& r == AllocateStep::Rejected(code, reason)
                    &&& *final(self) == *old(self)
                },
                TurnResponse::Success => r is Unexpected && *final(self) == *old(self),
            },
    {
        match reply {
            TurnResponse::AllocateSuccess { relay_addr, mapped_addr: _, lifetime } => {
                self.relay_addr = Some(relay_addr);
                self.lifetime = lifetime;
                AllocateStep::Done(relay_addr)
            },
            TurnResponse::Error { code, reason, realm: _, nonce: _ } => {
                AllocateStep::Rejected(code, reason)
            },
            TurnResponse::Success => AllocateStep::Unexpected,
        }
    }

    /// The key for message integrity, once the realm is known.
    pub fn auth_key(&self) -> (r: Option<Vec<u8>>)
        ensures
            match self.realm {
                Some(realm) => r matches Some(k) && k@ == long_term_key(
                    self.username@,
                    realm@,
                    self.credential@,
                ),
                None => r is None,
            },
    {
        match &self.realm {
            Some(realm) => Some(
                compute_long_term_key(
                    self.username.as_str(),
                    realm.as_str(),
                    self.credential.as_str(),
                ),
            ),
            None => None,
        }
    }

    fn sign(&self, buf: Vec<u8>, key: Vec<u8>) -> (r: Vec<u8>)
        requires
            buf@.len() >= 20,
        ensures
            r@ == with_fingerprint(
                with_integrity(
                    buf@ + auth_bytes(
                        self.username@,
                        text::opt_text(self.realm),
                        text::opt_text(self.nonce),
                    ),
                    key@,
                ),
            ),
    {
        let mut buf = buf;
        append_auth_attrs(
            &mut buf,
            self.username.as_str(),
            as_str_opt(&self.realm),
            as_str_opt(&self.nonce),
        );
        add_message_integrity_and_fingerprint(buf, key.as_slice())
    }

    /// The request for a permission to exchange data with a peer.
    pub fn create_permission(&self, peer_addr: SocketAddress, txn: &[u8; 12]) -> (r: Result<
        Vec<u8>,
        TurnRequestError,
    >)
        ensures
            match self.realm {
                Some(realm) => r matches Ok(m) && m@ == signed_request(
                    0x0008,
                    txn@,
                    attr_bytes(0x0012, xor_encoded(peer_addr@, txn@)),
                    *self,
                    realm@,
                ),
                None => r == Err::<Vec<u8>, TurnRequestError>(TurnRequestError::NoRealm),
            },
    {
        match self.auth_key() {
            Some(key) => {
                let mut buf = build_stun_header(CREATE_PERMISSION_REQUEST, txn);
                let xpa = encode_xor_address(peer_addr, txn.as_slice());
                append_attr(&mut buf, ATTR_XOR_PEER_ADDRESS, xpa.as_slice());
                Ok(self.sign(buf, key))
            },
            None => Err(TurnRequestError::NoRealm),
        }
    }

    /// The message that hands data to a peer through the relay.
    pub fn send_indication(
        &self,
        peer_addr: SocketAddress,
        data: &[u8],
        txn: &[u8; 12],
    ) -> (r: Vec<u8>)
        ensures
            r@ == send_message(peer_addr@, data@, txn@),
    {
        let mut buf = build_stun_header(SEND_INDICATION, txn);
        let xpa = encode_xor_address(peer_addr, txn.as_slice());
        append_attr(&mut buf, ATTR_XOR_PEER_ADDRESS, xpa.as_slice());
        append_attr(&mut buf, ATTR_DATA, data);
        let n: usize = buf.len() - STUN_HEADER_SIZE;
        set_length(&mut buf, n);
        buf
    }

    /// The request that binds a channel number to a peer.
    pub fn channel_bind(
        &self,
        peer_addr: SocketAddress,
        channel: u16,
        txn: &[u8; 12],
    ) -> (r: Result<Vec<u8>, TurnRequestError>)
        ensures
            if !(0x4000 <= channel <= 0x7FFE) {
                r == Err::<Vec<u8>, TurnRequestError>(TurnRequestError::ChannelOutOfRange)
            } else {
                match self.realm {
                    Some(realm) => r matches Ok(m) && m@ == signed_request(
                        0x0009,
                        txn@,
                        attr_bytes(0x000C, bytes::be16(channel as int) + bytes::zeros(2))
                            + attr_bytes(0x0012, xor_encoded(peer_addr@, txn@)),
                        *self,
                        realm@,
                    ),
                    None => r == Err::<Vec<u8>, TurnRequestError>(TurnRequestError::NoRealm),
                }
            },
    {
        if !(0x4000 <= channel && channel <= 0x7FFE) {
            return Err(TurnRequestError::ChannelOutOfRange);
        }
        match self.auth_key() {
            Some(key) => {
                let mut buf = build_stun_header(CHANNEL_BIND_REQUEST, txn);
                let ghost header = buf@;
                let mut cn: Vec<u8> = Vec::new();
                bytes::append_be16(&mut cn, channel);
                bytes::append_zeros(&mut cn, 2);
                proof {
                    assert(cn@ =~= bytes::be16(channel as int) + bytes::zeros(2));
                }
                append_attr(&mut buf, ATTR_CHANNEL_NUMBER, cn.as_slice());
                let xpa = encode_xor_address(peer_addr, txn.as_slice());
                append_attr(&mut buf, ATTR_XOR_PEER_ADDRESS, xpa.as_slice());
                proof {
                    assert(buf@ =~= header + (attr_bytes(ATTR_CHANNEL_NUMBER, cn@) + attr_bytes(
                        ATTR_XOR_PEER_ADDRESS,
                        xpa@,
                    )));
                }
                Ok(self.sign(buf, key))
            },
            None => Err(TurnRequestError::NoRealm),
        }
    }
}

// -- What goes over the wire --

/// An address goes over the wire masked: the port with the upper half of the cookie
/// 0x2112A442, the first four octets with the cookie and the others with the
/// transaction id. Before them stand a zero byte and the family. What came masked so is
/// read as the address.
pub proof fn law_addresses_are_masked(a: AddressV, txn: Seq<u8>)
    requires
        a.octets.len() == 4 || a.octets.len() == 16,
        txn.len() >= 12,
    ensures
        ({
            let e = xor_encoded(a, txn);
            &&& e.len() == a.octets.len() + 4
            &&& e[0] == 0
            &&& e[1] == if a.octets.len() == 4 {
                1u8
            } else {
                2u8
            }
            &&& e[2] * 256 + e[3] == a.port ^ 0x2112
            &&& e[4] == a.octets[0] ^ 0x21
            &&& e[5] == a.octets[1] ^ 0x12
            &&& e[6] == a.octets[2] ^ 0xA4
            &&& e[7] == a.octets[3] ^ 0x42
            &&& forall|i: int|
                4 <= i < a.octets.len() ==> #[trigger] e[4 + i] == a.octets[i] ^ txn[i - 4]
            &&& xor_decoded(e, txn) == Some(a)
        }),
{
    law_xor_address_round_trip(a, txn);
    let e = xor_encoded(a, txn);
    let x: u16 = a.port ^ 0x2112u16;
    bytes::lemma_be16_number(x as int);
    let key = xor_key(txn);
    assert(0x2112A442int / 65536 == 0x2112int && 0x2112A442int % 65536 == 0xA442int);
    assert(key[0] == 0x21 && key[1] == 0x12 && key[2] == 0xA4 && key[3] == 0x42);
    assert(e[2] == bytes::be16(x as int)[0] && e[3] == bytes::be16(x as int)[1]);
    assert forall|i: int| 0 <= i < a.octets.len() implies #[trigger] e[4 + i] == a.octets[i]
        ^ key[i] by {
        assert(e[4 + i] == xored(a.octets, key)[i]);
    }
    assert(e[4 + 0int] == a.octets[0] ^ key[0]);
    assert(e[4 + 1int] == a.octets[1] ^ key[1]);
    assert(e[4 + 2int] == a.octets[2] ^ key[2]);
    assert(e[4 + 3int] == a.octets[3] ^ key[3]);
    assert forall|i: int| 4 <= i < a.octets.len() implies #[trigger] e[4 + i] == a.octets[i]
        ^ txn[i - 4] by {
        assert(key[i] == txn[i - 4]);
    }
}

/// True of a message of a type: its header names the type, the length of what follows,
/// the cookie and the transaction id, and the attributes follow.
pub open spec fn is_message(m: Seq<u8>, kind: int, txn: Seq<u8>, list: Seq<AttrV>) -> bool {
    &&& m.len() >= 20
    &&& m[0] * 256 + m[1] == kind
    &&& m[2] * 256 + m[3] == m.len() - 20
    &&& m[4] == 0x21 && m[5] == 0x12 && m[6] == 0xA4 && m[7] == 0x42
    &&& m.subrange(8, 20) == txn
    &&& message_attrs(m) == list
}

proof fn lemma_header(kind: u16, txn: Seq<u8>)
    requires
        txn.len() == 12,
    ensures
        ({
            let h = stun_header(kind, txn);
            &&& h.len() == 20
            &&& h[0] * 256 + h[1] == kind
            &&& h[4] == 0x21 && h[5] == 0x12 && h[6] == 0xA4 && h[7] == 0x42
            &&& h.subrange(8, 20) == txn
        }),
{
    let h = stun_header(kind, txn);
    bytes::lemma_be16_number(kind as int);
    assert(0x2112A442int / 65536 == 0x2112int && 0x2112A442int % 65536 == 0xA442int);
    assert(h[0] == bytes::be16(kind as int)[0] && h[1] == bytes::be16(kind as int)[1]);
    let c = bytes::be32(MAGIC_COOKIE as int);
    assert(h[4] == c[0] && h[5] == c[1] && h[6] == c[2] && h[7] == c[3]);
    assert(h.subrange(8, 20) =~= txn);
}

// A message that begins as a header and goes on with attributes.
proof fn lemma_message(m: Seq<u8>, kind: u16, txn: Seq<u8>, list: Seq<AttrV>)
    requires
        txn.len() == 12,
        20 <= m.len() < 20 + 65536,
        forall|i: int|
            0 <= i < 20 && i != 2 && i != 3 ==> #[trigger] m[i] == stun_header(kind, txn)[i],
        m[2] * 256 + m[3] == m.len() - 20,
        m.skip(20) == attrs_bytes(list),
        forall|i: int| 0 <= i < list.len() ==> (#[trigger] list[i]).value.len() < 65536,
    ensures
        is_message(m, kind as int, txn, list),
{
    let h = stun_header(kind, txn);
    lemma_header(kind, txn);
    assert(m[0] == h[0] && m[1] == h[1] && m[4] == h[4] && m[5] == h[5] && m[6] == h[6] && m[7]
        == h[7]);
    assert forall|i: int| 0 <= i < 12 implies m.subrange(8, 20)[i] == txn[i] by {
        assert(m[8 + i] == h[8 + i]);
        assert(h.subrange(8, 20)[i] == h[8 + i]);
    }
    assert(m.subrange(8, 20) =~= txn);
    law_attributes_round_trip(m, 20, list);
}

proof fn lemma_with_length(data: Seq<u8>, n: int)
    requires
        data.len() >= 20,
        0 <= n < 65536,
    ensures
        with_length(data, n).len() == data.len(),
        with_length(data, n)[2] * 256 + with_length(data, n)[3] == n,
        forall|i: int|
            0 <= i < data.len() && i != 2 && i != 3 ==> #[trigger] with_length(data, n)[i]
                == data[i],
        with_length(data, n).skip(20) == data.skip(20),
{
    bytes::lemma_be16_number(n);
    assert(with_length(data, n).skip(20) =~= data.skip(20));
}

proof fn lemma_one_attr(kind: u16, value: Seq<u8>)
    ensures
        attrs_bytes(Seq::empty().push(AttrV { kind, value })) == attr_bytes(kind, value),
{
    let l = Seq::empty().push(AttrV { kind, value });
    assert(l.skip(1) =~= Seq::empty());
    reveal_with_fuel(attrs_bytes, 2);
    assert(attrs_bytes(l) =~= attr_bytes(kind, value));
}

proof fn lemma_more_attrs(a: Seq<AttrV>, b: Seq<AttrV>)
    ensures
        attrs_bytes(a + b) == attrs_bytes(a) + attrs_bytes(b),
    decreases a.len(),
{
    if a.len() == 0 {
        assert(a + b =~= b);
        assert(attrs_bytes(a) + attrs_bytes(b) =~= attrs_bytes(b));
    } else {
        lemma_more_attrs(a.skip(1), b);
        assert((a + b).skip(1) =~= a.skip(1) + b);
        assert((a + b)[0] == a[0]);
        assert(attrs_bytes(a + b) =~= attrs_bytes(a) + attrs_bytes(b));
    }
}

proof fn lemma_pushed_attr(a: Seq<AttrV>, kind: u16, value: Seq<u8>)
    ensures
        attrs_bytes(a.push(AttrV { kind, value })) == attrs_bytes(a) + attr_bytes(kind, value),
{
    lemma_one_attr(kind, value);
    lemma_more_attrs(a, Seq::empty().push(AttrV { kind, value }));
    assert(a + Seq::empty().push(AttrV { kind, value }) =~= a.push(AttrV { kind, value }));
}

/// A Send indication names the peer, masked, and carries the data as it is.
pub proof fn law_indication_carries_its_data(peer: AddressV, payload: Seq<u8>, txn: Seq<u8>)
    requires
        txn.len() == 12,
        peer.octets.len() == 4 || peer.octets.len() == 16,
        payload.len() < 65000,
    ensures
        is_message(
            send_message(peer, payload, txn),
            0x0016,
            txn,
            Seq::empty().push(AttrV { kind: 0x0012, value: xor_encoded(peer, txn) }).push(
                AttrV { kind: 0x0013, value: payload },
            ),
        ),
{
    let none = Seq::<AttrV>::empty();
    let x = xor_encoded(peer, txn);
    let one = none.push(AttrV { kind: 0x0012, value: x });
    let two = one.push(AttrV { kind: 0x0013, value: payload });
    lemma_one_attr(0x0012, x);
    lemma_pushed_attr(one, 0x0013, payload);
    let h = stun_header(SEND_INDICATION, txn);
    lemma_header(SEND_INDICATION, txn);
    let body = h + attr_bytes(ATTR_XOR_PEER_ADDRESS, x) + attr_bytes(ATTR_DATA, payload);
    assert(body.skip(20) =~= attrs_bytes(two));
    lemma_with_length(body, body.len() - 20);
    let m = send_message(peer, payload, txn);
    assert forall|i: int| 0 <= i < 20 && i != 2 && i != 3 implies #[trigger] m[i] == h[i] by {
        assert(m[i] == body[i]);
    }
    lemma_message(m, 0x0016, txn, two);
}

/// A first Allocate request asks for a relay over UDP and names nobody.
pub proof fn law_first_allocate_asks_for_udp(txn: Seq<u8>)
    requires
        txn.len() == 12,
    ensures
        is_message(
            allocate_request(txn, None, None, None),
            0x0003,
            txn,
            Seq::empty().push(
                AttrV { kind: 0x0019,
                    value: Seq::empty().push(17u8).push(0u8).push(0u8).push(0u8) },
            ),
        ),
{
    let udp = Seq::empty().push(17u8).push(0u8).push(0u8).push(0u8);
    assert(udp =~= Seq::empty().push(TRANSPORT_UDP) + bytes::zeros(3));
    lemma_one_attr(0x0019, udp);
    let h = stun_header(ALLOCATE_REQUEST, txn);
    lemma_header(ALLOCATE_REQUEST, txn);
    let body = h + attr_bytes(ATTR_REQUESTED_TRANSPORT, udp) + Seq::empty();
    assert(body.skip(20) =~= attr_bytes(0x0019, udp));
    lemma_with_length(body, body.len() - 20);
    let m = allocate_request(txn, None, None, None);
    assert forall|i: int| 0 <= i < 20 && i != 2 && i != 3 implies #[trigger] m[i] == h[i] by {
        assert(m[i] == body[i]);
    }
    lemma_message(
        m,
        0x0003,
        txn,
        Seq::empty().push(AttrV { kind: 0x0019, value: udp }),
    );
}

/// A signed request carries what it asks for, then the user name, the realm and the
/// nonce, then a keyed hash over what stands before it, under the key of those
/// credentials, and last the checksum of the whole.
pub proof fn law_signed_request_reads_back(
    kind: u16,
    txn: Seq<u8>,
    asked: Seq<AttrV>,
    c: TurnClient,
    realm: Seq<char>,
    nonce: Seq<char>,
    hashed: Seq<u8>,
)
    requires
        txn.len() == 12,
        text::opt_text(c.nonce) == Some(nonce),
        attrs_bytes(asked).len() < 20000,
        forall|i: int| 0 <= i < asked.len() ==> (#[trigger] asked[i]).value.len() < 65536,
        encode_utf8(c.username@).len() < 10000,
        encode_utf8(realm).len() < 10000,
        encode_utf8(nonce).len() < 10000,
        hashed == with_length(
            stun_header(kind, txn) + attrs_bytes(asked) + auth_bytes(
                c.username@,
                Some(realm),
                Some(nonce),
            ),
            (attrs_bytes(asked).len() + auth_bytes(c.username@, Some(realm), Some(nonce)).len()
                + 24) as int,
        ),
        hmac_sha1_of(long_term_key(c.username@, realm, c.credential@), hashed).len() == 20,
    ensures
        ({
            let m = signed_request(kind, txn, attrs_bytes(asked), c, realm);
            let f = crc_of(m.take(m.len() - 8)) ^ 0x5354554e;
            is_message(
                m,
                kind as int,
                txn,
                asked.push(AttrV { kind: 0x0006, value: encode_utf8(c.username@) }).push(
                    AttrV { kind: 0x0014, value: encode_utf8(realm) },
                ).push(AttrV { kind: 0x0015, value: encode_utf8(nonce) }).push(
                    AttrV {
                        kind: 0x0008,
                        value: hmac_sha1_of(
                            md5_of(
                                encode_utf8(c.username@ + ":"@ + realm + ":"@ + c.credential@),
                            ),
                            hashed,
                        ),
                    },
                ).push(AttrV { kind: 0x8028, value: bytes::be32(f as int) }),
            )
        }),
{
    let auth = auth_bytes(c.username@, Some(realm), Some(nonce));
    let base = stun_header(kind, txn) + attrs_bytes(asked) + auth;
    let key = long_term_key(c.username@, realm, c.credential@);
    let l1 = asked.push(AttrV { kind: 0x0006, value: encode_utf8(c.username@) });
    let l2 = l1.push(AttrV { kind: 0x0014, value: encode_utf8(realm) });
    let l3 = l2.push(AttrV { kind: 0x0015, value: encode_utf8(nonce) });
    lemma_auth_attrs(asked, c.username@, realm, nonce);
    lemma_header(kind, txn);
    assert(base.skip(20) =~= attrs_bytes(l3));
    lemma_signed(kind, txn, base, l3, key);
}

// The credentials follow what is asked for.
proof fn lemma_auth_attrs(
    asked: Seq<AttrV>,
    username: Seq<char>,
    realm: Seq<char>,
    nonce: Seq<char>,
)
    requires
        encode_utf8(username).len() < 10000,
        encode_utf8(realm).len() < 10000,
        encode_utf8(nonce).len() < 10000,
    ensures
        attrs_bytes(asked) + auth_bytes(username, Some(realm), Some(nonce)) == attrs_bytes(
            asked.push(AttrV { kind: 0x0006, value: encode_utf8(username) }).push(
                AttrV { kind: 0x0014, value: encode_utf8(realm) },
            ).push(AttrV { kind: 0x0015, value: encode_utf8(nonce) }),
        ),
        auth_bytes(username, Some(realm), Some(nonce)).len() < 30100,
{
    let u = encode_utf8(username);
    let r = encode_utf8(realm);
    let n = encode_utf8(nonce);
    let l1 = asked.push(AttrV { kind: 0x0006, value: u });
    let l2 = l1.push(AttrV { kind: 0x0014, value: r });
    lemma_pushed_attr(asked, 0x0006, u);
    lemma_pushed_attr(l1, 0x0014, r);
    lemma_pushed_attr(l2, 0x0015, n);
    let a = attrs_bytes(asked);
    let ub = attr_bytes(0x0006, u);
    let rb = attr_bytes(0x0014, r);
    let nb = attr_bytes(0x0015, n);
    assert(auth_bytes(username, Some(realm), Some(nonce)) =~= ub + rb + nb);
    assert(a + (ub + rb + nb) =~= a + ub + rb + nb);
}

// A message with its keyed hash and its checksum.
proof fn lemma_signed(kind: u16, txn: Seq<u8>, base: Seq<u8>, list: Seq<AttrV>, key: Seq<u8>)
    requires
        txn.len() == 12,
        20 <= base.len() < 60000,
        forall|i: int|
            0 <= i < 20 && i != 2 && i != 3 ==> #[trigger] base[i] == stun_header(kind, txn)[i],
        base.skip(20) == attrs_bytes(list),
        forall|i: int| 0 <= i < list.len() ==> (#[trigger] list[i]).value.len() < 65536,
        hmac_sha1_of(key, with_length(base, base.len() as int + 4)).len() == 20,
    ensures
        ({
            let m = with_fingerprint(with_integrity(base, key));
            is_message(
                m,
                kind as int,
                txn,
                list.push(
                    AttrV {
                        kind: 0x0008,
                        value: hmac_sha1_of(key, with_length(base, base.len() as int + 4)),
                    },
                ).push(
                    AttrV {
                        kind: 0x8028,
                        value: bytes::be32((crc_of(m.take(m.len() - 8)) ^ 0x5354554e) as int),
                    },
                ),
            )
        }),
{
    let h = stun_header(kind, txn);
    let hashed = with_length(base, base.len() as int + 4);
    let mac = hmac_sha1_of(key, hashed);
    let mb = attr_bytes(0x0008, mac);
    lemma_with_length(base, base.len() as int + 4);
    let d2 = with_integrity(base, key);
    assert(d2 == hashed + mb);
    assert(mb.len() == 24);
    let l4 = list.push(AttrV { kind: 0x0008, value: mac });
    lemma_pushed_attr(list, 0x0008, mac);
    assert(d2.skip(20) =~= hashed.skip(20) + mb);
    lemma_with_length(d2, d2.len() - 12);
    let counted = with_length(d2, d2.len() - 12);
    let f = crc_of(counted) ^ 0x5354554eu32;
    let fb = bytes::be32(f as int);
    let tb = attr_bytes(0x8028, fb);
    let m = with_fingerprint(d2);
    assert(m == counted + tb);
    assert(fb.len() == 4);
    assert(tb.len() == 8);
    assert(m.take(m.len() - 8) =~= counted);
    let l5 = l4.push(AttrV { kind: 0x8028, value: fb });
    lemma_pushed_attr(l4, 0x8028, fb);
    assert(m.skip(20) =~= counted.skip(20) + tb);
    assert forall|i: int| 0 <= i < 20 && i != 2 && i != 3 implies #[trigger] m[i] == h[i] by {
        assert(m[i] == counted[i]);
        assert(counted[i] == d2[i]);
        assert(d2[i] == hashed[i]);
        assert(hashed[i] == base[i]);
    }
    assert(m[2] == counted[2] && m[3] == counted[3]);
    assert forall|i: int| 0 <= i < l5.len() implies (#[trigger] l5[i]).value.len() < 65536 by {
        if i < list.len() {
            assert(l5[i] == list[i]);
        }
    }
    lemma_message(m, kind, txn, l5);
}

/// The scheme of a TURN URL says whether its server is secured; what has neither scheme is
/// none.
pub proof fn law_scheme_says_whether_secured(rest: Seq<char>)
    ensures
        turn_url("turn:"@ + rest) == Some(server_of(rest, TurnTransport::Udp)),
        turn_url("turns:"@ + rest) == Some(server_of(rest, TurnTransport::Tls)),
        turn_url("stun:"@ + rest) is None,
{
    reveal_strlit("turn:");
    reveal_strlit("turns:");
    reveal_strlit("stun:");
    let plain = "turn:"@ + rest;
    let secure = "turns:"@ + rest;
    let other = "stun:"@ + rest;
    assert(plain.skip(5) =~= rest);
    assert(secure.skip(6) =~= rest);
    assert(plain.take(5) =~= "turn:"@);
    assert(secure.take(6) =~= "turns:"@);
    assert(plain[4] == ':' && secure[4] == 's' && other[0] == 's');
    assert("turns:"@[4] == 's' && "turn:"@[4] == ':');
    if "turns:"@.is_prefix_of(plain) {
        assert(plain.take(6)[4] == plain[4]);
    }
    if "turns:"@.is_prefix_of(other) {
        assert(other.take(6)[0] == other[0]);
    }
    if "turn:"@.is_prefix_of(other) {
        assert(other.take(5)[0] == other[0]);
    }
}

/// Behind the scheme stand the host and the port; a query may follow that names another
/// transport than that of the scheme.
pub proof fn law_server_has_host_port_and_transport(
    host: Seq<char>,
    port: Seq<char>,
    rest: Seq<char>,
    number: u16,
    scheme: TurnTransport,
)
    requires
        !host.contains('?'),
        !port.contains('?'),
        !port.contains(':'),
        rest.len() > 0 ==> rest[0] == '?',
        bytes::port_number(port) == Some(number),
    ensures
        ({
            let query = if rest.len() > 0 {
                rest.skip(1)
            } else {
                Seq::empty()
            };
            server_of(host + ":"@ + port + rest, scheme) == (ServerV {
                host,
                port: number,
                transport: if text::contains_text(query, "transport=tcp"@) {
                    TurnTransport::Tcp
                } else if text::contains_text(query, "transport=tls"@) {
                    TurnTransport::Tls
                } else {
                    scheme
                },
            })
        }),
{
    lemma_host_port(host, port, rest);
    let hp = host + ":"@ + port;
    let whole = hp + rest;
    assert(whole.take(hp.len() as int) =~= hp);
    if rest.len() > 0 {
        assert(whole.skip(hp.len() as int + 1) =~= rest.skip(1));
        assert(split_query(whole) == (hp, rest.skip(1)));
    } else {
        assert(whole =~= hp);
        assert(split_query(whole) == (hp, Seq::<char>::empty()));
    }
}

// Where host, port and query part.
proof fn lemma_host_port(host: Seq<char>, port: Seq<char>, rest: Seq<char>)
    requires
        !host.contains('?'),
        !port.contains('?'),
        !port.contains(':'),
        rest.len() > 0 ==> rest[0] == '?',
    ensures
        ({
            let hp = host + ":"@ + port;
            &&& text::last_index(hp, ':') == Some(host.len() as int)
            &&& hp.take(host.len() as int) == host
            &&& hp.skip(host.len() as int + 1) == port
            &&& rest.len() > 0 ==> text::first_index(hp + rest, '?') == Some(hp.len() as int)
            &&& rest.len() == 0 ==> text::first_index(hp + rest, '?') is None
        }),
{
    reveal_strlit(":");
    let hp = host + ":"@ + port;
    assert(hp[host.len() as int] == ':');
    assert(hp.take(host.len() as int) =~= host);
    assert(hp.skip(host.len() as int + 1) =~= port);
    assert forall|j: int| host.len() < j < hp.len() implies #[trigger] hp[j] != ':' by {
        assert(hp[j] == port[j - host.len() - 1]);
        assert(port.contains(port[j - host.len() - 1]));
    }
    text::lemma_last_index_before(hp, ':', hp.len() as int);
    assert forall|j: int| 0 <= j < hp.len() implies #[trigger] hp[j] != '?' by {
        if j < host.len() {
            assert(hp[j] == host[j]);
            assert(host.contains(host[j]));
        } else if j > host.len() {
            assert(hp[j] == port[j - host.len() - 1]);
            assert(port.contains(port[j - host.len() - 1]));
        }
    }
    let whole = hp + rest;
    text::lemma_index_from(whole, '?', 0);
    assert forall|j: int| 0 <= j < hp.len() implies #[trigger] whole[j] != '?' by {
        assert(whole[j] == hp[j]);
    }
    if rest.len() > 0 {
        assert(whole[hp.len() as int] == '?');
    }
}

/// The credentials of a relay are those that the response names: in the response itself
/// the credential stands before the password, in a record of its own behind it. They
/// live for the named time or an hour, and there is always a server.
pub proof fn law_relay_credentials_as_named(body: JsonV, record: JsonV, c: RelayConfig,
    u: Seq<char>, p: Seq<char>)
    requires
        is_relay_config(body, c),
        json::str_of(json::get_of(record, "username"@)) == Some(u),
        record == body || (json::get_of(body, "username"@) is None && (json::arr_of(
            json::get_of(body, "TurnServerCredentials"@),
        ) matches Some(a) && a.len() > 0 && a[0] == record)),
    ensures
        c.username@ == u,
        json::str_of(json::get_of(record, "credential"@)) == Some(p) && json::get_of(
            record,
            "password"@,
        ) is None ==> c.credential@ == p,
        json::str_of(json::get_of(record, "password"@)) == Some(p) && json::get_of(
            record,
            "credential"@,
        ) is None ==> c.credential@ == p,
        record == body && json::str_of(json::get_of(record, "credential"@)) == Some(p)
            ==> c.credential@ == p,
        json::get_of(record, "ttl"@) is None ==> c.ttl == 3600,
        json::u64_of(json::get_of(record, "ttl"@)) matches Some(n) ==> n < 0x1_0000_0000 ==> c.ttl
            == n,
        c.servers@.len() > 0,
        json::get_of(record, "urls"@) is None ==> c.servers@.len() == 1 && c.servers@[0].port
            == 3478 && c.servers@[0].transport == TurnTransport::Udp,
{
    assert(servers_view(c.servers@).len() == c.servers@.len());
    if c.servers@.len() > 0 {
        assert(servers_view(c.servers@)[0] == c.servers@[0]@);
    }
}

/// The error that a message names is its class, the low three bits of the third byte,
/// times a hundred, and its number, the fourth byte; its lifetime is the number in four
/// bytes.
pub proof fn law_numbers_of_a_response(data: Seq<u8>, v: Seq<u8>)
    ensures
        last_attr(message_attrs(data), 0x0009, 4) == Some(v) ==> error_code(data) == (v[2] % 8)
            * 100 + v[3],
        last_attr(message_attrs(data), 0x000D, 4) == Some(v) ==> lifetime_of(data) == v[0]
            * 0x100_0000 + v[1] * 0x1_0000 + v[2] * 0x100 + v[3],
        last_attr(message_attrs(data), 0x000D, 4) is None ==> lifetime_of(data) == 600,
        is_error_type(0x0113) && is_error_type(0x0118) && is_error_type(0x0119),
        !is_error_type(0x0103) && !is_error_type(0x0108) && !is_error_type(0x0109),
{
    let b: u8 = v[2];
    assert(b & 7u8 == b % 8) by (bit_vector);
    assert(0x0113u16 & 0x0110u16 == 0x0110u16 && 0x0118u16 & 0x0110u16 == 0x0110u16 && 0x0119u16
        & 0x0110u16 == 0x0110u16) by (bit_vector);
    assert(0x0103u16 & 0x0110u16 != 0x0110u16 && 0x0108u16 & 0x0110u16 != 0x0110u16 && 0x0109u16
        & 0x0110u16 != 0x0110u16) by (bit_vector);
}

/// Data that comes over a channel is the payload behind four bytes, as long as the
/// message says; what comes in an indication is what its data attribute holds.
pub proof fn law_channel_data_is_its_payload(
    channel: Seq<u8>,
    payload: Seq<u8>,
    padding: Seq<u8>,
)
    requires
        channel.len() == 2,
        0x40 <= channel[0] < 0x80,
        payload.len() < 65536,
    ensures
        channel_payload(channel + bytes::be16(payload.len() as int) + payload + padding) == Some(
            payload,
        ),
{
    bytes::lemma_be16_number(payload.len() as int);
    let n = bytes::be16(payload.len() as int);
    let m = channel + n + payload + padding;
    assert(m[0] == channel[0] && m[2] == n[0] && m[3] == n[1]);
    assert(m.subrange(4, 4 + payload.len() as int) =~= payload);
}

/// The last attribute of a kind is the one that stands after every other of its kind:
/// what follows of other kinds does not change it.
pub proof fn law_last_attribute_counts(list: Seq<AttrV>, kind: u16, value: Seq<u8>, min: nat,
    i: int)
    requires
        0 <= i < list.len(),
        list[i] == (AttrV { kind, value }),
        value.len() >= min,
        forall|j: int| i < j < list.len() ==> (#[trigger] list[j]).kind != kind,
    ensures
        last_attr(list, kind, min) == Some(value),
    decreases list.len(),
{
    if i < list.len() - 1 {
        assert(list.last() == list[list.len() - 1]);
        law_last_attribute_counts(list.drop_last(), kind, value, min, i);
    } else {
        assert(list.last() == list[i]);
    }
}

/// A response that grants a relay tells the relay's address, the address that the
/// server sees and the lifetime, as the server wrote them.
pub proof fn law_grant_reads_back(
    m: Seq<u8>,
    txn: Seq<u8>,
    relay: AddressV,
    mapped: AddressV,
    seconds: u32,
    r: Result<TurnResponse, TurnResponseError>,
)
    requires
        txn.len() == 12,
        relay.octets.len() == 4 || relay.octets.len() == 16,
        mapped.octets.len() == 4 || mapped.octets.len() == 16,
        is_message(
            m,
            0x0103,
            txn,
            Seq::empty().push(AttrV { kind: 0x0016, value: xor_encoded(relay, txn) }).push(
                AttrV { kind: 0x0020, value: xor_encoded(mapped, txn) },
            ).push(AttrV { kind: 0x000D, value: bytes::be32(seconds as int) }),
        ),
        is_turn_response(m, 0x0103, r),
    ensures
        r matches Ok(TurnResponse::AllocateSuccess { relay_addr, mapped_addr, lifetime })
            && relay_addr@ == relay && (mapped_addr matches Some(a) && a@ == mapped) && lifetime
            == seconds,
{
    let list = message_attrs(m);
    law_xor_address_round_trip(relay, txn);
    law_xor_address_round_trip(mapped, txn);
    bytes::lemma_be32_number(seconds as int);
    assert(0x0103u16 & 0x0110u16 != 0x0110u16) by (bit_vector);
    law_last_attribute_counts(list, 0x0016, xor_encoded(relay, txn), 0, 0);
    law_last_attribute_counts(list, 0x0020, xor_encoded(mapped, txn), 0, 1);
    law_last_attribute_counts(list, 0x000D, bytes::be32(seconds as int), 4, 2);
}

/// A response that refuses tells the code, the realm and the nonce, as the server wrote
/// them.
pub proof fn law_refusal_reads_back(
    m: Seq<u8>,
    txn: Seq<u8>,
    class: u8,
    number: u8,
    realm: Seq<u8>,
    nonce: Seq<u8>,
    r: Result<TurnResponse, TurnResponseError>,
)
    requires
        txn.len() == 12,
        class < 8,
        is_message(
            m,
            0x0113,
            txn,
            Seq::empty().push(
                AttrV {
                    kind: 0x0009,
                    value: Seq::empty().push(0u8).push(0u8).push(class).push(number),
                },
            ).push(AttrV { kind: 0x0014, value: realm }).push(AttrV { kind: 0x0015, value: nonce }),
        ),
        is_turn_response(m, 0x0113, r),
    ensures
        r matches Ok(TurnResponse::Error { code, reason, realm: named, nonce: given }) && code
            == class * 100 + number && (named matches Some(t) && t@ == bytes::utf8_lossy(realm))
                && (
        given matches Some(t) && t@ == bytes::utf8_lossy(nonce)) && reason@.len() == 0,
{
    let list = message_attrs(m);
    let v = Seq::empty().push(0u8).push(0u8).push(class).push(number);
    assert(class < 8 ==> class & 7u8 == class) by (bit_vector);
    law_last_attribute_counts(list, 0x0009, v, 4, 0);
    law_last_attribute_counts(list, 0x0014, realm, 0, 1);
    law_last_attribute_counts(list, 0x0015, nonce, 0, 2);
    reveal_with_fuel(last_attr, 4);
    assert(last_attr(list, 0x0009, 5) is None);
}

/// The responses that grant a permission or a channel say only that they do; a type that
/// no response has is told as it is.
pub proof fn law_other_responses(
    m: Seq<u8>,
    msg_type: u16,
    r: Result<TurnResponse, TurnResponseError>,
)
    requires
        is_turn_response(m, msg_type, r),
    ensures
        msg_type == 0x0108 || msg_type == 0x0109 ==> r == Ok::<TurnResponse, TurnResponseError>(
            TurnResponse::Success,
        ),
        msg_type == 0x0001 || msg_type == 0x0003 || msg_type == 0x0101 ==> r == Err::<
            TurnResponse,
            TurnResponseError,
        >(TurnResponseError::UnknownType(msg_type)),
        msg_type == 0x0103 && last_attr(message_attrs(m), 0x0016, 0) is None ==> r == Err::<
            TurnResponse,
            TurnResponseError,
        >(TurnResponseError::MissingRelayedAddress),
{
    assert(0x0108u16 & 0x0110u16 != 0x0110u16 && 0x0109u16 & 0x0110u16 != 0x0110u16 && 0x0001u16
        & 0x0110u16 != 0x0110u16 && 0x0003u16 & 0x0110u16 != 0x0110u16 && 0x0101u16 & 0x0110u16
        != 0x0110u16 && 0x0103u16 & 0x0110u16 != 0x0110u16) by (bit_vector);
}

/// What a Data indication hands over is the peer's address and the data, as the server
/// wrote them.
pub proof fn law_data_indication_reads_back(
    m: Seq<u8>,
    txn: Seq<u8>,
    peer: AddressV,
    payload: Seq<u8>,
    r: Option<(SocketAddress, Vec<u8>)>,
)
    requires
        txn.len() == 12,
        peer.octets.len() == 4 || peer.octets.len() == 16,
        is_message(
            m,
            0x0017,
            txn,
            Seq::empty().push(AttrV { kind: 0x0012, value: xor_encoded(peer, txn) }).push(
                AttrV { kind: 0x0013, value: payload },
            ),
        ),
        is_data_indication(m, txn, r),
    ensures
        r matches Some((addr, data)) && addr@ == peer && data@ == payload,
{
    let list = message_attrs(m);
    law_xor_address_round_trip(peer, txn);
    law_last_attribute_counts(list, 0x0012, xor_encoded(peer, txn), 0, 0);
    law_last_attribute_counts(list, 0x0013, payload, 0, 1);
}

/// The servers of a relay are those of its addresses that read, in their order, and the
/// common one where none does.
pub proof fn law_servers_by_their_addresses(urls: Seq<JsonV>, s: Seq<char>, record: JsonV)
    ensures
        listed_servers(Seq::empty()).len() == 0,
        turn_url(s) matches Some(v) ==> listed_servers(urls.push(JsonV::Str(s))) == listed_servers(
            urls,
        ).push(v),
        turn_url(s) is None ==> listed_servers(urls.push(JsonV::Str(s))) == listed_servers(urls),
        listed_servers(urls.push(JsonV::Null)) == listed_servers(urls),
        json::get_of(record, "urls"@) == Some(JsonV::Arr(urls)) && listed_servers(urls).len() > 0
            ==> servers_of(record) == listed_servers(urls),
        json::get_of(record, "urls"@) == Some(JsonV::Arr(urls)) && listed_servers(urls).len() == 0
            ==> servers_of(record).len() == 1 && servers_of(record)[0].host
            == "api.flightproxy.teams.microsoft.com"@ && servers_of(record)[0].port == 3478
            && servers_of(record)[0].transport == TurnTransport::Udp,
{
    assert(urls.push(JsonV::Str(s)).drop_last() =~= urls);
    assert(urls.push(JsonV::Null).drop_last() =~= urls);
}

/// A signed Allocate request is the unsigned one with who asks, hashed under the key of
/// the credentials.
pub proof fn law_signed_allocate_is_signed_with_its_key(
    username: Seq<char>,
    realm: Seq<char>,
    nonce: Seq<char>,
    credential: Seq<char>,
    txn: Seq<u8>,
)
    requires
        txn.len() == 12,
        encode_utf8(username).len() < 10000,
        encode_utf8(realm).len() < 10000,
        encode_utf8(nonce).len() < 10000,
        ({
            let base = allocate_request(txn, Some(username), Some(realm), Some(nonce));
            hmac_sha1_of(
                md5_of(encode_utf8(username + ":"@ + realm + ":"@ + credential)),
                with_length(base, base.len() as int + 4),
            ).len() == 20
        }),
    ensures
        ({
            let base = allocate_request(txn, Some(username), Some(realm), Some(nonce));
            let m = signed_allocate(username, realm, nonce, credential, txn);
            is_message(
                m,
                0x0003,
                txn,
                Seq::empty().push(
                    AttrV {
                        kind: 0x0019,
                        value: Seq::empty().push(17u8).push(0u8).push(0u8).push(0u8),
                    },
                ).push(AttrV { kind: 0x0006, value: encode_utf8(username) }).push(
                    AttrV { kind: 0x0014, value: encode_utf8(realm) },
                ).push(AttrV { kind: 0x0015, value: encode_utf8(nonce) }).push(
                    AttrV {
                        kind: 0x0008,
                        value: hmac_sha1_of(
                            md5_of(encode_utf8(username + ":"@ + realm + ":"@ + credential)),
                            with_length(base, base.len() as int + 4),
                        ),
                    },
                ).push(
                    AttrV {
                        kind: 0x8028,
                        value: bytes::be32((crc_of(m.take(m.len() - 8)) ^ 0x5354554e) as int),
                    },
                ),
            )
        }),
{
    let udp = Seq::empty().push(17u8).push(0u8).push(0u8).push(0u8);
    let l3 = Seq::empty().push(AttrV { kind: 0x0019, value: udp }).push(
        AttrV { kind: 0x0006, value: encode_utf8(username) },
    ).push(AttrV { kind: 0x0014, value: encode_utf8(realm) }).push(
        AttrV { kind: 0x0015, value: encode_utf8(nonce) },
    );
    let base = allocate_request(txn, Some(username), Some(realm), Some(nonce));
    lemma_asking_base(username, realm, nonce, txn, l3);
    lemma_signed(0x0003, txn, base, l3, long_term_key(username, realm, credential));
}

proof fn lemma_asking_base(
    username: Seq<char>,
    realm: Seq<char>,
    nonce: Seq<char>,
    txn: Seq<u8>,
    l3: Seq<AttrV>,
)
    requires
        txn.len() == 12,
        encode_utf8(username).len() < 10000,
        encode_utf8(realm).len() < 10000,
        encode_utf8(nonce).len() < 10000,
        l3 == Seq::empty().push(
            AttrV { kind: 0x0019, value: Seq::empty().push(17u8).push(0u8).push(0u8).push(0u8) },
        ).push(AttrV { kind: 0x0006, value: encode_utf8(username) }).push(
            AttrV { kind: 0x0014, value: encode_utf8(realm) },
        ).push(AttrV { kind: 0x0015, value: encode_utf8(nonce) }),
    ensures
        ({
            let base = allocate_request(txn, Some(username), Some(realm), Some(nonce));
            &&& 20 <= base.len() < 60000
            &&& forall|i: int|
                0 <= i < 20 && i != 2 && i != 3
                    ==> #[trigger] base[i] == stun_header(0x0003, txn)[i]
            &&& base.skip(20) == attrs_bytes(l3)
            &&& forall|i: int| 0 <= i < l3.len() ==> (#[trigger] l3[i]).value.len() < 65536
        }),
{
    let udp = Seq::empty().push(17u8).push(0u8).push(0u8).push(0u8);
    assert(udp =~= Seq::empty().push(TRANSPORT_UDP) + bytes::zeros(3));
    let asked = Seq::empty().push(AttrV { kind: 0x0019, value: udp });
    let ub = attr_bytes(0x0019, udp);
    lemma_one_attr(0x0019, udp);
    lemma_auth_attrs(asked, username, realm, nonce);
    lemma_header(0x0003, txn);
    let h = stun_header(0x0003, txn);
    let auth = auth_bytes(username, Some(realm), Some(nonce));
    let body = h + ub + auth;
    let base = allocate_request(txn, Some(username), Some(realm), Some(nonce));
    assert(base == with_length(body, body.len() - 20));
    assert(ub.len() == 8);
    assert(body.len() == 28 + auth.len());
    assert(body.skip(20) =~= ub + auth);
    lemma_with_length(body, body.len() - 20);
    assert forall|i: int| 0 <= i < 20 && i != 2 && i != 3 implies #[trigger] base[i] == h[i] by {
        assert(base[i] == body[i]);
    }
}

/// Whoever checks bytes together with their checksum, lowest byte first, always comes to
/// the same number, whatever the bytes are. Nothing sums up to zero.
pub proof fn law_checksum_of_checked_bytes(data: Seq<u8>)
    ensures
        ({
            let c = crc_of(data);
            crc_of(
                data.push((c % 256) as u8).push((c / 256 % 256) as u8).push(
                    (c / 0x1_0000 % 256) as u8,
                ).push((c / 0x100_0000) as u8),
            ) == 0x2144DF1C
        }),
        crc_of(Seq::empty()) == 0,
{
    let r = crc_register(data);
    let c = crc_of(data);
    let b0 = (c % 256) as u8;
    let b1 = (c / 256 % 256) as u8;
    let b2 = (c / 0x1_0000 % 256) as u8;
    let b3 = (c / 0x100_0000) as u8;
    let d1 = data.push(b0);
    let d2 = d1.push(b1);
    let d3 = d2.push(b2);
    let d4 = d3.push(b3);
    assert(d1.drop_last() =~= data && d2.drop_last() =~= d1 && d3.drop_last() =~= d2
        && d4.drop_last() =~= d3);
    assert(0xFFFFFFFFu32 ^ 0xFFFFFFFFu32 == 0) by (bit_vector);
    assert((r ^ ((c % 256) as u32)) == 0xFFu32 ^ ((r >> 8) << 8) && ((r >> 8) ^ ((c / 256
        % 256) as u32)) == 0xFFu32 ^ ((r >> 16) << 8) && ((r >> 16) ^ ((c / 0x1_0000
        % 256) as u32)) == 0xFFu32 ^ ((r >> 24) << 8) && ((r >> 24) ^ ((c / 0x100_0000) as u32))
        == 0xFFu32 && (r >> 8) < 0x100_0000 && (r >> 16) < 0x100_0000 && (r >> 24) < 0x100_0000)
        by (bit_vector)
        requires
            c == r ^ 0xFFFFFFFFu32,
    ;
    let k1 = crc_bits(0xFFu32, 8);
    let r1 = crc_register(d1);
    assert(r ^ (b0 as u32) == 0xFFu32 ^ ((r >> 8) << 8));
    lemma_crc_shifts(0xFFu32, r >> 8);
    assert(r1 == k1 ^ (r >> 8));
    let k2 = crc_bits(k1 ^ 0xFFu32, 8);
    let r2 = crc_register(d2);
    lemma_xor_parts(k1, r >> 8, b1 as u32, 0xFFu32 ^ ((r >> 16) << 8));
    lemma_xor_swap(k1, 0xFFu32, (r >> 16) << 8);
    lemma_crc_shifts(k1 ^ 0xFFu32, r >> 16);
    assert(r2 == k2 ^ (r >> 16));
    let k3 = crc_bits(k2 ^ 0xFFu32, 8);
    let r3 = crc_register(d3);
    lemma_xor_parts(k2, r >> 16, b2 as u32, 0xFFu32 ^ ((r >> 24) << 8));
    lemma_xor_swap(k2, 0xFFu32, (r >> 24) << 8);
    lemma_crc_shifts(k2 ^ 0xFFu32, r >> 24);
    assert(r3 == k3 ^ (r >> 24));
    let k4 = crc_bits(k3 ^ 0xFFu32, 8);
    let r4 = crc_register(d4);
    lemma_xor_parts(k3, r >> 24, b3 as u32, 0xFFu32);
    assert(r4 == k4);
    lemma_crc_constants();
}

proof fn lemma_xor_parts(a: u32, b: u32, c: u32, d: u32)
    requires
        b ^ c == d,
    ensures
        (a ^ b) ^ c == a ^ d,
{
    assert((a ^ b) ^ c == a ^ (b ^ c)) by (bit_vector);
}

proof fn lemma_xor_swap(a: u32, b: u32, c: u32)
    ensures
        a ^ (b ^ c) == (a ^ b) ^ c,
{
    assert(a ^ (b ^ c) == (a ^ b) ^ c) by (bit_vector);
}

// Eight steps move what stands above the lowest byte down by one byte, beside what the
// lowest byte becomes.
proof fn lemma_crc_shifts(x: u32, y: u32)
    requires
        y < 0x100_0000,
    ensures
        crc_bits(x ^ (y << 8), 8) == crc_bits(x, 8) ^ y,
{
    assert((y << 8) & 1 == 0 && (y << 8) >> 1 == y << 7 && (y << 7) & 1 == 0 && (y << 7) >> 1 == y
        << 6 && (y << 6) & 1 == 0 && (y << 6) >> 1 == y << 5 && (y << 5) & 1 == 0 && (y << 5) >> 1
        == y << 4 && (y << 4) & 1 == 0 && (y << 4) >> 1 == y << 3 && (y << 3) & 1 == 0 && (y << 3)
        >> 1 == y << 2 && (y << 2) & 1 == 0 && (y << 2) >> 1 == y << 1 && (y << 1) & 1 == 0 && (y
        << 1) >> 1 == y) by (bit_vector)
        requires
            y < 0x100_0000,
    ;
    lemma_crc_bits_step(x, y << 8, 0, y << 8, y << 7);
    lemma_crc_bits_step(x, y << 8, 1, y << 7, y << 6);
    lemma_crc_bits_step(x, y << 8, 2, y << 6, y << 5);
    lemma_crc_bits_step(x, y << 8, 3, y << 5, y << 4);
    lemma_crc_bits_step(x, y << 8, 4, y << 4, y << 3);
    lemma_crc_bits_step(x, y << 8, 5, y << 3, y << 2);
    lemma_crc_bits_step(x, y << 8, 6, y << 2, y << 1);
    lemma_crc_bits_step(x, y << 8, 7, y << 1, y);
}

proof fn lemma_crc_bits_step(x: u32, top: u32, n: nat, y: u32, half: u32)
    requires
        crc_bits(x ^ top, n) == crc_bits(x, n) ^ y,
        y & 1 == 0,
        y >> 1 == half,
    ensures
        crc_bits(x ^ top, n + 1) == crc_bits(x, n + 1) ^ half,
{
    let c = crc_bits(x, n);
    assert((c ^ y) & 1 == c & 1 && (c ^ y) >> 1 == (c >> 1) ^ half && ((c >> 1) ^ half)
        ^ 0xEDB88320u32 == ((c >> 1) ^ 0xEDB88320u32) ^ half) by (bit_vector)
        requires
            y & 1 == 0,
            y >> 1 == half,
    ;
}

proof fn lemma_crc_byte(
    c0: u32,
    c1: u32,
    c2: u32,
    c3: u32,
    c4: u32,
    c5: u32,
    c6: u32,
    c7: u32,
    c8: u32,
)
    requires
        crc_bit(c0) == c1,
        crc_bit(c1) == c2,
        crc_bit(c2) == c3,
        crc_bit(c3) == c4,
        crc_bit(c4) == c5,
        crc_bit(c5) == c6,
        crc_bit(c6) == c7,
        crc_bit(c7) == c8,
    ensures
        crc_bits(c0, 8) == c8,
{
    reveal_with_fuel(crc_bits, 9);
}

proof fn lemma_crc_constants()
    ensures
        ({
            let k1 = crc_bits(0xFFu32, 8);
            let k2 = crc_bits(k1 ^ 0xFFu32, 8);
            let k3 = crc_bits(k2 ^ 0xFFu32, 8);
            crc_bits(k3 ^ 0xFFu32, 8) ^ 0xFFFFFFFFu32 == 0x2144DF1Cu32
        }),
{
    assert(crc_bit(0xFFu32) == 0xEDB8835Fu32 && crc_bit(0xEDB8835Fu32) == 0x9B64C28Fu32
        && crc_bit(0x9B64C28Fu32) == 0xA00AE267u32 && crc_bit(0xA00AE267u32) == 0xBDBDF213u32
        && crc_bit(0xBDBDF213u32) == 0xB3667A29u32 && crc_bit(0xB3667A29u32) == 0xB40BBE34u32
        && crc_bit(0xB40BBE34u32) == 0x5A05DF1Au32
        && crc_bit(0x5A05DF1Au32) == 0x2D02EF8Du32) by (bit_vector);
    lemma_crc_byte(0xFF, 0xEDB8835F, 0x9B64C28F, 0xA00AE267, 0xBDBDF213, 0xB3667A29, 0xB40BBE34,
        0x5A05DF1A, 0x2D02EF8D);
    assert(0x2D02EF8Du32 ^ 0xFFu32 == 0x2D02EF72u32) by (bit_vector);
    assert(crc_bit(0x2D02EF72u32) == 0x168177B9u32 && crc_bit(0x168177B9u32) == 0xE6F838FCu32
        && crc_bit(0xE6F838FCu32) == 0x737C1C7Eu32 && crc_bit(0x737C1C7Eu32) == 0x39BE0E3Fu32
        && crc_bit(0x39BE0E3Fu32) == 0xF167843Fu32 && crc_bit(0xF167843Fu32) == 0x950B413Fu32
        && crc_bit(0x950B413Fu32) == 0xA73D23BFu32
        && crc_bit(0xA73D23BFu32) == 0xBE2612FFu32) by (bit_vector);
    lemma_crc_byte(0x2D02EF72, 0x168177B9, 0xE6F838FC, 0x737C1C7E, 0x39BE0E3F, 0xF167843F,
        0x950B413F, 0xA73D23BF, 0xBE2612FF);
    assert(0xBE2612FFu32 ^ 0xFFu32 == 0xBE261200u32) by (bit_vector);
    assert(crc_bit(0xBE261200u32) == 0x5F130900u32 && crc_bit(0x5F130900u32) == 0x2F898480u32
        && crc_bit(0x2F898480u32) == 0x17C4C240u32 && crc_bit(0x17C4C240u32) == 0xBE26120u32
        && crc_bit(0xBE26120u32) == 0x5F13090u32 && crc_bit(0x5F13090u32) == 0x2F89848u32
        && crc_bit(0x2F89848u32) == 0x17C4C24u32
        && crc_bit(0x17C4C24u32) == 0xBE2612u32) by (bit_vector);
    lemma_crc_byte(0xBE261200, 0x5F130900, 0x2F898480, 0x17C4C240, 0xBE26120, 0x5F13090, 0x2F89848,
        0x17C4C24, 0xBE2612);
    assert(0xBE2612u32 ^ 0xFFu32 == 0xBE26EDu32) by (bit_vector);
    assert(crc_bit(0xBE26EDu32) == 0xEDE79056u32 && crc_bit(0xEDE79056u32) == 0x76F3C82Bu32
        && crc_bit(0x76F3C82Bu32) == 0xD6C16735u32 && crc_bit(0xD6C16735u32) == 0x86D830BAu32
        && crc_bit(0x86D830BAu32) == 0x436C185Du32 && crc_bit(0x436C185Du32) == 0xCC0E8F0Eu32
        && crc_bit(0xCC0E8F0Eu32) == 0x66074787u32
        && crc_bit(0x66074787u32) == 0xDEBB20E3u32) by (bit_vector);
    lemma_crc_byte(0xBE26ED, 0xEDE79056, 0x76F3C82B, 0xD6C16735, 0x86D830BA, 0x436C185D, 0xCC0E8F0E,
        0x66074787, 0xDEBB20E3);
    assert(0xDEBB20E3u32 ^ 0xFFFFFFFFu32 == 0x2144DF1Cu32) by (bit_vector);
}

/// The server that is used is the first that is reached over UDP.
pub proof fn law_first_server_over_udp(servers: Seq<TurnServer>, i: int, j: int)
    requires
        first_udp(servers, i),
        0 <= j < servers.len(),
        servers[j].transport == TurnTransport::Udp,
    ensures
        i <= j && servers[i].transport == TurnTransport::Udp,
{
}

/// The type of a message stands in its first two bytes and the cookie in the fifth to the
/// eighth.
pub proof fn law_where_type_and_cookie_stand(m: Seq<u8>)
    requires
        m.len() >= 20,
    ensures
        type_of(m) == m[0] * 256 + m[1],
        cookie_of(m) == m[4] * 0x100_0000 + m[5] * 0x1_0000 + m[6] * 0x100 + m[7],
{
}

/// An address is read of the bytes of its family: four octets or sixteen, behind four
/// bytes; anything shorter, or of another family, is none. What follows is left aside.
pub proof fn law_addresses_are_unmasked(value: Seq<u8>, txn: Seq<u8>, i: int)
    requires
        txn.len() >= 12,
    ensures
        value.len() < 8 ==> xor_decoded(value, txn) is None,
        value.len() >= 8 && value[1] != 1 && value[1] != 2 ==> xor_decoded(value, txn) is None,
        8 <= value.len() < 20 && value[1] == 2 ==> xor_decoded(value, txn) is None,
        value.len() >= 8 && value[1] == 1 ==> (xor_decoded(value, txn) matches Some(a)
            && a.octets.len() == 4 && a.octets[0] == value[4] ^ 0x21 && a.octets[1] == value[5]
            ^ 0x12 && a.octets[2] == value[6] ^ 0xA4 && a.octets[3] == value[7] ^ 0x42 && a.port
            == ((value[2] * 256 + value[3]) as u16) ^ 0x2112),
        value.len() >= 20 && value[1] == 2 && 4 <= i < 16 ==> (xor_decoded(value, txn) matches Some(
            a,
        ) && a.octets.len() == 16 && a.octets[i] == value[4 + i] ^ txn[i - 4] && a.octets[0]
            == value[4] ^ 0x21 && a.octets[3] == value[7] ^ 0x42),
{
    assert(0x2112A442int / 65536 == 0x2112int && 0x2112A442int % 65536 == 0xA442int);
    let key = xor_key(txn);
    assert(key[0] == 0x21 && key[1] == 0x12 && key[2] == 0xA4 && key[3] == 0x42);
    if 4 <= i < 16 {
        assert(key[i] == txn[i - 4]);
    }
}

/// A list of attributes ends where no whole one follows: where fewer than four bytes are
/// left, or fewer than the next one says that it has.
pub proof fn law_cut_attributes_are_left_aside(data: Seq<u8>, pos: int, end: int)
    requires
        0 <= pos,
    ensures
        pos + 4 > end ==> attr_list(data, pos, end).len() == 0,
        pos + 4 <= end && pos + 4 + (data[pos + 2] * 256 + data[pos + 3]) > end ==> attr_list(
            data,
            pos,
            end,
        ).len() == 0,
        pos + 4 <= end && pos + 4 + (data[pos + 2] * 256 + data[pos + 3]) <= end ==> attr_list(
            data,
            pos,
            end,
        ).len() > 0 && attr_list(data, pos, end)[0].kind == data[pos] * 256 + data[pos + 1]
            && attr_list(data, pos, end)[0].value == data.subrange(
            pos + 4,
            pos + 4 + (data[pos + 2] * 256 + data[pos + 3]),
        ),
{
}

/// A value is filled up to a multiple of four bytes, with at most three.
pub proof fn law_values_are_filled_up(n: int)
    requires
        0 <= n,
    ensures
        padded(n) % 4 == 0,
        n <= padded(n) < n + 4,
{
}

/// The reason of an error is the text behind its code, and what a message holds beyond the
/// length that it says is left aside.
pub proof fn law_reason_and_length(data: Seq<u8>, v: Seq<u8>)
    requires
        data.len() >= 20,
    ensures
        last_attr(message_attrs(data), 0x0009, 5) == Some(v) ==> error_reason(data)
            == bytes::utf8_lossy(v.skip(4)),
        last_attr(message_attrs(data), 0x0009, 5) is None ==> error_reason(data).len() == 0,
        20 + data[2] * 256 + data[3] <= data.len() ==> message_attrs(data) == attr_list(
            data,
            20,
            20 + data[2] * 256 + data[3],
        ),
        20 + data[2] * 256 + data[3] > data.len() ==> message_attrs(data) == attr_list(
            data,
            20,
            data.len() as int,
        ),
{
}

} // verus!
