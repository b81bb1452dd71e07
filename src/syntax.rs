//! The fixed words of the wire format: addresses, methods, header names and values.

use vstd::prelude::*;

verus! {

/// The IPv4 multicast group and port reserved for SSDP.
pub const MULTICAST_ADDRESS: &'static str = "239.255.255.250:1900";

pub const HTTP_PROTOCOL_NAME: &'static str = "HTTP";
pub const HTTP_PROTOCOL_VERSION: &'static str = "1.1";
pub const HTTP_MATCH_ANY_RESOURCE: &'static str = "*";

/// The `MAN` value of a search; unlike other values it is quoted.
pub const HTTP_EXTENSION: &'static str = "\"ssdp:discover\"";

pub const HTTP_METHOD_NOTIFY: &'static str = "NOTIFY";
pub const HTTP_METHOD_SEARCH: &'static str = "M-SEARCH";

pub const HTTP_HEADER_BOOTID: &'static str = "BOOTID.UPNP.ORG";
pub const HTTP_HEADER_CACHE_CONTROL: &'static str = "CACHE-CONTROL";
pub const HTTP_HEADER_CONFIGID: &'static str = "CONFIGID.UPNP.ORG";
pub const HTTP_HEADER_CP_FN: &'static str = "CPFN.UPNP.ORG";
pub const HTTP_HEADER_CP_UUID: &'static str = "CPUUID.UPNP.ORG";
pub const HTTP_HEADER_DATE: &'static str = "DATE";
pub const HTTP_HEADER_EXT: &'static str = "EXT";
pub const HTTP_HEADER_HOST: &'static str = "HOST";
pub const HTTP_HEADER_LOCATION: &'static str = "LOCATION";
pub const HTTP_HEADER_MAN: &'static str = "MAN";
pub const HTTP_HEADER_MX: &'static str = "MX";
pub const HTTP_HEADER_NT: &'static str = "NT";
pub const HTTP_HEADER_NTS: &'static str = "NTS";
pub const HTTP_HEADER_NEXT_BOOTID: &'static str = "NEXTBOOTID.UPNP.ORG";
pub const HTTP_HEADER_SEARCH_PORT: &'static str = "SEARCHPORT.UPNP.ORG";
pub const HTTP_HEADER_SECURE_LOCATION: &'static str = "SECURELOCATION.UPNP.ORG";
pub const HTTP_HEADER_SERVER: &'static str = "SERVER";
pub const HTTP_HEADER_TCP_PORT: &'static str = "TCPPORT.UPNP.ORG";
pub const HTTP_HEADER_ST: &'static str = "ST";
pub const HTTP_HEADER_USER_AGENT: &'static str = "USER-AGENT";
pub const HTTP_HEADER_USN: &'static str = "USN";

pub const NTS_ALIVE: &'static str = "ssdp:alive";
pub const NTS_BYE: &'static str = "ssdp:byebye";
pub const NTS_UPDATE: &'static str = "ssdp:update";

/// The `DATE` used when a response leaves it empty.
pub const DEFAULT_DATE: &'static str = "Thu, 01 Jan 1970 00:00:00 GMT";
/// The `LOCATION` used when a response leaves it empty.
pub const DEFAULT_LOCATION: &'static str = "http://www.example.org";

/// The size of the buffer that one datagram is received into.
pub const DEFAULT_BUFFER_SIZE: usize = 1500;
/// The receive timeout, in seconds, when none is given.
pub const DEFAULT_RECV_TIMEOUT: u64 = 2;

} // verus!
