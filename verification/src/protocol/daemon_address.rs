//! Daemon WebSocket address parsing and validation.

use vstd::prelude::*;

use crate::protocol::socket_address;
use crate::protocol::socket_address::{SocketAddress, SocketAddressV4};
use crate::text;

verus! {

/// Errors that can occur when parsing or validating a daemon address.
#[derive(Debug, PartialEq, Eq)]
pub enum DaemonAddressError {
    /// The address string is not a valid socket address.
    InvalidAddress(String),
    /// The address is not the loopback address.
    NotLocalHost(String),
}

/// What a [`DaemonAddressError`] holds.
pub enum DaemonAddressErrorModel {
    InvalidAddress(Seq<char>),
    NotLocalHost(Seq<char>),
}

impl DeepView for DaemonAddressError {
    type V = DaemonAddressErrorModel;

    open spec fn deep_view(&self) -> DaemonAddressErrorModel {
        match self {
            DaemonAddressError::InvalidAddress(address) =>
                DaemonAddressErrorModel::InvalidAddress(address@),
            DaemonAddressError::NotLocalHost(address) => DaemonAddressErrorModel::NotLocalHost(
                address@,
            ),
        }
    }
}

impl DaemonAddressErrorModel {
    /// The text of the error.
    pub open spec fn message(self) -> Seq<char> {
        match self {
            DaemonAddressErrorModel::InvalidAddress(address) => "invalid daemon address: "@
                + address,
            DaemonAddressErrorModel::NotLocalHost(address) =>
                "daemon address must be 127.0.0.1 or localhost, got: "@ + address,
        }
    }
}

impl DaemonAddressError {
    /// Returns the text of the error.
    pub fn message(&self) -> (r: String)
        ensures
            r@ == self.deep_view().message(),
    {
        match self {
            DaemonAddressError::InvalidAddress(address) => text::concat(
                "invalid daemon address: ",
                address,
            ),
            DaemonAddressError::NotLocalHost(address) => text::concat(
                "daemon address must be 127.0.0.1 or localhost, got: ",
                address,
            ),
        }
    }
}

/// The loopback address.
pub open spec fn is_local_host(address: SocketAddress) -> bool {
    address matches SocketAddress::V4(host) && host.a == 127 && host.b == 0 && host.c == 0 && host.d
        == 1
}

/// The loopback address with a port.
pub open spec fn local_host(port: u16) -> SocketAddress {
    SocketAddress::V4(SocketAddressV4 { a: 127, b: 0, c: 0, d: 1, port })
}

/// The text with a leading host name `localhost` written as its address.
pub open spec fn normalized(s: Seq<char>) -> Seq<char> {
    if text::occurs_at(s, "localhost:"@, 0) || s == "localhost"@ {
        "127.0.0.1"@ + s.skip(9)
    } else {
        s
    }
}

/// The daemon address that a text stands for, or what is wrong with it.
pub open spec fn address_of(s: Seq<char>) -> Result<SocketAddress, DaemonAddressErrorModel> {
    match socket_address::parsed(normalized(s)) {
        None => Err(DaemonAddressErrorModel::InvalidAddress(s)),
        Some(address) => validated(address),
    }
}

/// A socket address as a daemon address: only the loopback address is one.
pub open spec fn validated(address: SocketAddress) -> Result<
    SocketAddress,
    DaemonAddressErrorModel,
> {
    if is_local_host(address) {
        Ok(address)
    } else {
        Err(DaemonAddressErrorModel::NotLocalHost(socket_address::address_text(address)))
    }
}

/// A validated loopback WebSocket address for the local daemon.
///
/// Only `127.0.0.1` and `localhost` are accepted; all other addresses are rejected to keep
/// the daemon local-only.
#[derive(Debug, Clone, Copy, PartialEq, Eq)]
pub struct DaemonAddress {
    inner: SocketAddress,
}

impl DaemonAddress {
    /// The socket address.
    pub closed spec fn address(&self) -> SocketAddress {
        self.inner
    }

    /// The address is the loopback address.
    #[verifier::type_invariant]
    spec fn is_local(&self) -> bool {
        is_local_host(self.inner)
    }

    /// Returns the default daemon WebSocket address.
    pub fn default_address() -> (r: Self)
        ensures
            r.address() == local_host(8787),
    {
        DaemonAddress {
            inner: SocketAddress::V4(SocketAddressV4 { a: 127, b: 0, c: 0, d: 1, port: 8787 }),
        }
    }

    /// Create a validated address from a socket address.
    pub fn from_socket_addr(addr: SocketAddress) -> (r: Result<Self, DaemonAddressError>)
        ensures
            address_result(r) == validated(addr),
    {
        let local = match addr {
            SocketAddress::V4(host) => host.a == 127 && host.b == 0 && host.c == 0 && host.d == 1,
            SocketAddress::V6(_) => false,
        };
        if !local {
            return Err(DaemonAddressError::NotLocalHost(addr.to_text()));
        }
        Ok(DaemonAddress { inner: addr })
    }

    /// Return the underlying socket address.
    pub fn socket_addr(&self) -> (r: SocketAddress)
        ensures
            r == self.address(),
            is_local_host(r),
    {
        proof {
            use_type_invariant(self);
        }
        self.inner
    }

    /// Returns the text of the address.
    pub fn to_text(&self) -> (r: String)
        ensures
            r@ == socket_address::address_text(self.address()),
    {
        self.inner.to_text()
    }

    /// Return the WebSocket URL for this address.
    pub fn websocket_url(&self) -> (r: String)
        ensures
            r@ == "ws://"@ + socket_address::address_text(self.address()) + "/"@,
    {
        text::concat3("ws://", &self.inner.to_text(), "/")
    }

    /// Parses an address. A host name `localhost` is read as `127.0.0.1`.
    pub fn parse(s: &str) -> (r: Result<Self, DaemonAddressError>)
        ensures
            address_result(r) == address_of(s@),
    {
        let normalized_text = if text::starts_with(s, "localhost:") || text::same(s, "localhost") {
            let chars = text::chars_of(s);
            proof {
                reveal_strlit("localhost:");
                reveal_strlit("localhost");
            }
            let rest = text::string_of(&chars, 9, chars.len());
            assert(rest@ =~= s@.skip(9));
            text::concat("127.0.0.1", &rest)
        } else {
            s.to_owned()
        };
        match socket_address::parse_socket_address(&normalized_text) {
            Some(address) => DaemonAddress::from_socket_addr(address),
            None => Err(DaemonAddressError::InvalidAddress(s.to_owned())),
        }
    }
}

impl std::str::FromStr for DaemonAddress {
    type Err = DaemonAddressError;

    fn from_str(s: &str) -> (r: Result<Self, DaemonAddressError>)
        ensures
            address_result(r) == address_of(s@),
    {
        DaemonAddress::parse(s)
    }
}

impl From<DaemonAddress> for String {
    fn from(value: DaemonAddress) -> (r: Self)
        ensures
            r@ == socket_address::address_text(value.address()),
    {
        value.to_text()
    }
}

impl vstd::std_specs::convert::FromSpecImpl<DaemonAddress> for String {
    open spec fn obeys_from_spec() -> bool {
        false
    }

    open spec fn from_spec(value: DaemonAddress) -> Self {
        arbitrary()
    }
}

/// What a result of parsing or validating an address holds.
pub open spec fn address_result(r: Result<DaemonAddress, DaemonAddressError>) -> Result<
    SocketAddress,
    DaemonAddressErrorModel,
> {
    match r {
        Ok(address) => Ok(address.address()),
        Err(error) => Err(error.deep_view()),
    }
}

/// Every address that parses is the loopback address.
pub proof fn law_accepted_addresses_are_local(s: Seq<char>)
    ensures
        address_of(s) matches Ok(address) ==> is_local_host(address),
{
}

/// The text of a loopback address is read as that address.
pub proof fn law_address_text_is_read_back(port: u16)
    ensures
        address_of(socket_address::address_text(local_host(port))) == Ok::<
            SocketAddress,
            DaemonAddressErrorModel,
        >(local_host(port)),
{
    let address = SocketAddressV4 { a: 127, b: 0, c: 0, d: 1, port };
    let whole = socket_address::v4_text(address);
    socket_address::law_v4_text_is_read_back(address);
    reveal_strlit("localhost:");
    reveal_strlit("localhost");
    if text::occurs_at(whole, "localhost:"@, 0) {
        assert(whole.subrange(0, 10)[0] == whole[0]);
        assert("localhost:"@[0] == 'l');
    }
    assert("localhost"@[0] == 'l');
    assert(normalized(whole) == whole);
}

/// Both names of the loopback address are accepted, with any port; the address is the same.
pub proof fn law_both_names_of_the_local_host_are_accepted(port: u16)
    ensures
        address_of("localhost:"@ + text::decimal(port as nat)) == Ok::<
            SocketAddress,
            DaemonAddressErrorModel,
        >(local_host(port)),
        address_of("127.0.0.1:"@ + text::decimal(port as nat)) == Ok::<
            SocketAddress,
            DaemonAddressErrorModel,
        >(local_host(port)),
{
    law_address_text_is_read_back(port);
    let digits = text::decimal(port as nat);
    reveal_strlit("localhost:");
    reveal_strlit("127.0.0.1:");
    reveal_strlit("127.0.0.1");
    reveal_strlit(":");
    reveal_strlit(".");
    let named = "localhost:"@ + digits;
    let plain = "127.0.0.1:"@ + digits;
    assert(named.subrange(0, 10) =~= "localhost:"@);
    assert("127.0.0.1"@ + named.skip(9) =~= plain);
    lemma_loopback_text();
    assert(plain =~= socket_address::address_text(local_host(port)));
    reveal_strlit("localhost");
    assert(plain[0] == '1');
    if text::occurs_at(plain, "localhost:"@, 0) {
        assert(plain.subrange(0, 10)[0] == plain[0]);
        assert("localhost:"@[0] == 'l');
    }
    assert("localhost"@[0] == 'l');
    assert(normalized(plain) == plain);
}

proof fn lemma_loopback_text()
    ensures
        socket_address::host_text(127, 0, 0, 1) == "127.0.0.1"@,
{
    reveal_strlit("127.0.0.1");
    reveal_strlit(".");
    reveal_with_fuel(text::decimal, 4);
    assert(text::decimal(1) =~= seq!['1']);
    assert(text::decimal(0) =~= seq!['0']);
    assert(text::decimal(12) =~= seq!['1', '2']);
    assert(text::decimal(127) =~= seq!['1', '2', '7']);
    assert(socket_address::host_text(127, 0, 0, 1) =~= "127.0.0.1"@);
}

/// Every other address is refused, and so is text that is none: the first is told in its own
/// form, the second as it was given.
pub proof fn law_other_addresses_are_refused(s: Seq<char>)
    requires
        !text::occurs_at(s, "localhost:"@, 0),
        s != "localhost"@,
    ensures
        match socket_address::parsed(s) {
            Some(SocketAddress::V4(host)) => if host.a == 127 && host.b == 0 && host.c == 0
                && host.d == 1 {
                address_of(s) == Ok::<SocketAddress, DaemonAddressErrorModel>(
                    SocketAddress::V4(host),
                )
            } else {
                address_of(s) == Err::<SocketAddress, DaemonAddressErrorModel>(
                    DaemonAddressErrorModel::NotLocalHost(socket_address::v4_text(host)),
                )
            },
            Some(SocketAddress::V6(host)) => address_of(s) == Err::<
                SocketAddress,
                DaemonAddressErrorModel,
            >(
                DaemonAddressErrorModel::NotLocalHost(
                    socket_address::address_text(SocketAddress::V6(host)),
                ),
            ),
            None => address_of(s) == Err::<SocketAddress, DaemonAddressErrorModel>(
                DaemonAddressErrorModel::InvalidAddress(s),
            ),
        },
{
}

} // verus!
