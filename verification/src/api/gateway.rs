//! Where the interface listens, who may use it, and how much a request may bring.

use vstd::prelude::*;

use super::auth::{accepted, TokenStore};
use super::error::ApiError;
use crate::text::{chars_of, has_prefix, part_of, stands_at, string_of};

verus! {

/// How much the interface takes on.
#[derive(Clone, Copy, Debug, PartialEq, Eq, Structural)]
pub struct GatewayLimits {
    pub max_body_bytes: usize,
    pub max_headers: usize,
    pub max_header_bytes: usize,
    pub max_connections: usize,
    pub startup_timeout_ms: u64,
    pub upstream_header_timeout_ms: u64,
}

impl Default for GatewayLimits {
    fn default() -> (result: Self)
        ensures
            result == (GatewayLimits {
                max_body_bytes: 8_388_608,
                max_headers: 64,
                max_header_bytes: 32_768,
                max_connections: 128,
                startup_timeout_ms: 30_000,
                upstream_header_timeout_ms: 30_000,
            }),
    {
        GatewayLimits {
            max_body_bytes: 8_388_608,
            max_headers: 64,
            max_header_bytes: 32_768,
            max_connections: 128,
            startup_timeout_ms: 30_000,
            upstream_header_timeout_ms: 30_000,
        }
    }
}

/// An address of the Internet protocol, as a number.
#[derive(Clone, Copy, Debug, PartialEq, Eq, Structural)]
pub enum HostAddress {
    V4(u32),
    V6(u128),
}

impl HostAddress {
    /// The address is this machine itself.
    pub open spec fn loopback(self) -> bool {
        match self {
            HostAddress::V4(number) => number / 0x100_0000 == 127,
            HostAddress::V6(number) => number == 1,
        }
    }
}

/// Whether an address is this machine itself.
pub fn is_loopback(address: HostAddress) -> (result: bool)
    ensures
        result == address.loopback(),
{
    match address {
        HostAddress::V4(number) => number / 0x100_0000 == 127,
        HostAddress::V6(number) => number == 1,
    }
}

/// Who may use the interface.
pub enum Authentication {
    Disabled,
    Tokens(TokenStore),
}

/// How the interface is set up.
pub struct GatewayConfig {
    pub bind: HostAddress,
    pub port: u16,
    pub authentication: Authentication,
    pub allow_insecure_lan: bool,
    pub limits: GatewayLimits,
}

/// Why an interface is not set up.
#[derive(Clone, Copy, Debug, PartialEq, Eq, Structural)]
pub enum GatewayConfigError {
    UnauthenticatedLan,
}

impl GatewayConfigError {
    pub fn to_string(&self) -> (result: String)
        ensures
            result@
                == "non-loopback API binding without authentication requires explicit allow_insecure_lan"@,
    {
        "non-loopback API binding without authentication requires explicit allow_insecure_lan".to_owned()
    }
}

impl GatewayConfig {
    /// Others can reach the interface, and nobody asks who they are.
    pub open spec fn exposed(self) -> bool {
        !self.bind.loopback() && self.authentication is Disabled
    }

    /// Refuses to expose the interface unless that is explicitly allowed; then there
    /// is a warning.
    pub fn validate(&self) -> (result: Result<Vec<&'static str>, GatewayConfigError>)
        ensures
            match result {
                Ok(warnings) => if self.exposed() {
                    self.allow_insecure_lan && warnings@.len() == 1 && warnings@[0]@
                        == "API is exposed to the LAN without authentication"@
                } else {
                    warnings@.len() == 0
                },
                Err(error) => self.exposed() && !self.allow_insecure_lan && error
                    == GatewayConfigError::UnauthenticatedLan,
            },
    {
        let open = match self.authentication {
            Authentication::Disabled => true,
            Authentication::Tokens(_) => false,
        };
        let exposed = !is_loopback(self.bind) && open;
        if exposed && !self.allow_insecure_lan {
            return Err(GatewayConfigError::UnauthenticatedLan);
        }
        let mut warnings: Vec<&'static str> = Vec::new();
        if exposed {
            warnings.push("API is exposed to the LAN without authentication");
        }
        Ok(warnings)
    }
}

/// The token in the value of an authorization header.
pub open spec fn bearer_of(value: Seq<char>) -> Option<Seq<char>> {
    if has_prefix(value, seq!['B', 'e', 'a', 'r', 'e', 'r', ' ']) {
        Some(value.skip(7))
    } else {
        None
    }
}

/// The token in the value of an authorization header.
pub fn bearer_token(value: &str) -> (result: Option<String>)
    ensures
        match result {
            Some(token) => bearer_of(value@) == Some(token@),
            None => bearer_of(value@) is None,
        },
{
    let text = chars_of(value);
    let scheme: [char; 7] = ['B', 'e', 'a', 'r', 'e', 'r', ' '];
    assert(scheme@ =~= seq!['B', 'e', 'a', 'r', 'e', 'r', ' ']);
    if !stands_at(&text, &scheme, 0) {
        return None;
    }
    let token = part_of(&text, 7, text.len());
    assert(token@ =~= value@.skip(7));
    Some(string_of(&token))
}

/// A request with this authorization header may pass.
pub open spec fn may_pass(authentication: Authentication, header: Option<&str>) -> bool {
    match authentication {
        Authentication::Disabled => true,
        Authentication::Tokens(store) => header is Some && bearer_of(header->0@) is Some && accepted(
            store@,
            bearer_of(header->0@)->0,
        ),
    }
}

/// Lets a request pass or refuses it. `header` is the text of its authorization
/// header.
pub fn authenticate(authentication: &Authentication, header: Option<&str>) -> (result: Result<(), ApiError>)
    ensures
        match result {
            Ok(_) => may_pass(*authentication, header),
            Err(error) => !may_pass(*authentication, header) && error.is(
                401,
                "unauthorized"@,
                "authentication failed"@,
                false,
            ),
        },
{
    let allowed = match authentication {
        Authentication::Disabled => true,
        Authentication::Tokens(store) => match header {
            Some(value) => match bearer_token(value) {
                Some(token) => store.verify(token.as_str()),
                None => false,
            },
            None => false,
        },
    };
    if allowed {
        Ok(())
    } else {
        Err(ApiError::unauthorized())
    }
}

/// A header of a request by its size.
#[derive(Clone, Copy, Debug, PartialEq, Eq, Structural)]
pub struct HeaderSize {
    pub name_bytes: usize,
    pub value_bytes: usize,
}

/// How many bytes some headers take.
pub open spec fn header_bytes(headers: Seq<HeaderSize>) -> nat
    decreases headers.len(),
{
    if headers.len() == 0 {
        0
    } else {
        header_bytes(headers.drop_last()) + headers.last().name_bytes as nat + headers.last().value_bytes as nat
    }
}

proof fn lemma_fewer_headers_are_smaller(headers: Seq<HeaderSize>, kept: int)
    requires
        0 <= kept <= headers.len(),
    ensures
        header_bytes(headers.take(kept)) <= header_bytes(headers),
    decreases headers.len() - kept,
{
    if kept < headers.len() {
        lemma_fewer_headers_are_smaller(headers, kept + 1);
        assert(headers.take(kept + 1).drop_last() =~= headers.take(kept));
    } else {
        assert(headers.take(kept) =~= headers);
    }
}

/// Refuses a request with too many headers, or too large ones.
pub fn limit_headers(headers: &Vec<HeaderSize>, limits: &GatewayLimits) -> (result: Result<(), ApiError>)
    ensures
        match result {
            Ok(_) => headers@.len() <= limits.max_headers && header_bytes(headers@) <= limits.max_header_bytes,
            Err(error) => (headers@.len() > limits.max_headers || header_bytes(headers@)
                > limits.max_header_bytes) && error.is(
                431,
                "too_many_headers"@,
                "too many request headers"@,
                false,
            ),
        },
{
    let refusal = ApiError::headers("too_many_headers", "too many request headers");
    if headers.len() > limits.max_headers {
        return Err(refusal);
    }
    let mut total: usize = 0;
    assert(headers@.take(0) =~= Seq::empty());
    for index in 0..headers.len()
        invariant
            total == header_bytes(headers@.take(index as int)),
            total <= limits.max_header_bytes,
            refusal.is(431, "too_many_headers"@, "too many request headers"@, false),
    {
        let header = headers[index];
        proof {
            let taken = headers@.take(index + 1);
            assert(taken.drop_last() =~= headers@.take(index as int));
            assert(taken.last() == header);
            lemma_fewer_headers_are_smaller(headers@, index + 1);
        }
        let room: usize = limits.max_header_bytes - total;
        if header.name_bytes > room || header.value_bytes > room - header.name_bytes {
            return Err(refusal);
        }
        total = total + header.name_bytes + header.value_bytes;
    }
    assert(headers@.take(headers@.len() as int) =~= headers@);
    Ok(())
}

} // verus!
