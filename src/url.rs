//! Errors reported while reading a URL.

use crate::allocator::AllocError;
use vstd::prelude::*;

verus! {

/// Why a URL could not be read.
#[derive(Debug, Clone, Copy, PartialEq, Eq, Structural)]
pub enum ParseError {
    EmptyHost,
    InvalidIpv4Address,
    InvalidIpv6Address,
    IdnaError,
    InvalidPort,
    InvalidDomainCharacter,
    AllocError(AllocError),
}

/// The message describing each error.
pub open spec fn parse_error_message(e: ParseError) -> Seq<char> {
    match e {
        ParseError::EmptyHost => "empty host"@,
        ParseError::InvalidIpv4Address => "invalid IPv4 address"@,
        ParseError::InvalidIpv6Address => "invalid IPv6 address"@,
        ParseError::IdnaError => "invalid international domain name"@,
        ParseError::InvalidPort => "invalid port number"@,
        ParseError::InvalidDomainCharacter => "invalid character in domain name"@,
        ParseError::AllocError(_) => "memory allocation failed"@,
    }
}

impl ParseError {
    /// The message describing the error.
    pub fn message(&self) -> (r: &'static str)
        ensures
            r@ == parse_error_message(*self),
    {
        match self {
            ParseError::EmptyHost => "empty host",
            ParseError::InvalidIpv4Address => "invalid IPv4 address",
            ParseError::InvalidIpv6Address => "invalid IPv6 address",
            ParseError::IdnaError => "invalid international domain name",
            ParseError::InvalidPort => "invalid port number",
            ParseError::InvalidDomainCharacter => "invalid character in domain name",
            ParseError::AllocError(_) => "memory allocation failed",
        }
    }
}

} // verus!
