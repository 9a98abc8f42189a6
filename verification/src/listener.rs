//! What a listener is configured with.

use crate::whitelist::Whitelist;
use vstd::prelude::*;
use vstd::string::StringExecFns;

verus! {

/// An RSA private key of the `rsa` crate.
#[verifier::external_type_specification]
#[verifier::external_body]
pub struct ExRsaPrivateKey(rsa::RsaPrivateKey);

/// Whether logins are encrypted.
#[derive(Copy, Clone, PartialEq, Eq, Structural)]
pub enum OnlineStatus {
    Online,
    Offline,
}

/// Who attests a player that logs in.
#[derive(Copy, Clone, PartialEq, Eq, Structural)]
pub enum AuthenticationMethod {
    /// The session server attests the player.
    Mojang,
    /// Nobody does.
    NoAuthentication,
}

/// The configuration of one listener. It does not change while a
/// connection lives.
pub struct ProxyInfo {
    pub proxy_addr: String,
    pub proxy_port: u16,
    pub backend_addr: String,
    pub backend_port: u16,
    pub private_key: rsa::RsaPrivateKey,
    pub online_status: OnlineStatus,
    pub authentication_method: AuthenticationMethod,
    pub whitelist: Whitelist,
}

/// The character of a decimal digit.
pub open spec fn spec_digit(d: nat) -> char {
    if d == 0 {
        '0'
    } else if d == 1 {
        '1'
    } else if d == 2 {
        '2'
    } else if d == 3 {
        '3'
    } else if d == 4 {
        '4'
    } else if d == 5 {
        '5'
    } else if d == 6 {
        '6'
    } else if d == 7 {
        '7'
    } else if d == 8 {
        '8'
    } else {
        '9'
    }
}

/// The decimal digits of `n`, without leading zeros.
pub open spec fn spec_decimal(n: nat) -> Seq<char>
    decreases n,
{
    if n < 10 {
        seq![spec_digit(n)]
    } else {
        spec_decimal(n / 10).push(spec_digit(n % 10))
    }
}

/// An address and a port as one text, with a colon between them.
pub open spec fn spec_formatted_address(addr: Seq<char>, port: u16) -> Seq<char> {
    addr + seq![':'] + spec_decimal(port as nat)
}

fn digit_text(d: u16) -> (r: &'static str)
    requires
        d < 10,
    ensures
        r@ == seq![spec_digit(d as nat)],
{
    proof {
        reveal_strlit("0");
        reveal_strlit("1");
        reveal_strlit("2");
        reveal_strlit("3");
        reveal_strlit("4");
        reveal_strlit("5");
        reveal_strlit("6");
        reveal_strlit("7");
        reveal_strlit("8");
        reveal_strlit("9");
    }
    let r = if d == 0 {
        "0"
    } else if d == 1 {
        "1"
    } else if d == 2 {
        "2"
    } else if d == 3 {
        "3"
    } else if d == 4 {
        "4"
    } else if d == 5 {
        "5"
    } else if d == 6 {
        "6"
    } else if d == 7 {
        "7"
    } else if d == 8 {
        "8"
    } else {
        "9"
    };
    proof {
        assert(r@ =~= seq![spec_digit(d as nat)]);
    }
    r
}

/// Writes `n` in decimal.
pub fn decimal(n: u16) -> (r: String)
    ensures
        r@ == spec_decimal(n as nat),
    decreases n,
{
    if n < 10 {
        String::from_str(digit_text(n))
    } else {
        let mut r = decimal(n / 10);
        r.append(digit_text(n % 10));
        proof {
            assert(r@ =~= spec_decimal(n as nat));
        }
        r
    }
}

fn formatted_address(addr: &String, port: u16) -> (r: String)
    ensures
        r@ == spec_formatted_address(addr@, port),
{
    proof {
        reveal_strlit(":");
    }
    let mut r = addr.clone();
    r.append(":");
    r.append(decimal(port).as_str());
    proof {
        assert(":"@ =~= seq![':']);
        assert(r@ =~= spec_formatted_address(addr@, port));
    }
    r
}

impl ProxyInfo {
    /// The address that the proxy listens on.
    pub fn formatted_proxy_address(&self) -> (r: String)
        ensures
            r@ == spec_formatted_address(self.proxy_addr@, self.proxy_port),
    {
        formatted_address(&self.proxy_addr, self.proxy_port)
    }

    /// The address of the backend server.
    pub fn formatted_backend_address(&self) -> (r: String)
        ensures
            r@ == spec_formatted_address(self.backend_addr@, self.backend_port),
    {
        formatted_address(&self.backend_addr, self.backend_port)
    }
}

} // verus!
