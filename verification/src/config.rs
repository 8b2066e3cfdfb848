//! The addresses the server is started with: where it listens, and where the
//! two stores are reached.

use vstd::prelude::*;

verus! {

/// The host the server binds to.
pub const BIND_HOST: &'static str = "0.0.0.0";

/// The bind port where the configuration names none.
pub const DEFAULT_PORT: u16 = 80;

/// The character of a decimal digit.
pub open spec fn digit(d: nat) -> char {
    if d == 0 {
        '0'
    } else if d == 1 {
        '1'
    } else if d == 2 {
        '2'
    } else if d == 3 {
        '3'
    } else if d == 4 {
        '4'
    } else if d == 5 {
        '5'
    } else if d == 6 {
        '6'
    } else if d == 7 {
        '7'
    } else if d == 8 {
        '8'
    } else {
        '9'
    }
}

/// The decimal numeral of `n`, without leading zeros.
pub open spec fn decimal(n: nat) -> Seq<char>
    decreases n,
{
    if n < 10 {
        seq![digit(n)]
    } else {
        decimal(n / 10).push(digit(n % 10))
    }
}

/// The port the server binds to.
pub open spec fn bind_port(configured: Option<u16>) -> u16 {
    match configured {
        Some(port) => port,
        None => DEFAULT_PORT,
    }
}

/// The address the server binds to: the bind host, a colon and the port.
pub open spec fn bind_address_of(configured: Option<u16>) -> Seq<char> {
    BIND_HOST@ + ":"@ + decimal(bind_port(configured) as nat)
}

/// The address of a store: `scheme://ip:port`.
pub open spec fn store_address_of(scheme: Seq<char>, ip: Seq<char>, port: u16) -> Seq<char> {
    scheme + "://"@ + ip + ":"@ + decimal(port as nat)
}

fn digit_text(d: u16) -> (text: &'static str)
    requires
        d < 10,
    ensures
        text@ == seq![digit(d as nat)],
{
    proof {
        reveal_strlit("0");
        reveal_strlit("1");
        reveal_strlit("2");
        reveal_strlit("3");
        reveal_strlit("4");
        reveal_strlit("5");
        reveal_strlit("6");
        reveal_strlit("7");
        reveal_strlit("8");
        reveal_strlit("9");
    }
    let text = if d == 0 {
        "0"
    } else if d == 1 {
        "1"
    } else if d == 2 {
        "2"
    } else if d == 3 {
        "3"
    } else if d == 4 {
        "4"
    } else if d == 5 {
        "5"
    } else if d == 6 {
        "6"
    } else if d == 7 {
        "7"
    } else if d == 8 {
        "8"
    } else {
        "9"
    };
    assert(text@ =~= seq![digit(d as nat)]);
    text
}

/// Appends the decimal numeral of `n` to `out`.
fn append_decimal(out: &mut String, n: u16)
    ensures
        final(out)@ == old(out)@ + decimal(n as nat),
    decreases n,
{
    if n >= 10 {
        append_decimal(out, n / 10);
    }
    out.append(digit_text(n % 10));
    assert(out@ =~= old(out)@ + decimal(n as nat));
}

/// The address to bind to, for the port the configuration names or for
/// `DEFAULT_PORT` where it names none.
pub fn bind_address(configured: Option<u16>) -> (address: String)
    ensures
        address@ == bind_address_of(configured),
{
    let port = match configured {
        Some(port) => port,
        None => DEFAULT_PORT,
    };
    let mut address = String::from_str(BIND_HOST);
    address.append(":");
    append_decimal(&mut address, port);
    address
}

/// The address of the store at `ip` and `port`, as a URL with `scheme`.
pub fn store_address(scheme: &str, ip: &str, port: u16) -> (address: String)
    ensures
        address@ == store_address_of(scheme@, ip@, port),
{
    let mut address = String::from_str(scheme);
    address.append("://");
    address.append(ip);
    address.append(":");
    append_decimal(&mut address, port);
    address
}

} // verus!
