//! The address a listening socket binds to.
use vstd::prelude::*;

use crate::text::{all_decimal_digits, decimal, digits_value, lemma_decimal_reads_back, push_decimal};

verus! {

/// `host:port`, with the port written in decimal.
pub open spec fn spec_bind_address(host: Seq<char>, port: u16) -> Seq<char> {
    host + seq![':'] + decimal(port as nat)
}

/// The bind address is the host, a colon, and then the port written in
/// decimal: the text after the colon is made of digits only, carries no
/// leading zero except for port zero, and reads back as the port.
pub proof fn lemma_bind_address_reads_back(host: Seq<char>, port: u16)
    ensures
        ({
            let a = spec_bind_address(host, port);
            let digits = a.subrange(host.len() as int + 1, a.len() as int);
            &&& a.subrange(0, host.len() as int) == host
            &&& a[host.len() as int] == ':'
            &&& digits_value(digits) == port
            &&& all_decimal_digits(digits)
            &&& digits.len() >= 1
            &&& (digits[0] == '0' ==> port == 0)
        }),
{
    lemma_decimal_reads_back(port as nat);
    let a = spec_bind_address(host, port);
    assert(a.subrange(host.len() as int + 1, a.len() as int) =~= decimal(port as nat));
    assert(a.subrange(0, host.len() as int) =~= host);
}

/// The socket address for `bind_host` and `bind_port`, as `host:port`.
pub fn bind_address(bind_host: &str, bind_port: u16) -> (addr: String)
    ensures
        addr@ == spec_bind_address(bind_host@, bind_port),
{
    let mut addr = String::from_str(bind_host);
    addr.append(":");
    proof {
        reveal_strlit(":");
    }
    push_decimal(&mut addr, bind_port as u64);
    addr
}

} // verus!
