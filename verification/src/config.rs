use vstd::prelude::*;
use crate::decimal::{all_digits, decimal, digits_value, lemma_decimal_round_trip, push_decimal};

verus! {

/// Where the server listens.
pub struct Configuration {
    pub bind_host: String,
    pub bind_port: u32,
}

impl Default for Configuration {
    /// Listen on every interface (`0.0.0.0`), port 9000.
    fn default() -> (c: Self)
        ensures
            c.bind_host@ == "0.0.0.0"@,
            c.bind_port == 9000,
    {
        Configuration { bind_host: "0.0.0.0".to_owned(), bind_port: 9000 }
    }
}

/// The `host:port` text that the listener binds to.
pub open spec fn bind_address_text(host: Seq<char>, port: nat) -> Seq<char> {
    host + seq![':'] + decimal(port)
}

impl Configuration {
    /// The address to bind, `"{bind_host}:{bind_port}"`.
    pub fn bind_address(&self) -> (addr: String)
        ensures
            addr@ == bind_address_text(self.bind_host@, self.bind_port as nat),
            addr@ == self.bind_host@ + seq![':'] + decimal(self.bind_port as nat),
    {
        let mut addr = self.bind_host.clone();
        addr.append(":");
        push_decimal(&mut addr, self.bind_port as u64);
        proof {
            reveal_strlit(":");
        }
        addr
    }
}

/// Every bind address is the host, a colon, then the port in decimal
/// digits: the text starts with the host, the character right after it is
/// `:`, and everything after the colon is digits that read back as the port.
pub proof fn lemma_bind_address_shape(host: Seq<char>, port: nat)
    ensures
        bind_address_text(host, port).len() > host.len() + 1,
        bind_address_text(host, port).subrange(0, host.len() as int) == host,
        bind_address_text(host, port)[host.len() as int] == ':',
        all_digits(bind_address_text(host, port).skip(host.len() + 1int)),
        digits_value(bind_address_text(host, port).skip(host.len() + 1int)) == port,
{
    let a = bind_address_text(host, port);
    lemma_decimal_round_trip(port);
    assert(a.subrange(0, host.len() as int) =~= host);
    assert(a.skip(host.len() + 1int) =~= decimal(port));
}

} // verus!
