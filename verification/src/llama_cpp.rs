use vstd::prelude::*;
use vstd::slice::slice_to_vec;

verus! {

/// The decimal digits of `n`, most significant first.
pub open spec fn dec_spec(n: nat) -> Seq<u8>
    decreases n,
{
    if n < 10 {
        seq![(0x30 + n) as u8]
    } else {
        dec_spec(n / 10).push((0x30 + n % 10) as u8)
    }
}

/// Append the decimal form of `n` to `out`.
fn push_dec(out: &mut Vec<u8>, n: u16)
    ensures
        final(out)@ == old(out)@ + dec_spec(n as nat),
    decreases n,
{
    let ghost base = out@;
    if n < 10 {
        out.push(0x30 + (n as u8));
        proof {
            assert(out@ =~= base + dec_spec(n as nat));
        }
    } else {
        push_dec(out, n / 10);
        out.push(0x30 + ((n % 10) as u8));
        proof {
            assert(out@ =~= base + dec_spec(n as nat));
        }
    }
}

/// The scheme bytes `http`.
pub open spec fn scheme_http() -> Seq<u8> {
    seq![0x68u8, 0x74u8, 0x74u8, 0x70u8]
}

/// The scheme bytes `https`.
pub open spec fn scheme_https() -> Seq<u8> {
    seq![0x68u8, 0x74u8, 0x74u8, 0x70u8, 0x73u8]
}

/// Connection settings for the inference service. The HTTP transport itself
/// lives outside the library; everything here is the plain data the library's
/// contracts can speak of.
pub struct LlamaCpp {
    pub https: bool,
    pub host: Vec<u8>,
    pub port: u16,
}

impl LlamaCpp {
    /// Settings for a service at the given host and port.
    pub fn new(host: Vec<u8>, port: u16, https: bool) -> (c: LlamaCpp)
        ensures
            c.host == host,
            c.port == port,
            c.https == https,
    {
        LlamaCpp { https, host, port }
    }

    /// The URL of the given endpoint on this service:
    /// `scheme://host:port/endpoint`.
    pub open spec fn url_spec(self, endpoint: Seq<u8>) -> Seq<u8> {
        (if self.https {
            scheme_https()
        } else {
            scheme_http()
        }) + seq![0x3au8, 0x2fu8, 0x2fu8] + self.host@ + seq![0x3au8] + dec_spec(self.port as nat)
            + seq![0x2fu8] + endpoint
    }

    /// Build the URL of the given endpoint on this service.
    pub fn create_url(&self, endpoint: &Vec<u8>) -> (v: Vec<u8>)
        ensures
            v@ == self.url_spec(endpoint@),
    {
        let mut v: Vec<u8> = Vec::new();
        v.push(0x68);
        v.push(0x74);
        v.push(0x74);
        v.push(0x70);
        if self.https {
            v.push(0x73);
        }
        v.push(0x3a);
        v.push(0x2f);
        v.push(0x2f);
        let mut host = slice_to_vec(self.host.as_slice());
        v.append(&mut host);
        v.push(0x3a);
        push_dec(&mut v, self.port);
        v.push(0x2f);
        let mut end = slice_to_vec(endpoint.as_slice());
        v.append(&mut end);
        proof {
            assert(v@ =~= self.url_spec(endpoint@));
        }
        v
    }
}

impl Default for LlamaCpp {
    /// A service on the local host at port 8080, without TLS.
    fn default() -> (c: LlamaCpp)
        ensures
            !c.https,
            c.host@ == seq![
                0x31u8,
                0x32u8,
                0x37u8,
                0x2eu8,
                0x30u8,
                0x2eu8,
                0x30u8,
                0x2eu8,
                0x31u8,
            ],
            c.port == 8080,
    {
        let mut host: Vec<u8> = Vec::new();
        host.push(0x31);
        host.push(0x32);
        host.push(0x37);
        host.push(0x2e);
        host.push(0x30);
        host.push(0x2e);
        host.push(0x30);
        host.push(0x2e);
        host.push(0x31);
        proof {
            assert(host@ =~= seq![
                0x31u8,
                0x32u8,
                0x37u8,
                0x2eu8,
                0x30u8,
                0x2eu8,
                0x30u8,
                0x2eu8,
                0x31u8,
            ]);
        }
        LlamaCpp { https: false, host, port: 8080 }
    }
}

} // verus!
