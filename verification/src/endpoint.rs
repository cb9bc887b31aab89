//! Candidate endpoints and their deduplication keys.
//!
//! A candidate is an (address, port, protocol labels) triple produced by
//! the extractor. Its deduplication key is the text `address:port`; the
//! registry stores at most one entry per key.

use vstd::prelude::*;
use vstd::string::StringExecFns;

verus! {

/// Mathematical image of a candidate endpoint.
pub ghost struct EndpointModel {
    pub address: Seq<char>,
    pub port: u16,
    pub protocols: Seq<Seq<char>>,
}

/// One extracted endpoint: where to connect and which protocols the
/// source claims it speaks. Never mutated after construction.
#[derive(Debug, PartialEq, Eq)]
pub struct CandidateEndpoint {
    pub address: String,
    pub port: u16,
    pub protocols: Vec<String>,
}

impl View for CandidateEndpoint {
    type V = EndpointModel;

    open spec fn view(&self) -> EndpointModel {
        EndpointModel {
            address: self.address@,
            port: self.port,
            protocols: self.protocols.deep_view(),
        }
    }
}

impl DeepView for CandidateEndpoint {
    type V = EndpointModel;

    open spec fn deep_view(&self) -> EndpointModel {
        self.view()
    }
}

/// Character for one decimal digit value; `'0'` elsewhere.
pub open spec fn dec_digit_char(d: nat) -> char {
    if d == 1 {
        '1'
    } else if d == 2 {
        '2'
    } else if d == 3 {
        '3'
    } else if d == 4 {
        '4'
    } else if d == 5 {
        '5'
    } else if d == 6 {
        '6'
    } else if d == 7 {
        '7'
    } else if d == 8 {
        '8'
    } else if d == 9 {
        '9'
    } else {
        '0'
    }
}

/// Decimal rendering of a natural number, most significant digit first,
/// no leading zeros except for the number zero itself.
pub open spec fn dec_str(n: nat) -> Seq<char>
    decreases n,
{
    if n < 10 {
        seq![dec_digit_char(n)]
    } else {
        dec_str(n / 10) + seq![dec_digit_char(n % 10)]
    }
}

/// The deduplication key of an endpoint: `address`, a colon, and the
/// port in decimal.
pub open spec fn spec_key(address: Seq<char>, port: u16) -> Seq<char> {
    address + seq![':'] + dec_str(port as nat)
}

impl EndpointModel {
    /// Key of this endpoint's (address, port) pair.
    pub open spec fn key(self) -> Seq<char> {
        spec_key(self.address, self.port)
    }
}

fn digit_str(d: u16) -> (r: &'static str)
    requires
        d < 10,
    ensures
        r@ == seq![dec_digit_char(d as nat)],
{
    let r = match d {
        0 => "0",
        1 => "1",
        2 => "2",
        3 => "3",
        4 => "4",
        5 => "5",
        6 => "6",
        7 => "7",
        8 => "8",
        _ => "9",
    };
    proof {
        reveal_strlit("0");
        reveal_strlit("1");
        reveal_strlit("2");
        reveal_strlit("3");
        reveal_strlit("4");
        reveal_strlit("5");
        reveal_strlit("6");
        reveal_strlit("7");
        reveal_strlit("8");
        reveal_strlit("9");
        assert(r@ =~= seq![dec_digit_char(d as nat)]);
    }
    r
}

fn push_dec(s: &mut String, n: u16)
    ensures
        final(s)@ == old(s)@ + dec_str(n as nat),
    decreases n,
{
    if n >= 10 {
        push_dec(s, n / 10);
    }
    let d = digit_str(n % 10);
    s.append(d);
    proof {
        if n < 10 {
            assert(final(s)@ =~= old(s)@ + dec_str(n as nat));
        } else {
            assert(final(s)@ =~= old(s)@ + dec_str(n as nat));
        }
    }
}

/// Copy a protocol-label list, label by label.
pub(crate) fn clone_strings(v: &Vec<String>) -> (r: Vec<String>)
    ensures
        r.deep_view() == v.deep_view(),
{
    let mut r: Vec<String> = Vec::new();
    let mut i: usize = 0;
    while i < v.len()
        invariant
            i <= v.len(),
            r@.len() == i as nat,
            forall|k: int| 0 <= k < i ==> r@[k]@ == v@[k]@,
        decreases v.len() - i,
    {
        let s = v[i].clone();
        assert(s@ == v@[i as int]@);
        r.push(s);
        i += 1;
    }
    proof {
        assert forall|k: int| 0 <= k < v@.len() implies r.deep_view()[k] == v.deep_view()[k] by {
            assert(r@[k]@ == v@[k]@);
        }
        assert(r.deep_view() =~= v.deep_view());
    }
    r
}

/// Copy a candidate endpoint field by field.
pub(crate) fn clone_candidate(c: &CandidateEndpoint) -> (r: CandidateEndpoint)
    ensures
        r@ == c@,
{
    CandidateEndpoint {
        address: c.address.clone(),
        port: c.port,
        protocols: clone_strings(&c.protocols),
    }
}

/// Build the deduplication key `address:port` of an endpoint.
pub fn make_key(address: &str, port: u16) -> (r: String)
    ensures
        r@ == spec_key(address@, port),
{
    let mut s = String::from_str(address);
    s.append(":");
    proof {
        reveal_strlit(":");
        assert(s@ =~= address@ + seq![':']);
    }
    push_dec(&mut s, port);
    proof {
        assert(s@ =~= spec_key(address@, port));
    }
    s
}

} // verus!
