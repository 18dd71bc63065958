use vstd::prelude::*;

use crate::error::Error;
use crate::hex::{hex_bytes, hex_decode, hex_encode, hex_lower, is_hex_text, lemma_hex_round_trip};
use crate::text::{bytes_equal, chars_of};

verus! {

/// One of the well-known networks.
#[derive(Clone, Copy, Debug, PartialEq, Eq, Structural)]
pub enum Network {
    Mainnet,
    Testnet,
    Previewnet,
}

impl Network {
    pub open spec fn spec_byte(self) -> u8 {
        match self {
            Network::Mainnet => 0,
            Network::Testnet => 1,
            Network::Previewnet => 2,
        }
    }

    pub open spec fn spec_name(self) -> Seq<char> {
        match self {
            Network::Mainnet => "mainnet"@,
            Network::Testnet => "testnet"@,
            Network::Previewnet => "previewnet"@,
        }
    }

    /// The name of the network, as it is written in text.
    pub fn as_str(&self) -> (r: &'static str)
        ensures
            r@ == self.spec_name(),
    {
        match self {
            Network::Mainnet => "mainnet",
            Network::Testnet => "testnet",
            Network::Previewnet => "previewnet",
        }
    }

    /// The bytes of the ledger id of the network: a single byte.
    pub fn as_bytes(&self) -> (r: Vec<u8>)
        ensures
            r@ == seq![self.spec_byte()],
    {
        let b: u8 = match self {
            Network::Mainnet => 0,
            Network::Testnet => 1,
            Network::Previewnet => 2,
        };
        let mut r: Vec<u8> = Vec::new();
        r.push(b);
        r
    }
}

/// The well-known network whose ledger id is these bytes, if any.
pub open spec fn known_network(b: Seq<u8>) -> Option<Network> {
    if b.len() != 1 {
        None
    } else if b[0] == 0 {
        Some(Network::Mainnet)
    } else if b[0] == 1 {
        Some(Network::Testnet)
    } else if b[0] == 2 {
        Some(Network::Previewnet)
    } else {
        None
    }
}

/// The text of a ledger id: the network's name when it is well known, else lower-case hex.
pub open spec fn ledger_text(b: Seq<u8>) -> Seq<char> {
    match known_network(b) {
        Some(n) => n.spec_name(),
        None => hex_lower(b),
    }
}

/// The ledger id that text names, if it names one.
pub open spec fn ledger_from_text(s: Seq<char>) -> Option<Seq<u8>> {
    if s == "mainnet"@ {
        Some(seq![0u8])
    } else if s == "testnet"@ {
        Some(seq![1u8])
    } else if s == "previewnet"@ {
        Some(seq![2u8])
    } else if is_hex_text(s) {
        Some(hex_bytes(s))
    } else {
        None
    }
}

/// The identity of a network instance: a sequence of bytes.
///
/// Two ledger ids are equal when their bytes are equal; a single byte 0, 1 or 2 is the
/// main, test or preview network.
#[derive(Clone, Debug)]
pub struct LedgerId {
    bytes: Vec<u8>,
}

impl View for LedgerId {
    type V = Seq<u8>;

    closed spec fn view(&self) -> Seq<u8> {
        self.bytes@
    }
}

impl PartialEq for LedgerId {
    fn eq(&self, other: &LedgerId) -> (r: bool) {
        bytes_equal(&self.bytes, &other.bytes)
    }
}

impl Eq for LedgerId {}

impl vstd::std_specs::cmp::PartialEqSpecImpl for LedgerId {
    open spec fn obeys_eq_spec() -> bool {
        true
    }

    open spec fn eq_spec(&self, other: &LedgerId) -> bool {
        self@ == other@
    }
}

fn str_equal(a: &str, b: &str) -> (r: bool)
    ensures
        r == (a@ == b@),
{
    let x = chars_of(a);
    let y = chars_of(b);
    if x.len() != y.len() {
        return false;
    }
    let mut i: usize = 0;
    while i < x.len()
        invariant
            x@ == a@,
            y@ == b@,
            x@.len() == y@.len(),
            i <= x@.len(),
            forall|j: int| 0 <= j < i ==> x@[j] == y@[j],
        decreases x@.len() - i,
    {
        if x[i] != y[i] {
            return false;
        }
        i = i + 1;
    }
    assert(x@ =~= y@);
    true
}

impl LedgerId {
    /// The ledger id of a well-known network.
    pub fn from_network(network: Network) -> (r: LedgerId)
        ensures
            r@ == seq![network.spec_byte()],
            known_network(r@) == Some(network),
    {
        LedgerId { bytes: network.as_bytes() }
    }

    /// The main network.
    pub fn mainnet() -> (r: LedgerId)
        ensures
            r@ == seq![0u8],
    {
        LedgerId { bytes: Network::Mainnet.as_bytes() }
    }

    /// The test network.
    pub fn testnet() -> (r: LedgerId)
        ensures
            r@ == seq![1u8],
    {
        LedgerId { bytes: Network::Testnet.as_bytes() }
    }

    /// The preview network.
    pub fn previewnet() -> (r: LedgerId)
        ensures
            r@ == seq![2u8],
    {
        LedgerId { bytes: Network::Previewnet.as_bytes() }
    }

    /// A ledger id made of the given bytes.
    pub fn from_bytes(bytes: Vec<u8>) -> (r: LedgerId)
        ensures
            r@ == bytes@,
    {
        LedgerId { bytes }
    }

    /// A ledger id made of a copy of the given bytes.
    pub fn from_static(bytes: &'static [u8]) -> (r: LedgerId)
        ensures
            r@ == bytes@,
    {
        LedgerId { bytes: vstd::slice::slice_to_vec(bytes) }
    }

    pub fn is_mainnet(&self) -> (r: bool)
        ensures
            r == (known_network(self@) == Some(Network::Mainnet)),
    {
        self.bytes.len() == 1 && self.bytes[0] == 0
    }

    pub fn is_testnet(&self) -> (r: bool)
        ensures
            r == (known_network(self@) == Some(Network::Testnet)),
    {
        self.bytes.len() == 1 && self.bytes[0] == 1
    }

    pub fn is_previewnet(&self) -> (r: bool)
        ensures
            r == (known_network(self@) == Some(Network::Previewnet)),
    {
        self.bytes.len() == 1 && self.bytes[0] == 2
    }

    /// Whether this is one of the three well-known networks.
    pub fn is_known_network(&self) -> (r: bool)
        ensures
            r == known_network(self@) is Some,
    {
        self.bytes.len() == 1 && self.bytes[0] <= 2
    }

    fn known(&self) -> (r: Option<Network>)
        ensures
            r == known_network(self@),
    {
        if self.bytes.len() != 1 {
            None
        } else if self.bytes[0] == 0 {
            Some(Network::Mainnet)
        } else if self.bytes[0] == 1 {
            Some(Network::Testnet)
        } else if self.bytes[0] == 2 {
            Some(Network::Previewnet)
        } else {
            None
        }
    }

    pub fn as_bytes(&self) -> (r: &[u8])
        ensures
            r@ == self@,
    {
        self.bytes.as_slice()
    }

    pub fn to_bytes(&self) -> (r: Vec<u8>)
        ensures
            r@ == self@,
    {
        self.bytes.clone()
    }

    /// The network's name, or the bytes in lower-case hex.
    pub fn to_string(&self) -> (r: String)
        ensures
            r@ == ledger_text(self@),
    {
        match self.known() {
            Some(n) => String::from_str(n.as_str()),
            None => hex_encode(self.bytes.as_slice()),
        }
    }

    /// Reads a network's name, or hex of either case.
    pub fn from_str(s: &str) -> (r: Result<LedgerId, Error>)
        ensures
            r is Ok <==> ledger_from_text(s@) is Some,
            r matches Ok(l) ==> l@ == ledger_from_text(s@)->0,
            r matches Err(e) ==> e == Error::BasicParse,
    {
        if str_equal(s, "mainnet") {
            Ok(LedgerId::mainnet())
        } else if str_equal(s, "testnet") {
            Ok(LedgerId::testnet())
        } else if str_equal(s, "previewnet") {
            Ok(LedgerId::previewnet())
        } else {
            match hex_decode(s) {
                Ok(bytes) => Ok(LedgerId::from_bytes(bytes)),
                Err(_) => Err(Error::BasicParse),
            }
        }
    }
}

/// Reading the text of a ledger id gives the same ledger id back.
pub proof fn lemma_ledger_text_round_trip(b: Seq<u8>)
    ensures
        ledger_from_text(ledger_text(b)) == Some(b),
{
    reveal_strlit("mainnet");
    reveal_strlit("testnet");
    reveal_strlit("previewnet");
    match known_network(b) {
        Some(n) => {
            assert(b =~= seq![n.spec_byte()]);
            assert("mainnet"@ != "testnet"@ && "mainnet"@ != "previewnet"@ && "testnet"@
                != "previewnet"@) by {
                assert("mainnet"@[0] != "testnet"@[0]);
                assert("previewnet"@.len() == 10);
            }
        },
        None => {
            let h = hex_lower(b);
            lemma_hex_round_trip(b);
            assert(h != "mainnet"@ && h != "testnet"@) by {
                assert("mainnet"@.len() == 7);
                assert("testnet"@.len() == 7);
            }
            if h == "previewnet"@ {
                assert(h[0] == 'p');
                assert(!crate::hex::is_hex_char(h[0]));
            }
        },
    }
}

} // verus!
