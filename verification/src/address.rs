//! Hardware addresses and SecureON tokens: six raw bytes each, kept apart by
//! their types.

use vstd::prelude::*;

verus! {

/// A MAC address: six raw bytes.
#[derive(Debug, Clone, Copy, Eq)]
pub struct MacAddress([u8; 6]);

impl View for MacAddress {
    type V = Seq<u8>;

    closed spec fn view(&self) -> Seq<u8> {
        self.0@
    }
}

impl MacAddress {
    /// Create a MAC address from six bytes.
    #[must_use]
    pub fn new(address: [u8; 6]) -> (r: Self)
        ensures
            r@ == address@,
    {
        Self(address)
    }

    /// The six bytes of this address.
    #[must_use]
    pub fn octets(&self) -> (r: [u8; 6])
        ensures
            r@ == self@,
    {
        self.0
    }

    /// A MAC address always has six bytes.
    pub proof fn lemma_len(self)
        ensures
            self@.len() == 6,
    {
    }

    /// The address made from six bytes by `from` holds these bytes.
    pub proof fn lemma_from(value: [u8; 6])
        ensures
            <MacAddress as vstd::std_specs::convert::FromSpec<[u8; 6]>>::from_spec(value)@
                == value@,
    {
    }
}

/// Whether two arrays of six bytes hold the same bytes.
fn same_bytes(a: &[u8; 6], b: &[u8; 6]) -> (r: bool)
    ensures
        r == (a@ == b@),
{
    let mut i: usize = 0;
    while i < 6
        invariant
            i <= 6,
            forall|j: int| 0 <= j < i ==> a@[j] == b@[j],
        decreases 6 - i,
    {
        if a[i] != b[i] {
            return false;
        }
        i += 1;
    }
    assert(a@ =~= b@);
    true
}

impl PartialEq for MacAddress {
    /// Two addresses are equal where their bytes are.
    fn eq(&self, other: &Self) -> (r: bool) {
        same_bytes(&self.0, &other.0)
    }
}

impl vstd::std_specs::cmp::PartialEqSpecImpl for MacAddress {
    open spec fn obeys_eq_spec() -> bool {
        true
    }

    open spec fn eq_spec(&self, other: &Self) -> bool {
        self@ == other@
    }
}

impl From<[u8; 6]> for MacAddress {
    fn from(value: [u8; 6]) -> (r: Self) {
        Self(value)
    }
}

impl vstd::std_specs::convert::FromSpecImpl<[u8; 6]> for MacAddress {
    open spec fn obeys_from_spec() -> bool {
        true
    }

    closed spec fn from_spec(value: [u8; 6]) -> Self {
        MacAddress(value)
    }
}

/// A SecureON token: six raw bytes that a magic packet carries after the
/// hardware address, in plain text.
#[derive(Debug, Clone, Copy, Eq)]
pub struct SecureOn([u8; 6]);

impl View for SecureOn {
    type V = Seq<u8>;

    closed spec fn view(&self) -> Seq<u8> {
        self.0@
    }
}

impl SecureOn {
    /// Create a SecureON token from six bytes.
    #[must_use]
    pub fn new(address: [u8; 6]) -> (r: Self)
        ensures
            r@ == address@,
    {
        Self(address)
    }

    /// The six bytes of this token.
    #[must_use]
    pub fn octets(&self) -> (r: [u8; 6])
        ensures
            r@ == self@,
    {
        self.0
    }

    /// A SecureON token always has six bytes.
    pub proof fn lemma_len(self)
        ensures
            self@.len() == 6,
    {
    }

    /// The token made from six bytes by `from` holds these bytes.
    pub proof fn lemma_from(value: [u8; 6])
        ensures
            <SecureOn as vstd::std_specs::convert::FromSpec<[u8; 6]>>::from_spec(value)@
                == value@,
    {
    }
}

impl PartialEq for SecureOn {
    /// Two tokens are equal where their bytes are.
    fn eq(&self, other: &Self) -> (r: bool) {
        same_bytes(&self.0, &other.0)
    }
}

impl vstd::std_specs::cmp::PartialEqSpecImpl for SecureOn {
    open spec fn obeys_eq_spec() -> bool {
        true
    }

    open spec fn eq_spec(&self, other: &Self) -> bool {
        self@ == other@
    }
}

impl From<[u8; 6]> for SecureOn {
    fn from(value: [u8; 6]) -> (r: Self) {
        Self(value)
    }
}

impl vstd::std_specs::convert::FromSpecImpl<[u8; 6]> for SecureOn {
    open spec fn obeys_from_spec() -> bool {
        true
    }

    closed spec fn from_spec(value: [u8; 6]) -> Self {
        SecureOn(value)
    }
}

} // verus!
