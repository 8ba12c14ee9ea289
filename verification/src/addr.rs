use vstd::prelude::*;

use crate::error::ContractError;

verus! {

/// A character that may appear in a well-formed address: a lowercase ASCII
/// letter, a digit, `-` or `_`.
pub open spec fn is_addr_char(c: char) -> bool {
    ('a' <= c && c <= 'z') || ('0' <= c && c <= '9') || c == '-' || c == '_'
}

/// The address format this contract accepts: 3 to 64 characters, all drawn
/// from `is_addr_char`.  Malformed addresses are rejected wherever the
/// contract takes an address as text.
pub open spec fn is_valid_addr(s: Seq<char>) -> bool {
    3 <= s.len() <= 64 && forall|i: int| 0 <= i < s.len() ==> is_addr_char(#[trigger] s[i])
}

/// An address in use by the contract.  One is obtained either by checking a
/// string against the address format (`addr_validate`) or by wrapping a
/// string the host environment has already authenticated (`unchecked`).
#[derive(Debug)]
pub struct Addr {
    addr: String,
}

impl View for Addr {
    type V = Seq<char>;

    closed spec fn view(&self) -> Seq<char> {
        self.addr@
    }
}

impl DeepView for Addr {
    type V = Seq<char>;

    open spec fn deep_view(&self) -> Seq<char> {
        self@
    }
}

impl Clone for Addr {
    fn clone(&self) -> (r: Self)
        ensures
            r == *self,
    {
        Addr { addr: self.addr.clone() }
    }
}

impl PartialEq for Addr {
    fn eq(&self, other: &Self) -> (r: bool) {
        self.addr == other.addr
    }
}

impl vstd::std_specs::cmp::PartialEqSpecImpl for Addr {
    open spec fn obeys_eq_spec() -> bool {
        true
    }

    open spec fn eq_spec(&self, other: &Self) -> bool {
        self@ == other@
    }
}

impl Addr {
    /// Wraps an address string without checking it against the format, as the
    /// host does for caller identities it has already authenticated.
    pub fn unchecked(input: &str) -> (r: Addr)
        ensures
            r@ == input@,
    {
        Addr { addr: input.to_owned() }
    }

    pub fn as_str(&self) -> (r: &str)
        ensures
            r@ == self@,
    {
        self.addr.as_str()
    }

    pub fn into_string(self) -> (r: String)
        ensures
            r@ == self@,
    {
        self.addr
    }
}

/// Checks a string against the address format: returns the validated address
/// exactly when `is_valid_addr` holds of it, and `AddressValidation` otherwise.
pub fn addr_validate(input: &str) -> (r: Result<Addr, ContractError>)
    ensures
        r is Ok <==> is_valid_addr(input@),
        r matches Ok(a) ==> a@ == input@,
        r is Err ==> r == Err::<Addr, ContractError>(ContractError::AddressValidation {}),
{
    let len: usize = input.unicode_len();
    if len < 3 || len > 64 {
        return Err(ContractError::AddressValidation {});
    }
    let mut i: usize = 0;
    while i < len
        invariant
            i <= len,
            len == input@.len(),
            forall|j: int| 0 <= j < i ==> is_addr_char(#[trigger] input@[j]),
        decreases len - i,
    {
        let c: char = input.get_char(i);
        let ok: bool = ('a' <= c && c <= 'z') || ('0' <= c && c <= '9') || c == '-' || c == '_';
        if !ok {
            assert(!is_addr_char(input@[i as int]));
            return Err(ContractError::AddressValidation {});
        }
        i = i + 1;
    }
    Ok(Addr { addr: input.to_owned() })
}

} // verus!
