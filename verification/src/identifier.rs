use vstd::prelude::*;

verus! {

use crate::bytes::{bytes_eq, copy_bytes};
use crate::errors::Error;
use vstd::string::StringSliceAdditionalSpecFns;

/// True for the bytes an identifier may contain: ASCII letters, digits,
/// underscore and hyphen.
pub open spec fn valid_identifier_byte(b: u8) -> bool {
    ||| 65 <= b <= 90
    ||| 97 <= b <= 122
    ||| 48 <= b <= 57
    ||| b == 95
    ||| b == 45
}

/// True for the byte strings that form a valid identifier: length 1 to 255,
/// every byte a letter, digit, underscore or hyphen.
pub open spec fn valid_identifier(s: Seq<u8>) -> bool {
    &&& 1 <= s.len() <= 255
    &&& forall|i: int| 0 <= i < s.len() ==> valid_identifier_byte(s[i])
}

/// A validated short name, used for vertex and edge types and for property
/// names. Identifiers are immutable; they are compared byte-exact. The only
/// constructor validates, so every identifier in existence satisfies
/// `valid_identifier`.
#[derive(Debug)]
pub struct Identifier {
    bytes: Vec<u8>,
}

impl Identifier {
    /// Every identifier in existence is valid: the constructor validates
    /// and the type is immutable.
    #[verifier::type_invariant]
    pub closed spec fn inv(self) -> bool {
        valid_identifier(self.bytes@)
    }
}

impl View for Identifier {
    type V = Seq<u8>;

    closed spec fn view(&self) -> Seq<u8> {
        self.bytes@
    }
}

impl Identifier {
    /// Validates `s` and wraps it. Returns `Error::InvalidValue` exactly when
    /// `s` is empty, longer than 255 bytes, or holds a byte outside
    /// `[A-Za-z0-9_-]`.
    pub fn new(s: &str) -> (r: Result<Identifier, Error>)
        ensures
            match r {
                Ok(id) => id@ == s.spec_bytes() && valid_identifier(s.spec_bytes()),
                Err(e) => e == Error::InvalidValue && !valid_identifier(s.spec_bytes()),
            },
    {
        let bytes = s.as_bytes();
        if bytes.len() < 1 || bytes.len() > 255 {
            return Err(Error::InvalidValue);
        }
        let mut i: usize = 0;
        while i < bytes.len()
            invariant
                0 <= i <= bytes@.len(),
                bytes@ == s.spec_bytes(),
                forall|j: int| 0 <= j < i ==> valid_identifier_byte(bytes@[j]),
            decreases bytes@.len() - i,
        {
            let b = bytes[i];
            let ok = (65 <= b && b <= 90) || (97 <= b && b <= 122)
                || (48 <= b && b <= 57) || b == 95 || b == 45;
            if !ok {
                return Err(Error::InvalidValue);
            }
            i = i + 1;
        }
        let mut out: Vec<u8> = Vec::new();
        let mut k: usize = 0;
        while k < bytes.len()
            invariant
                0 <= k <= bytes@.len(),
                bytes@ == s.spec_bytes(),
                out@ == bytes@.subrange(0, k as int),
            decreases bytes@.len() - k,
        {
            out.push(bytes[k]);
            k = k + 1;
        }
        assert(out@ =~= s.spec_bytes());
        Ok(Identifier { bytes: out })
    }

    /// The identifier's bytes.
    pub fn as_bytes(&self) -> (r: &Vec<u8>)
        ensures
            r@ == self@,
    {
        &self.bytes
    }

    /// The identifier's length in bytes.
    pub fn len(&self) -> (r: usize)
        ensures
            r == self@.len(),
    {
        self.bytes.len()
    }
}

impl Clone for Identifier {
    fn clone(&self) -> (r: Identifier)
        ensures
            r@ == self@,
    {
        proof {
            use_type_invariant(self);
        }
        Identifier { bytes: copy_bytes(&self.bytes) }
    }
}

impl PartialEq for Identifier {
    fn eq(&self, other: &Identifier) -> (r: bool) {
        bytes_eq(&self.bytes, &other.bytes)
    }
}

impl vstd::std_specs::cmp::PartialEqSpecImpl for Identifier {
    open spec fn obeys_eq_spec() -> bool {
        true
    }

    open spec fn eq_spec(&self, other: &Identifier) -> bool {
        self@ == other@
    }
}

impl Eq for Identifier {}

} // verus!
