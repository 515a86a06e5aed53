//! The keys of the store: account addresses and module names, modeled as
//! plain values. An address is a fixed-width byte string; a module name is
//! a restricted-alphabet identifier kept as its ASCII bytes.

use vstd::prelude::*;

verus! {

/// Number of bytes in an account address.
pub const ADDRESS_LEN: usize = 32;

/// An account address: names the account that owns a set of modules and
/// resources.
#[derive(Clone, Copy)]
pub struct Address {
    bytes: [u8; ADDRESS_LEN],
}

impl View for Address {
    type V = Seq<u8>;

    closed spec fn view(&self) -> Seq<u8> {
        self.bytes@
    }
}

impl Address {
    /// Builds the address with exactly the given bytes.
    pub fn new(bytes: [u8; ADDRESS_LEN]) -> (a: Address)
        ensures
            a@ == bytes@,
    {
        Address { bytes }
    }

    /// True exactly when the two addresses hold the same bytes.
    pub fn equals(&self, other: &Address) -> (r: bool)
        ensures
            r == (self@ == other@),
    {
        let mut i: usize = 0;
        while i < ADDRESS_LEN
            invariant
                i <= ADDRESS_LEN,
                forall|j: int| 0 <= j < i ==> self@[j] == other@[j],
            decreases ADDRESS_LEN - i,
        {
            if self.bytes[i] != other.bytes[i] {
                assert(self@[i as int] != other@[i as int]);
                return false;
            }
            i = i + 1;
        }
        assert(self@ =~= other@);
        true
    }
}

/// True exactly when the two vectors hold the same bytes.
pub(crate) fn bytes_equal(a: &Vec<u8>, b: &Vec<u8>) -> (r: bool)
    ensures
        r == (a@ == b@),
{
    if a.len() != b.len() {
        return false;
    }
    let mut i: usize = 0;
    while i < a.len()
        invariant
            i <= a.len(),
            a.len() == b.len(),
            forall|j: int| 0 <= j < i ==> a@[j] == b@[j],
        decreases a.len() - i,
    {
        if a[i] != b[i] {
            assert(a@[i as int] != b@[i as int]);
            return false;
        }
        i = i + 1;
    }
    assert(a@ =~= b@);
    true
}

/// True for the bytes allowed to start a name: an ASCII letter or an
/// underscore.
pub open spec fn is_name_head_byte(b: u8) -> bool {
    (65 <= b <= 90) || (97 <= b <= 122) || b == 95
}

/// True for the bytes allowed after the first: a name head byte or an
/// ASCII digit.
pub open spec fn is_name_byte(b: u8) -> bool {
    is_name_head_byte(b) || (48 <= b <= 57)
}

/// A well-formed name: non-empty, starting with a letter or underscore,
/// continuing with letters, digits or underscores.
pub open spec fn is_valid_name(s: Seq<u8>) -> bool {
    &&& s.len() > 0
    &&& is_name_head_byte(s[0])
    &&& forall|i: int| 0 < i < s.len() ==> is_name_byte(#[trigger] s[i])
}

/// A module key: a restricted-alphabet name, unique within an account,
/// kept as its ASCII bytes.
pub struct ModuleName {
    bytes: Vec<u8>,
}

impl View for ModuleName {
    type V = Seq<u8>;

    closed spec fn view(&self) -> Seq<u8> {
        self.bytes@
    }
}

impl ModuleName {
    /// Accepts exactly the well-formed names and keeps their bytes
    /// unchanged; rejects everything else.
    pub fn new(bytes: Vec<u8>) -> (r: Option<ModuleName>)
        ensures
            match r {
                Some(n) => is_valid_name(bytes@) && n@ == bytes@,
                None => !is_valid_name(bytes@),
            },
    {
        if bytes.len() == 0 {
            return None;
        }
        let b0 = bytes[0];
        if !(b0 == 95 || (65 <= b0 && b0 <= 90) || (97 <= b0 && b0 <= 122)) {
            return None;
        }
        let mut i: usize = 1;
        while i < bytes.len()
            invariant
                1 <= i <= bytes.len(),
                is_name_head_byte(bytes@[0]),
                forall|j: int| 0 < j < i ==> is_name_byte(#[trigger] bytes@[j]),
            decreases bytes.len() - i,
        {
            let b = bytes[i];
            if !(b == 95 || (65 <= b && b <= 90) || (97 <= b && b <= 122) || (48 <= b && b <= 57)) {
                assert(!is_name_byte(bytes@[i as int]));
                return None;
            }
            i = i + 1;
        }
        Some(ModuleName { bytes })
    }

    /// The name's bytes.
    pub fn as_bytes(&self) -> (r: &Vec<u8>)
        ensures
            r@ == self@,
    {
        &self.bytes
    }

    /// True exactly when the two names are the same.
    pub fn equals(&self, other: &ModuleName) -> (r: bool)
        ensures
            r == (self@ == other@),
    {
        bytes_equal(&self.bytes, &other.bytes)
    }
}

impl Clone for ModuleName {
    /// A clone holds the same name.
    fn clone(&self) -> (r: ModuleName)
        ensures
            r@ == self@,
    {
        let mut copy: Vec<u8> = Vec::new();
        let mut i: usize = 0;
        while i < self.bytes.len()
            invariant
                i <= self.bytes.len(),
                copy@ == self.bytes@.subrange(0, i as int),
            decreases self.bytes.len() - i,
        {
            copy.push(self.bytes[i]);
            assert(copy@ =~= self.bytes@.subrange(0, i + 1));
            i = i + 1;
        }
        assert(copy@ =~= self.bytes@);
        ModuleName { bytes: copy }
    }
}

/// Identifies a module globally: the owning account address plus the
/// module name.
pub struct ModuleId {
    pub address: Address,
    pub name: ModuleName,
}

} // verus!
