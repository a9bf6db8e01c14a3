//! Plain-value identifiers: contract symbols, account addresses and
//! fixed-size byte identifiers.
use vstd::prelude::*;

verus! {

/// A key whose identity is its view: two keys are the same exactly when their
/// views are equal.
pub trait Key: View + Sized {
    /// Compares two keys by their views.
    fn same(&self, other: &Self) -> (r: bool)
        ensures
            r == (self@ == other@),
    ;

    /// A copy of the key with the same view.
    fn duplicate(&self) -> (r: Self)
        ensures
            r@ == self@,
    ;
}

/// A short identifier, such as an agent id or a rating kind, by its text.
#[derive(Clone, Debug, PartialEq, Eq)]
pub struct Symbol {
    pub text: String,
}

impl View for Symbol {
    type V = Seq<char>;

    open spec fn view(&self) -> Seq<char> {
        self.text@
    }
}

impl Symbol {
    /// A symbol with the given text.
    pub fn new(text: &str) -> (r: Symbol)
        ensures
            r@ == text@,
    {
        Symbol { text: text.to_owned() }
    }
}

impl Key for Symbol {
    fn same(&self, other: &Self) -> (r: bool) {
        self.text == other.text
    }

    fn duplicate(&self) -> (r: Self) {
        Symbol { text: self.text.clone() }
    }
}

/// An account or contract address, by its textual (strkey) form.
#[derive(Clone, Debug, PartialEq, Eq)]
pub struct Address {
    pub strkey: String,
}

impl View for Address {
    type V = Seq<char>;

    open spec fn view(&self) -> Seq<char> {
        self.strkey@
    }
}

impl Address {
    /// An address with the given strkey text.
    pub fn new(strkey: &str) -> (r: Address)
        ensures
            r@ == strkey@,
    {
        Address { strkey: strkey.to_owned() }
    }
}

impl Key for Address {
    fn same(&self, other: &Self) -> (r: bool) {
        self.strkey == other.strkey
    }

    fn duplicate(&self) -> (r: Self) {
        Address { strkey: self.strkey.clone() }
    }
}

/// A 16-byte identifier (job ids, authorization ids, receipt ids).
#[derive(Clone, Copy, Debug, PartialEq, Eq)]
pub struct Bytes16 {
    pub bytes: [u8; 16],
}

impl View for Bytes16 {
    type V = Seq<u8>;

    open spec fn view(&self) -> Seq<u8> {
        self.bytes@
    }
}

impl Key for Bytes16 {
    fn same(&self, other: &Self) -> (r: bool) {
        let mut i: usize = 0;
        while i < 16
            invariant
                i <= 16,
                self.bytes@.len() == 16,
                other.bytes@.len() == 16,
                forall|j: int| 0 <= j < i ==> self.bytes@[j] == other.bytes@[j],
            decreases 16 - i,
        {
            if self.bytes[i] != other.bytes[i] {
                return false;
            }
            i = i + 1;
        }
        assert(self.bytes@ =~= other.bytes@);
        true
    }

    fn duplicate(&self) -> (r: Self) {
        *self
    }
}

/// A 32-byte value (intent hashes, digests).
#[derive(Clone, Copy, Debug, PartialEq, Eq)]
pub struct Bytes32 {
    pub bytes: [u8; 32],
}

impl View for Bytes32 {
    type V = Seq<u8>;

    open spec fn view(&self) -> Seq<u8> {
        self.bytes@
    }
}

impl<A: Key, B: Key> Key for (A, B) {
    fn same(&self, other: &Self) -> (r: bool) {
        self.0.same(&other.0) && self.1.same(&other.1)
    }

    fn duplicate(&self) -> (r: Self) {
        (self.0.duplicate(), self.1.duplicate())
    }
}

} // verus!
