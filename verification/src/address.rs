//! Account addresses.

use crate::base58::{base58_decoded, base58_of};
use vstd::prelude::*;

verus! {

/// An account address: a borrowed view over one byte string of the owning
/// transaction's address pools. Equality is byte-wise, against other
/// addresses, byte vectors and fixed-size byte arrays alike.
#[derive(Debug, Clone, Copy)]
pub struct Address<'a>(pub &'a Vec<u8>);

impl<'a> Address<'a> {
    /// The address rendered as base58 text.
    pub fn to_string(&self) -> (r: String)
        ensures
            r@ == base58_of(self.0@),
            base58_decoded(r@) == Some(self.0@),
    {
        crate::base58::encode(self.0)
    }
}

/// A byte-wise equality test on two byte vectors.
pub(crate) fn bytes_eq(a: &Vec<u8>, b: &Vec<u8>) -> (r: bool)
    ensures
        r == (a@ == b@),
{
    if a.len() != b.len() {
        return false;
    }
    let n = a.len();
    let mut i: usize = 0;
    while i < n
        invariant
            n == a.len() == b.len(),
            0 <= i <= n,
            forall|j: int| 0 <= j < i ==> a@[j] == b@[j],
        decreases n - i,
    {
        if a[i] != b[i] {
            return false;
        }
        i = i + 1;
    }
    assert(a@ =~= b@);
    true
}

/// A byte-wise equality test between a byte vector and a fixed-size byte
/// array.
pub(crate) fn bytes_eq_array<const N: usize>(a: &Vec<u8>, b: &[u8; N]) -> (r: bool)
    ensures
        r == (a@ == b@),
{
    broadcast use vstd::array::array_len_matches_n;

    if a.len() != N {
        return false;
    }
    let mut i: usize = 0;
    while i < N
        invariant
            a@.len() == N,
            b@.len() == N,
            0 <= i <= N,
            forall|j: int| 0 <= j < i ==> a@[j] == b@[j],
        decreases N - i,
    {
        if a[i] != b[i] {
            return false;
        }
        i = i + 1;
    }
    assert(a@ =~= b@);
    true
}

impl<'a> PartialEq for Address<'a> {
    /// Two addresses are equal exactly when their bytes are.
    fn eq(&self, other: &Address<'a>) -> (r: bool) {
        bytes_eq(self.0, other.0)
    }
}

impl<'a> vstd::std_specs::cmp::PartialEqSpecImpl for Address<'a> {
    open spec fn obeys_eq_spec() -> bool {
        true
    }

    open spec fn eq_spec(&self, other: &Address<'a>) -> bool {
        self.0@ == other.0@
    }
}

impl<'a, 'b> PartialEq<&'b Address<'b>> for Address<'a> {
    fn eq(&self, other: &&Address<'b>) -> (r: bool) {
        bytes_eq(self.0, other.0)
    }
}

impl<'a, 'b> vstd::std_specs::cmp::PartialEqSpecImpl<&'b Address<'b>> for Address<'a> {
    open spec fn obeys_eq_spec() -> bool {
        true
    }

    open spec fn eq_spec(&self, other: &&Address<'b>) -> bool {
        self.0@ == other.0@
    }
}

impl<'a, 'b> PartialEq<Address<'b>> for &Address<'a> {
    fn eq(&self, other: &Address<'b>) -> (r: bool) {
        bytes_eq(self.0, other.0)
    }
}

impl<'a, 'b> vstd::std_specs::cmp::PartialEqSpecImpl<Address<'b>> for &Address<'a> {
    open spec fn obeys_eq_spec() -> bool {
        true
    }

    open spec fn eq_spec(&self, other: &Address<'b>) -> bool {
        self.0@ == other.0@
    }
}

impl<'a> PartialEq<Vec<u8>> for Address<'a> {
    /// An address equals a byte vector exactly when the bytes are equal.
    fn eq(&self, other: &Vec<u8>) -> (r: bool) {
        bytes_eq(self.0, other)
    }
}

impl<'a> vstd::std_specs::cmp::PartialEqSpecImpl<Vec<u8>> for Address<'a> {
    open spec fn obeys_eq_spec() -> bool {
        true
    }

    open spec fn eq_spec(&self, other: &Vec<u8>) -> bool {
        self.0@ == other@
    }
}

impl<'a, 'b> PartialEq<&'b Vec<u8>> for Address<'a> {
    fn eq(&self, other: &&Vec<u8>) -> (r: bool) {
        bytes_eq(self.0, other)
    }
}

impl<'a, 'b> vstd::std_specs::cmp::PartialEqSpecImpl<&'b Vec<u8>> for Address<'a> {
    open spec fn obeys_eq_spec() -> bool {
        true
    }

    open spec fn eq_spec(&self, other: &&Vec<u8>) -> bool {
        self.0@ == other@
    }
}

impl<'a> PartialEq<Vec<u8>> for &Address<'a> {
    fn eq(&self, other: &Vec<u8>) -> (r: bool) {
        bytes_eq(self.0, other)
    }
}

impl<'a> vstd::std_specs::cmp::PartialEqSpecImpl<Vec<u8>> for &Address<'a> {
    open spec fn obeys_eq_spec() -> bool {
        true
    }

    open spec fn eq_spec(&self, other: &Vec<u8>) -> bool {
        self.0@ == other@
    }
}

impl<'a> PartialEq<Address<'a>> for Vec<u8> {
    /// A byte vector equals an address exactly when the bytes are equal.
    fn eq(&self, other: &Address<'a>) -> (r: bool) {
        bytes_eq(self, other.0)
    }
}

impl<'a> vstd::std_specs::cmp::PartialEqSpecImpl<Address<'a>> for Vec<u8> {
    open spec fn obeys_eq_spec() -> bool {
        true
    }

    open spec fn eq_spec(&self, other: &Address<'a>) -> bool {
        self@ == other.0@
    }
}

impl<'b> PartialEq<&'b Address<'b>> for Vec<u8> {
    fn eq(&self, other: &&Address<'b>) -> (r: bool) {
        bytes_eq(self, other.0)
    }
}

impl<'b> vstd::std_specs::cmp::PartialEqSpecImpl<&'b Address<'b>> for Vec<u8> {
    open spec fn obeys_eq_spec() -> bool {
        true
    }

    open spec fn eq_spec(&self, other: &&Address<'b>) -> bool {
        self@ == other.0@
    }
}

impl<'a> PartialEq<Address<'a>> for &Vec<u8> {
    fn eq(&self, other: &Address<'a>) -> (r: bool) {
        bytes_eq(self, other.0)
    }
}

impl<'a> vstd::std_specs::cmp::PartialEqSpecImpl<Address<'a>> for &Vec<u8> {
    open spec fn obeys_eq_spec() -> bool {
        true
    }

    open spec fn eq_spec(&self, other: &Address<'a>) -> bool {
        self@ == other.0@
    }
}

impl<'a, const N: usize> PartialEq<[u8; N]> for Address<'a> {
    /// An address equals a byte array exactly when the bytes are equal.
    fn eq(&self, other: &[u8; N]) -> (r: bool) {
        bytes_eq_array(self.0, other)
    }
}

impl<'a, const N: usize> vstd::std_specs::cmp::PartialEqSpecImpl<[u8; N]> for Address<'a> {
    open spec fn obeys_eq_spec() -> bool {
        true
    }

    open spec fn eq_spec(&self, other: &[u8; N]) -> bool {
        self.0@ == other@
    }
}

impl<'a, 'b, const N: usize> PartialEq<&'b [u8; N]> for Address<'a> {
    fn eq(&self, other: &&[u8; N]) -> (r: bool) {
        bytes_eq_array(self.0, other)
    }
}

impl<'a, 'b, const N: usize> vstd::std_specs::cmp::PartialEqSpecImpl<&'b [u8; N]> for Address<'a> {
    open spec fn obeys_eq_spec() -> bool {
        true
    }

    open spec fn eq_spec(&self, other: &&[u8; N]) -> bool {
        self.0@ == other@
    }
}

impl<'a, const N: usize> PartialEq<[u8; N]> for &Address<'a> {
    fn eq(&self, other: &[u8; N]) -> (r: bool) {
        bytes_eq_array(self.0, other)
    }
}

impl<'a, const N: usize> vstd::std_specs::cmp::PartialEqSpecImpl<[u8; N]> for &Address<'a> {
    open spec fn obeys_eq_spec() -> bool {
        true
    }

    open spec fn eq_spec(&self, other: &[u8; N]) -> bool {
        self.0@ == other@
    }
}

impl<'a, const N: usize> PartialEq<Address<'a>> for [u8; N] {
    /// A byte array equals an address exactly when the bytes are equal.
    fn eq(&self, other: &Address<'a>) -> (r: bool) {
        bytes_eq_array(other.0, self)
    }
}

impl<'a, const N: usize> vstd::std_specs::cmp::PartialEqSpecImpl<Address<'a>> for [u8; N] {
    open spec fn obeys_eq_spec() -> bool {
        true
    }

    open spec fn eq_spec(&self, other: &Address<'a>) -> bool {
        self@ == other.0@
    }
}

impl<'b, const N: usize> PartialEq<&'b Address<'b>> for [u8; N] {
    fn eq(&self, other: &&Address<'b>) -> (r: bool) {
        bytes_eq_array(other.0, self)
    }
}

impl<'b, const N: usize> vstd::std_specs::cmp::PartialEqSpecImpl<&'b Address<'b>> for [u8; N] {
    open spec fn obeys_eq_spec() -> bool {
        true
    }

    open spec fn eq_spec(&self, other: &&Address<'b>) -> bool {
        self@ == other.0@
    }
}

impl<'a, const N: usize> PartialEq<Address<'a>> for &[u8; N] {
    fn eq(&self, other: &Address<'a>) -> (r: bool) {
        bytes_eq_array(other.0, self)
    }
}

impl<'a, const N: usize> vstd::std_specs::cmp::PartialEqSpecImpl<Address<'a>> for &[u8; N] {
    open spec fn obeys_eq_spec() -> bool {
        true
    }

    open spec fn eq_spec(&self, other: &Address<'a>) -> bool {
        self@ == other.0@
    }
}

} // verus!
