//! Copying values and testing them for equality, by what they hold.

use vstd::prelude::*;
use crate::strmap::StrMap;
use crate::text::eq;

verus! {

/// Both are the same.
pub open spec fn agree<T>(a: T, b: T) -> bool {
    a == b
}

/// The smaller of two numbers.
pub open spec fn least(a: nat, b: nat) -> nat {
    if a <= b {
        a
    } else {
        b
    }
}

/// A value that can be copied.
pub trait Duplicate: DeepView + Sized {
    /// A copy, which holds the same.
    fn copy(&self) -> (r: Self)
        ensures
            r.deep_view() == self.deep_view(),
    ;
}

/// A value that can be tested for equality with another.
pub trait Same: DeepView + Sized {
    /// Whether both hold the same.
    fn same(&self, other: &Self) -> (r: bool)
        ensures
            r == (self.deep_view() == other.deep_view()),
    ;
}

impl Duplicate for bool {
    fn copy(&self) -> (r: Self) {
        *self
    }
}

impl Same for bool {
    fn same(&self, other: &Self) -> (r: bool) {
        *self == *other
    }
}

impl Duplicate for u8 {
    fn copy(&self) -> (r: Self) {
        *self
    }
}

impl Same for u8 {
    fn same(&self, other: &Self) -> (r: bool) {
        *self == *other
    }
}

impl Duplicate for u32 {
    fn copy(&self) -> (r: Self) {
        *self
    }
}

impl Same for u32 {
    fn same(&self, other: &Self) -> (r: bool) {
        *self == *other
    }
}

impl Duplicate for u64 {
    fn copy(&self) -> (r: Self) {
        *self
    }
}

impl Same for u64 {
    fn same(&self, other: &Self) -> (r: bool) {
        *self == *other
    }
}

impl Duplicate for usize {
    fn copy(&self) -> (r: Self) {
        *self
    }
}

impl Same for usize {
    fn same(&self, other: &Self) -> (r: bool) {
        *self == *other
    }
}

impl Duplicate for i16 {
    fn copy(&self) -> (r: Self) {
        *self
    }
}

impl Same for i16 {
    fn same(&self, other: &Self) -> (r: bool) {
        *self == *other
    }
}

impl Duplicate for i32 {
    fn copy(&self) -> (r: Self) {
        *self
    }
}

impl Same for i32 {
    fn same(&self, other: &Self) -> (r: bool) {
        *self == *other
    }
}

impl Duplicate for i64 {
    fn copy(&self) -> (r: Self) {
        *self
    }
}

impl Same for i64 {
    fn same(&self, other: &Self) -> (r: bool) {
        *self == *other
    }
}

impl Duplicate for String {
    fn copy(&self) -> (r: Self) {
        self.clone()
    }
}

impl Same for String {
    fn same(&self, other: &Self) -> (r: bool) {
        eq(self.as_str(), other.as_str())
    }
}

impl<T: Duplicate> Duplicate for Option<T> {
    fn copy(&self) -> (r: Self) {
        match self {
            Some(v) => Some(v.copy()),
            None => None,
        }
    }
}

impl<T: Same> Same for Option<T> {
    fn same(&self, other: &Self) -> (r: bool) {
        match (self, other) {
            (Some(a), Some(b)) => a.same(b),
            (None, None) => true,
            _ => false,
        }
    }
}

impl<T: Duplicate> Duplicate for Vec<T> {
    fn copy(&self) -> (r: Self) {
        let mut out: Vec<T> = Vec::new();
        let mut i: usize = 0;
        while i < self.len()
            invariant
                i <= self@.len(),
                out@.len() == i,
                forall|k: int|
                    0 <= k < i ==> (#[trigger] out@[k]).deep_view() == self@[k].deep_view(),
            decreases self@.len() - i,
        {
            out.push(self[i].copy());
            i += 1;
        }
        assert(out.deep_view() =~= self.deep_view());
        out
    }
}

impl<T: Same> Same for Vec<T> {
    fn same(&self, other: &Self) -> (r: bool) {
        if self.len() != other.len() {
            assert(self.deep_view().len() != other.deep_view().len());
            return false;
        }
        let mut i: usize = 0;
        while i < self.len()
            invariant
                i <= self@.len(),
                self@.len() == other@.len(),
                forall|k: int|
                    0 <= k < i ==> (#[trigger] self@[k]).deep_view() == other@[k].deep_view(),
            decreases self@.len() - i,
        {
            if !self[i].same(&other[i]) {
                assert(self.deep_view()[i as int] != other.deep_view()[i as int]);
                return false;
            }
            i += 1;
        }
        assert(self.deep_view() =~= other.deep_view());
        true
    }
}

impl<A: Duplicate, B: Duplicate> Duplicate for (A, B) {
    fn copy(&self) -> (r: Self) {
        (self.0.copy(), self.1.copy())
    }
}

impl<A: Same, B: Same> Same for (A, B) {
    fn same(&self, other: &Self) -> (r: bool) {
        self.0.same(&other.0) && self.1.same(&other.1)
    }
}

impl<V: Duplicate> Duplicate for StrMap<V> {
    fn copy(&self) -> (r: Self) {
        StrMap { entries: self.entries.copy() }
    }
}

impl<V: Same> Same for StrMap<V> {
    fn same(&self, other: &Self) -> (r: bool) {
        self.entries.same(&other.entries)
    }
}

/// A string that holds the characters of `s`.
pub fn owned(s: &str) -> (r: String)
    ensures
        r@ == s@,
{
    s.to_owned()
}

} // verus!
