//! Mathematical models of executable values.
//!
//! Contracts in this crate never speak of machine representations. Each
//! executable type has a model: the value it denotes, built from naturals,
//! sequences and maps.

use candid::{Nat, Principal};
use vstd::prelude::*;

use crate::error::Error;
use crate::natural::{nat_eq, val};
use crate::principal::principal_eq;

verus! {

/// A type whose values stand for mathematical values.
pub trait Model: Sized {
    type M;

    /// The value that `self` stands for.
    spec fn model(&self) -> Self::M;

    /// A second value that stands for the same thing.
    fn duplicate(&self) -> (r: Self)
        ensures
            r.model() == self.model(),
    ;
}

/// A type usable as the key of an [`AssocMap`](crate::assoc::AssocMap): two
/// keys can be told apart exactly when their models differ.
pub trait Key: Model {
    fn same(&self, other: &Self) -> (r: bool)
        ensures
            r == (self.model() == other.model()),
    ;
}

impl Model for Nat {
    type M = nat;

    open spec fn model(&self) -> nat {
        val(self)
    }

    fn duplicate(&self) -> (r: Self) {
        self.clone()
    }
}

impl Key for Nat {
    fn same(&self, other: &Self) -> (r: bool) {
        nat_eq(self, other)
    }
}

impl Model for Principal {
    type M = Principal;

    open spec fn model(&self) -> Principal {
        *self
    }

    fn duplicate(&self) -> (r: Self) {
        *self
    }
}

impl Key for Principal {
    fn same(&self, other: &Self) -> (r: bool) {
        principal_eq(self, other)
    }
}

impl Model for u8 {
    type M = nat;

    open spec fn model(&self) -> nat {
        *self as nat
    }

    fn duplicate(&self) -> (r: Self) {
        *self
    }
}

impl Model for u64 {
    type M = nat;

    open spec fn model(&self) -> nat {
        *self as nat
    }

    fn duplicate(&self) -> (r: Self) {
        *self
    }
}

impl Model for Error {
    type M = Error;

    open spec fn model(&self) -> Error {
        *self
    }

    fn duplicate(&self) -> (r: Self) {
        *self
    }
}

impl<T: Model, E: Model> Model for Result<T, E> {
    type M = Result<T::M, E::M>;

    open spec fn model(&self) -> Result<T::M, E::M> {
        match self {
            Ok(t) => Ok(t.model()),
            Err(e) => Err(e.model()),
        }
    }

    fn duplicate(&self) -> (r: Self) {
        match self {
            Ok(t) => Ok(t.duplicate()),
            Err(e) => Err(e.duplicate()),
        }
    }
}

impl<A: Model, B: Model> Model for (A, B) {
    type M = (A::M, B::M);

    open spec fn model(&self) -> (A::M, B::M) {
        (self.0.model(), self.1.model())
    }

    fn duplicate(&self) -> (r: Self) {
        (self.0.duplicate(), self.1.duplicate())
    }
}

impl Model for bool {
    type M = bool;

    open spec fn model(&self) -> bool {
        *self
    }

    fn duplicate(&self) -> (r: Self) {
        *self
    }
}

impl Model for String {
    type M = Seq<char>;

    open spec fn model(&self) -> Seq<char> {
        self@
    }

    fn duplicate(&self) -> (r: Self) {
        self.clone()
    }
}

impl<T: Model> Model for Option<T> {
    type M = Option<T::M>;

    open spec fn model(&self) -> Option<T::M> {
        match self {
            Some(t) => Some(t.model()),
            None => None,
        }
    }

    fn duplicate(&self) -> (r: Self) {
        match self {
            Some(t) => Some(t.duplicate()),
            None => None,
        }
    }
}

impl<T: Model> Model for Vec<T> {
    type M = Seq<T::M>;

    open spec fn model(&self) -> Seq<T::M> {
        Seq::new(self@.len(), |i: int| self@[i].model())
    }

    fn duplicate(&self) -> (r: Self) {
        let mut out: Vec<T> = Vec::new();
        let mut i: usize = 0;
        while i < self.len()
            invariant
                i <= self@.len(),
                out@.len() == i,
                forall|j: int| 0 <= j < i ==> out@[j].model() == self@[j].model(),
            decreases self@.len() - i,
        {
            out.push(self[i].duplicate());
            i += 1;
        }
        assert(out.model() =~= self.model());
        out
    }
}

} // verus!
