//! What the contracts assume of the caller's closures.
//!
//! The functions of this crate take their arithmetic as closures. A contract
//! speaks of a closure through `call_ensures`, the relation between the
//! arguments of a call and the values it may return. Where a closure behaves
//! as a mathematical function, the predicates below say which one, and the
//! laws of the other modules then pin every result down.

use vstd::prelude::*;

verus! {

/// The closure `f` behaves as the function `g`: whatever it returns for an
/// argument is the value of `g` there.
pub open spec fn computes<A, B, F: Fn(A) -> B>(f: F, g: spec_fn(A) -> B) -> bool {
    forall|a: A, b: B| call_ensures(f, (a,), b) ==> b == g(a)
}

/// The closure `f` of two arguments behaves as the function `g`.
pub open spec fn computes2<A1, A2, B, F: Fn(A1, A2) -> B>(f: F, g: spec_fn(A1, A2) -> B) -> bool {
    forall|a1: A1, a2: A2, b: B| call_ensures(f, (a1, a2), b) ==> b == g(a1, a2)
}

/// The closure `f` of three arguments behaves as the function `g`.
pub open spec fn computes3<A1, A2, A3, B, F: Fn(A1, A2, A3) -> B>(
    f: F,
    g: spec_fn(A1, A2, A3) -> B,
) -> bool {
    forall|a1: A1, a2: A2, a3: A3, b: B| call_ensures(f, (a1, a2, a3), b) ==> b == g(a1, a2, a3)
}

} // verus!
