//! Rebuilding a vector under an element-wise function.

use vstd::prelude::*;

verus! {

/// Map a whole vector through `f`, consuming it.
pub trait MapInPlace<FROM>: Sized + View<V = Seq<FROM>> {
    fn mip<TO, F: Fn(FROM) -> TO>(self, f: F) -> (r: Vec<TO>)
        requires
            forall|x: FROM| call_requires(f, (x,)),
        ensures
            r@.len() == self@.len(),
            forall|i: int| 0 <= i < r@.len() ==> call_ensures(f, (self@[i],), #[trigger] r@[i]),
    ;
}

impl<FROM> MapInPlace<FROM> for Vec<FROM> {
    fn mip<TO, F: Fn(FROM) -> TO>(self, f: F) -> (r: Vec<TO>) {
        let ghost v0 = self@;
        let n = self.len();
        let mut rest = self;
        let mut r: Vec<TO> = Vec::new();
        let mut i: usize = 0;
        while i < n
            invariant
                n == v0.len(),
                i <= n,
                rest@ == v0.skip(i as int),
                r@.len() == i,
                forall|x: FROM| call_requires(f, (x,)),
                forall|k: int| 0 <= k < i ==> call_ensures(f, (v0[k],), #[trigger] r@[k]),
            decreases n - i,
        {
            let x = rest.remove(0);
            proof {
                assert(x == v0[i as int]);
            }
            r.push(f(x));
            i = i + 1;
        }
        r
    }
}

} // verus!
