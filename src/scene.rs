//! The scene: an ordered collection of objects, and the closest-hit search
//! across them.

use vstd::prelude::*;

verus! {

/// The objects of a scene, in insertion order.
pub struct World<O> {
    pub objects: Vec<O>,
}

impl<O> World<O> {
    pub open spec fn view(&self) -> Seq<O> {
        self.objects@
    }

    /// An empty scene.
    pub fn new() -> (r: Self)
        ensures
            r@ == Seq::<O>::empty(),
    {
        World { objects: Vec::new() }
    }

    /// Adds one object after the others.
    pub fn push(&mut self, object: O)
        ensures
            final(self)@ == old(self)@.push(object),
    {
        self.objects.push(object);
    }

    pub fn len(&self) -> (r: usize)
        ensures
            r == self@.len(),
    {
        self.objects.len()
    }

    /// Tests every object in order against a shrinking parametric bound and
    /// keeps the closest hit.
    ///
    /// `hit(object, bound)` tests one object and reports a hit with its
    /// parameter `t` and record, or none. The first object is tested with
    /// `t_max`; once an object reports a hit at `t`, every later object is
    /// tested with `t` as its bound, so an object behind the closest hit found
    /// so far is skipped, and a later report replaces an earlier one.
    ///
    /// The result is `None` exactly when every object, tested with `t_max`,
    /// reported none. Otherwise it is the last hit reported: one object
    /// reported it, and every object after that one, tested with its `t`,
    /// reported none.
    pub fn closest_hit<T: Copy, R, F: Fn(&O, T) -> Option<(T, R)>>(&self, t_max: T, hit: &F) -> (r:
        Option<(T, R)>)
        requires
            forall|i: int, b: T| 0 <= i < self@.len() ==> #[trigger] hit.requires((&self@[i], b)),
        ensures
            self@.len() == 0 ==> r is None,
            r is None ==> forall|i: int|
                0 <= i < self@.len() ==> #[trigger] hit.ensures((&self@[i], t_max), None),
            r matches Some(found) ==> exists|i: int, b: T|
                {
                    &&& 0 <= i < self@.len()
                    &&& #[trigger] hit.ensures((&self@[i], b), Some(found))
                    &&& forall|j: int|
                        i < j < self@.len() ==> #[trigger] hit.ensures((&self@[j], found.0), None)
                },
    {
        let mut closest: Option<(T, R)> = None;
        let mut bound: T = t_max;
        let n = self.objects.len();
        let mut k: usize = 0;
        while k < n
            invariant
                n == self@.len(),
                0 <= k <= n,
                forall|i: int, b: T| 0 <= i < self@.len() ==> #[trigger] hit.requires((&self@[i], b)),
                closest is None ==> bound == t_max && forall|i: int|
                    0 <= i < k ==> #[trigger] hit.ensures((&self@[i], t_max), None),
                closest matches Some(found) ==> found.0 == bound && exists|i: int, b: T|
                    {
                        &&& 0 <= i < k
                        &&& #[trigger] hit.ensures((&self@[i], b), Some(found))
                        &&& forall|j: int|
                            i < j < k ==> #[trigger] hit.ensures((&self@[j], found.0), None)
                    },
            decreases n - k,
        {
            let tested_with = bound;
            let outcome = hit(&self.objects[k], tested_with);
            match outcome {
                Some(found) => {
                    bound = found.0;
                    proof {
                        assert(hit.ensures((&self@[k as int], tested_with), Some(found)));
                    }
                    closest = Some(found);
                },
                None => {},
            }
            k += 1;
        }
        closest
    }
}

} // verus!
