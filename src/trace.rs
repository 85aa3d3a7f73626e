//! The recursive light-transport kernel, over any ray and color types.

use vstd::prelude::*;

verus! {

/// What happens to a ray cast into the scene.
pub enum Interaction<Ry, C> {
    /// Nothing is hit: the ray sees the background color.
    Miss(C),
    /// A surface is hit and its material absorbs the ray.
    Absorbed,
    /// A surface is hit and its material scatters the ray with an attenuation.
    Scattered(C, Ry),
}

/// `c` is a color that tracing `ray` with `depth` bounces left can give:
/// black once no bounce is left; on a miss the background; on absorption
/// black; on scattering the attenuation times a color that tracing the
/// scattered ray with one bounce fewer can give.
pub open spec fn traces<Ry, C, F: Fn(&Ry) -> Interaction<Ry, C>, M: Fn(&C, &C) -> C>(
    interact: F,
    product: M,
    black: C,
    ray: Ry,
    depth: nat,
    c: C,
) -> bool
    decreases depth,
{
    if depth == 0 {
        c == black
    } else {
        exists|e: Interaction<Ry, C>|
            #[trigger] interact.ensures((&ray,), e) && match e {
                Interaction::Miss(bg) => c == bg,
                Interaction::Absorbed => c == black,
                Interaction::Scattered(att, s) => exists|inner: C|
                    traces(interact, product, black, s, (depth - 1) as nat, inner) && #[trigger] product.ensures(
                        (&att, &inner),
                        c,
                    ),
            }
    }
}

/// Traces `ray` through the scene that `interact` stands for, for at most
/// `depth` bounces, and returns the color it carries back.
///
/// `interact` intersects a ray with the scene and asks the material hit
/// whether it scatters; `product` is the component-wise product of two colors.
pub fn ray_color<Ry, C: Copy, F: Fn(&Ry) -> Interaction<Ry, C>, M: Fn(&C, &C) -> C>(
    ray: &Ry,
    depth: usize,
    black: C,
    interact: &F,
    product: &M,
) -> (r: C)
    requires
        forall|x: &Ry| #[trigger] interact.requires((x,)),
        forall|a: &C, b: &C| #[trigger] product.requires((a, b)),
    ensures
        traces(*interact, *product, black, *ray, depth as nat, r),
        depth == 0 ==> r == black,
    decreases depth,
{
    if depth == 0 {
        return black;
    }
    let e = interact(ray);
    match e {
        Interaction::Miss(bg) => bg,
        Interaction::Absorbed => black,
        Interaction::Scattered(att, scattered) => {
            let inner = ray_color(&scattered, depth - 1, black, interact, product);
            let c = product(&att, &inner);
            proof {
                assert(traces(*interact, *product, black, scattered, (depth - 1) as nat, inner));
            }
            c
        },
    }
}

/// A ray that misses the scene, traced with at least one bounce left, carries
/// back exactly the background color of the miss.
pub proof fn lemma_miss_gives_background<Ry, C, F: Fn(&Ry) -> Interaction<Ry, C>, M: Fn(&C, &C) -> C>(
    interact: F,
    product: M,
    black: C,
    ray: Ry,
    depth: nat,
    background: C,
    c: C,
)
    requires
        depth > 0,
        forall|e: Interaction<Ry, C>|
            #[trigger] interact.ensures((&ray,), e) ==> e == Interaction::<Ry, C>::Miss(background),
        traces(interact, product, black, ray, depth, c),
    ensures
        c == background,
{
}

/// With no bounce left, the only color a ray carries back is black.
pub proof fn lemma_no_depth_is_black<Ry, C, F: Fn(&Ry) -> Interaction<Ry, C>, M: Fn(&C, &C) -> C>(
    interact: F,
    product: M,
    black: C,
    ray: Ry,
    c: C,
)
    requires
        traces(interact, product, black, ray, 0, c),
    ensures
        c == black,
{
}

} // verus!
