use vstd::prelude::*;

verus! {

/// What becomes of a ray that is cast into a scene.
///
/// `R` is the type of rays and `C` the type of colours; the integrator moves
/// values of both and never looks inside them.
pub enum Encounter<R, C> {
    /// The ray meets nothing and sees the background.
    Escaped { background: C },
    /// The ray meets a surface that swallows it.
    Absorbed { emitted: C },
    /// The ray meets a surface that sends it on as `ray`, keeping the
    /// fraction `attenuation` of what comes back along it.
    Scattered { emitted: C, attenuation: C, ray: R },
}

/// Whether `colour` is a colour that a ray may be given with `depth` bounces
/// left, where `meets` says what a ray may meet and `blends` what an
/// attenuation, an incoming colour and an emitted colour may combine to.
///
/// With no bounce left the colour is `black`. Otherwise the ray is cast
/// once: a ray that escapes gets the background, one that is absorbed gets
/// what the surface emits, and one that is scattered gets a blend of the
/// surface's attenuation, a colour of the onward ray with one bounce less,
/// and what the surface emits.
pub open spec fn radiance_of<R, C>(
    meets: spec_fn(R, Encounter<R, C>) -> bool,
    blends: spec_fn(C, C, C, C) -> bool,
    black: C,
    ray: R,
    depth: nat,
    colour: C,
) -> bool
    decreases depth,
{
    if depth == 0 {
        colour == black
    } else {
        exists|met: Encounter<R, C>| #[trigger]
            meets(ray, met) && match met {
                Encounter::Escaped { background } => colour == background,
                Encounter::Absorbed { emitted } => colour == emitted,
                Encounter::Scattered { emitted, attenuation, ray: onward } => exists|incoming: C|
                    radiance_of(meets, blends, black, onward, (depth - 1) as nat, incoming)
                        && #[trigger] blends(attenuation, incoming, emitted, colour),
            }
    }
}

/// What `encounter` may make of a ray, as a relation.
pub open spec fn meets<R, C, F: Fn(R) -> Encounter<R, C>>(encounter: F) -> spec_fn(
    R,
    Encounter<R, C>,
) -> bool {
    |ray: R, met: Encounter<R, C>| call_ensures(encounter, (ray,), met)
}

/// What `blend` may make of an attenuation, an incoming colour and an
/// emitted colour, as a relation.
pub open spec fn blends<C, G: Fn(C, C, C) -> C>(blend: G) -> spec_fn(C, C, C, C) -> bool {
    |attenuation: C, incoming: C, emitted: C, colour: C|
        call_ensures(blend, (attenuation, incoming, emitted), colour)
}

/// Whether `colour` is a colour that `ray` may bring back when it is
/// followed for at most `depth` bounces, each cast by `encounter`, and the
/// colours along the path are combined by `blend`.
pub open spec fn radiance<R, C, F: Fn(R) -> Encounter<R, C>, G: Fn(C, C, C) -> C>(
    encounter: F,
    blend: G,
    black: C,
    ray: R,
    depth: nat,
    colour: C,
) -> bool {
    radiance_of(meets(encounter), blends(blend), black, ray, depth, colour)
}

/// Whether `seen` is what the first bounce of a ray may show with `depth`
/// bounces left: its colour, the albedo of what it met, and the normal
/// there.
///
/// With none left all three are blank. Otherwise the ray is cast once by
/// `first`, which also gives the normal. The colour is as in [`radiance`];
/// the albedo is the background for a ray that escapes, what the surface
/// emits for one that is absorbed, and the attenuation for one that is
/// scattered.
pub open spec fn first_bounce<
    R,
    C,
    N,
    H: Fn(R) -> (Encounter<R, C>, N),
    F: Fn(R) -> Encounter<R, C>,
    G: Fn(C, C, C) -> C,
>(
    first: H,
    encounter: F,
    blend: G,
    black: C,
    flat: N,
    ray: R,
    depth: nat,
    seen: (C, C, N),
) -> bool {
    if depth == 0 {
        seen == (black, black, flat)
    } else {
        exists|cast: (Encounter<R, C>, N)| #[trigger]
            call_ensures(first, (ray,), cast) && seen.2 == cast.1 && match cast.0 {
                Encounter::Escaped { background } => seen.0 == background && seen.1 == background,
                Encounter::Absorbed { emitted } => seen.0 == emitted && seen.1 == emitted,
                Encounter::Scattered { emitted, attenuation, ray: onward } => seen.1
                    == attenuation && exists|incoming: C|
                    radiance(encounter, blend, black, onward, (depth - 1) as nat, incoming)
                        && #[trigger] call_ensures(blend, (attenuation, incoming, emitted), seen.0),
            }
    }
}

/// The colour that `ray` brings back, following it for at most `depth`
/// bounces.
///
/// `encounter` casts one ray into the scene and `blend` combines, in this
/// order, an attenuation, the colour that came back along the scattered ray,
/// and an emitted colour. A ray with no bounce left is `black`, whatever the
/// scene holds.
pub fn cast_ray<R, C, F: Fn(R) -> Encounter<R, C>, G: Fn(C, C, C) -> C>(
    ray: R,
    depth: u32,
    black: C,
    encounter: &F,
    blend: &G,
) -> (colour: C)
    requires
        forall|r: R| call_requires(*encounter, (r,)),
        forall|a: C, b: C, c: C| call_requires(*blend, (a, b, c)),
    ensures
        radiance(*encounter, *blend, black, ray, depth as nat, colour),
        depth == 0 ==> colour == black,
    decreases depth,
{
    if depth == 0 {
        return black;
    }
    let met = encounter(ray);
    assert(meets(*encounter)(ray, met));
    match met {
        Encounter::Escaped { background } => background,
        Encounter::Absorbed { emitted } => emitted,
        Encounter::Scattered { emitted, attenuation, ray: onward } => {
            let incoming = cast_ray(onward, depth - 1, black, encounter, blend);
            let colour = blend(attenuation, incoming, emitted);
            assert(blends(*blend)(attenuation, incoming, emitted, colour));
            colour
        },
    }
}

/// Colour, albedo and normal of the first bounce of `ray`, following it for
/// at most `depth` bounces.
///
/// `first` casts the ray and also gives the normal of what it met; every
/// later bounce goes through [`cast_ray`]. With no bounce left the result is
/// `(black, black, flat)`.
pub fn cast_ray_extended<
    R,
    C: Copy,
    N,
    H: Fn(R) -> (Encounter<R, C>, N),
    F: Fn(R) -> Encounter<R, C>,
    G: Fn(C, C, C) -> C,
>(ray: R, depth: u32, black: C, flat: N, first: &H, encounter: &F, blend: &G) -> (seen: (C, C, N))
    requires
        forall|r: R| call_requires(*first, (r,)),
        forall|r: R| call_requires(*encounter, (r,)),
        forall|a: C, b: C, c: C| call_requires(*blend, (a, b, c)),
    ensures
        first_bounce(*first, *encounter, *blend, black, flat, ray, depth as nat, seen),
        depth == 0 ==> seen == (black, black, flat),
{
    if depth == 0 {
        return (black, black, flat);
    }
    let (met, normal) = first(ray);
    match met {
        Encounter::Escaped { background } => (background, background, normal),
        Encounter::Absorbed { emitted } => (emitted, emitted, normal),
        Encounter::Scattered { emitted, attenuation, ray: onward } => {
            let incoming = cast_ray(onward, depth - 1, black, encounter, blend);
            let seen = (blend(attenuation, incoming, emitted), attenuation, normal);
            assert(call_ensures(*blend, (attenuation, incoming, emitted), seen.0));
            seen
        },
    }
}

/// Whether every colour that a surface or the background hands to the
/// integrator is `good`: the background of a ray that escapes, what a
/// surface emits, and the attenuation of a surface that scatters.
pub open spec fn hands_out<R, C>(
    meets: spec_fn(R, Encounter<R, C>) -> bool,
    good: spec_fn(C) -> bool,
) -> bool {
    forall|ray: R, met: Encounter<R, C>| #[trigger]
        meets(ray, met) ==> match met {
            Encounter::Escaped { background } => good(background),
            Encounter::Absorbed { emitted } => good(emitted),
            Encounter::Scattered { emitted, attenuation, ray: _ } => good(emitted) && good(
                attenuation,
            ),
        }
}

/// Whether a blend of `good` colours is `good`.
pub open spec fn keeps<C>(blends: spec_fn(C, C, C, C) -> bool, good: spec_fn(C) -> bool) -> bool {
    forall|attenuation: C, incoming: C, emitted: C, colour: C|
        good(attenuation) && good(incoming) && good(emitted) && #[trigger] blends(
            attenuation,
            incoming,
            emitted,
            colour,
        ) ==> good(colour)
}

/// What holds of `black`, of every colour that the scene hands out, and of
/// every blend of colours of which it holds, holds of the colour of every
/// ray, however many bounces it is followed for.
///
/// With `good` read as "no component is negative" this is how light stays
/// non-negative along a path.
pub proof fn lemma_radiance_stays_good<R, C>(
    meets: spec_fn(R, Encounter<R, C>) -> bool,
    blends: spec_fn(C, C, C, C) -> bool,
    good: spec_fn(C) -> bool,
    black: C,
    ray: R,
    depth: nat,
    colour: C,
)
    requires
        good(black),
        hands_out(meets, good),
        keeps(blends, good),
        radiance_of(meets, blends, black, ray, depth, colour),
    ensures
        good(colour),
    decreases depth,
{
    if depth > 0 {
        let met = choose|met: Encounter<R, C>| #[trigger]
            meets(ray, met) && match met {
                Encounter::Escaped { background } => colour == background,
                Encounter::Absorbed { emitted } => colour == emitted,
                Encounter::Scattered { emitted, attenuation, ray: onward } => exists|incoming: C|
                    radiance_of(meets, blends, black, onward, (depth - 1) as nat, incoming)
                        && #[trigger] blends(attenuation, incoming, emitted, colour),
            };
        match met {
            Encounter::Scattered { emitted, attenuation, ray: onward } => {
                let incoming = choose|incoming: C|
                    radiance_of(meets, blends, black, onward, (depth - 1) as nat, incoming)
                        && #[trigger] blends(attenuation, incoming, emitted, colour);
                lemma_radiance_stays_good(
                    meets,
                    blends,
                    good,
                    black,
                    onward,
                    (depth - 1) as nat,
                    incoming,
                );
            },
            _ => {},
        }
    }
}

/// A ray with no bounce left has exactly one colour, `black`.
pub proof fn lemma_no_bounce_is_black<R, C, F: Fn(R) -> Encounter<R, C>, G: Fn(C, C, C) -> C>(
    encounter: F,
    blend: G,
    black: C,
    ray: R,
    colour: C,
)
    ensures
        radiance(encounter, blend, black, ray, 0, colour) <==> colour == black,
{
}

} // verus!
