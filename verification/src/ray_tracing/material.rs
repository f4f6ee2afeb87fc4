//! What a surface does with a ray that strikes it, once the geometry of the
//! encounter is known.

use vstd::prelude::*;

verus! {

/// A ray meeting a surface, by the kind of surface and by what the geometry
/// of the meeting has shown.
#[derive(Clone, Copy, Debug, PartialEq, Eq, Structural)]
pub enum Encounter {
    /// A diffuse surface. `degenerate` tells whether the normal and the
    /// random direction that was drawn cancel each other.
    Lambertian { degenerate: bool },
    /// A metal surface. `outward` tells whether the reflected and fuzzed
    /// direction points away from the surface.
    Metal { outward: bool },
    /// A glass surface. `cannot_refract` tells whether the refraction ratio
    /// times the sine of the angle of incidence exceeds one; `will_reflect`
    /// whether the reflectance exceeds the random number that was drawn.
    Dielectric { cannot_refract: bool, will_reflect: bool },
}

/// The direction in which a scattered ray leaves the surface.
#[derive(Clone, Copy, Debug, PartialEq, Eq, Structural)]
pub enum Outgoing {
    /// Along the normal plus the random direction.
    Diffuse,
    /// Along the normal alone.
    Normal,
    /// Along the mirror image of the incoming direction, fuzzed for metal.
    Mirror,
    /// Along the direction that Snell's law gives.
    Refracted,
}

/// The scattering rule. A diffuse surface always scatters, along the normal
/// alone when the sum with the random direction would vanish. Metal scatters
/// only away from itself. Glass always scatters: it mirrors the ray when it
/// cannot refract it or when the draw says so, and refracts it otherwise.
pub open spec fn scattered(encounter: Encounter) -> Option<Outgoing> {
    match encounter {
        Encounter::Lambertian { degenerate } => Some(
            if degenerate {
                Outgoing::Normal
            } else {
                Outgoing::Diffuse
            },
        ),
        Encounter::Metal { outward } => if outward {
            Some(Outgoing::Mirror)
        } else {
            None
        },
        Encounter::Dielectric { cannot_refract, will_reflect } => Some(
            if cannot_refract || will_reflect {
                Outgoing::Mirror
            } else {
                Outgoing::Refracted
            },
        ),
    }
}

/// Decides whether the ray is scattered, and in which direction; `None`
/// means that the surface absorbs it.
pub fn scatter(encounter: Encounter) -> (outgoing: Option<Outgoing>)
    ensures
        outgoing == scattered(encounter),
        encounter is Lambertian ==> outgoing is Some,
        encounter is Dielectric ==> outgoing is Some,
        encounter matches Encounter::Metal { outward } ==> (outgoing is Some <==> outward),
        encounter matches Encounter::Dielectric { cannot_refract: true, .. } ==> outgoing == Some(
            Outgoing::Mirror,
        ),
{
    match encounter {
        Encounter::Lambertian { degenerate } => {
            if degenerate {
                Some(Outgoing::Normal)
            } else {
                Some(Outgoing::Diffuse)
            }
        },
        Encounter::Metal { outward } => {
            if outward {
                Some(Outgoing::Mirror)
            } else {
                None
            }
        },
        Encounter::Dielectric { cannot_refract, will_reflect } => {
            if cannot_refract || will_reflect {
                Some(Outgoing::Mirror)
            } else {
                Some(Outgoing::Refracted)
            }
        },
    }
}

} // verus!
