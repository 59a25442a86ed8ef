//! Small vocabulary shared by the instrument and its laboratory: the pickup
//! transfer laws, the model's error value, and the law names of the harmonic
//! study.
use vstd::prelude::*;

verus! {

/// Why a voicing or an engine configuration was refused.
#[derive(Clone, Copy, Debug, PartialEq, Eq)]
pub struct ModelError(pub &'static str);

impl ModelError {
    /// The reason, as written.
    pub fn message(&self) -> (r: &'static str)
        ensures
            r == self.0,
    {
        self.0
    }
}

/// Which transfer law turns tip motion into the pickup voltage.
#[derive(Clone, Copy, Debug, PartialEq, Eq)]
pub enum PickupLaw {
    /// The production flux surrogate.
    Production,
    /// The finite-aperture flux on the tine axis.
    Aperture,
    /// The aperture with the upper-register geometry adjustment.
    RegisterAperture,
}

/// Names of the pickup laws, in the order of the settings' law index.
pub const LAW_COUNT: u8 = 3;

/// The law a settings law index selects: 1 the aperture, 2 the register
/// aperture, anything else the production law.
pub open spec fn pickup_law_of_spec(law: u8) -> PickupLaw {
    if law == 1 {
        PickupLaw::Aperture
    } else if law == 2 {
        PickupLaw::RegisterAperture
    } else {
        PickupLaw::Production
    }
}

pub fn pickup_law_of(law: u8) -> (r: PickupLaw)
    ensures
        r == pickup_law_of_spec(law),
{
    if law == 1 {
        PickupLaw::Aperture
    } else if law == 2 {
        PickupLaw::RegisterAperture
    } else {
        PickupLaw::Production
    }
}

/// The display name of a settings law index, if it names a law.
pub fn law_name(law: u8) -> (r: Option<&'static str>)
    ensures
        law < LAW_COUNT <==> r is Some,
        law == 0 ==> r == Some("Production"),
        law == 1 ==> r == Some("Aperture"),
        law == 2 ==> r == Some("Register Aperture"),
{
    if law == 0 {
        Some("Production")
    } else if law == 1 {
        Some("Aperture")
    } else if law == 2 {
        Some("Register Aperture")
    } else {
        None
    }
}

/// The candidate laws of the pickup harmonic study.
#[derive(Clone, Copy, Debug, PartialEq, Eq)]
pub enum Law {
    Production,
    PointPole,
    FiniteAperture,
}

impl Law {
    /// The report name of the law.
    pub fn name(self) -> (r: &'static str)
        ensures
            self == Law::Production ==> r == "production_inverse_sqrt",
            self == Law::PointPole ==> r == "point_pole_inverse_cube",
            self == Law::FiniteAperture ==> r == "finite_aperture_16_node",
    {
        match self {
            Law::Production => "production_inverse_sqrt",
            Law::PointPole => "point_pole_inverse_cube",
            Law::FiniteAperture => "finite_aperture_16_node",
        }
    }
}

} // verus!
