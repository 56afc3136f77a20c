use vstd::prelude::*;

verus! {

/// Number of orbiting bodies in the catalog.
pub const BODY_COUNT: usize = 8;

/// Radius of the central body, in thousandths of a scene unit.
pub const SUN_RADIUS_MILLI: u32 = 60;

/// The orbiting bodies, each selecting its own set of orbital elements.
#[derive(Clone, Copy, Debug, PartialEq, Eq, Structural)]
pub enum Body {
    Mercury,
    Venus,
    Earth,
    Mars,
    Jupiter,
    Saturn,
    Uranus,
    Neptune,
}

/// The catalog's order of the bodies, outward from the sun.
pub open spec fn body_at(i: int) -> Body {
    if i == 0 {
        Body::Mercury
    } else if i == 1 {
        Body::Venus
    } else if i == 2 {
        Body::Earth
    } else if i == 3 {
        Body::Mars
    } else if i == 4 {
        Body::Jupiter
    } else if i == 5 {
        Body::Saturn
    } else if i == 6 {
        Body::Uranus
    } else {
        Body::Neptune
    }
}

pub open spec fn body_name(b: Body) -> Seq<char> {
    match b {
        Body::Mercury => "Mercury"@,
        Body::Venus => "Venus"@,
        Body::Earth => "Earth"@,
        Body::Mars => "Mars"@,
        Body::Jupiter => "Jupiter"@,
        Body::Saturn => "Saturn"@,
        Body::Uranus => "Uranus"@,
        Body::Neptune => "Neptune"@,
    }
}

/// Display radius of a body, in thousandths of a scene unit.
pub open spec fn body_radius_milli(b: Body) -> u32 {
    match b {
        Body::Mercury | Body::Mars => 10,
        Body::Venus | Body::Earth => 30,
        _ => 50,
    }
}

/// An orbiting body of the scene.
#[derive(Debug)]
pub struct Planet {
    pub name: String,
    pub body: Body,
    pub radius_milli: u32,
}

impl Planet {
    fn new(body: Body, name: &str, radius_milli: u32) -> (r: Planet)
        requires
            name@ == body_name(body),
            radius_milli == body_radius_milli(body),
        ensures
            r.body == body,
            r.name@ == body_name(body),
            r.radius_milli == body_radius_milli(body),
    {
        Planet { name: name.to_string(), body, radius_milli }
    }
}

/// Marks the text element that shows the current simulated date.
pub struct DateLabel;

/// The label of one body: `body` is the body's index in the catalog.
#[derive(Clone, Copy, Debug, PartialEq, Eq, Structural)]
pub struct PlanetLabel {
    pub body: usize,
}

/// Marks the control that switches the camera to the near view.
pub struct InnerButton;

/// Marks the control that switches the camera to the far view.
pub struct OuterButton;

/// The catalog of orbiting bodies, in order from the sun, with their names
/// and display radii.
pub fn add_planets() -> (r: Vec<Planet>)
    ensures
        r.len() == BODY_COUNT,
        forall|i: int|
            0 <= i < r.len() ==> {
                &&& (#[trigger] r[i]).body == body_at(i)
                &&& r[i].name@ == body_name(body_at(i))
                &&& r[i].radius_milli == body_radius_milli(body_at(i))
            },
{
    let mut r: Vec<Planet> = Vec::new();
    r.push(Planet::new(Body::Mercury, "Mercury", 10));
    r.push(Planet::new(Body::Venus, "Venus", 30));
    r.push(Planet::new(Body::Earth, "Earth", 30));
    r.push(Planet::new(Body::Mars, "Mars", 10));
    r.push(Planet::new(Body::Jupiter, "Jupiter", 50));
    r.push(Planet::new(Body::Saturn, "Saturn", 50));
    r.push(Planet::new(Body::Uranus, "Uranus", 50));
    r.push(Planet::new(Body::Neptune, "Neptune", 50));
    r
}

/// One label per body, paired one to one: label `i` tracks body `i`.
pub fn add_planet_labels(planets: &Vec<Planet>) -> (r: Vec<PlanetLabel>)
    ensures
        r.len() == planets.len(),
        forall|i: int| 0 <= i < r.len() ==> (#[trigger] r[i]).body == i,
{
    let mut r: Vec<PlanetLabel> = Vec::new();
    let mut i: usize = 0;
    while i < planets.len()
        invariant
            i <= planets.len(),
            r.len() == i,
            forall|j: int| 0 <= j < r.len() ==> (#[trigger] r[j]).body == j,
        decreases planets.len() - i,
    {
        r.push(PlanetLabel { body: i });
        i = i + 1;
    }
    r
}

/// Where a label is placed this tick: at the freshly projected point when
/// there is one, otherwise where it stood before.
pub fn next_anchor<P: Copy>(last: P, projected: Option<P>) -> (r: P)
    ensures
        r == match projected {
            Some(p) => p,
            None => last,
        },
{
    match projected {
        Some(p) => p,
        None => last,
    }
}

} // verus!
