//! The variation catalogue.
//!
//! Each branch of a flame applies a weighted sum of these parametric
//! distortion functions.  The numeric identifiers 0-29 and the XML attribute
//! names are fixed by the flame file format, so every lookup here is proved
//! to agree with them.
use vstd::prelude::*;
use crate::text::str_eq;

verus! {

/// A named parametric distortion function.  Identifiers 0-29 are fixed by the
/// flame file format.
#[derive(Clone, Copy, Debug, PartialEq, Eq, Hash, Structural)]
pub enum Variation {
    Linear,
    Sinusoidal,
    Spherical,
    Swirl,
    Horseshoe,
    Polar,
    Handkerchief,
    Heart,
    Disc,
    Spiral,
    Hyperbolic,
    Diamond,
    Ex,
    Julia,
    Bent,
    Waves,
    Fisheye,
    Popcorn,
    Exponential,
    Power,
    Cosine,
    Eyefish,
    Bubble,
    Cylinder,
    Noise,
    Blur,
    GaussianBlur,
    Orb9000,
    Ripple9000,
    Bulge9000,
}

/// Number of variations in the catalogue.
pub const VARIATION_COUNT: usize = 30;

impl Variation {
    /// The format identifier of a variation.
    pub open spec fn spec_id(self) -> u8 {
        match self {
            Variation::Linear => 0,
            Variation::Sinusoidal => 1,
            Variation::Spherical => 2,
            Variation::Swirl => 3,
            Variation::Horseshoe => 4,
            Variation::Polar => 5,
            Variation::Handkerchief => 6,
            Variation::Heart => 7,
            Variation::Disc => 8,
            Variation::Spiral => 9,
            Variation::Hyperbolic => 10,
            Variation::Diamond => 11,
            Variation::Ex => 12,
            Variation::Julia => 13,
            Variation::Bent => 14,
            Variation::Waves => 15,
            Variation::Fisheye => 16,
            Variation::Popcorn => 17,
            Variation::Exponential => 18,
            Variation::Power => 19,
            Variation::Cosine => 20,
            Variation::Eyefish => 21,
            Variation::Bubble => 22,
            Variation::Cylinder => 23,
            Variation::Noise => 24,
            Variation::Blur => 25,
            Variation::GaussianBlur => 26,
            Variation::Orb9000 => 27,
            Variation::Ripple9000 => 28,
            Variation::Bulge9000 => 29,
        }
    }

    /// The variation with a given format identifier, if there is one.
    pub open spec fn spec_by_id(id: u8) -> Option<Variation> {
        if id == 0 {
            Some(Variation::Linear)
        } else if id == 1 {
            Some(Variation::Sinusoidal)
        } else if id == 2 {
            Some(Variation::Spherical)
        } else if id == 3 {
            Some(Variation::Swirl)
        } else if id == 4 {
            Some(Variation::Horseshoe)
        } else if id == 5 {
            Some(Variation::Polar)
        } else if id == 6 {
            Some(Variation::Handkerchief)
        } else if id == 7 {
            Some(Variation::Heart)
        } else if id == 8 {
            Some(Variation::Disc)
        } else if id == 9 {
            Some(Variation::Spiral)
        } else if id == 10 {
            Some(Variation::Hyperbolic)
        } else if id == 11 {
            Some(Variation::Diamond)
        } else if id == 12 {
            Some(Variation::Ex)
        } else if id == 13 {
            Some(Variation::Julia)
        } else if id == 14 {
            Some(Variation::Bent)
        } else if id == 15 {
            Some(Variation::Waves)
        } else if id == 16 {
            Some(Variation::Fisheye)
        } else if id == 17 {
            Some(Variation::Popcorn)
        } else if id == 18 {
            Some(Variation::Exponential)
        } else if id == 19 {
            Some(Variation::Power)
        } else if id == 20 {
            Some(Variation::Cosine)
        } else if id == 21 {
            Some(Variation::Eyefish)
        } else if id == 22 {
            Some(Variation::Bubble)
        } else if id == 23 {
            Some(Variation::Cylinder)
        } else if id == 24 {
            Some(Variation::Noise)
        } else if id == 25 {
            Some(Variation::Blur)
        } else if id == 26 {
            Some(Variation::GaussianBlur)
        } else if id == 27 {
            Some(Variation::Orb9000)
        } else if id == 28 {
            Some(Variation::Ripple9000)
        } else if id == 29 {
            Some(Variation::Bulge9000)
        } else {
            None
        }
    }

    /// The display name of a variation.
    pub open spec fn spec_name(self) -> Seq<char> {
        match self {
            Variation::Linear => "Linear"@,
            Variation::Sinusoidal => "Sinusoidal"@,
            Variation::Spherical => "Spherical"@,
            Variation::Swirl => "Swirl"@,
            Variation::Horseshoe => "Horseshoe"@,
            Variation::Polar => "Polar"@,
            Variation::Handkerchief => "Handkerchief"@,
            Variation::Heart => "Heart"@,
            Variation::Disc => "Disc"@,
            Variation::Spiral => "Spiral"@,
            Variation::Hyperbolic => "Hyperbolic"@,
            Variation::Diamond => "Diamond"@,
            Variation::Ex => "Ex"@,
            Variation::Julia => "Julia"@,
            Variation::Bent => "Bent"@,
            Variation::Waves => "Waves"@,
            Variation::Fisheye => "Fisheye"@,
            Variation::Popcorn => "Popcorn"@,
            Variation::Exponential => "Exponential"@,
            Variation::Power => "Power"@,
            Variation::Cosine => "Cosine"@,
            Variation::Eyefish => "Eyefish"@,
            Variation::Bubble => "Bubble"@,
            Variation::Cylinder => "Cylinder"@,
            Variation::Noise => "Noise"@,
            Variation::Blur => "Blur"@,
            Variation::GaussianBlur => "Gaussian Blur"@,
            Variation::Orb9000 => "Orb 9000"@,
            Variation::Ripple9000 => "Ripple 9000"@,
            Variation::Bulge9000 => "Bulge 9000"@,
        }
    }

    /// The XML attribute name of a variation (lower case with underscores).
    pub open spec fn spec_attr_name(self) -> Seq<char> {
        match self {
            Variation::Linear => "linear"@,
            Variation::Sinusoidal => "sinusoidal"@,
            Variation::Spherical => "spherical"@,
            Variation::Swirl => "swirl"@,
            Variation::Horseshoe => "horseshoe"@,
            Variation::Polar => "polar"@,
            Variation::Handkerchief => "handkerchief"@,
            Variation::Heart => "heart"@,
            Variation::Disc => "disc"@,
            Variation::Spiral => "spiral"@,
            Variation::Hyperbolic => "hyperbolic"@,
            Variation::Diamond => "diamond"@,
            Variation::Ex => "ex"@,
            Variation::Julia => "julia"@,
            Variation::Bent => "bent"@,
            Variation::Waves => "waves"@,
            Variation::Fisheye => "fisheye"@,
            Variation::Popcorn => "popcorn"@,
            Variation::Exponential => "exponential"@,
            Variation::Power => "power"@,
            Variation::Cosine => "cosine"@,
            Variation::Eyefish => "eyefish"@,
            Variation::Bubble => "bubble"@,
            Variation::Cylinder => "cylinder"@,
            Variation::Noise => "noise"@,
            Variation::Blur => "blur"@,
            Variation::GaussianBlur => "gaussian_blur"@,
            Variation::Orb9000 => "f9k_orb"@,
            Variation::Ripple9000 => "f9k_ripple"@,
            Variation::Bulge9000 => "f9k_bulge"@,
        }
    }

    /// The variation whose XML attribute name is `name`, if there is one.
    pub open spec fn spec_by_attr_name(name: Seq<char>) -> Option<Variation> {
        if exists|v: Variation| v.spec_attr_name() == name {
            Some(choose|v: Variation| v.spec_attr_name() == name)
        } else {
            None
        }
    }

    /// All variations in order by identifier.
    pub fn all() -> (r: &'static [Variation])
        ensures
            r@.len() == VARIATION_COUNT,
            forall|i: int| 0 <= i < r@.len() ==> (#[trigger] r@[i]).spec_id() == i,
    {
        &[
            Variation::Linear,
            Variation::Sinusoidal,
            Variation::Spherical,
            Variation::Swirl,
            Variation::Horseshoe,
            Variation::Polar,
            Variation::Handkerchief,
            Variation::Heart,
            Variation::Disc,
            Variation::Spiral,
            Variation::Hyperbolic,
            Variation::Diamond,
            Variation::Ex,
            Variation::Julia,
            Variation::Bent,
            Variation::Waves,
            Variation::Fisheye,
            Variation::Popcorn,
            Variation::Exponential,
            Variation::Power,
            Variation::Cosine,
            Variation::Eyefish,
            Variation::Bubble,
            Variation::Cylinder,
            Variation::Noise,
            Variation::Blur,
            Variation::GaussianBlur,
            Variation::Orb9000,
            Variation::Ripple9000,
            Variation::Bulge9000,
        ]
    }

    /// Total count of variations.
    pub fn count() -> (r: usize)
        ensures
            r == VARIATION_COUNT,
    {
        30
    }

    /// The variation with numeric identifier `id` (0-29), or `None`.
    pub fn by_id(id: u8) -> (r: Option<Variation>)
        ensures
            r == Self::spec_by_id(id),
            r matches Some(v) ==> v.spec_id() == id,
            r is None <==> id >= 30,
    {
        match id {
            0 => Some(Variation::Linear),
            1 => Some(Variation::Sinusoidal),
            2 => Some(Variation::Spherical),
            3 => Some(Variation::Swirl),
            4 => Some(Variation::Horseshoe),
            5 => Some(Variation::Polar),
            6 => Some(Variation::Handkerchief),
            7 => Some(Variation::Heart),
            8 => Some(Variation::Disc),
            9 => Some(Variation::Spiral),
            10 => Some(Variation::Hyperbolic),
            11 => Some(Variation::Diamond),
            12 => Some(Variation::Ex),
            13 => Some(Variation::Julia),
            14 => Some(Variation::Bent),
            15 => Some(Variation::Waves),
            16 => Some(Variation::Fisheye),
            17 => Some(Variation::Popcorn),
            18 => Some(Variation::Exponential),
            19 => Some(Variation::Power),
            20 => Some(Variation::Cosine),
            21 => Some(Variation::Eyefish),
            22 => Some(Variation::Bubble),
            23 => Some(Variation::Cylinder),
            24 => Some(Variation::Noise),
            25 => Some(Variation::Blur),
            26 => Some(Variation::GaussianBlur),
            27 => Some(Variation::Orb9000),
            28 => Some(Variation::Ripple9000),
            29 => Some(Variation::Bulge9000),
            _ => None,
        }
    }

    /// The numeric identifier (0-29).
    pub fn id(self) -> (r: u8)
        ensures
            r == self.spec_id(),
            r < 30,
    {
        match self {
            Variation::Linear => 0,
            Variation::Sinusoidal => 1,
            Variation::Spherical => 2,
            Variation::Swirl => 3,
            Variation::Horseshoe => 4,
            Variation::Polar => 5,
            Variation::Handkerchief => 6,
            Variation::Heart => 7,
            Variation::Disc => 8,
            Variation::Spiral => 9,
            Variation::Hyperbolic => 10,
            Variation::Diamond => 11,
            Variation::Ex => 12,
            Variation::Julia => 13,
            Variation::Bent => 14,
            Variation::Waves => 15,
            Variation::Fisheye => 16,
            Variation::Popcorn => 17,
            Variation::Exponential => 18,
            Variation::Power => 19,
            Variation::Cosine => 20,
            Variation::Eyefish => 21,
            Variation::Bubble => 22,
            Variation::Cylinder => 23,
            Variation::Noise => 24,
            Variation::Blur => 25,
            Variation::GaussianBlur => 26,
            Variation::Orb9000 => 27,
            Variation::Ripple9000 => 28,
            Variation::Bulge9000 => 29,
        }
    }

    /// The display name.
    pub fn name(self) -> (r: &'static str)
        ensures
            r@ == self.spec_name(),
    {
        match self {
            Variation::Linear => "Linear",
            Variation::Sinusoidal => "Sinusoidal",
            Variation::Spherical => "Spherical",
            Variation::Swirl => "Swirl",
            Variation::Horseshoe => "Horseshoe",
            Variation::Polar => "Polar",
            Variation::Handkerchief => "Handkerchief",
            Variation::Heart => "Heart",
            Variation::Disc => "Disc",
            Variation::Spiral => "Spiral",
            Variation::Hyperbolic => "Hyperbolic",
            Variation::Diamond => "Diamond",
            Variation::Ex => "Ex",
            Variation::Julia => "Julia",
            Variation::Bent => "Bent",
            Variation::Waves => "Waves",
            Variation::Fisheye => "Fisheye",
            Variation::Popcorn => "Popcorn",
            Variation::Exponential => "Exponential",
            Variation::Power => "Power",
            Variation::Cosine => "Cosine",
            Variation::Eyefish => "Eyefish",
            Variation::Bubble => "Bubble",
            Variation::Cylinder => "Cylinder",
            Variation::Noise => "Noise",
            Variation::Blur => "Blur",
            Variation::GaussianBlur => "Gaussian Blur",
            Variation::Orb9000 => "Orb 9000",
            Variation::Ripple9000 => "Ripple 9000",
            Variation::Bulge9000 => "Bulge 9000",
        }
    }

    /// The XML attribute name (lower case with underscores).
    pub fn attr_name(self) -> (r: &'static str)
        ensures
            r@ == self.spec_attr_name(),
    {
        match self {
            Variation::Linear => "linear",
            Variation::Sinusoidal => "sinusoidal",
            Variation::Spherical => "spherical",
            Variation::Swirl => "swirl",
            Variation::Horseshoe => "horseshoe",
            Variation::Polar => "polar",
            Variation::Handkerchief => "handkerchief",
            Variation::Heart => "heart",
            Variation::Disc => "disc",
            Variation::Spiral => "spiral",
            Variation::Hyperbolic => "hyperbolic",
            Variation::Diamond => "diamond",
            Variation::Ex => "ex",
            Variation::Julia => "julia",
            Variation::Bent => "bent",
            Variation::Waves => "waves",
            Variation::Fisheye => "fisheye",
            Variation::Popcorn => "popcorn",
            Variation::Exponential => "exponential",
            Variation::Power => "power",
            Variation::Cosine => "cosine",
            Variation::Eyefish => "eyefish",
            Variation::Bubble => "bubble",
            Variation::Cylinder => "cylinder",
            Variation::Noise => "noise",
            Variation::Blur => "blur",
            Variation::GaussianBlur => "gaussian_blur",
            Variation::Orb9000 => "f9k_orb",
            Variation::Ripple9000 => "f9k_ripple",
            Variation::Bulge9000 => "f9k_bulge",
        }
    }
}

impl Variation {
    /// Look up a variation by its XML attribute name.
    pub fn by_attr_name(name: &str) -> (r: Option<Variation>)
        ensures
            r == Self::spec_by_attr_name(name@),
            r matches Some(v) ==> v.spec_attr_name() == name@,
            r is None <==> (forall|v: Variation| v.spec_attr_name() != name@),
    {
        let all = Variation::all();
        let mut i: usize = 0;
        while i < all.len()
            invariant
                all@.len() == VARIATION_COUNT,
                forall|k: int| 0 <= k < all@.len() ==> (#[trigger] all@[k]).spec_id() == k,
                i <= all@.len(),
                forall|k: int| 0 <= k < i ==> (#[trigger] all@[k]).spec_attr_name() != name@,
            decreases all@.len() - i,
        {
            let v = all[i];
            if str_eq(v.attr_name(), name) {
                proof {
                    assert forall|w: Variation| w.spec_attr_name() == name@ implies w == v by {
                        lemma_attr_name_injective(w, v);
                    }
                }
                return Some(v);
            }
            i += 1;
        }
        proof {
            assert forall|v: Variation| v.spec_attr_name() != name@ by {
                let k = v.spec_id() as int;
                lemma_all_at_id(all@, v);
                assert(all@[k] == v);
            }
        }
        None
    }
}

/// In a sequence listing each variation at its identifier, a variation sits
/// at its own identifier.
proof fn lemma_all_at_id(all: Seq<Variation>, v: Variation)
    requires
        all.len() == VARIATION_COUNT,
        forall|k: int| 0 <= k < all.len() ==> (#[trigger] all[k]).spec_id() == k,
    ensures
        all[v.spec_id() as int] == v,
{
    let k = v.spec_id() as int;
    assert(all[k].spec_id() == k);
    lemma_id_injective(all[k], v);
}

/// Distinct variations have distinct identifiers.
pub proof fn lemma_id_injective(v: Variation, w: Variation)
    ensures
        v.spec_id() == w.spec_id() ==> v == w,
{
}

/// Looking a variation up by its identifier gives it back, and every
/// identifier below 30 names exactly one variation.
pub proof fn lemma_id_round_trip(v: Variation, id: u8)
    ensures
        Variation::spec_by_id(v.spec_id()) == Some(v),
        v.spec_id() < VARIATION_COUNT,
        id < VARIATION_COUNT ==> (Variation::spec_by_id(id) matches Some(w) && w.spec_id() == id),
        id >= VARIATION_COUNT ==> Variation::spec_by_id(id) is None,
{
}

/// Looking a variation up by its attribute name gives it back.
pub proof fn lemma_attr_name_round_trip(v: Variation)
    ensures
        Variation::spec_by_attr_name(v.spec_attr_name()) == Some(v),
{
    let w = choose|w: Variation| w.spec_attr_name() == v.spec_attr_name();
    lemma_attr_name_injective(w, v);
}

/// Distinguishing features of an attribute name: its length and first
/// three characters (a blank stands in when the name is shorter).
spec fn attr_key(s: Seq<char>) -> (int, char, char, char) {
    (s.len() as int, s[0], s[1], if s.len() > 2 { s[2] } else { ' ' })
}

/// The variation whose attribute name has the given distinguishing features.
spec fn variation_of_attr_key(k: (int, char, char, char)) -> Option<Variation> {
    if k == (6int, 'l', 'i', 'n') {
        Some(Variation::Linear)
    } else if k == (10int, 's', 'i', 'n') {
        Some(Variation::Sinusoidal)
    } else if k == (9int, 's', 'p', 'h') {
        Some(Variation::Spherical)
    } else if k == (5int, 's', 'w', 'i') {
        Some(Variation::Swirl)
    } else if k == (9int, 'h', 'o', 'r') {
        Some(Variation::Horseshoe)
    } else if k == (5int, 'p', 'o', 'l') {
        Some(Variation::Polar)
    } else if k == (12int, 'h', 'a', 'n') {
        Some(Variation::Handkerchief)
    } else if k == (5int, 'h', 'e', 'a') {
        Some(Variation::Heart)
    } else if k == (4int, 'd', 'i', 's') {
        Some(Variation::Disc)
    } else if k == (6int, 's', 'p', 'i') {
        Some(Variation::Spiral)
    } else if k == (10int, 'h', 'y', 'p') {
        Some(Variation::Hyperbolic)
    } else if k == (7int, 'd', 'i', 'a') {
        Some(Variation::Diamond)
    } else if k == (2int, 'e', 'x', ' ') {
        Some(Variation::Ex)
    } else if k == (5int, 'j', 'u', 'l') {
        Some(Variation::Julia)
    } else if k == (4int, 'b', 'e', 'n') {
        Some(Variation::Bent)
    } else if k == (5int, 'w', 'a', 'v') {
        Some(Variation::Waves)
    } else if k == (7int, 'f', 'i', 's') {
        Some(Variation::Fisheye)
    } else if k == (7int, 'p', 'o', 'p') {
        Some(Variation::Popcorn)
    } else if k == (11int, 'e', 'x', 'p') {
        Some(Variation::Exponential)
    } else if k == (5int, 'p', 'o', 'w') {
        Some(Variation::Power)
    } else if k == (6int, 'c', 'o', 's') {
        Some(Variation::Cosine)
    } else if k == (7int, 'e', 'y', 'e') {
        Some(Variation::Eyefish)
    } else if k == (6int, 'b', 'u', 'b') {
        Some(Variation::Bubble)
    } else if k == (8int, 'c', 'y', 'l') {
        Some(Variation::Cylinder)
    } else if k == (5int, 'n', 'o', 'i') {
        Some(Variation::Noise)
    } else if k == (4int, 'b', 'l', 'u') {
        Some(Variation::Blur)
    } else if k == (13int, 'g', 'a', 'u') {
        Some(Variation::GaussianBlur)
    } else if k == (7int, 'f', '9', 'k') {
        Some(Variation::Orb9000)
    } else if k == (10int, 'f', '9', 'k') {
        Some(Variation::Ripple9000)
    } else if k == (9int, 'f', '9', 'k') {
        Some(Variation::Bulge9000)
    } else {
        None
    }
}

proof fn lemma_attr_key(v: Variation)
    ensures
        variation_of_attr_key(attr_key(v.spec_attr_name())) == Some(v),
{
    match v {
        Variation::Linear => {
            reveal_strlit("linear");
            assert("linear"@.len() == 6 && "linear"@[0] == 'l' && "linear"@[1] == 'i' && "linear"@[2] == 'n');
        },
        Variation::Sinusoidal => {
            reveal_strlit("sinusoidal");
            assert("sinusoidal"@.len() == 10 && "sinusoidal"@[0] == 's' && "sinusoidal"@[1] == 'i' && "sinusoidal"@[2] == 'n');
        },
        Variation::Spherical => {
            reveal_strlit("spherical");
            assert("spherical"@.len() == 9 && "spherical"@[0] == 's' && "spherical"@[1] == 'p' && "spherical"@[2] == 'h');
        },
        Variation::Swirl => {
            reveal_strlit("swirl");
            assert("swirl"@.len() == 5 && "swirl"@[0] == 's' && "swirl"@[1] == 'w' && "swirl"@[2] == 'i');
        },
        Variation::Horseshoe => {
            reveal_strlit("horseshoe");
            assert("horseshoe"@.len() == 9 && "horseshoe"@[0] == 'h' && "horseshoe"@[1] == 'o' && "horseshoe"@[2] == 'r');
        },
        Variation::Polar => {
            reveal_strlit("polar");
            assert("polar"@.len() == 5 && "polar"@[0] == 'p' && "polar"@[1] == 'o' && "polar"@[2] == 'l');
        },
        Variation::Handkerchief => {
            reveal_strlit("handkerchief");
            assert("handkerchief"@.len() == 12 && "handkerchief"@[0] == 'h' && "handkerchief"@[1] == 'a' && "handkerchief"@[2] == 'n');
        },
        Variation::Heart => {
            reveal_strlit("heart");
            assert("heart"@.len() == 5 && "heart"@[0] == 'h' && "heart"@[1] == 'e' && "heart"@[2] == 'a');
        },
        Variation::Disc => {
            reveal_strlit("disc");
            assert("disc"@.len() == 4 && "disc"@[0] == 'd' && "disc"@[1] == 'i' && "disc"@[2] == 's');
        },
        Variation::Spiral => {
            reveal_strlit("spiral");
            assert("spiral"@.len() == 6 && "spiral"@[0] == 's' && "spiral"@[1] == 'p' && "spiral"@[2] == 'i');
        },
        Variation::Hyperbolic => {
            reveal_strlit("hyperbolic");
            assert("hyperbolic"@.len() == 10 && "hyperbolic"@[0] == 'h' && "hyperbolic"@[1] == 'y' && "hyperbolic"@[2] == 'p');
        },
        Variation::Diamond => {
            reveal_strlit("diamond");
            assert("diamond"@.len() == 7 && "diamond"@[0] == 'd' && "diamond"@[1] == 'i' && "diamond"@[2] == 'a');
        },
        Variation::Ex => {
            reveal_strlit("ex");
            assert("ex"@.len() == 2 && "ex"@[0] == 'e' && "ex"@[1] == 'x' && true);
        },
        Variation::Julia => {
            reveal_strlit("julia");
            assert("julia"@.len() == 5 && "julia"@[0] == 'j' && "julia"@[1] == 'u' && "julia"@[2] == 'l');
        },
        Variation::Bent => {
            reveal_strlit("bent");
            assert("bent"@.len() == 4 && "bent"@[0] == 'b' && "bent"@[1] == 'e' && "bent"@[2] == 'n');
        },
        Variation::Waves => {
            reveal_strlit("waves");
            assert("waves"@.len() == 5 && "waves"@[0] == 'w' && "waves"@[1] == 'a' && "waves"@[2] == 'v');
        },
        Variation::Fisheye => {
            reveal_strlit("fisheye");
            assert("fisheye"@.len() == 7 && "fisheye"@[0] == 'f' && "fisheye"@[1] == 'i' && "fisheye"@[2] == 's');
        },
        Variation::Popcorn => {
            reveal_strlit("popcorn");
            assert("popcorn"@.len() == 7 && "popcorn"@[0] == 'p' && "popcorn"@[1] == 'o' && "popcorn"@[2] == 'p');
        },
        Variation::Exponential => {
            reveal_strlit("exponential");
            assert("exponential"@.len() == 11 && "exponential"@[0] == 'e' && "exponential"@[1] == 'x' && "exponential"@[2] == 'p');
        },
        Variation::Power => {
            reveal_strlit("power");
            assert("power"@.len() == 5 && "power"@[0] == 'p' && "power"@[1] == 'o' && "power"@[2] == 'w');
        },
        Variation::Cosine => {
            reveal_strlit("cosine");
            assert("cosine"@.len() == 6 && "cosine"@[0] == 'c' && "cosine"@[1] == 'o' && "cosine"@[2] == 's');
        },
        Variation::Eyefish => {
            reveal_strlit("eyefish");
            assert("eyefish"@.len() == 7 && "eyefish"@[0] == 'e' && "eyefish"@[1] == 'y' && "eyefish"@[2] == 'e');
        },
        Variation::Bubble => {
            reveal_strlit("bubble");
            assert("bubble"@.len() == 6 && "bubble"@[0] == 'b' && "bubble"@[1] == 'u' && "bubble"@[2] == 'b');
        },
        Variation::Cylinder => {
            reveal_strlit("cylinder");
            assert("cylinder"@.len() == 8 && "cylinder"@[0] == 'c' && "cylinder"@[1] == 'y' && "cylinder"@[2] == 'l');
        },
        Variation::Noise => {
            reveal_strlit("noise");
            assert("noise"@.len() == 5 && "noise"@[0] == 'n' && "noise"@[1] == 'o' && "noise"@[2] == 'i');
        },
        Variation::Blur => {
            reveal_strlit("blur");
            assert("blur"@.len() == 4 && "blur"@[0] == 'b' && "blur"@[1] == 'l' && "blur"@[2] == 'u');
        },
        Variation::GaussianBlur => {
            reveal_strlit("gaussian_blur");
            assert("gaussian_blur"@.len() == 13 && "gaussian_blur"@[0] == 'g' && "gaussian_blur"@[1] == 'a' && "gaussian_blur"@[2] == 'u');
        },
        Variation::Orb9000 => {
            reveal_strlit("f9k_orb");
            assert("f9k_orb"@.len() == 7 && "f9k_orb"@[0] == 'f' && "f9k_orb"@[1] == '9' && "f9k_orb"@[2] == 'k');
        },
        Variation::Ripple9000 => {
            reveal_strlit("f9k_ripple");
            assert("f9k_ripple"@.len() == 10 && "f9k_ripple"@[0] == 'f' && "f9k_ripple"@[1] == '9' && "f9k_ripple"@[2] == 'k');
        },
        Variation::Bulge9000 => {
            reveal_strlit("f9k_bulge");
            assert("f9k_bulge"@.len() == 9 && "f9k_bulge"@[0] == 'f' && "f9k_bulge"@[1] == '9' && "f9k_bulge"@[2] == 'k');
        },
    }
}

/// Distinct variations have distinct attribute names.
pub proof fn lemma_attr_name_injective(v: Variation, w: Variation)
    ensures
        v.spec_attr_name() == w.spec_attr_name() ==> v == w,
{
    lemma_attr_key(v);
    lemma_attr_key(w);
}

/// A character with ASCII upper case mapped to lower case.
pub open spec fn ascii_lower_char(c: char) -> char {
    if 65 <= c as int && c as int <= 90 {
        ((c as int) + 32) as char
    } else {
        c
    }
}

/// A text with ASCII upper case mapped to lower case.
pub open spec fn ascii_lower(s: Seq<char>) -> Seq<char> {
    s.map_values(|c: char| ascii_lower_char(c))
}

/// `a`-`z`, `0`-`9` or `_`.
pub open spec fn is_attr_char(c: char) -> bool {
    (97 <= c as int && c as int <= 122) || (48 <= c as int && c as int <= 57) || c == '_'
}

/// An attribute name is non-empty and made of `a`-`z`, `0`-`9` and `_`;
/// the variations with a one-word display name (identifiers up to 25) use
/// that name in lower case.
pub proof fn lemma_attr_name_form(v: Variation)
    ensures
        v.spec_attr_name().len() > 0,
        forall|i: int|
            0 <= i < v.spec_attr_name().len() ==> is_attr_char(#[trigger] v.spec_attr_name()[i]),
        v.spec_id() <= 25 ==> v.spec_attr_name() == ascii_lower(v.spec_name()),
{
    match v {
        Variation::Linear => {
            reveal_strlit("linear");
            reveal_strlit("Linear");
            assert(ascii_lower("Linear"@) =~= "linear"@);
            assert(forall|i: int| 0 <= i < "linear"@.len() ==> is_attr_char(#[trigger] "linear"@[i]));
        },
        Variation::Sinusoidal => {
            reveal_strlit("sinusoidal");
            reveal_strlit("Sinusoidal");
            assert(ascii_lower("Sinusoidal"@) =~= "sinusoidal"@);
            assert(forall|i: int| 0 <= i < "sinusoidal"@.len() ==> is_attr_char(#[trigger] "sinusoidal"@[i]));
        },
        Variation::Spherical => {
            reveal_strlit("spherical");
            reveal_strlit("Spherical");
            assert(ascii_lower("Spherical"@) =~= "spherical"@);
            assert(forall|i: int| 0 <= i < "spherical"@.len() ==> is_attr_char(#[trigger] "spherical"@[i]));
        },
        Variation::Swirl => {
            reveal_strlit("swirl");
            reveal_strlit("Swirl");
            assert(ascii_lower("Swirl"@) =~= "swirl"@);
            assert(forall|i: int| 0 <= i < "swirl"@.len() ==> is_attr_char(#[trigger] "swirl"@[i]));
        },
        Variation::Horseshoe => {
            reveal_strlit("horseshoe");
            reveal_strlit("Horseshoe");
            assert(ascii_lower("Horseshoe"@) =~= "horseshoe"@);
            assert(forall|i: int| 0 <= i < "horseshoe"@.len() ==> is_attr_char(#[trigger] "horseshoe"@[i]));
        },
        Variation::Polar => {
            reveal_strlit("polar");
            reveal_strlit("Polar");
            assert(ascii_lower("Polar"@) =~= "polar"@);
            assert(forall|i: int| 0 <= i < "polar"@.len() ==> is_attr_char(#[trigger] "polar"@[i]));
        },
        Variation::Handkerchief => {
            reveal_strlit("handkerchief");
            reveal_strlit("Handkerchief");
            assert(ascii_lower("Handkerchief"@) =~= "handkerchief"@);
            assert(forall|i: int| 0 <= i < "handkerchief"@.len() ==> is_attr_char(#[trigger] "handkerchief"@[i]));
        },
        Variation::Heart => {
            reveal_strlit("heart");
            reveal_strlit("Heart");
            assert(ascii_lower("Heart"@) =~= "heart"@);
            assert(forall|i: int| 0 <= i < "heart"@.len() ==> is_attr_char(#[trigger] "heart"@[i]));
        },
        Variation::Disc => {
            reveal_strlit("disc");
            reveal_strlit("Disc");
            assert(ascii_lower("Disc"@) =~= "disc"@);
            assert(forall|i: int| 0 <= i < "disc"@.len() ==> is_attr_char(#[trigger] "disc"@[i]));
        },
        Variation::Spiral => {
            reveal_strlit("spiral");
            reveal_strlit("Spiral");
            assert(ascii_lower("Spiral"@) =~= "spiral"@);
            assert(forall|i: int| 0 <= i < "spiral"@.len() ==> is_attr_char(#[trigger] "spiral"@[i]));
        },
        Variation::Hyperbolic => {
            reveal_strlit("hyperbolic");
            reveal_strlit("Hyperbolic");
            assert(ascii_lower("Hyperbolic"@) =~= "hyperbolic"@);
            assert(forall|i: int| 0 <= i < "hyperbolic"@.len() ==> is_attr_char(#[trigger] "hyperbolic"@[i]));
        },
        Variation::Diamond => {
            reveal_strlit("diamond");
            reveal_strlit("Diamond");
            assert(ascii_lower("Diamond"@) =~= "diamond"@);
            assert(forall|i: int| 0 <= i < "diamond"@.len() ==> is_attr_char(#[trigger] "diamond"@[i]));
        },
        Variation::Ex => {
            reveal_strlit("ex");
            reveal_strlit("Ex");
            assert(ascii_lower("Ex"@) =~= "ex"@);
            assert(forall|i: int| 0 <= i < "ex"@.len() ==> is_attr_char(#[trigger] "ex"@[i]));
        },
        Variation::Julia => {
            reveal_strlit("julia");
            reveal_strlit("Julia");
            assert(ascii_lower("Julia"@) =~= "julia"@);
            assert(forall|i: int| 0 <= i < "julia"@.len() ==> is_attr_char(#[trigger] "julia"@[i]));
        },
        Variation::Bent => {
            reveal_strlit("bent");
            reveal_strlit("Bent");
            assert(ascii_lower("Bent"@) =~= "bent"@);
            assert(forall|i: int| 0 <= i < "bent"@.len() ==> is_attr_char(#[trigger] "bent"@[i]));
        },
        Variation::Waves => {
            reveal_strlit("waves");
            reveal_strlit("Waves");
            assert(ascii_lower("Waves"@) =~= "waves"@);
            assert(forall|i: int| 0 <= i < "waves"@.len() ==> is_attr_char(#[trigger] "waves"@[i]));
        },
        Variation::Fisheye => {
            reveal_strlit("fisheye");
            reveal_strlit("Fisheye");
            assert(ascii_lower("Fisheye"@) =~= "fisheye"@);
            assert(forall|i: int| 0 <= i < "fisheye"@.len() ==> is_attr_char(#[trigger] "fisheye"@[i]));
        },
        Variation::Popcorn => {
            reveal_strlit("popcorn");
            reveal_strlit("Popcorn");
            assert(ascii_lower("Popcorn"@) =~= "popcorn"@);
            assert(forall|i: int| 0 <= i < "popcorn"@.len() ==> is_attr_char(#[trigger] "popcorn"@[i]));
        },
        Variation::Exponential => {
            reveal_strlit("exponential");
            reveal_strlit("Exponential");
            assert(ascii_lower("Exponential"@) =~= "exponential"@);
            assert(forall|i: int| 0 <= i < "exponential"@.len() ==> is_attr_char(#[trigger] "exponential"@[i]));
        },
        Variation::Power => {
            reveal_strlit("power");
            reveal_strlit("Power");
            assert(ascii_lower("Power"@) =~= "power"@);
            assert(forall|i: int| 0 <= i < "power"@.len() ==> is_attr_char(#[trigger] "power"@[i]));
        },
        Variation::Cosine => {
            reveal_strlit("cosine");
            reveal_strlit("Cosine");
            assert(ascii_lower("Cosine"@) =~= "cosine"@);
            assert(forall|i: int| 0 <= i < "cosine"@.len() ==> is_attr_char(#[trigger] "cosine"@[i]));
        },
        Variation::Eyefish => {
            reveal_strlit("eyefish");
            reveal_strlit("Eyefish");
            assert(ascii_lower("Eyefish"@) =~= "eyefish"@);
            assert(forall|i: int| 0 <= i < "eyefish"@.len() ==> is_attr_char(#[trigger] "eyefish"@[i]));
        },
        Variation::Bubble => {
            reveal_strlit("bubble");
            reveal_strlit("Bubble");
            assert(ascii_lower("Bubble"@) =~= "bubble"@);
            assert(forall|i: int| 0 <= i < "bubble"@.len() ==> is_attr_char(#[trigger] "bubble"@[i]));
        },
        Variation::Cylinder => {
            reveal_strlit("cylinder");
            reveal_strlit("Cylinder");
            assert(ascii_lower("Cylinder"@) =~= "cylinder"@);
            assert(forall|i: int| 0 <= i < "cylinder"@.len() ==> is_attr_char(#[trigger] "cylinder"@[i]));
        },
        Variation::Noise => {
            reveal_strlit("noise");
            reveal_strlit("Noise");
            assert(ascii_lower("Noise"@) =~= "noise"@);
            assert(forall|i: int| 0 <= i < "noise"@.len() ==> is_attr_char(#[trigger] "noise"@[i]));
        },
        Variation::Blur => {
            reveal_strlit("blur");
            reveal_strlit("Blur");
            assert(ascii_lower("Blur"@) =~= "blur"@);
            assert(forall|i: int| 0 <= i < "blur"@.len() ==> is_attr_char(#[trigger] "blur"@[i]));
        },
        Variation::GaussianBlur => {
            reveal_strlit("gaussian_blur");
            assert(forall|i: int| 0 <= i < "gaussian_blur"@.len() ==> is_attr_char(#[trigger] "gaussian_blur"@[i]));
        },
        Variation::Orb9000 => {
            reveal_strlit("f9k_orb");
            assert(forall|i: int| 0 <= i < "f9k_orb"@.len() ==> is_attr_char(#[trigger] "f9k_orb"@[i]));
        },
        Variation::Ripple9000 => {
            reveal_strlit("f9k_ripple");
            assert(forall|i: int| 0 <= i < "f9k_ripple"@.len() ==> is_attr_char(#[trigger] "f9k_ripple"@[i]));
        },
        Variation::Bulge9000 => {
            reveal_strlit("f9k_bulge");
            assert(forall|i: int| 0 <= i < "f9k_bulge"@.len() ==> is_attr_char(#[trigger] "f9k_bulge"@[i]));
        },
    }
}

/// The display names of the variations in the order of the identifiers the
/// flame format gives them.
pub open spec fn format_names_by_id() -> Seq<Seq<char>> {
    seq![
        "Linear"@,
        "Sinusoidal"@,
        "Spherical"@,
        "Swirl"@,
        "Horseshoe"@,
        "Polar"@,
        "Handkerchief"@,
        "Heart"@,
        "Disc"@,
        "Spiral"@,
        "Hyperbolic"@,
        "Diamond"@,
        "Ex"@,
        "Julia"@,
        "Bent"@,
        "Waves"@,
        "Fisheye"@,
        "Popcorn"@,
        "Exponential"@,
        "Power"@,
        "Cosine"@,
        "Eyefish"@,
        "Bubble"@,
        "Cylinder"@,
        "Noise"@,
        "Blur"@,
        "Gaussian Blur"@,
        "Orb 9000"@,
        "Ripple 9000"@,
        "Bulge 9000"@,
    ]
}

/// Identifiers follow the flame format's numbering: a variation's
/// identifier is the position of its name in the format's list, and each
/// identifier below 30 looks up the variation of that name.
pub proof fn lemma_id_follows_format(v: Variation, id: u8)
    ensures
        format_names_by_id().len() == VARIATION_COUNT,
        format_names_by_id()[v.spec_id() as int] == v.spec_name(),
        id < VARIATION_COUNT ==> (Variation::spec_by_id(id) matches Some(w) && w.spec_name()
            == format_names_by_id()[id as int]),
{
}

/// The attribute name a display name gives: a `... 9000` variation is
/// `f9k_` and the first word in lower case; any other is the name in lower
/// case with `_` for each space.
pub open spec fn attr_name_from_display(n: Seq<char>) -> Seq<char> {
    if n.len() > 5 && n.subrange(n.len() - 5, n.len() as int) == seq![' ', '9', '0', '0', '0'] {
        seq!['f', '9', 'k', '_'] + ascii_lower(n.subrange(0, n.len() - 5))
    } else {
        n.map_values(|c: char| if c == ' ' { '_' } else { ascii_lower_char(c) })
    }
}

/// A variation's XML attribute name is derived from its display name.
pub proof fn lemma_attr_name_from_display(v: Variation)
    ensures
        v.spec_attr_name() == attr_name_from_display(v.spec_name()),
{
    match v {
        Variation::Linear => {
            reveal_strlit("Linear");
            reveal_strlit("linear");
            assert(attr_name_from_display("Linear"@) =~= "linear"@);
        },
        Variation::Sinusoidal => {
            reveal_strlit("Sinusoidal");
            reveal_strlit("sinusoidal");
            assert(attr_name_from_display("Sinusoidal"@) =~= "sinusoidal"@);
        },
        Variation::Spherical => {
            reveal_strlit("Spherical");
            reveal_strlit("spherical");
            assert(attr_name_from_display("Spherical"@) =~= "spherical"@);
        },
        Variation::Swirl => {
            reveal_strlit("Swirl");
            reveal_strlit("swirl");
            assert(attr_name_from_display("Swirl"@) =~= "swirl"@);
        },
        Variation::Horseshoe => {
            reveal_strlit("Horseshoe");
            reveal_strlit("horseshoe");
            assert(attr_name_from_display("Horseshoe"@) =~= "horseshoe"@);
        },
        Variation::Polar => {
            reveal_strlit("Polar");
            reveal_strlit("polar");
            assert(attr_name_from_display("Polar"@) =~= "polar"@);
        },
        Variation::Handkerchief => {
            reveal_strlit("Handkerchief");
            reveal_strlit("handkerchief");
            assert(attr_name_from_display("Handkerchief"@) =~= "handkerchief"@);
        },
        Variation::Heart => {
            reveal_strlit("Heart");
            reveal_strlit("heart");
            assert(attr_name_from_display("Heart"@) =~= "heart"@);
        },
        Variation::Disc => {
            reveal_strlit("Disc");
            reveal_strlit("disc");
            assert(attr_name_from_display("Disc"@) =~= "disc"@);
        },
        Variation::Spiral => {
            reveal_strlit("Spiral");
            reveal_strlit("spiral");
            assert(attr_name_from_display("Spiral"@) =~= "spiral"@);
        },
        Variation::Hyperbolic => {
            reveal_strlit("Hyperbolic");
            reveal_strlit("hyperbolic");
            assert(attr_name_from_display("Hyperbolic"@) =~= "hyperbolic"@);
        },
        Variation::Diamond => {
            reveal_strlit("Diamond");
            reveal_strlit("diamond");
            assert(attr_name_from_display("Diamond"@) =~= "diamond"@);
        },
        Variation::Ex => {
            reveal_strlit("Ex");
            reveal_strlit("ex");
            assert(attr_name_from_display("Ex"@) =~= "ex"@);
        },
        Variation::Julia => {
            reveal_strlit("Julia");
            reveal_strlit("julia");
            assert(attr_name_from_display("Julia"@) =~= "julia"@);
        },
        Variation::Bent => {
            reveal_strlit("Bent");
            reveal_strlit("bent");
            assert(attr_name_from_display("Bent"@) =~= "bent"@);
        },
        Variation::Waves => {
            reveal_strlit("Waves");
            reveal_strlit("waves");
            assert(attr_name_from_display("Waves"@) =~= "waves"@);
        },
        Variation::Fisheye => {
            reveal_strlit("Fisheye");
            reveal_strlit("fisheye");
            assert(attr_name_from_display("Fisheye"@) =~= "fisheye"@);
        },
        Variation::Popcorn => {
            reveal_strlit("Popcorn");
            reveal_strlit("popcorn");
            assert(attr_name_from_display("Popcorn"@) =~= "popcorn"@);
        },
        Variation::Exponential => {
            reveal_strlit("Exponential");
            reveal_strlit("exponential");
            assert(attr_name_from_display("Exponential"@) =~= "exponential"@);
        },
        Variation::Power => {
            reveal_strlit("Power");
            reveal_strlit("power");
            assert(attr_name_from_display("Power"@) =~= "power"@);
        },
        Variation::Cosine => {
            reveal_strlit("Cosine");
            reveal_strlit("cosine");
            assert(attr_name_from_display("Cosine"@) =~= "cosine"@);
        },
        Variation::Eyefish => {
            reveal_strlit("Eyefish");
            reveal_strlit("eyefish");
            assert(attr_name_from_display("Eyefish"@) =~= "eyefish"@);
        },
        Variation::Bubble => {
            reveal_strlit("Bubble");
            reveal_strlit("bubble");
            assert(attr_name_from_display("Bubble"@) =~= "bubble"@);
        },
        Variation::Cylinder => {
            reveal_strlit("Cylinder");
            reveal_strlit("cylinder");
            assert(attr_name_from_display("Cylinder"@) =~= "cylinder"@);
        },
        Variation::Noise => {
            reveal_strlit("Noise");
            reveal_strlit("noise");
            assert(attr_name_from_display("Noise"@) =~= "noise"@);
        },
        Variation::Blur => {
            reveal_strlit("Blur");
            reveal_strlit("blur");
            assert(attr_name_from_display("Blur"@) =~= "blur"@);
        },
        Variation::GaussianBlur => {
            reveal_strlit("Gaussian Blur");
            reveal_strlit("gaussian_blur");
            assert(attr_name_from_display("Gaussian Blur"@) =~= "gaussian_blur"@);
        },
        Variation::Orb9000 => {
            reveal_strlit("Orb 9000");
            reveal_strlit("f9k_orb");
            let n = "Orb 9000"@;
            assert(n.len() == 8);
            assert(n.subrange(3, 8) =~= seq![' ', '9', '0', '0', '0']);
            assert(n.subrange(0, 3) =~= seq!['O', 'r', 'b']);
            assert(ascii_lower(n.subrange(0, 3)) =~= seq!['o', 'r', 'b']);
            assert(attr_name_from_display(n) =~= "f9k_orb"@);
        },
        Variation::Ripple9000 => {
            reveal_strlit("Ripple 9000");
            reveal_strlit("f9k_ripple");
            let n = "Ripple 9000"@;
            assert(n.len() == 11);
            assert(n.subrange(6, 11) =~= seq![' ', '9', '0', '0', '0']);
            assert(n.subrange(0, 6) =~= seq!['R', 'i', 'p', 'p', 'l', 'e']);
            assert(ascii_lower(n.subrange(0, 6)) =~= seq!['r', 'i', 'p', 'p', 'l', 'e']);
            assert(attr_name_from_display(n) =~= "f9k_ripple"@);
        },
        Variation::Bulge9000 => {
            reveal_strlit("Bulge 9000");
            reveal_strlit("f9k_bulge");
            let n = "Bulge 9000"@;
            assert(n.len() == 10);
            assert(n.subrange(5, 10) =~= seq![' ', '9', '0', '0', '0']);
            assert(n.subrange(0, 5) =~= seq!['B', 'u', 'l', 'g', 'e']);
            assert(ascii_lower(n.subrange(0, 5)) =~= seq!['b', 'u', 'l', 'g', 'e']);
            assert(attr_name_from_display(n) =~= "f9k_bulge"@);
        },
    }
}

} // verus!
