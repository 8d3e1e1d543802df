//! Reading an Apophysis `<flame>` block: which elements a reader acts on,
//! which field each attribute sets, and the walk over the document's XML
//! events that turns it into an ordered list of fields.  Attribute values
//! stay text; the application reads them as floating-point numbers.
use vstd::prelude::*;
use crate::io::ParseError;
use crate::text::str_eq;
use crate::variations::Variation;
use quick_xml::events::attributes::Attributes;
use quick_xml::events::Event;
use quick_xml::Reader;

verus! {

/// What a reader does with an XML element.
#[derive(Clone, Copy, Debug, PartialEq, Eq, Hash, Structural)]
pub enum ElementRole {
    /// The start tag of `<flame ...>`: its attributes describe the flame.
    FlameHeader,
    /// An `<xform .../>` (empty or not): one branch.
    Branch,
    /// Anything else is skipped.
    Skipped,
}

/// An empty `<flame/>` carries no branches and is skipped; an `<xform>` is a
/// branch whether or not it is empty.
pub open spec fn spec_element_role(name: Seq<char>, empty: bool) -> ElementRole {
    if name == "flame"@ && !empty {
        ElementRole::FlameHeader
    } else if name == "xform"@ {
        ElementRole::Branch
    } else {
        ElementRole::Skipped
    }
}

/// The role of an element with tag `name`; `empty` for a self-closing tag.
pub fn element_role(name: &str, empty: bool) -> (r: ElementRole)
    ensures
        r == spec_element_role(name@, empty),
{
    if !empty && str_eq(name, "flame") {
        ElementRole::FlameHeader
    } else if str_eq(name, "xform") {
        ElementRole::Branch
    } else {
        ElementRole::Skipped
    }
}

/// The field of the flame that an attribute of `<flame>` sets.
#[derive(Clone, Copy, Debug, PartialEq, Eq, Hash, Structural)]
pub enum FlameAttr {
    Name,
    /// Recognised and ignored: the file's version is not kept.
    Version,
    Size,
    Center,
    Scale,
    Zoom,
    Rotate,
    Background,
    Brightness,
    Gamma,
    Vibrancy,
    /// Any other attribute is ignored.
    Unknown,
}

pub open spec fn spec_flame_attr(key: Seq<char>) -> FlameAttr {
    if key == "name"@ {
        FlameAttr::Name
    } else if key == "version"@ {
        FlameAttr::Version
    } else if key == "size"@ {
        FlameAttr::Size
    } else if key == "center"@ {
        FlameAttr::Center
    } else if key == "scale"@ {
        FlameAttr::Scale
    } else if key == "zoom"@ {
        FlameAttr::Zoom
    } else if key == "rotate"@ {
        FlameAttr::Rotate
    } else if key == "background"@ {
        FlameAttr::Background
    } else if key == "brightness"@ {
        FlameAttr::Brightness
    } else if key == "gamma"@ {
        FlameAttr::Gamma
    } else if key == "vibrancy"@ {
        FlameAttr::Vibrancy
    } else {
        FlameAttr::Unknown
    }
}

/// The flame field set by the `<flame>` attribute `key`.
pub fn flame_attr(key: &str) -> (r: FlameAttr)
    ensures
        r == spec_flame_attr(key@),
{
    if str_eq(key, "name") {
        FlameAttr::Name
    } else if str_eq(key, "version") {
        FlameAttr::Version
    } else if str_eq(key, "size") {
        FlameAttr::Size
    } else if str_eq(key, "center") {
        FlameAttr::Center
    } else if str_eq(key, "scale") {
        FlameAttr::Scale
    } else if str_eq(key, "zoom") {
        FlameAttr::Zoom
    } else if str_eq(key, "rotate") {
        FlameAttr::Rotate
    } else if str_eq(key, "background") {
        FlameAttr::Background
    } else if str_eq(key, "brightness") {
        FlameAttr::Brightness
    } else if str_eq(key, "gamma") {
        FlameAttr::Gamma
    } else if str_eq(key, "vibrancy") {
        FlameAttr::Vibrancy
    } else {
        FlameAttr::Unknown
    }
}

/// The field of a branch that an attribute of `<xform>` sets.
#[derive(Clone, Copy, Debug, PartialEq, Eq, Hash, Structural)]
pub enum XformAttr {
    Weight,
    /// First chroma coordinate.
    Color,
    /// Second chroma coordinate.
    Color2,
    /// The pre-affine coefficients `a b c d e f`.
    Coefs,
    /// The post-affine coefficients.
    Post,
    /// The weight of a variation, named by its attribute name.
    Variation(Variation),
    /// Any other attribute is ignored.
    Unknown,
}

/// The fixed attribute names come first; any other name is looked up among
/// the variations' attribute names.
pub open spec fn spec_xform_attr(key: Seq<char>) -> XformAttr {
    if key == "weight"@ {
        XformAttr::Weight
    } else if key == "color"@ {
        XformAttr::Color
    } else if key == "f9k_color2"@ {
        XformAttr::Color2
    } else if key == "coefs"@ {
        XformAttr::Coefs
    } else if key == "post"@ {
        XformAttr::Post
    } else {
        match Variation::spec_by_attr_name(key) {
            Some(v) => XformAttr::Variation(v),
            None => XformAttr::Unknown,
        }
    }
}

/// The branch field set by the `<xform>` attribute `key`.
pub fn xform_attr(key: &str) -> (r: XformAttr)
    ensures
        r == spec_xform_attr(key@),
        r matches XformAttr::Variation(v) ==> v.spec_attr_name() == key@,
{
    if str_eq(key, "weight") {
        XformAttr::Weight
    } else if str_eq(key, "color") {
        XformAttr::Color
    } else if str_eq(key, "f9k_color2") {
        XformAttr::Color2
    } else if str_eq(key, "coefs") {
        XformAttr::Coefs
    } else if str_eq(key, "post") {
        XformAttr::Post
    } else {
        match Variation::by_attr_name(key) {
            Some(v) => XformAttr::Variation(v),
            None => XformAttr::Unknown,
        }
    }
}

// ---------------------------------------------------------------------------
// Attribute names
// ---------------------------------------------------------------------------

/// The attribute name of the flame format that sets a flame field (empty
/// for an unknown attribute).
pub open spec fn flame_attr_name(a: FlameAttr) -> Seq<char> {
    match a {
        FlameAttr::Name => seq!['n', 'a', 'm', 'e'],
        FlameAttr::Version => seq!['v', 'e', 'r', 's', 'i', 'o', 'n'],
        FlameAttr::Size => seq!['s', 'i', 'z', 'e'],
        FlameAttr::Center => seq!['c', 'e', 'n', 't', 'e', 'r'],
        FlameAttr::Scale => seq!['s', 'c', 'a', 'l', 'e'],
        FlameAttr::Zoom => seq!['z', 'o', 'o', 'm'],
        FlameAttr::Rotate => seq!['r', 'o', 't', 'a', 't', 'e'],
        FlameAttr::Background => seq!['b', 'a', 'c', 'k', 'g', 'r', 'o', 'u', 'n', 'd'],
        FlameAttr::Brightness => seq!['b', 'r', 'i', 'g', 'h', 't', 'n', 'e', 's', 's'],
        FlameAttr::Gamma => seq!['g', 'a', 'm', 'm', 'a'],
        FlameAttr::Vibrancy => seq!['v', 'i', 'b', 'r', 'a', 'n', 'c', 'y'],
        FlameAttr::Unknown => Seq::empty(),
    }
}

/// The attribute name of the flame format that sets a branch field: a
/// fixed name, or the variation's own attribute name (empty for an unknown
/// attribute).
pub open spec fn xform_attr_name(a: XformAttr) -> Seq<char> {
    match a {
        XformAttr::Weight => seq!['w', 'e', 'i', 'g', 'h', 't'],
        XformAttr::Color => seq!['c', 'o', 'l', 'o', 'r'],
        XformAttr::Color2 => seq!['f', '9', 'k', '_', 'c', 'o', 'l', 'o', 'r', '2'],
        XformAttr::Coefs => seq!['c', 'o', 'e', 'f', 's'],
        XformAttr::Post => seq!['p', 'o', 's', 't'],
        XformAttr::Variation(v) => v.spec_attr_name(),
        XformAttr::Unknown => Seq::empty(),
    }
}

/// No variation's attribute name is one of the fixed `<xform>` attribute
/// names.
proof fn lemma_variation_attr_not_fixed(v: Variation)
    ensures
        v.spec_attr_name() != "weight"@,
        v.spec_attr_name() != "color"@,
        v.spec_attr_name() != "f9k_color2"@,
        v.spec_attr_name() != "coefs"@,
        v.spec_attr_name() != "post"@,
{
    reveal_strlit("weight");
    reveal_strlit("color");
    reveal_strlit("f9k_color2");
    reveal_strlit("coefs");
    reveal_strlit("post");
    match v {
        Variation::Linear => {
            reveal_strlit("linear");
            assert("linear"@[0] != "weight"@[0]);
            assert("linear"@.len() != "color"@.len());
            assert("linear"@.len() != "f9k_color2"@.len());
            assert("linear"@.len() != "coefs"@.len());
            assert("linear"@.len() != "post"@.len());
        },
        Variation::Sinusoidal => {
            reveal_strlit("sinusoidal");
            assert("sinusoidal"@.len() != "weight"@.len());
            assert("sinusoidal"@.len() != "color"@.len());
            assert("sinusoidal"@[0] != "f9k_color2"@[0]);
            assert("sinusoidal"@.len() != "coefs"@.len());
            assert("sinusoidal"@.len() != "post"@.len());
        },
        Variation::Spherical => {
            reveal_strlit("spherical");
            assert("spherical"@.len() != "weight"@.len());
            assert("spherical"@.len() != "color"@.len());
            assert("spherical"@.len() != "f9k_color2"@.len());
            assert("spherical"@.len() != "coefs"@.len());
            assert("spherical"@.len() != "post"@.len());
        },
        Variation::Swirl => {
            reveal_strlit("swirl");
            assert("swirl"@.len() != "weight"@.len());
            assert("swirl"@[0] != "color"@[0]);
            assert("swirl"@.len() != "f9k_color2"@.len());
            assert("swirl"@[0] != "coefs"@[0]);
            assert("swirl"@.len() != "post"@.len());
        },
        Variation::Horseshoe => {
            reveal_strlit("horseshoe");
            assert("horseshoe"@.len() != "weight"@.len());
            assert("horseshoe"@.len() != "color"@.len());
            assert("horseshoe"@.len() != "f9k_color2"@.len());
            assert("horseshoe"@.len() != "coefs"@.len());
            assert("horseshoe"@.len() != "post"@.len());
        },
        Variation::Polar => {
            reveal_strlit("polar");
            assert("polar"@.len() != "weight"@.len());
            assert("polar"@[0] != "color"@[0]);
            assert("polar"@.len() != "f9k_color2"@.len());
            assert("polar"@[0] != "coefs"@[0]);
            assert("polar"@.len() != "post"@.len());
        },
        Variation::Handkerchief => {
            reveal_strlit("handkerchief");
            assert("handkerchief"@.len() != "weight"@.len());
            assert("handkerchief"@.len() != "color"@.len());
            assert("handkerchief"@.len() != "f9k_color2"@.len());
            assert("handkerchief"@.len() != "coefs"@.len());
            assert("handkerchief"@.len() != "post"@.len());
        },
        Variation::Heart => {
            reveal_strlit("heart");
            assert("heart"@.len() != "weight"@.len());
            assert("heart"@[0] != "color"@[0]);
            assert("heart"@.len() != "f9k_color2"@.len());
            assert("heart"@[0] != "coefs"@[0]);
            assert("heart"@.len() != "post"@.len());
        },
        Variation::Disc => {
            reveal_strlit("disc");
            assert("disc"@.len() != "weight"@.len());
            assert("disc"@.len() != "color"@.len());
            assert("disc"@.len() != "f9k_color2"@.len());
            assert("disc"@.len() != "coefs"@.len());
            assert("disc"@[0] != "post"@[0]);
        },
        Variation::Spiral => {
            reveal_strlit("spiral");
            assert("spiral"@[0] != "weight"@[0]);
            assert("spiral"@.len() != "color"@.len());
            assert("spiral"@.len() != "f9k_color2"@.len());
            assert("spiral"@.len() != "coefs"@.len());
            assert("spiral"@.len() != "post"@.len());
        },
        Variation::Hyperbolic => {
            reveal_strlit("hyperbolic");
            assert("hyperbolic"@.len() != "weight"@.len());
            assert("hyperbolic"@.len() != "color"@.len());
            assert("hyperbolic"@[0] != "f9k_color2"@[0]);
            assert("hyperbolic"@.len() != "coefs"@.len());
            assert("hyperbolic"@.len() != "post"@.len());
        },
        Variation::Diamond => {
            reveal_strlit("diamond");
            assert("diamond"@.len() != "weight"@.len());
            assert("diamond"@.len() != "color"@.len());
            assert("diamond"@.len() != "f9k_color2"@.len());
            assert("diamond"@.len() != "coefs"@.len());
            assert("diamond"@.len() != "post"@.len());
        },
        Variation::Ex => {
            reveal_strlit("ex");
            assert("ex"@.len() != "weight"@.len());
            assert("ex"@.len() != "color"@.len());
            assert("ex"@.len() != "f9k_color2"@.len());
            assert("ex"@.len() != "coefs"@.len());
            assert("ex"@.len() != "post"@.len());
        },
        Variation::Julia => {
            reveal_strlit("julia");
            assert("julia"@.len() != "weight"@.len());
            assert("julia"@[0] != "color"@[0]);
            assert("julia"@.len() != "f9k_color2"@.len());
            assert("julia"@[0] != "coefs"@[0]);
            assert("julia"@.len() != "post"@.len());
        },
        Variation::Bent => {
            reveal_strlit("bent");
            assert("bent"@.len() != "weight"@.len());
            assert("bent"@.len() != "color"@.len());
            assert("bent"@.len() != "f9k_color2"@.len());
            assert("bent"@.len() != "coefs"@.len());
            assert("bent"@[0] != "post"@[0]);
        },
        Variation::Waves => {
            reveal_strlit("waves");
            assert("waves"@.len() != "weight"@.len());
            assert("waves"@[0] != "color"@[0]);
            assert("waves"@.len() != "f9k_color2"@.len());
            assert("waves"@[0] != "coefs"@[0]);
            assert("waves"@.len() != "post"@.len());
        },
        Variation::Fisheye => {
            reveal_strlit("fisheye");
            assert("fisheye"@.len() != "weight"@.len());
            assert("fisheye"@.len() != "color"@.len());
            assert("fisheye"@.len() != "f9k_color2"@.len());
            assert("fisheye"@.len() != "coefs"@.len());
            assert("fisheye"@.len() != "post"@.len());
        },
        Variation::Popcorn => {
            reveal_strlit("popcorn");
            assert("popcorn"@.len() != "weight"@.len());
            assert("popcorn"@.len() != "color"@.len());
            assert("popcorn"@.len() != "f9k_color2"@.len());
            assert("popcorn"@.len() != "coefs"@.len());
            assert("popcorn"@.len() != "post"@.len());
        },
        Variation::Exponential => {
            reveal_strlit("exponential");
            assert("exponential"@.len() != "weight"@.len());
            assert("exponential"@.len() != "color"@.len());
            assert("exponential"@.len() != "f9k_color2"@.len());
            assert("exponential"@.len() != "coefs"@.len());
            assert("exponential"@.len() != "post"@.len());
        },
        Variation::Power => {
            reveal_strlit("power");
            assert("power"@.len() != "weight"@.len());
            assert("power"@[0] != "color"@[0]);
            assert("power"@.len() != "f9k_color2"@.len());
            assert("power"@[0] != "coefs"@[0]);
            assert("power"@.len() != "post"@.len());
        },
        Variation::Cosine => {
            reveal_strlit("cosine");
            assert("cosine"@[0] != "weight"@[0]);
            assert("cosine"@.len() != "color"@.len());
            assert("cosine"@.len() != "f9k_color2"@.len());
            assert("cosine"@.len() != "coefs"@.len());
            assert("cosine"@.len() != "post"@.len());
        },
        Variation::Eyefish => {
            reveal_strlit("eyefish");
            assert("eyefish"@.len() != "weight"@.len());
            assert("eyefish"@.len() != "color"@.len());
            assert("eyefish"@.len() != "f9k_color2"@.len());
            assert("eyefish"@.len() != "coefs"@.len());
            assert("eyefish"@.len() != "post"@.len());
        },
        Variation::Bubble => {
            reveal_strlit("bubble");
            assert("bubble"@[0] != "weight"@[0]);
            assert("bubble"@.len() != "color"@.len());
            assert("bubble"@.len() != "f9k_color2"@.len());
            assert("bubble"@.len() != "coefs"@.len());
            assert("bubble"@.len() != "post"@.len());
        },
        Variation::Cylinder => {
            reveal_strlit("cylinder");
            assert("cylinder"@.len() != "weight"@.len());
            assert("cylinder"@.len() != "color"@.len());
            assert("cylinder"@.len() != "f9k_color2"@.len());
            assert("cylinder"@.len() != "coefs"@.len());
            assert("cylinder"@.len() != "post"@.len());
        },
        Variation::Noise => {
            reveal_strlit("noise");
            assert("noise"@.len() != "weight"@.len());
            assert("noise"@[0] != "color"@[0]);
            assert("noise"@.len() != "f9k_color2"@.len());
            assert("noise"@[0] != "coefs"@[0]);
            assert("noise"@.len() != "post"@.len());
        },
        Variation::Blur => {
            reveal_strlit("blur");
            assert("blur"@.len() != "weight"@.len());
            assert("blur"@.len() != "color"@.len());
            assert("blur"@.len() != "f9k_color2"@.len());
            assert("blur"@.len() != "coefs"@.len());
            assert("blur"@[0] != "post"@[0]);
        },
        Variation::GaussianBlur => {
            reveal_strlit("gaussian_blur");
            assert("gaussian_blur"@.len() != "weight"@.len());
            assert("gaussian_blur"@.len() != "color"@.len());
            assert("gaussian_blur"@.len() != "f9k_color2"@.len());
            assert("gaussian_blur"@.len() != "coefs"@.len());
            assert("gaussian_blur"@.len() != "post"@.len());
        },
        Variation::Orb9000 => {
            reveal_strlit("f9k_orb");
            assert("f9k_orb"@.len() != "weight"@.len());
            assert("f9k_orb"@.len() != "color"@.len());
            assert("f9k_orb"@.len() != "f9k_color2"@.len());
            assert("f9k_orb"@.len() != "coefs"@.len());
            assert("f9k_orb"@.len() != "post"@.len());
        },
        Variation::Ripple9000 => {
            reveal_strlit("f9k_ripple");
            assert("f9k_ripple"@.len() != "weight"@.len());
            assert("f9k_ripple"@.len() != "color"@.len());
            assert("f9k_ripple"@[4] != "f9k_color2"@[4]);
            assert("f9k_ripple"@.len() != "coefs"@.len());
            assert("f9k_ripple"@.len() != "post"@.len());
        },
        Variation::Bulge9000 => {
            reveal_strlit("f9k_bulge");
            assert("f9k_bulge"@.len() != "weight"@.len());
            assert("f9k_bulge"@.len() != "color"@.len());
            assert("f9k_bulge"@.len() != "f9k_color2"@.len());
            assert("f9k_bulge"@.len() != "coefs"@.len());
            assert("f9k_bulge"@.len() != "post"@.len());
        },
    }
}

/// A `<flame>` attribute key sets the field whose format name it is, and
/// each field's format name sets that field: every other key is unknown.
pub proof fn lemma_flame_attr_names(key: Seq<char>, a: FlameAttr)
    ensures
        spec_flame_attr(key) != FlameAttr::Unknown ==> flame_attr_name(spec_flame_attr(key)) == key,
        a != FlameAttr::Unknown ==> spec_flame_attr(flame_attr_name(a)) == a,
{
    reveal_strlit("name");
    assert("name"@ =~= seq!['n', 'a', 'm', 'e']);
    reveal_strlit("version");
    assert("version"@ =~= seq!['v', 'e', 'r', 's', 'i', 'o', 'n']);
    reveal_strlit("size");
    assert("size"@ =~= seq!['s', 'i', 'z', 'e']);
    reveal_strlit("center");
    assert("center"@ =~= seq!['c', 'e', 'n', 't', 'e', 'r']);
    reveal_strlit("scale");
    assert("scale"@ =~= seq!['s', 'c', 'a', 'l', 'e']);
    reveal_strlit("zoom");
    assert("zoom"@ =~= seq!['z', 'o', 'o', 'm']);
    reveal_strlit("rotate");
    assert("rotate"@ =~= seq!['r', 'o', 't', 'a', 't', 'e']);
    reveal_strlit("background");
    assert("background"@ =~= seq!['b', 'a', 'c', 'k', 'g', 'r', 'o', 'u', 'n', 'd']);
    reveal_strlit("brightness");
    assert("brightness"@ =~= seq!['b', 'r', 'i', 'g', 'h', 't', 'n', 'e', 's', 's']);
    reveal_strlit("gamma");
    assert("gamma"@ =~= seq!['g', 'a', 'm', 'm', 'a']);
    reveal_strlit("vibrancy");
    assert("vibrancy"@ =~= seq!['v', 'i', 'b', 'r', 'a', 'n', 'c', 'y']);
}

/// An `<xform>` attribute key sets the field whose format name it is, and
/// each field's format name sets that field; a variation is set by its own
/// attribute name.
pub proof fn lemma_xform_attr_names(key: Seq<char>, a: XformAttr)
    ensures
        spec_xform_attr(key) != XformAttr::Unknown ==> xform_attr_name(spec_xform_attr(key)) == key,
        a != XformAttr::Unknown ==> spec_xform_attr(xform_attr_name(a)) == a,
{
    reveal_strlit("weight");
    assert("weight"@ =~= seq!['w', 'e', 'i', 'g', 'h', 't']);
    reveal_strlit("color");
    assert("color"@ =~= seq!['c', 'o', 'l', 'o', 'r']);
    reveal_strlit("f9k_color2");
    assert("f9k_color2"@ =~= seq!['f', '9', 'k', '_', 'c', 'o', 'l', 'o', 'r', '2']);
    reveal_strlit("coefs");
    assert("coefs"@ =~= seq!['c', 'o', 'e', 'f', 's']);
    reveal_strlit("post");
    assert("post"@ =~= seq!['p', 'o', 's', 't']);
    if let XformAttr::Variation(v) = a {
        crate::variations::lemma_attr_name_round_trip(v);
        lemma_variation_attr_not_fixed(v);
    }
    if let XformAttr::Variation(v) = spec_xform_attr(key) {
        assert(Variation::spec_by_attr_name(key) == Some(v));
    }
}

// ---------------------------------------------------------------------------
// XML events
// ---------------------------------------------------------------------------

/// One event of an XML document.
#[derive(Clone, Debug)]
pub enum XmlEvent {
    /// A start tag, or a self-closing tag when `empty`: its name and its text
    /// between `<` and `>` (or `/>`), which begins with the name.
    Tag { empty: bool, name: String, tag: String },
    /// Any other event: an end tag, text, a comment, a declaration.
    Other,
}

/// An attribute as text: key and unescaped value, or the message of the
/// reader's error on it.
pub open spec fn attr_view(a: Result<(String, String), String>) -> Result<
    (Seq<char>, Seq<char>),
    Seq<char>,
> {
    match a {
        Ok((k, v)) => Ok((k@, v@)),
        Err(m) => Err(m@),
    }
}

pub open spec fn attrs_view(attrs: Seq<Result<(String, String), String>>) -> Seq<
    Result<(Seq<char>, Seq<char>), Seq<char>>,
> {
    attrs.map_values(|a: Result<(String, String), String>| attr_view(a))
}

/// An event as plain values: kind (0 other, 1 start tag, 2 self-closing
/// tag), tag name and tag text.
pub open spec fn event_view(e: XmlEvent) -> (int, Seq<char>, Seq<char>) {
    match e {
        XmlEvent::Tag { empty, name, tag } => (
            if empty {
                2
            } else {
                1
            },
            name@,
            tag@,
        ),
        XmlEvent::Other => (0, Seq::empty(), Seq::empty()),
    }
}

/// `name` is how the tag text `tag` begins.
pub open spec fn starts_with_name(tag: Seq<char>, name: Seq<char>) -> bool {
    name.len() <= tag.len() && tag.subrange(0, name.len() as int) == name
}

/// The events quick-xml reads from a document, up to its end or its first
/// syntax error, and that error's message.
pub uninterp spec fn xml_events_of(xml: Seq<char>) -> (Seq<(int, Seq<char>, Seq<char>)>, Option<Seq<char>>);

/// Reads `xml` with quick-xml's `Reader::from_str` and `read_event` until
/// the end of input or the first error; of each start or self-closing tag
/// it keeps `name()` and the tag text.  The contract names the result (it
/// is what the parser reads, a function of the text alone) and states one
/// fact of quick-xml's `BytesStart`: its name is the start of its text.
#[verifier::external_body]
fn xml_events(xml: &str) -> (r: (Vec<XmlEvent>, Option<String>))
    ensures
        r.0@.map_values(|e: XmlEvent| event_view(e)) == xml_events_of(xml@).0,
        match (r.1, xml_events_of(xml@).1) {
            (Some(m), Some(t)) => m@ == t,
            (None, None) => true,
            _ => false,
        },
        forall|i: int|
            0 <= i < r.0@.len() ==> #[trigger] starts_with_name(event_view(r.0@[i]).2, event_view(r.0@[i]).1),
{
    let mut reader = Reader::from_str(xml);
    let mut out = Vec::new();
    loop {
        let (empty, e) = match reader.read_event() {
            Ok(Event::Start(e)) => (false, e),
            Ok(Event::Empty(e)) => (true, e),
            Ok(Event::Eof) => return (out, None),
            Ok(_) => {
                out.push(XmlEvent::Other);
                continue;
            },
            Err(x) => return (out, Some(x.to_string())),
        };
        out.push(XmlEvent::Tag { empty, name: e.name().as_ref().to_string(), tag: String::from(&*e) });
    }
}

/// The attributes quick-xml reads from the text of a tag whose name is
/// `name`.
pub uninterp spec fn tag_attributes_of(tag: Seq<char>, name: Seq<char>) -> Seq<Result<(Seq<char>, Seq<char>), Seq<char>>>;

/// Reads the attributes of a tag with quick-xml's `Attributes::new`, starting
/// after the name (as `BytesStart::attributes` does), each value passed
/// through `unescape_value`.  The contract names the result; the name must
/// begin the text so that reading starts on a character boundary.
#[verifier::external_body]
fn tag_attributes(tag: &str, name: &str) -> (r: Vec<Result<(String, String), String>>)
    requires
        starts_with_name(tag@, name@),
    ensures
        attrs_view(r@) == tag_attributes_of(tag@, name@),
{
    Attributes::new(tag, name.len()).map(|a| a.map_err(|x| x.to_string()).and_then(|a| Ok((a.key.as_ref().to_string(), a.unescape_value().map_err(|x| x.to_string())?.into_owned())))).collect()
}

// ---------------------------------------------------------------------------
// The walk over a flame block
// ---------------------------------------------------------------------------

/// One field of a flame block, in document order.
#[derive(Clone, Debug)]
pub enum FlameField {
    /// An attribute of a `<flame>` start tag.
    Header(FlameAttr, String),
    /// An `<xform>` begins.
    BranchStart,
    /// An attribute of the current `<xform>`.
    Branch(XformAttr, String),
    /// The current `<xform>` is complete.
    BranchEnd,
}

/// A field as plain values.
pub enum FieldSpec {
    Header(FlameAttr, Seq<char>),
    BranchStart,
    Branch(XformAttr, Seq<char>),
    BranchEnd,
}

impl View for FlameField {
    type V = FieldSpec;

    open spec fn view(&self) -> FieldSpec {
        match self {
            FlameField::Header(a, v) => FieldSpec::Header(*a, v@),
            FlameField::BranchStart => FieldSpec::BranchStart,
            FlameField::Branch(a, v) => FieldSpec::Branch(*a, v@),
            FlameField::BranchEnd => FieldSpec::BranchEnd,
        }
    }
}

pub open spec fn fields_view(fs: Seq<FlameField>) -> Seq<FieldSpec> {
    fs.map_values(|f: FlameField| f@)
}

/// The fields set by the attributes of a `<flame>` (`header`) or `<xform>`
/// tag, up to the first attribute that could not be read, and that
/// attribute's message.
pub open spec fn attr_fields(header: bool, attrs: Seq<Result<(Seq<char>, Seq<char>), Seq<char>>>) -> (
    Seq<FieldSpec>,
    Option<Seq<char>>,
)
    decreases attrs.len(),
{
    if attrs.len() == 0 {
        (Seq::empty(), None)
    } else {
        match attrs[0] {
            Err(m) => (Seq::empty(), Some(m)),
            Ok((k, v)) => {
                let f = if header {
                    FieldSpec::Header(spec_flame_attr(k), v)
                } else {
                    FieldSpec::Branch(spec_xform_attr(k), v)
                };
                let rest = attr_fields(header, attrs.drop_first());
                (seq![f] + rest.0, rest.1)
            },
        }
    }
}

/// The fields of one event, given the attributes of its tag: a flame
/// header sets header fields; an `<xform>` (self-closing or not) is a
/// branch, closed unless one of its attributes could not be read; every
/// other event sets nothing.
pub open spec fn event_fields(ev: (int, Seq<char>, Seq<char>), attrs: Seq<Result<(Seq<char>, Seq<char>), Seq<char>>>) -> (
    Seq<FieldSpec>,
    Option<Seq<char>>,
) {
    if ev.0 == 0 {
        (Seq::empty(), None)
    } else {
        match spec_element_role(ev.1, ev.0 == 2) {
            ElementRole::FlameHeader => attr_fields(true, attrs),
            ElementRole::Branch => {
                let a = attr_fields(false, attrs);
                (
                    seq![FieldSpec::BranchStart] + a.0 + if a.1 is None {
                        seq![FieldSpec::BranchEnd]
                    } else {
                        Seq::empty()
                    },
                    a.1,
                )
            },
            ElementRole::Skipped => (Seq::empty(), None),
        }
    }
}

/// The fields of a list of events (event `i` with the attribute list
/// `lists[i]`), up to and including the event whose attribute could not be
/// read, and that attribute's message.
pub open spec fn events_fields(evs: Seq<(int, Seq<char>, Seq<char>)>, lists: Seq<Seq<Result<(Seq<char>, Seq<char>), Seq<char>>>>) -> (
    Seq<FieldSpec>,
    Option<Seq<char>>,
)
    decreases evs.len(),
{
    if evs.len() == 0 {
        (Seq::empty(), None)
    } else {
        let g = event_fields(evs[0], lists[0]);
        if g.1 is Some {
            g
        } else {
            let rest = events_fields(evs.drop_first(), lists.drop_first());
            (g.0 + rest.0, rest.1)
        }
    }
}

/// The fields of a document read into events `evs` with attribute lists
/// `lists` and the reader's error `err`, and the message of the first
/// error: an unreadable attribute, else the reader's error prefixed with
/// `XML parse error: `.
pub open spec fn spec_walk(evs: Seq<(int, Seq<char>, Seq<char>)>, lists: Seq<Seq<Result<(Seq<char>, Seq<char>), Seq<char>>>>, err: Option<Seq<char>>) -> (
    Seq<FieldSpec>,
    Option<Seq<char>>,
) {
    let w = events_fields(evs, lists);
    if w.1 is Some {
        w
    } else {
        match err {
            Some(m) => (w.0, Some("XML parse error: "@ + m)),
            None => (w.0, None),
        }
    }
}

/// The attribute lists a walk reads: those of each `<flame>` start tag and
/// `<xform>` tag, and an empty list for every other event.
pub open spec fn needed_attributes(evs: Seq<(int, Seq<char>, Seq<char>)>) -> Seq<Seq<Result<(Seq<char>, Seq<char>), Seq<char>>>> {
    evs.map_values(
        |ev: (int, Seq<char>, Seq<char>)|
            if ev.0 != 0 && spec_element_role(ev.1, ev.0 == 2) != ElementRole::Skipped {
                tag_attributes_of(ev.2, ev.1)
            } else {
                Seq::empty()
            },
    )
}

/// The fields of a document read into `doc` (its events and the reader's
/// error, if any), with the attributes of its flame and xform tags.
pub open spec fn spec_flame_text(doc: (Seq<(int, Seq<char>, Seq<char>)>, Option<Seq<char>>)) -> (
    Seq<FieldSpec>,
    Option<Seq<char>>,
) {
    spec_walk(doc.0, needed_attributes(doc.0), doc.1)
}

pub open spec fn opt_text(m: Option<String>) -> Option<Seq<char>> {
    match m {
        Some(s) => Some(s@),
        None => None,
    }
}

pub open spec fn lists_view(lists: Seq<Vec<Result<(String, String), String>>>) -> Seq<Seq<Result<(Seq<char>, Seq<char>), Seq<char>>>> {
    lists.map_values(|l: Vec<Result<(String, String), String>>| attrs_view(l@))
}

/// The fields of a flame block in document order; when reading stopped at an
/// error, the fields before it and the error.
#[derive(Clone, Debug)]
pub struct FlameText {
    pub fields: Vec<FlameField>,
    pub error: Option<ParseError>,
}

fn push_attr_fields(
    out: &mut Vec<FlameField>,
    header: bool,
    attrs: &Vec<Result<(String, String), String>>,
) -> (err: Option<String>)
    ensures
        fields_view(final(out)@) == fields_view(old(out)@) + attr_fields(header, attrs_view(attrs@)).0,
        match (err, attr_fields(header, attrs_view(attrs@)).1) {
            (Some(m), Some(t)) => m@ == t,
            (None, None) => true,
            _ => false,
        },
{
    let ghost start = fields_view(out@);
    let ghost av = attrs_view(attrs@);
    let mut i: usize = 0;
    proof {
        assert(av.skip(0) =~= av);
    }
    while i < attrs.len()
        invariant
            i <= attrs@.len(),
            start == fields_view(old(out)@),
            av == attrs_view(attrs@),
            av.len() == attrs@.len(),
            fields_view(out@) + attr_fields(header, av.skip(i as int)).0 == start + attr_fields(
                header,
                av,
            ).0,
            attr_fields(header, av.skip(i as int)).1 == attr_fields(header, av).1,
        decreases attrs@.len() - i,
    {
        proof {
            assert(av.skip(i as int).drop_first() =~= av.skip(i + 1));
            assert(av.skip(i as int)[0] == av[i as int]);
            assert(av[i as int] == attr_view(attrs@[i as int]));
        }
        match &attrs[i] {
            Ok((k, v)) => {
                let f = if header {
                    FlameField::Header(flame_attr(k.as_str()), v.clone())
                } else {
                    FlameField::Branch(xform_attr(k.as_str()), v.clone())
                };
                let ghost before = out@;
                out.push(f);
                proof {
                    assert(fields_view(out@) =~= fields_view(before) + seq![f@]);
                    let rest = attr_fields(header, av.skip(i + 1));
                    assert(attr_fields(header, av.skip(i as int)).0 =~= seq![f@] + rest.0);
                    assert(fields_view(out@) + rest.0 =~= fields_view(before) + (seq![f@] + rest.0));
                }
            },
            Err(m) => {
                proof {
                    let rest = attr_fields(header, av.skip(i as int));
                    assert(av.skip(i as int)[0] == Err::<(Seq<char>, Seq<char>), Seq<char>>(m@));
                    assert(rest.0 =~= Seq::<FieldSpec>::empty());
                    assert(fields_view(out@) + rest.0 =~= fields_view(out@));
                }
                return Some(m.clone());
            },
        }
        i += 1;
    }
    proof {
        assert(av.skip(i as int) =~= Seq::<Result<(Seq<char>, Seq<char>), Seq<char>>>::empty());
        assert(fields_view(out@) =~= start + attr_fields(header, av).0);
    }
    None
}

/// Walk the events of a `<flame>` block, event `i` having the attribute
/// list `attrs[i]`, after which the reader stopped with `read_err`: the
/// attributes of every `<flame>` start tag, and for every `<xform>`
/// (self-closing or not) a start, its attributes and an end, in document
/// order.  The walk stops at the first attribute that could not be read, or
/// reports the reader's error after the last event.
pub fn walk_flame_events(
    events: &Vec<XmlEvent>,
    attrs: &Vec<Vec<Result<(String, String), String>>>,
    read_err: Option<String>,
) -> (r: FlameText)
    requires
        attrs@.len() == events@.len(),
    ensures
        fields_view(r.fields@) == spec_walk(
            events@.map_values(|e: XmlEvent| event_view(e)),
            lists_view(attrs@),
            opt_text(read_err),
        ).0,
        match (
            r.error,
            spec_walk(
                events@.map_values(|e: XmlEvent| event_view(e)),
                lists_view(attrs@),
                opt_text(read_err),
            ).1,
        ) {
            (Some(ParseError::Xml(m)), Some(t)) => m@ == t,
            (None, None) => true,
            _ => false,
        },
{
    let ghost evs = events@.map_values(|e: XmlEvent| event_view(e));
    let ghost ls = lists_view(attrs@);
    let mut out: Vec<FlameField> = Vec::new();
    let mut i: usize = 0;
    proof {
        assert(evs.skip(0) =~= evs);
        assert(ls.skip(0) =~= ls);
        assert(fields_view(out@) =~= Seq::<FieldSpec>::empty());
    }
    while i < events.len()
        invariant
            i <= events@.len(),
            evs == events@.map_values(|e: XmlEvent| event_view(e)),
            evs.len() == events@.len(),
            ls == lists_view(attrs@),
            ls.len() == evs.len(),
            fields_view(out@) + events_fields(evs.skip(i as int), ls.skip(i as int)).0
                == events_fields(evs, ls).0,
            events_fields(evs.skip(i as int), ls.skip(i as int)).1 == events_fields(evs, ls).1,
        decreases events@.len() - i,
    {
        let ghost before = fields_view(out@);
        let ghost ev = evs[i as int];
        let ghost al = ls[i as int];
        proof {
            assert(evs.skip(i as int).drop_first() =~= evs.skip(i + 1));
            assert(ls.skip(i as int).drop_first() =~= ls.skip(i + 1));
            assert(evs.skip(i as int)[0] == ev);
            assert(ls.skip(i as int)[0] == al);
            assert(ev == event_view(events@[i as int]));
            assert(al == attrs_view(attrs@[i as int]@));
        }
        match &events[i] {
            XmlEvent::Tag { empty, name, .. } => {
                proof {
                    assert(ev.0 != 0);
                    assert((ev.0 == 2) == *empty);
                    assert(ev.1 == name@);
                }
                match element_role(name.as_str(), *empty) {
                    ElementRole::FlameHeader => {
                        let e = push_attr_fields(&mut out, true, &attrs[i]);
                        if let Some(m) = e {
                            proof {
                                assert(event_fields(ev, al) == attr_fields(true, al));
                                assert(events_fields(evs.skip(i as int), ls.skip(i as int)) == event_fields(ev, al));
                                assert(fields_view(out@) =~= events_fields(evs, ls).0);
                            }
                            return FlameText { fields: out, error: Some(ParseError::Xml(m)) };
                        }
                        proof {
                            let rest = events_fields(evs.skip(i + 1), ls.skip(i + 1));
                            assert(fields_view(out@) + rest.0 =~= before + (event_fields(ev, al).0
                                + rest.0));
                        }
                    },
                    ElementRole::Branch => {
                        let ghost b0 = out@;
                        out.push(FlameField::BranchStart);
                        proof {
                            assert(fields_view(out@) =~= fields_view(b0) + seq![FieldSpec::BranchStart]);
                        }
                        let e = push_attr_fields(&mut out, false, &attrs[i]);
                        match e {
                            Some(m) => {
                                proof {
                                    let a = attr_fields(false, al);
                                    assert(event_fields(ev, al).0 =~= seq![FieldSpec::BranchStart] + a.0);
                                    assert(fields_view(out@) =~= before + event_fields(ev, al).0);
                                    assert(fields_view(out@) =~= events_fields(evs, ls).0);
                                }
                                return FlameText { fields: out, error: Some(ParseError::Xml(m)) };
                            },
                            None => {
                                let ghost b1 = out@;
                                out.push(FlameField::BranchEnd);
                                proof {
                                    let a = attr_fields(false, al);
                                    assert(fields_view(out@) =~= fields_view(b1) + seq![FieldSpec::BranchEnd]);
                                    assert(event_fields(ev, al).0 =~= seq![FieldSpec::BranchStart] + a.0
                                        + seq![FieldSpec::BranchEnd]);
                                    assert(fields_view(out@) =~= before + event_fields(ev, al).0);
                                    let rest = events_fields(evs.skip(i + 1), ls.skip(i + 1));
                                    assert(fields_view(out@) + rest.0 =~= before + (event_fields(ev, al).0 + rest.0));
                                }
                            },
                        }
                    },
                    ElementRole::Skipped => {
                        proof {
                            let rest = events_fields(evs.skip(i + 1), ls.skip(i + 1));
                            assert(event_fields(ev, al).0 =~= Seq::<FieldSpec>::empty());
                            assert(fields_view(out@) + rest.0 =~= before + (event_fields(ev, al).0
                                + rest.0));
                        }
                    },
                }
            },
            XmlEvent::Other => {
                proof {
                    let rest = events_fields(evs.skip(i + 1), ls.skip(i + 1));
                    assert(event_fields(ev, al).0 =~= Seq::<FieldSpec>::empty());
                    assert(fields_view(out@) + rest.0 =~= before + (event_fields(ev, al).0 + rest.0));
                }
            },
        }
        i += 1;
    }
    proof {
        assert(evs.skip(i as int) =~= Seq::<(int, Seq<char>, Seq<char>)>::empty());
        assert(fields_view(out@) =~= events_fields(evs, ls).0);
        assert(evs == events@.map_values(|e: XmlEvent| event_view(e)));
    }
    match read_err {
        Some(m) => {
            let mut msg = String::from_str("XML parse error: ");
            msg.append(m.as_str());
            FlameText { fields: out, error: Some(ParseError::Xml(msg)) }
        },
        None => FlameText { fields: out, error: None },
    }
}

/// Read a `<flame>` block into its fields: quick-xml reads the events and
/// the attributes of the flame and xform tags, then the walk above turns
/// them into fields.  Reading stops at the first attribute that cannot be
/// read or at the first syntax error.
pub fn parse_flame_text(xml: &str) -> (r: FlameText)
    ensures
        fields_view(r.fields@) == spec_flame_text(xml_events_of(xml@)).0,
        match (r.error, spec_flame_text(xml_events_of(xml@)).1) {
            (Some(ParseError::Xml(m)), Some(t)) => m@ == t,
            (None, None) => true,
            _ => false,
        },
{
    let (events, read_err) = xml_events(xml);
    let ghost evs = events@.map_values(|e: XmlEvent| event_view(e));
    let mut lists: Vec<Vec<Result<(String, String), String>>> = Vec::new();
    let mut i: usize = 0;
    while i < events.len()
        invariant
            i <= events@.len(),
            evs == events@.map_values(|e: XmlEvent| event_view(e)),
            evs == xml_events_of(xml@).0,
            forall|k: int| 0 <= k < evs.len() ==> #[trigger] starts_with_name(evs[k].2, evs[k].1),
            lists@.len() == i,
            forall|k: int|
                0 <= k < i ==> #[trigger] attrs_view(lists@[k]@) == needed_attributes(evs)[k],
        decreases events@.len() - i,
    {
        let ghost ev = evs[i as int];
        proof {
            assert(ev == event_view(events@[i as int]));
            assert(starts_with_name(ev.2, ev.1));
        }
        let list = match &events[i] {
            XmlEvent::Tag { empty, name, tag } => {
                if element_role(name.as_str(), *empty) != ElementRole::Skipped {
                    tag_attributes(tag.as_str(), name.as_str())
                } else {
                    Vec::new()
                }
            },
            XmlEvent::Other => Vec::new(),
        };
        proof {
            assert(attrs_view(list@) =~= needed_attributes(evs)[i as int]);
        }
        lists.push(list);
        i += 1;
    }
    proof {
        assert(lists_view(lists@) =~= needed_attributes(evs));
    }
    walk_flame_events(&events, &lists, read_err)
}

/// Only a tag named exactly `xform` (start or self-closing) is a branch,
/// and only a start tag named exactly `flame` is a flame header.
pub proof fn lemma_element_roles(name: Seq<char>, empty: bool)
    ensures
        (spec_element_role(name, empty) == ElementRole::Branch) == (name == seq![
            'x',
            'f',
            'o',
            'r',
            'm',
        ]),
        (spec_element_role(name, empty) == ElementRole::FlameHeader) == (name == seq![
            'f',
            'l',
            'a',
            'm',
            'e',
        ] && !empty),
{
    reveal_strlit("xform");
    reveal_strlit("flame");
    assert("xform"@ =~= seq!['x', 'f', 'o', 'r', 'm']);
    assert("flame"@ =~= seq!['f', 'l', 'a', 'm', 'e']);
    assert("flame"@[0] != "xform"@[0]);
}

// ---------------------------------------------------------------------------
// Branches and <xform> elements
// ---------------------------------------------------------------------------

/// Number of tags (start or self-closing) named exactly `xform` among the
/// events.
pub open spec fn xform_count(evs: Seq<(int, Seq<char>, Seq<char>)>) -> nat
    decreases evs.len(),
{
    if evs.len() == 0 {
        0
    } else {
        (if evs[0].0 != 0 && evs[0].1 == seq!['x', 'f', 'o', 'r', 'm'] {
            1nat
        } else {
            0nat
        }) + xform_count(evs.drop_first())
    }
}

/// Number of branch starts among the fields.
pub open spec fn branch_starts(fs: Seq<FieldSpec>) -> nat
    decreases fs.len(),
{
    if fs.len() == 0 {
        0
    } else {
        (if fs[0] is BranchStart {
            1nat
        } else {
            0nat
        }) + branch_starts(fs.drop_first())
    }
}

/// Number of branch ends among the fields.
pub open spec fn branch_ends(fs: Seq<FieldSpec>) -> nat
    decreases fs.len(),
{
    if fs.len() == 0 {
        0
    } else {
        (if fs[0] is BranchEnd {
            1nat
        } else {
            0nat
        }) + branch_ends(fs.drop_first())
    }
}

proof fn lemma_counts_concat(a: Seq<FieldSpec>, b: Seq<FieldSpec>)
    ensures
        branch_starts(a + b) == branch_starts(a) + branch_starts(b),
        branch_ends(a + b) == branch_ends(a) + branch_ends(b),
    decreases a.len(),
{
    if a.len() == 0 {
        assert(a + b =~= b);
    } else {
        assert((a + b).drop_first() =~= a.drop_first() + b);
        assert((a + b)[0] == a[0]);
        lemma_counts_concat(a.drop_first(), b);
    }
}

proof fn lemma_counts_single(f: FieldSpec)
    ensures
        branch_starts(seq![f]) == (if f is BranchStart {
            1nat
        } else {
            0nat
        }),
        branch_ends(seq![f]) == (if f is BranchEnd {
            1nat
        } else {
            0nat
        }),
{
    let s = seq![f];
    assert(s.len() == 1);
    assert(s[0] == f);
    assert(s.drop_first() =~= Seq::<FieldSpec>::empty());
    assert(branch_starts(s.drop_first()) == 0);
    assert(branch_ends(s.drop_first()) == 0);
}

proof fn lemma_attr_fields_mark_nothing(header: bool, attrs: Seq<Result<(Seq<char>, Seq<char>), Seq<char>>>)
    ensures
        branch_starts(attr_fields(header, attrs).0) == 0,
        branch_ends(attr_fields(header, attrs).0) == 0,
    decreases attrs.len(),
{
    if attrs.len() > 0 {
        lemma_attr_fields_mark_nothing(header, attrs.drop_first());
        if let Ok((k, v)) = attrs[0] {
            let f = if header {
                FieldSpec::Header(spec_flame_attr(k), v)
            } else {
                FieldSpec::Branch(spec_xform_attr(k), v)
            };
            lemma_counts_single(f);
            lemma_counts_concat(seq![f], attr_fields(header, attrs.drop_first()).0);
        } else {
            assert(attr_fields(header, attrs).0 =~= Seq::<FieldSpec>::empty());
        }
    } else {
        assert(attr_fields(header, attrs).0 =~= Seq::<FieldSpec>::empty());
    }
}

proof fn lemma_events_branches(
    evs: Seq<(int, Seq<char>, Seq<char>)>,
    lists: Seq<Seq<Result<(Seq<char>, Seq<char>), Seq<char>>>>,
)
    requires
        events_fields(evs, lists).1 is None,
    ensures
        branch_starts(events_fields(evs, lists).0) == xform_count(evs),
        branch_ends(events_fields(evs, lists).0) == xform_count(evs),
    decreases evs.len(),
{
    if evs.len() == 0 {
        assert(events_fields(evs, lists).0 =~= Seq::<FieldSpec>::empty());
    } else {
        let ev = evs[0];
        let g = event_fields(ev, lists[0]);
        let rest = events_fields(evs.drop_first(), lists.drop_first());
        lemma_events_branches(evs.drop_first(), lists.drop_first());
        lemma_element_roles(ev.1, ev.0 == 2);
        lemma_counts_concat(g.0, rest.0);
        if ev.0 == 0 {
            assert(g.0 =~= Seq::<FieldSpec>::empty());
        } else {
            match spec_element_role(ev.1, ev.0 == 2) {
                ElementRole::FlameHeader => {
                    lemma_attr_fields_mark_nothing(true, lists[0]);
                },
                ElementRole::Branch => {
                    let a = attr_fields(false, lists[0]);
                    lemma_attr_fields_mark_nothing(false, lists[0]);
                    lemma_counts_single(FieldSpec::BranchStart);
                    lemma_counts_single(FieldSpec::BranchEnd);
                    lemma_counts_concat(seq![FieldSpec::BranchStart], a.0);
                    lemma_counts_concat(seq![FieldSpec::BranchStart] + a.0, seq![FieldSpec::BranchEnd]);
                },
                ElementRole::Skipped => {
                    assert(g.0 =~= Seq::<FieldSpec>::empty());
                },
            }
        }
    }
}

/// A walk that ends without error has one complete branch (a start and an
/// end field) for each `<xform>` element, self-closing or not, whatever the
/// attributes of the tags.
pub proof fn lemma_one_branch_per_xform(
    evs: Seq<(int, Seq<char>, Seq<char>)>,
    lists: Seq<Seq<Result<(Seq<char>, Seq<char>), Seq<char>>>>,
    err: Option<Seq<char>>,
)
    requires
        spec_walk(evs, lists, err).1 is None,
    ensures
        branch_starts(spec_walk(evs, lists, err).0) == xform_count(evs),
        branch_ends(spec_walk(evs, lists, err).0) == xform_count(evs),
{
    lemma_events_branches(evs, lists);
}

} // verus!
