//! The closed set of notations: their labels, their copy-action labels, and
//! the dispatch of parsing and formatting to the notation's own rules.
use vstd::prelude::*;

use crate::cmyk::{cmyk_result, cmyk_text, format_cmyk, parse_cmyk};
use crate::color::{AlphaPosition, Color, ColorError};
use crate::hex::{byte_text, format_hex, hex_color, hex_text, lemma_hex_produces, lemma_hex_round_trip, parse_hex};
use crate::hsl::{format_hsl, hsl_result, hsl_text, parse_hsl};
use crate::hsv::{format_hsv, hsv_result, hsv_text, parse_hsv};
use crate::hwb::{format_hwb, hwb_result, hwb_text, parse_hwb};
use crate::rgb::{
    format_rgb, functional_color, functional_text, lemma_functional_round_trip,
    lemma_rgb_produces_opaque, parse_rgb,
};
use crate::text::{
    is_white_space_spec, lower_of, lowercase, same_text, trim, trim_end_spec, trim_spec,
    trim_start_spec,
};

verus! {

/// A textual notation for colours. Hex is the default.
#[derive(Clone, Copy, Debug, PartialEq, Eq, Structural)]
pub enum Notation {
    Hex,
    Rgb,
    Hsl,
    Hsv,
    Cmyk,
    Xyz,
    Lab,
    Hwb,
    Hcl,
    Name,
    Lms,
    HunterLab,
    Oklab,
    Oklch,
}

impl Default for Notation {
    fn default() -> (r: Notation)
        ensures
            r == Notation::Hex,
    {
        Notation::Hex
    }
}

/// Every notation, in declaration order.
pub open spec fn all_notations() -> Seq<Notation> {
    seq![
        Notation::Hex,
        Notation::Rgb,
        Notation::Hsl,
        Notation::Hsv,
        Notation::Cmyk,
        Notation::Xyz,
        Notation::Lab,
        Notation::Hwb,
        Notation::Hcl,
        Notation::Name,
        Notation::Lms,
        Notation::HunterLab,
        Notation::Oklab,
        Notation::Oklch,
    ]
}

/// The notation a lower-case, trimmed label stands for.
pub open spec fn notation_of_label(t: Seq<char>) -> Option<Notation> {
    if t == seq!['h', 'e', 'x'] {
        Some(Notation::Hex)
    } else if t == seq!['r', 'g', 'b'] {
        Some(Notation::Rgb)
    } else if t == seq!['h', 's', 'l'] {
        Some(Notation::Hsl)
    } else if t == seq!['h', 's', 'v'] {
        Some(Notation::Hsv)
    } else if t == seq!['c', 'm', 'y', 'k'] {
        Some(Notation::Cmyk)
    } else if t == seq!['x', 'y', 'z'] {
        Some(Notation::Xyz)
    } else if t == seq!['c', 'i', 'e', 'l', 'a', 'b'] {
        Some(Notation::Lab)
    } else if t == seq!['h', 'w', 'b'] {
        Some(Notation::Hwb)
    } else if t == seq!['h', 'c', 'l'] {
        Some(Notation::Hcl)
    } else if t == seq!['n', 'a', 'm', 'e'] {
        Some(Notation::Name)
    } else if t == seq!['l', 'm', 's'] {
        Some(Notation::Lms)
    } else if t == seq!['h', 'u', 'n', 't', 'e', 'r', 'l', 'a', 'b'] {
        Some(Notation::HunterLab)
    } else if t == seq!['o', 'k', 'l', 'a', 'b'] {
        Some(Notation::Oklab)
    } else if t == seq!['o', 'k', 'l', 'c', 'h'] {
        Some(Notation::Oklch)
    } else {
        None
    }
}

/// What reading a label gives: the notation, or the message of the error.
pub open spec fn label_result(t: Seq<char>) -> Result<Notation, Seq<char>> {
    match notation_of_label(trim_spec(t)) {
        Some(n) => Ok(n),
        None => Err("Failed to get color notation"@),
    }
}

/// The message of a failed parse of the Name notation.
pub open spec fn no_name_message() -> Seq<char> {
    "No name found"@
}

/// The message of a parse in a notation whose conversion this library does
/// not hold.
pub open spec fn unsupported_message() -> Seq<char> {
    "Notation not supported"@
}

/// The placeholder written for a colour that has no name.
pub open spec fn not_named_text() -> Seq<char> {
    "Not named"@
}

pub open spec fn error_result<T>(r: Result<T, ColorError>) -> Result<T, Seq<char>> {
    match r {
        Ok(v) => Ok(v),
        Err(e) => Err(e.message()),
    }
}

/// A row of the user interface that shows a colour in one notation and
/// offers to copy it.
#[derive(Clone, Debug, PartialEq, Eq)]
pub struct FormatRow {
    pub notation: Notation,
    /// The untranslated label of the row's copy action.
    pub copy_label: String,
}

impl Notation {
    /// The short label of a notation; `notation_of_label` reads it back.
    pub open spec fn label_spec(self) -> Seq<char> {
        match self {
            Notation::Hex => seq!['h', 'e', 'x'],
            Notation::Rgb => seq!['r', 'g', 'b'],
            Notation::Hsl => seq!['h', 's', 'l'],
            Notation::Hsv => seq!['h', 's', 'v'],
            Notation::Cmyk => seq!['c', 'm', 'y', 'k'],
            Notation::Xyz => seq!['x', 'y', 'z'],
            Notation::Lab => seq!['c', 'i', 'e', 'l', 'a', 'b'],
            Notation::Hwb => seq!['h', 'w', 'b'],
            Notation::Hcl => seq!['h', 'c', 'l'],
            Notation::Name => seq!['n', 'a', 'm', 'e'],
            Notation::Lms => seq!['l', 'm', 's'],
            Notation::HunterLab => seq!['h', 'u', 'n', 't', 'e', 'r', 'l', 'a', 'b'],
            Notation::Oklab => seq!['o', 'k', 'l', 'a', 'b'],
            Notation::Oklch => seq!['o', 'k', 'l', 'c', 'h'],
        }
    }

    /// The untranslated label of the action that copies a colour in this
    /// notation.
    pub open spec fn copy_label_spec(self) -> Seq<char> {
        match self {
            Notation::Hex => "Copy Hex Code"@,
            Notation::Rgb => "Copy RGB"@,
            Notation::Hsl => "Copy HSL"@,
            Notation::Hsv => "Copy HSV"@,
            Notation::Cmyk => "Copy CMYK"@,
            Notation::Xyz => "Copy Xyz"@,
            Notation::Lab => "Copy CIELAB"@,
            Notation::Hwb => "Copy HWB"@,
            Notation::Hcl => "Copy CIELCh / HCL"@,
            Notation::Lms => "Copy LMS"@,
            Notation::HunterLab => "Copy Hunter Lab"@,
            Notation::Oklab => "Copy Oklab"@,
            Notation::Oklch => "Copy Oklch"@,
            Notation::Name => "Copy Name"@,
        }
    }

    /// What parsing `input` in this notation gives, where `named` is what the
    /// colour-name registry found for `input`. Hex codes are read without the
    /// white space around them; the colorimetric notations (XYZ, CIELAB,
    /// CIELCh, LMS, Hunter Lab, Oklab, Oklch) are refused.
    pub open spec fn parse_spec(self, input: Seq<char>, alpha: AlphaPosition, named: Option<Color>) -> Result<Color, Seq<char>> {
        match self {
            Notation::Hex => match hex_color(trim_spec(input), alpha) {
                Some(c) => Ok(c),
                None => Err("Invalid hex color code"@),
            },
            Notation::Rgb => match functional_color(input, alpha) {
                Some(c) => Ok(c),
                None => Err("Invalid rgb color"@),
            },
            Notation::Hsl => hsl_result(input),
            Notation::Hsv => hsv_result(input),
            Notation::Hwb => hwb_result(input),
            Notation::Cmyk => cmyk_result(input),
            Notation::Name => match named {
                Some(c) => Ok(c),
                None => Err(no_name_message()),
            },
            _ => Err(unsupported_message()),
        }
    }

    /// What formatting `color` in this notation gives, where `name` is what the
    /// colour-name registry found for it; `None` for a notation whose
    /// conversion this library does not hold.
    pub open spec fn format_spec(self, color: Color, alpha: AlphaPosition, name: Option<Seq<char>>) -> Option<Seq<char>> {
        match self {
            Notation::Hex => Some(hex_text(color, alpha)),
            Notation::Rgb => Some(functional_text(color, alpha)),
            Notation::Hsl => Some(hsl_text(color)),
            Notation::Hsv => Some(hsv_text(color)),
            Notation::Hwb => Some(hwb_text(color)),
            Notation::Cmyk => Some(cmyk_text(color)),
            Notation::Name => match name {
                Some(s) => Some(s),
                None => Some(not_named_text()),
            },
            _ => None,
        }
    }
}

/// The notation named by the trimmed, lower-case label `t`.
fn notation_of_trimmed(t: &str) -> (r: Option<Notation>)
    ensures
        r == notation_of_label(t@),
{
    if same_text(t, Notation::Hex.label()) {
        Some(Notation::Hex)
    } else if same_text(t, Notation::Rgb.label()) {
        Some(Notation::Rgb)
    } else if same_text(t, Notation::Hsl.label()) {
        Some(Notation::Hsl)
    } else if same_text(t, Notation::Hsv.label()) {
        Some(Notation::Hsv)
    } else if same_text(t, Notation::Cmyk.label()) {
        Some(Notation::Cmyk)
    } else if same_text(t, Notation::Xyz.label()) {
        Some(Notation::Xyz)
    } else if same_text(t, Notation::Lab.label()) {
        Some(Notation::Lab)
    } else if same_text(t, Notation::Hwb.label()) {
        Some(Notation::Hwb)
    } else if same_text(t, Notation::Hcl.label()) {
        Some(Notation::Hcl)
    } else if same_text(t, Notation::Name.label()) {
        Some(Notation::Name)
    } else if same_text(t, Notation::Lms.label()) {
        Some(Notation::Lms)
    } else if same_text(t, Notation::HunterLab.label()) {
        Some(Notation::HunterLab)
    } else if same_text(t, Notation::Oklab.label()) {
        Some(Notation::Oklab)
    } else if same_text(t, Notation::Oklch.label()) {
        Some(Notation::Oklch)
    } else {
        None
    }
}

impl Notation {
    /// The short label of this notation.
    pub fn label(&self) -> (r: &'static str)
        ensures
            r@ == self.label_spec(),
    {
        match self {
            Notation::Hex => {
                proof {
                    reveal_strlit("hex");
                }
                "hex"
            },
            Notation::Rgb => {
                proof {
                    reveal_strlit("rgb");
                }
                "rgb"
            },
            Notation::Hsl => {
                proof {
                    reveal_strlit("hsl");
                }
                "hsl"
            },
            Notation::Hsv => {
                proof {
                    reveal_strlit("hsv");
                }
                "hsv"
            },
            Notation::Cmyk => {
                proof {
                    reveal_strlit("cmyk");
                }
                "cmyk"
            },
            Notation::Xyz => {
                proof {
                    reveal_strlit("xyz");
                }
                "xyz"
            },
            Notation::Lab => {
                proof {
                    reveal_strlit("cielab");
                }
                "cielab"
            },
            Notation::Hwb => {
                proof {
                    reveal_strlit("hwb");
                }
                "hwb"
            },
            Notation::Hcl => {
                proof {
                    reveal_strlit("hcl");
                }
                "hcl"
            },
            Notation::Name => {
                proof {
                    reveal_strlit("name");
                }
                "name"
            },
            Notation::Lms => {
                proof {
                    reveal_strlit("lms");
                }
                "lms"
            },
            Notation::HunterLab => {
                proof {
                    reveal_strlit("hunterlab");
                }
                "hunterlab"
            },
            Notation::Oklab => {
                proof {
                    reveal_strlit("oklab");
                }
                "oklab"
            },
            Notation::Oklch => {
                proof {
                    reveal_strlit("oklch");
                }
                "oklch"
            },
        }
    }

    /// Every notation, for populating a user interface.
    pub fn all() -> (r: Vec<Notation>)
        ensures
            r@ == all_notations(),
    {
        let r = vec![
        Notation::Hex,
        Notation::Rgb,
        Notation::Hsl,
        Notation::Hsv,
        Notation::Cmyk,
        Notation::Xyz,
        Notation::Lab,
        Notation::Hwb,
        Notation::Hcl,
        Notation::Name,
        Notation::Lms,
        Notation::HunterLab,
        Notation::Oklab,
        Notation::Oklch,
        ];
        assert(r@ =~= all_notations());
        r
    }

    /// Reads a label that is already in lower case: white space around it is
    /// ignored, and an unknown label is an error.
    pub fn from_lowercase(lowered: &str) -> (r: Result<Notation, ColorError>)
        ensures
            error_result(r) == label_result(lowered@),
    {
        match notation_of_trimmed(trim(lowered)) {
            Some(n) => Ok(n),
            None => Err(ColorError::ParsingError(String::from_str("Failed to get color notation"))),
        }
    }

    /// Reads a label in any case, with white space around it ignored.
    pub fn from_str(s: &str) -> (r: Result<Notation, ColorError>)
        ensures
            error_result(r) == label_result(lower_of(s@)),
    {
        let lowered = lowercase(s);
        Self::from_lowercase(lowered.as_str())
    }

    /// The untranslated label of the action that copies a colour in this
    /// notation.
    pub fn copy_label(&self) -> (r: &'static str)
        ensures
            r@ == self.copy_label_spec(),
    {
        match self {
            Notation::Hex => "Copy Hex Code",
            Notation::Rgb => "Copy RGB",
            Notation::Hsl => "Copy HSL",
            Notation::Hsv => "Copy HSV",
            Notation::Cmyk => "Copy CMYK",
            Notation::Xyz => "Copy Xyz",
            Notation::Lab => "Copy CIELAB",
            Notation::Hwb => "Copy HWB",
            Notation::Hcl => "Copy CIELCh / HCL",
            Notation::Lms => "Copy LMS",
            Notation::HunterLab => "Copy Hunter Lab",
            Notation::Oklab => "Copy Oklab",
            Notation::Oklch => "Copy Oklch",
            Notation::Name => "Copy Name",
        }
    }

    /// The label of the copy action, as a string that the user interface
    /// translates before showing it.
    pub fn display_copy_string(&self) -> (r: String)
        ensures
            r@ == self.copy_label_spec(),
    {
        String::from_str(self.copy_label())
    }

    /// The description of the row that shows a colour in this notation.
    pub fn widget(&self) -> (r: FormatRow)
        ensures
            r.notation == *self,
            r.copy_label@ == self.copy_label_spec(),
    {
        FormatRow { notation: *self, copy_label: String::from_str(self.copy_label()) }
    }

    /// Parses `input` in this notation. `named` is what the colour-name
    /// registry found for `input`, and is read only for the Name notation.
    pub fn parse(&self, input: &str, alpha: AlphaPosition, named: Option<Color>) -> (r: Result<Color, ColorError>)
        ensures
            error_result(r) == self.parse_spec(input@, alpha, named),
    {
        match self {
            Notation::Hex => parse_hex(trim(input), alpha),
            Notation::Rgb => parse_rgb(input, alpha),
            Notation::Hsl => parse_hsl(input),
            Notation::Hsv => parse_hsv(input),
            Notation::Hwb => parse_hwb(input),
            Notation::Cmyk => parse_cmyk(input),
            Notation::Name => match named {
                Some(c) => Ok(c),
                None => Err(ColorError::ParsingError(String::from_str("No name found"))),
            },
            _ => Err(ColorError::ParsingError(String::from_str("Notation not supported"))),
        }
    }

    /// Writes `color` in this notation. `name` is what the colour-name
    /// registry found for `color`, and is read only for the Name notation.
    pub fn as_str(&self, color: Color, alpha: AlphaPosition, name: Option<String>) -> (r: Option<String>)
        ensures
            match r {
                Some(s) => self.format_spec(color, alpha, name_view(name)) == Some(s@),
                None => self.format_spec(color, alpha, name_view(name)) is None,
            },
    {
        match self {
            Notation::Hex => Some(format_hex(color, alpha)),
            Notation::Rgb => Some(format_rgb(color, alpha)),
            Notation::Hsl => Some(format_hsl(color)),
            Notation::Hsv => Some(format_hsv(color)),
            Notation::Hwb => Some(format_hwb(color)),
            Notation::Cmyk => Some(format_cmyk(color)),
            Notation::Name => match name {
                Some(s) => Some(s),
                None => Some(String::from_str("Not named")),
            },
            _ => None,
        }
    }
}

pub open spec fn name_view(name: Option<String>) -> Option<Seq<char>> {
    match name {
        Some(s) => Some(s@),
        None => None,
    }
}

/// Reading back the label that a notation emits gives that notation, for
/// every notation.
pub proof fn lemma_label_round_trip(n: Notation)
    ensures
        label_result(n.label_spec()) == Ok::<Notation, Seq<char>>(n),
{
    let t = n.label_spec();
    assert(!is_white_space_spec(t[0]));
    assert(!is_white_space_spec(t.last()));
    assert(trim_start_spec(t) == t);
    assert(trim_end_spec(t) == t);
    match n {
        Notation::Hex => {},
        Notation::Rgb => assert(t[0] != 'h'),
        Notation::Hsl => assert(t[2] != 'x'),
        Notation::Hsv => assert(t[2] != 'x' && t[2] != 'l'),
        Notation::Cmyk => assert(t.len() != 3),
        Notation::Xyz => assert(t[0] != 'h' && t[0] != 'r'),
        Notation::Lab => assert(t.len() == 6),
        Notation::Hwb => assert(t[1] != 'e' && t[1] != 's'),
        Notation::Hcl => assert(t[1] != 'e' && t[1] != 's' && t[1] != 'w'),
        Notation::Name => assert(t[0] != 'c'),
        Notation::Lms => assert(t[0] == 'l'),
        Notation::HunterLab => assert(t.len() == 9),
        Notation::Oklab => assert(t.len() == 5 && t[3] == 'a'),
        Notation::Oklch => assert(t.len() == 5 && t[3] == 'c'),
    }
}

/// Whether some text parses to `c` in notation `n` under `alpha`, with no
/// help from the colour-name registry.
pub open spec fn producible(n: Notation, c: Color, alpha: AlphaPosition) -> bool {
    exists|input: Seq<char>| n.parse_spec(input, alpha, None) == Ok::<Color, Seq<char>>(c)
}

proof fn lemma_hex_dispatch_round_trip(c: Color, alpha: AlphaPosition, input: Seq<char>)
    requires
        hex_color(trim_spec(input), alpha) == Some(c),
    ensures
        hex_color(trim_spec(hex_text(c, alpha)), alpha) == Some(c),
{
    lemma_hex_produces(trim_spec(input), alpha);
    let t = hex_text(c, alpha);
    assert(t[0] == '#');
    let last = if alpha == AlphaPosition::Trailing { c.alpha } else { c.blue };
    assert(t.last() == byte_text(last)[1]);
    assert(!is_white_space_spec(t.last()));
    assert(trim_start_spec(t) == t);
    assert(trim_end_spec(t) == t);
    lemma_hex_round_trip(c, alpha);
}

proof fn lemma_rgb_dispatch_round_trip(c: Color, alpha: AlphaPosition, input: Seq<char>)
    requires
        functional_color(input, alpha) == Some(c),
    ensures
        functional_color(functional_text(c, alpha), alpha) == Some(c),
{
    if alpha == AlphaPosition::Hidden {
        lemma_rgb_produces_opaque(input);
    }
    lemma_functional_round_trip(c, alpha);
}

/// For the exact notations, hex and RGB, and every colour their parsers can
/// produce under an alpha position, formatting the colour and parsing the
/// text back under the same position gives the colour again.
pub proof fn lemma_notation_round_trip(n: Notation, c: Color, alpha: AlphaPosition)
    requires
        n == Notation::Hex || n == Notation::Rgb,
        producible(n, c, alpha),
    ensures
        n.parse_spec(n.format_spec(c, alpha, None).unwrap(), alpha, None) == Ok::<Color, Seq<char>>(c),
{
    let input = choose|input: Seq<char>| n.parse_spec(input, alpha, None) == Ok::<Color, Seq<char>>(c);
    if n == Notation::Hex {
        lemma_hex_dispatch_round_trip(c, alpha, input);
    } else {
        assert(n == Notation::Rgb);
        lemma_rgb_dispatch_round_trip(c, alpha, input);
    }
}

/// The Name notation never invents a colour: where the registry finds no
/// colour for the text, parsing fails with the no-name message, and where it
/// finds no name for a colour, formatting gives the placeholder, never an
/// error.
pub proof fn lemma_name_miss(input: Seq<char>, c: Color, alpha: AlphaPosition)
    ensures
        Notation::Name.parse_spec(input, alpha, None) == Err::<Color, Seq<char>>(no_name_message()),
        Notation::Name.format_spec(c, alpha, None) == Some(not_named_text()),
{
}

} // verus!
