use vstd::prelude::*;

verus! {

/// The transfer-mode blend of a layer's video block.  The arena stores a
/// blend mode as one byte; the variants below are numbered by their order,
/// starting at zero.
#[derive(Debug, Clone, Copy, PartialEq, Eq, Structural)]
pub enum BlendMode {
    Unset,
    Copy,
    Behind,
    Normal,
    Dissolve,
    Add,
    Multiply,
    Screen,
    Overlay,
    SoftLight,
    HardLight,
    Darken,
    Lighten,
    ClassicDifference,
    Hue,
    Saturation,
    Color,
    Luminosity,
    StencilAlpha,
    StencilLuma,
    SilhouetteAlpha,
    SilhouetteLuma,
    LuminescentPremul,
    AlphaAdd,
    ClassicColorDodge,
    ClassicColorBurn,
    Exclusion,
    Difference,
    ColorDodge,
    ColorBurn,
    LinearDodge,
    LinearBurn,
    LinearLight,
    VividLight,
    PinLight,
    HardMix,
    LighterColor,
    DarkerColor,
    Subtract,
    Divide,
}

/// The byte that the arena stores for a blend mode.
pub open spec fn blend_mode_bits(m: BlendMode) -> u8 {
    match m {
        BlendMode::Unset => 0,
        BlendMode::Copy => 1,
        BlendMode::Behind => 2,
        BlendMode::Normal => 3,
        BlendMode::Dissolve => 4,
        BlendMode::Add => 5,
        BlendMode::Multiply => 6,
        BlendMode::Screen => 7,
        BlendMode::Overlay => 8,
        BlendMode::SoftLight => 9,
        BlendMode::HardLight => 10,
        BlendMode::Darken => 11,
        BlendMode::Lighten => 12,
        BlendMode::ClassicDifference => 13,
        BlendMode::Hue => 14,
        BlendMode::Saturation => 15,
        BlendMode::Color => 16,
        BlendMode::Luminosity => 17,
        BlendMode::StencilAlpha => 18,
        BlendMode::StencilLuma => 19,
        BlendMode::SilhouetteAlpha => 20,
        BlendMode::SilhouetteLuma => 21,
        BlendMode::LuminescentPremul => 22,
        BlendMode::AlphaAdd => 23,
        BlendMode::ClassicColorDodge => 24,
        BlendMode::ClassicColorBurn => 25,
        BlendMode::Exclusion => 26,
        BlendMode::Difference => 27,
        BlendMode::ColorDodge => 28,
        BlendMode::ColorBurn => 29,
        BlendMode::LinearDodge => 30,
        BlendMode::LinearBurn => 31,
        BlendMode::LinearLight => 32,
        BlendMode::VividLight => 33,
        BlendMode::PinLight => 34,
        BlendMode::HardMix => 35,
        BlendMode::LighterColor => 36,
        BlendMode::DarkerColor => 37,
        BlendMode::Subtract => 38,
        BlendMode::Divide => 39,
    }
}

/// The blend mode a stored byte denotes, if any.
pub open spec fn blend_mode_from_bits(b: u8) -> Option<BlendMode> {
    if b == 0 {
        Some(BlendMode::Unset)
    } else if b == 1 {
        Some(BlendMode::Copy)
    } else if b == 2 {
        Some(BlendMode::Behind)
    } else if b == 3 {
        Some(BlendMode::Normal)
    } else if b == 4 {
        Some(BlendMode::Dissolve)
    } else if b == 5 {
        Some(BlendMode::Add)
    } else if b == 6 {
        Some(BlendMode::Multiply)
    } else if b == 7 {
        Some(BlendMode::Screen)
    } else if b == 8 {
        Some(BlendMode::Overlay)
    } else if b == 9 {
        Some(BlendMode::SoftLight)
    } else if b == 10 {
        Some(BlendMode::HardLight)
    } else if b == 11 {
        Some(BlendMode::Darken)
    } else if b == 12 {
        Some(BlendMode::Lighten)
    } else if b == 13 {
        Some(BlendMode::ClassicDifference)
    } else if b == 14 {
        Some(BlendMode::Hue)
    } else if b == 15 {
        Some(BlendMode::Saturation)
    } else if b == 16 {
        Some(BlendMode::Color)
    } else if b == 17 {
        Some(BlendMode::Luminosity)
    } else if b == 18 {
        Some(BlendMode::StencilAlpha)
    } else if b == 19 {
        Some(BlendMode::StencilLuma)
    } else if b == 20 {
        Some(BlendMode::SilhouetteAlpha)
    } else if b == 21 {
        Some(BlendMode::SilhouetteLuma)
    } else if b == 22 {
        Some(BlendMode::LuminescentPremul)
    } else if b == 23 {
        Some(BlendMode::AlphaAdd)
    } else if b == 24 {
        Some(BlendMode::ClassicColorDodge)
    } else if b == 25 {
        Some(BlendMode::ClassicColorBurn)
    } else if b == 26 {
        Some(BlendMode::Exclusion)
    } else if b == 27 {
        Some(BlendMode::Difference)
    } else if b == 28 {
        Some(BlendMode::ColorDodge)
    } else if b == 29 {
        Some(BlendMode::ColorBurn)
    } else if b == 30 {
        Some(BlendMode::LinearDodge)
    } else if b == 31 {
        Some(BlendMode::LinearBurn)
    } else if b == 32 {
        Some(BlendMode::LinearLight)
    } else if b == 33 {
        Some(BlendMode::VividLight)
    } else if b == 34 {
        Some(BlendMode::PinLight)
    } else if b == 35 {
        Some(BlendMode::HardMix)
    } else if b == 36 {
        Some(BlendMode::LighterColor)
    } else if b == 37 {
        Some(BlendMode::DarkerColor)
    } else if b == 38 {
        Some(BlendMode::Subtract)
    } else if b == 39 {
        Some(BlendMode::Divide)
    } else {
        None
    }
}

impl BlendMode {
    /// Encodes the blend mode as the byte the arena stores.
    pub fn to_bits(self) -> (r: u8)
        ensures
            r == blend_mode_bits(self),
    {
        match self {
            BlendMode::Unset => 0,
            BlendMode::Copy => 1,
            BlendMode::Behind => 2,
            BlendMode::Normal => 3,
            BlendMode::Dissolve => 4,
            BlendMode::Add => 5,
            BlendMode::Multiply => 6,
            BlendMode::Screen => 7,
            BlendMode::Overlay => 8,
            BlendMode::SoftLight => 9,
            BlendMode::HardLight => 10,
            BlendMode::Darken => 11,
            BlendMode::Lighten => 12,
            BlendMode::ClassicDifference => 13,
            BlendMode::Hue => 14,
            BlendMode::Saturation => 15,
            BlendMode::Color => 16,
            BlendMode::Luminosity => 17,
            BlendMode::StencilAlpha => 18,
            BlendMode::StencilLuma => 19,
            BlendMode::SilhouetteAlpha => 20,
            BlendMode::SilhouetteLuma => 21,
            BlendMode::LuminescentPremul => 22,
            BlendMode::AlphaAdd => 23,
            BlendMode::ClassicColorDodge => 24,
            BlendMode::ClassicColorBurn => 25,
            BlendMode::Exclusion => 26,
            BlendMode::Difference => 27,
            BlendMode::ColorDodge => 28,
            BlendMode::ColorBurn => 29,
            BlendMode::LinearDodge => 30,
            BlendMode::LinearBurn => 31,
            BlendMode::LinearLight => 32,
            BlendMode::VividLight => 33,
            BlendMode::PinLight => 34,
            BlendMode::HardMix => 35,
            BlendMode::LighterColor => 36,
            BlendMode::DarkerColor => 37,
            BlendMode::Subtract => 38,
            BlendMode::Divide => 39,
        }
    }

    /// Decodes a stored byte; bytes past the last mode denote no mode.
    pub fn from_bits(b: u8) -> (r: Option<BlendMode>)
        ensures
            r == blend_mode_from_bits(b),
    {
        if b == 0 {
            Some(BlendMode::Unset)
        } else if b == 1 {
            Some(BlendMode::Copy)
        } else if b == 2 {
            Some(BlendMode::Behind)
        } else if b == 3 {
            Some(BlendMode::Normal)
        } else if b == 4 {
            Some(BlendMode::Dissolve)
        } else if b == 5 {
            Some(BlendMode::Add)
        } else if b == 6 {
            Some(BlendMode::Multiply)
        } else if b == 7 {
            Some(BlendMode::Screen)
        } else if b == 8 {
            Some(BlendMode::Overlay)
        } else if b == 9 {
            Some(BlendMode::SoftLight)
        } else if b == 10 {
            Some(BlendMode::HardLight)
        } else if b == 11 {
            Some(BlendMode::Darken)
        } else if b == 12 {
            Some(BlendMode::Lighten)
        } else if b == 13 {
            Some(BlendMode::ClassicDifference)
        } else if b == 14 {
            Some(BlendMode::Hue)
        } else if b == 15 {
            Some(BlendMode::Saturation)
        } else if b == 16 {
            Some(BlendMode::Color)
        } else if b == 17 {
            Some(BlendMode::Luminosity)
        } else if b == 18 {
            Some(BlendMode::StencilAlpha)
        } else if b == 19 {
            Some(BlendMode::StencilLuma)
        } else if b == 20 {
            Some(BlendMode::SilhouetteAlpha)
        } else if b == 21 {
            Some(BlendMode::SilhouetteLuma)
        } else if b == 22 {
            Some(BlendMode::LuminescentPremul)
        } else if b == 23 {
            Some(BlendMode::AlphaAdd)
        } else if b == 24 {
            Some(BlendMode::ClassicColorDodge)
        } else if b == 25 {
            Some(BlendMode::ClassicColorBurn)
        } else if b == 26 {
            Some(BlendMode::Exclusion)
        } else if b == 27 {
            Some(BlendMode::Difference)
        } else if b == 28 {
            Some(BlendMode::ColorDodge)
        } else if b == 29 {
            Some(BlendMode::ColorBurn)
        } else if b == 30 {
            Some(BlendMode::LinearDodge)
        } else if b == 31 {
            Some(BlendMode::LinearBurn)
        } else if b == 32 {
            Some(BlendMode::LinearLight)
        } else if b == 33 {
            Some(BlendMode::VividLight)
        } else if b == 34 {
            Some(BlendMode::PinLight)
        } else if b == 35 {
            Some(BlendMode::HardMix)
        } else if b == 36 {
            Some(BlendMode::LighterColor)
        } else if b == 37 {
            Some(BlendMode::DarkerColor)
        } else if b == 38 {
            Some(BlendMode::Subtract)
        } else if b == 39 {
            Some(BlendMode::Divide)
        } else {
            None
        }
    }
}

/// Decoding the byte a blend mode encodes to gives that mode back.
pub proof fn lemma_blend_mode_bits_round_trip(m: BlendMode)
    ensures
        blend_mode_from_bits(blend_mode_bits(m)) == Some(m),
{
}

/// The drawing quality of a layer, stored as one byte, numbered by order
/// from zero.
#[derive(Debug, Clone, Copy, PartialEq, Eq, Structural)]
pub enum LayerQuality {
    Unset,
    Wireframe,
    Draft,
    Best,
}

/// The byte that the arena stores for a layer quality.
pub open spec fn quality_bits(q: LayerQuality) -> u8 {
    match q {
        LayerQuality::Unset => 0,
        LayerQuality::Wireframe => 1,
        LayerQuality::Draft => 2,
        LayerQuality::Best => 3,
    }
}

/// The layer quality a stored byte denotes, if any.
pub open spec fn quality_from_bits(b: u8) -> Option<LayerQuality> {
    if b == 0 {
        Some(LayerQuality::Unset)
    } else if b == 1 {
        Some(LayerQuality::Wireframe)
    } else if b == 2 {
        Some(LayerQuality::Draft)
    } else if b == 3 {
        Some(LayerQuality::Best)
    } else {
        None
    }
}

impl LayerQuality {
    /// Encodes the quality as the byte the arena stores.
    pub fn to_bits(self) -> (r: u8)
        ensures
            r == quality_bits(self),
    {
        match self {
            LayerQuality::Unset => 0,
            LayerQuality::Wireframe => 1,
            LayerQuality::Draft => 2,
            LayerQuality::Best => 3,
        }
    }

    /// Decodes a stored byte; bytes past the last quality denote no quality.
    pub fn from_bits(b: u8) -> (r: Option<LayerQuality>)
        ensures
            r == quality_from_bits(b),
    {
        if b == 0 {
            Some(LayerQuality::Unset)
        } else if b == 1 {
            Some(LayerQuality::Wireframe)
        } else if b == 2 {
            Some(LayerQuality::Draft)
        } else if b == 3 {
            Some(LayerQuality::Best)
        } else {
            None
        }
    }
}

/// Decoding the byte a quality encodes to gives that quality back.
pub proof fn lemma_quality_bits_round_trip(q: LayerQuality)
    ensures
        quality_from_bits(quality_bits(q)) == Some(q),
{
}

/// The sixteen boolean flags of a layer, kept packed exactly as the arena
/// stores them: bit zero is video-active, bit one audio-active, and so on
/// up to bit fifteen, markers-locked.  Keeping the packed form makes flag
/// equality the equality of the two words.
#[derive(Debug, Clone, Copy, PartialEq, Eq, Structural)]
pub struct LayerFlags {
    pub bits: u16,
}

impl LayerFlags {
    /// Wraps a stored flag word.
    pub fn from_bits(bits: u16) -> (r: LayerFlags)
        ensures
            r.bits == bits,
    {
        LayerFlags { bits }
    }

    /// The word the arena stores for these flags.
    pub fn into_bits(self) -> (r: u16)
        ensures
            r == self.bits,
    {
        self.bits
    }
}

} // verus!
