//! The effect plugin interface: stateless transformations of a region of
//! RGBA8 pixels.

use vstd::prelude::*;
use crate::plugins::error::PluginResult;
use crate::plugins::manifest::{PluginCapability, PluginId};

verus! {

/// An effect plugin, implemented by plugin authors.
pub trait EffectPlugin {
    /// The plugin id.
    fn id(&self) -> &PluginId;

    /// Transform `width * height` RGBA8 pixels into pixels of the same
    /// dimensions.
    fn apply(&self, input: &[u8], width: u32, height: u32) -> PluginResult<Vec<u8>>;

    /// The effect name.
    fn name(&self) -> &str;

    /// The effect description.
    fn description(&self) -> &str;

    /// The capabilities the effect needs.
    fn required_capabilities(&self) -> &[PluginCapability];
}

/// Built-in kinds of effect.
#[derive(Clone, Copy, Debug, PartialEq, Eq, Structural)]
pub enum EffectType {
    ColourAdjustment,
    Blur,
    Sharpen,
    Noise,
    Distortion,
    Artistic,
    Custom,
}

impl EffectType {
    /// The snake-case name of the kind.
    pub fn to_display_string(&self) -> (s: String)
        ensures
            s@ == match *self {
                EffectType::ColourAdjustment => "colour_adjustment"@,
                EffectType::Blur => "blur"@,
                EffectType::Sharpen => "sharpen"@,
                EffectType::Noise => "noise"@,
                EffectType::Distortion => "distortion"@,
                EffectType::Artistic => "artistic"@,
                EffectType::Custom => "custom"@,
            },
    {
        match self {
            EffectType::ColourAdjustment => "colour_adjustment".to_owned(),
            EffectType::Blur => "blur".to_owned(),
            EffectType::Sharpen => "sharpen".to_owned(),
            EffectType::Noise => "noise".to_owned(),
            EffectType::Distortion => "distortion".to_owned(),
            EffectType::Artistic => "artistic".to_owned(),
            EffectType::Custom => "custom".to_owned(),
        }
    }
}

/// Every whole RGBA8 pixel of `input` with its colour channels inverted
/// and its alpha kept; a trailing partial pixel is dropped.
pub open spec fn inverted(input: Seq<u8>) -> Seq<u8> {
    Seq::new(
        (input.len() / 4 * 4) as nat,
        |i: int|
            if i % 4 == 3 {
                input[i]
            } else {
                (255 - input[i]) as u8
            },
    )
}

/// Invert the colour channels of RGBA8 pixels, keeping alpha.
pub fn invert_rgb(input: &[u8]) -> (out: Vec<u8>)
    ensures
        out@ == inverted(input@),
{
    let n = input.len() / 4 * 4;
    let mut out: Vec<u8> = Vec::new();
    let mut i: usize = 0;
    while i < n
        invariant
            n == input@.len() / 4 * 4,
            n <= input@.len(),
            i <= n,
            i % 4 == 0,
            out@.len() == i,
            forall|k: int| 0 <= k < i ==> out@[k] == (if k % 4 == 3 { input@[k] } else { (255 - input@[k]) as u8 }),
        decreases n - i,
    {
        out.push(255 - input[i]);
        out.push(255 - input[i + 1]);
        out.push(255 - input[i + 2]);
        out.push(input[i + 3]);
        i += 4;
    }
    assert(out@ =~= inverted(input@));
    out
}

} // verus!
