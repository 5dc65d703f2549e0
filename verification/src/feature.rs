//! The closed set of controllable monitor features and their one-byte
//! protocol codes, plus case-insensitive parsing of feature names.

use vstd::prelude::*;
use vstd::string::StrSliceExecFns;

use crate::error::EngineError;

verus! {

/// A controllable monitor attribute, carried on the wire as a one-byte
/// feature code.
#[derive(Debug, Copy, Clone, PartialEq, Eq, Structural)]
pub enum Feature {
    Luminance,
    Contrast,
    Brightness,
    Volume,
    PowerState,
}

/// The fixed one-byte protocol code of each feature.
pub open spec fn spec_vcp_code(f: Feature) -> u8 {
    match f {
        Feature::Luminance => 0x10,
        Feature::Contrast => 0x12,
        Feature::Brightness => 0x13,
        Feature::Volume => 0x62,
        Feature::PowerState => 0xD6,
    }
}

impl Feature {
    /// The one-byte code under which this feature is addressed on the bus.
    pub fn vcp_code(&self) -> (code: u8)
        ensures
            code == spec_vcp_code(*self),
    {
        match self {
            Feature::Luminance => 0x10,
            Feature::Contrast => 0x12,
            Feature::Brightness => 0x13,
            Feature::Volume => 0x62,
            Feature::PowerState => 0xD6,
        }
    }
}

/// ASCII lower-casing of a single character; other characters are unchanged.
pub open spec fn lower_char(c: char) -> char {
    if 'A' <= c && c <= 'Z' {
        ((c as u8) + 0x20) as char
    } else {
        c
    }
}

/// ASCII lower-casing of a whole name.
pub open spec fn lower_chars(s: Seq<char>) -> Seq<char> {
    s.map_values(|c: char| lower_char(c))
}

/// The feature a name denotes, compared case-insensitively; `None` for an
/// unknown name.
pub open spec fn spec_feature_of_name(s: Seq<char>) -> Option<Feature> {
    if lower_chars(s) == "luminance"@ {
        Some(Feature::Luminance)
    } else if lower_chars(s) == "contrast"@ {
        Some(Feature::Contrast)
    } else if lower_chars(s) == "brightness"@ {
        Some(Feature::Brightness)
    } else if lower_chars(s) == "volume"@ {
        Some(Feature::Volume)
    } else if lower_chars(s) == "powerstate"@ {
        Some(Feature::PowerState)
    } else {
        None
    }
}

/// ASCII lower-casing of a single character, executable form.
fn lower_char_exec(c: char) -> (r: char)
    ensures
        r == lower_char(c),
{
    if c as u32 >= 65 && c as u32 <= 90 {
        ((c as u8) + 0x20) as char
    } else {
        c
    }
}

/// Whether `s`, lower-cased, spells exactly `t`.
fn eq_lowered(s: &str, t: &str) -> (r: bool)
    ensures
        r == (lower_chars(s@) == t@),
{
    let n = s.unicode_len();
    let m = t.unicode_len();
    if n != m {
        proof {
            assert(lower_chars(s@).len() == s@.len());
        }
        return false;
    }
    let mut i: usize = 0;
    while i < n
        invariant
            0 <= i <= n,
            n == s@.len(),
            n == t@.len(),
            forall|j: int| 0 <= j < i ==> lower_chars(s@)[j] == t@[j],
        decreases n - i,
    {
        let sc = lower_char_exec(s.get_char(i));
        let tc = t.get_char(i);
        if sc != tc {
            proof {
                assert(lower_chars(s@)[i as int] == lower_char(s@[i as int]));
            }
            return false;
        }
        i += 1;
    }
    proof {
        assert(lower_chars(s@) =~= t@);
    }
    true
}

/// Parses a feature name, accepted case-insensitively; an unknown name is
/// rejected before any hardware call.
pub fn feature_from_string(name: &str) -> (r: Result<Feature, EngineError>)
    ensures
        r == match spec_feature_of_name(name@) {
            Some(f) => Result::<Feature, EngineError>::Ok(f),
            None => Result::<Feature, EngineError>::Err(EngineError::UnknownFeature),
        },
{
    if eq_lowered(name, "luminance") {
        Ok(Feature::Luminance)
    } else if eq_lowered(name, "contrast") {
        Ok(Feature::Contrast)
    } else if eq_lowered(name, "brightness") {
        Ok(Feature::Brightness)
    } else if eq_lowered(name, "volume") {
        Ok(Feature::Volume)
    } else if eq_lowered(name, "powerstate") {
        Ok(Feature::PowerState)
    } else {
        Err(EngineError::UnknownFeature)
    }
}

} // verus!
