//! Pixel formats of native windows and the configuration requests they resolve to.

use vstd::prelude::*;
use crate::error::RenderError;

verus! {

/// Buffer layout of a native window, as the platform's hardware-buffer format codes name it.
#[allow(non_camel_case_types)]
#[derive(Debug, Clone, Copy, PartialEq, Eq, Structural)]
pub enum PixelFormat {
    R8G8B8A8_UNORM,
    R8G8B8X8_UNORM,
    R8G8B8_UNORM,
    R5G6B5_UNORM,
    R16G16B16A16_FLOAT,
    R10G10B10A2_UNORM,
    BLOB,
    D16_UNORM,
    D24_UNORM,
    D24_UNORM_S8_UINT,
    D32_FLOAT,
    D32_FLOAT_S8_UINT,
    S8_UINT,
    Y8Cb8Cr8_420,
    YCbCr_P010,
    R8_UNORM,
    /// A code this library has no name for.
    Other(i32),
}

/// The platform code of each named format.
pub open spec fn code_of(f: PixelFormat) -> i32 {
    match f {
        PixelFormat::R8G8B8A8_UNORM => 1,
        PixelFormat::R8G8B8X8_UNORM => 2,
        PixelFormat::R8G8B8_UNORM => 3,
        PixelFormat::R5G6B5_UNORM => 4,
        PixelFormat::R16G16B16A16_FLOAT => 22,
        PixelFormat::BLOB => 33,
        PixelFormat::Y8Cb8Cr8_420 => 35,
        PixelFormat::R10G10B10A2_UNORM => 43,
        PixelFormat::D16_UNORM => 48,
        PixelFormat::D24_UNORM => 49,
        PixelFormat::D24_UNORM_S8_UINT => 50,
        PixelFormat::D32_FLOAT => 51,
        PixelFormat::D32_FLOAT_S8_UINT => 52,
        PixelFormat::S8_UINT => 53,
        PixelFormat::YCbCr_P010 => 54,
        PixelFormat::R8_UNORM => 56,
        PixelFormat::Other(c) => c,
    }
}

/// A format is canonical when `Other` does not carry a code that has a name.
pub open spec fn is_canonical(f: PixelFormat) -> bool {
    match f {
        PixelFormat::Other(c) => !(c == 1 || c == 2 || c == 3 || c == 4 || c == 22 || c == 33
            || c == 35 || c == 43 || (48 <= c && c <= 54) || c == 56),
        _ => true,
    }
}

impl PixelFormat {
    /// The format that a platform code stands for.
    pub fn from_code(code: i32) -> (f: PixelFormat)
        ensures
            code_of(f) == code,
            is_canonical(f),
    {
        match code {
            1 => PixelFormat::R8G8B8A8_UNORM,
            2 => PixelFormat::R8G8B8X8_UNORM,
            3 => PixelFormat::R8G8B8_UNORM,
            4 => PixelFormat::R5G6B5_UNORM,
            22 => PixelFormat::R16G16B16A16_FLOAT,
            33 => PixelFormat::BLOB,
            35 => PixelFormat::Y8Cb8Cr8_420,
            43 => PixelFormat::R10G10B10A2_UNORM,
            48 => PixelFormat::D16_UNORM,
            49 => PixelFormat::D24_UNORM,
            50 => PixelFormat::D24_UNORM_S8_UINT,
            51 => PixelFormat::D32_FLOAT,
            52 => PixelFormat::D32_FLOAT_S8_UINT,
            53 => PixelFormat::S8_UINT,
            54 => PixelFormat::YCbCr_P010,
            56 => PixelFormat::R8_UNORM,
            c => PixelFormat::Other(c),
        }
    }

    /// The platform code of this format; pools are keyed by it.
    pub fn code(&self) -> (c: i32)
        ensures
            c == code_of(*self),
    {
        match self {
            PixelFormat::R8G8B8A8_UNORM => 1,
            PixelFormat::R8G8B8X8_UNORM => 2,
            PixelFormat::R8G8B8_UNORM => 3,
            PixelFormat::R5G6B5_UNORM => 4,
            PixelFormat::R16G16B16A16_FLOAT => 22,
            PixelFormat::BLOB => 33,
            PixelFormat::Y8Cb8Cr8_420 => 35,
            PixelFormat::R10G10B10A2_UNORM => 43,
            PixelFormat::D16_UNORM => 48,
            PixelFormat::D24_UNORM => 49,
            PixelFormat::D24_UNORM_S8_UINT => 50,
            PixelFormat::D32_FLOAT => 51,
            PixelFormat::D32_FLOAT_S8_UINT => 52,
            PixelFormat::S8_UINT => 53,
            PixelFormat::YCbCr_P010 => 54,
            PixelFormat::R8_UNORM => 56,
            PixelFormat::Other(c) => *c,
        }
    }
}

/// Decoding the code of a canonical format gives the format back.
pub proof fn lemma_code_round_trip(f: PixelFormat)
    requires
        is_canonical(f),
    ensures
        forall|g: PixelFormat| is_canonical(g) && code_of(g) == code_of(f) ==> g == f,
{
}

/// What a configuration search asks of the backend: a window-capable
/// configuration with these channel, depth and stencil sizes.
#[derive(Debug, Clone, Copy, PartialEq, Eq, Structural)]
pub struct ConfigRequest {
    pub red: u8,
    pub green: u8,
    pub blue: u8,
    pub alpha: u8,
    pub depth: u8,
    pub stencil: u8,
    pub float_pixels: bool,
}

/// The baseline request: 8-bit RGBA with a 24-bit depth and 8-bit stencil buffer.
pub open spec fn baseline() -> ConfigRequest {
    ConfigRequest { red: 8, green: 8, blue: 8, alpha: 8, depth: 24, stencil: 8, float_pixels: false }
}

/// The request each format narrows the baseline to; `None` for formats without one.
pub open spec fn template_for(f: PixelFormat) -> Option<ConfigRequest> {
    let b = baseline();
    match f {
        PixelFormat::R8G8B8A8_UNORM => Some(b),
        PixelFormat::R8G8B8X8_UNORM => Some(b),
        PixelFormat::R8G8B8_UNORM => Some(ConfigRequest { alpha: 0, ..b }),
        PixelFormat::R5G6B5_UNORM => Some(ConfigRequest { red: 5, green: 6, blue: 5, alpha: 0, ..b }),
        PixelFormat::R16G16B16A16_FLOAT => Some(
            ConfigRequest { red: 16, green: 16, blue: 16, alpha: 16, float_pixels: true, ..b },
        ),
        PixelFormat::R10G10B10A2_UNORM => Some(ConfigRequest { red: 10, green: 10, blue: 10, alpha: 2, ..b }),
        PixelFormat::D16_UNORM => Some(ConfigRequest { depth: 16, ..b }),
        PixelFormat::D24_UNORM => Some(ConfigRequest { depth: 24, ..b }),
        PixelFormat::D24_UNORM_S8_UINT => Some(ConfigRequest { depth: 24, stencil: 8, ..b }),
        PixelFormat::D32_FLOAT => Some(ConfigRequest { depth: 32, float_pixels: true, ..b }),
        PixelFormat::D32_FLOAT_S8_UINT => Some(
            ConfigRequest { depth: 32, stencil: 8, float_pixels: true, ..b },
        ),
        PixelFormat::S8_UINT => Some(ConfigRequest { stencil: 8, ..b }),
        PixelFormat::R8_UNORM => Some(ConfigRequest { red: 8, green: 0, blue: 0, alpha: 0, ..b }),
        _ => None,
    }
}

/// The configuration request for a format, or `UnsupportedFormat` where the
/// format has none (planar, compressed, blob and unnamed formats).
pub fn config_request(format: PixelFormat) -> (r: Result<ConfigRequest, RenderError>)
    ensures
        r == (match template_for(format) {
            Some(t) => Ok(t),
            None => Err(RenderError::UnsupportedFormat),
        }),
{
    let b = ConfigRequest {
        red: 8,
        green: 8,
        blue: 8,
        alpha: 8,
        depth: 24,
        stencil: 8,
        float_pixels: false,
    };
    match format {
        PixelFormat::R8G8B8A8_UNORM => Ok(b),
        PixelFormat::R8G8B8X8_UNORM => Ok(b),
        PixelFormat::R8G8B8_UNORM => Ok(ConfigRequest { alpha: 0, ..b }),
        PixelFormat::R5G6B5_UNORM => Ok(ConfigRequest { red: 5, green: 6, blue: 5, alpha: 0, ..b }),
        PixelFormat::R16G16B16A16_FLOAT => Ok(
            ConfigRequest { red: 16, green: 16, blue: 16, alpha: 16, float_pixels: true, ..b },
        ),
        PixelFormat::R10G10B10A2_UNORM => Ok(ConfigRequest { red: 10, green: 10, blue: 10, alpha: 2, ..b }),
        PixelFormat::D16_UNORM => Ok(ConfigRequest { depth: 16, ..b }),
        PixelFormat::D24_UNORM => Ok(ConfigRequest { depth: 24, ..b }),
        PixelFormat::D24_UNORM_S8_UINT => Ok(ConfigRequest { depth: 24, stencil: 8, ..b }),
        PixelFormat::D32_FLOAT => Ok(ConfigRequest { depth: 32, float_pixels: true, ..b }),
        PixelFormat::D32_FLOAT_S8_UINT => Ok(
            ConfigRequest { depth: 32, stencil: 8, float_pixels: true, ..b },
        ),
        PixelFormat::S8_UINT => Ok(ConfigRequest { stencil: 8, ..b }),
        PixelFormat::R8_UNORM => Ok(ConfigRequest { red: 8, green: 0, blue: 0, alpha: 0, ..b }),
        _ => Err(RenderError::UnsupportedFormat),
    }
}

/// `i` is the position of the first greatest sample count in `s`.
pub open spec fn is_first_max(s: Seq<u8>, i: int) -> bool {
    &&& 0 <= i < s.len()
    &&& forall|j: int| 0 <= j < s.len() ==> s[j] <= s[i]
    &&& forall|j: int| 0 <= j < i ==> s[j] < s[i]
}

/// The candidate a stable maximum-multisample reduction keeps: the first
/// candidate is the accumulator, and a later one replaces it only when its
/// sample count is strictly greater. `None` when there is no candidate.
pub fn best_sample_index(samples: &Vec<u8>) -> (r: Option<usize>)
    ensures
        match r {
            Some(i) => is_first_max(samples@, i as int),
            None => samples@.len() == 0,
        },
{
    if samples.len() == 0 {
        return None;
    }
    let mut best: usize = 0;
    let mut k: usize = 1;
    while k < samples.len()
        invariant
            1 <= k <= samples@.len(),
            best < k,
            forall|j: int| 0 <= j < k ==> samples@[j] <= samples@[best as int],
            forall|j: int| 0 <= j < best ==> samples@[j] < samples@[best as int],
        decreases samples@.len() - k,
    {
        if samples[k] > samples[best] {
            best = k;
        }
        k = k + 1;
    }
    Some(best)
}

/// The first greatest position is unique: resolution over a fixed candidate
/// list is deterministic, and of equal counts the earlier candidate wins.
pub proof fn lemma_first_max_unique(s: Seq<u8>, i: int, k: int)
    requires
        is_first_max(s, i),
        is_first_max(s, k),
    ensures
        i == k,
{
    if i < k {
        assert(s[i] < s[k]);
        assert(s[k] <= s[i]);
    } else if k < i {
        assert(s[k] < s[i]);
        assert(s[i] <= s[k]);
    }
}

/// Among tied greatest candidates the earliest is chosen: when the first
/// greatest count stands at `i` and an equal one at a later `k`, position `i`
/// is the only one a selection can pick, so the candidate list with the two
/// swapped gets the one that stood at `k`.
pub proof fn lemma_earliest_tie_wins<K>(cands: Seq<K>, s: Seq<u8>, i: int, k: int)
    requires
        cands.len() == s.len(),
        0 <= i < k < s.len(),
        s[i] == s[k],
        forall|j: int| 0 <= j < s.len() ==> s[j] <= s[i],
        forall|j: int| 0 <= j < i ==> s[j] < s[i],
    ensures
        is_first_max(s, i),
        !is_first_max(s, k),
        forall|m: int| is_first_max(s, m) ==> m == i,
        cands.update(i, cands[k]).update(k, cands[i])[i] == cands[k],
{
    assert forall|m: int| is_first_max(s, m) implies m == i by {
        lemma_first_max_unique(s, m, i);
    }
}

/// Picks the configuration with the most samples out of the candidates the
/// backend enumerated, where `samples[i]` is the sample count of `candidates[i]`.
pub fn select_config<K>(candidates: Vec<K>, samples: &Vec<u8>) -> (r: Result<K, RenderError>)
    requires
        candidates@.len() == samples@.len(),
    ensures
        candidates@.len() == 0 <==> r == Err::<K, RenderError>(RenderError::NoMatchingConfiguration),
        match r {
            Ok(k) => exists|i: int| is_first_max(samples@, i) && k == candidates@[i],
            Err(e) => e == RenderError::NoMatchingConfiguration,
        },
{
    let mut candidates = candidates;
    match best_sample_index(samples) {
        Some(i) => {
            let k = candidates.swap_remove(i);
            Ok(k)
        },
        None => Err(RenderError::NoMatchingConfiguration),
    }
}

} // verus!
