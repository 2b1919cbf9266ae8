//! Screen capture backends and the order in which encoder trials use them.
use crate::profile::opt_view;
use crate::text::{chars_eq_str, lemma_norm_fixed, norm, norm_chars, str_eq, str_eq_ignore_case};
use vstd::prelude::*;

verus! {

/// An FFmpeg screen capture backend.
#[derive(Clone, Copy, Debug, PartialEq, Eq, Structural)]
pub enum Capture {
    /// DXGI Desktop Duplication — GPU-accelerated, lower CPU cost.
    Ddagrab,
    /// GDI screen grab — coordinate-accurate for mirror mode.
    Gdigrab,
}

/// The name FFmpeg knows a backend by, also its display name.
pub open spec fn capture_name(c: Capture) -> Seq<char> {
    match c {
        Capture::Ddagrab => "ddagrab"@,
        Capture::Gdigrab => "gdigrab"@,
    }
}

/// How a backend is spelled inside probe keys such as `h264_nvenc/Gdigrab/gpu0`.
pub open spec fn capture_key_name(c: Capture) -> Seq<char> {
    match c {
        Capture::Ddagrab => "Ddagrab"@,
        Capture::Gdigrab => "Gdigrab"@,
    }
}

/// What `Capture::from_str_loose` gives.
pub open spec fn spec_capture_from(s: Seq<char>) -> Option<Capture> {
    if norm(s) == "ddagrab"@ {
        Some(Capture::Ddagrab)
    } else if norm(s) == "gdigrab"@ {
        Some(Capture::Gdigrab)
    } else {
        None
    }
}

/// The backend that is not `c`.
pub open spec fn other_capture(c: Capture) -> Capture {
    match c {
        Capture::Ddagrab => Capture::Gdigrab,
        Capture::Gdigrab => Capture::Ddagrab,
    }
}

/// What `capture_order` gives: a recognised override first, else DXGI then GDI.
pub open spec fn spec_capture_order(prefer: Option<Seq<char>>) -> (Capture, Capture) {
    match prefer {
        Some(p) => match spec_capture_from(p) {
            Some(c) => (c, other_capture(c)),
            None => (Capture::Ddagrab, Capture::Gdigrab),
        },
        None => (Capture::Ddagrab, Capture::Gdigrab),
    }
}

impl Capture {
    /// The backend's FFmpeg name.
    pub fn as_str(&self) -> (r: &'static str)
        ensures
            r@ == capture_name(*self),
    {
        match self {
            Capture::Ddagrab => "ddagrab",
            Capture::Gdigrab => "gdigrab",
        }
    }

    /// The backend's spelling inside probe keys.
    pub fn key_name(&self) -> (r: &'static str)
        ensures
            r@ == capture_key_name(*self),
    {
        match self {
            Capture::Ddagrab => "Ddagrab",
            Capture::Gdigrab => "Gdigrab",
        }
    }

    /// The backend's FFmpeg name as an owned string.
    pub fn to_string(&self) -> (r: String)
        ensures
            r@ == capture_name(*self),
    {
        match self {
            Capture::Ddagrab => String::from_str("ddagrab"),
            Capture::Gdigrab => String::from_str("gdigrab"),
        }
    }

    /// Reads a backend name, ignoring case and surrounding white space.
    pub fn from_str_loose(s: &str) -> (r: Option<Self>)
        ensures
            r == spec_capture_from(s@),
    {
        let v = norm_chars(s);
        if chars_eq_str(&v, "ddagrab") {
            Some(Capture::Ddagrab)
        } else if chars_eq_str(&v, "gdigrab") {
            Some(Capture::Gdigrab)
        } else {
            None
        }
    }
}

/// Capture backend priority order for encoder trials.
///
/// A recognised override wins and the other backend follows it; otherwise DXGI comes first
/// and GDI is the fallback, for software and hardware encoders, mirrored or extended.
pub fn capture_order(
    stream_mode: &str,
    prefer_capture_env: Option<&str>,
    encoder: Option<&str>,
) -> (r: [Capture; 2])
    ensures
        (r[0], r[1]) == spec_capture_order(opt_view(prefer_capture_env)),
        r[0] != r[1],
{
    if let Some(p) = prefer_capture_env {
        if let Some(pref) = Capture::from_str_loose(p) {
            let other = if pref == Capture::Ddagrab {
                Capture::Gdigrab
            } else {
                Capture::Ddagrab
            };
            return [pref, other];
        }
    }
    let software = match encoder {
        Some(e) => str_eq(e, "libx264"),
        None => false,
    };
    if str_eq_ignore_case(stream_mode, "mirror") {
        if software {
            // Mirror + CPU encode: try DXGI first to reduce capture CPU, then GDI for accuracy.
            [Capture::Ddagrab, Capture::Gdigrab]
        } else {
            // Mirror + HW encode: DXGI avoids gdigrab dup/drop at 1080p60; GDI remains fallback.
            [Capture::Ddagrab, Capture::Gdigrab]
        }
    } else {
        [Capture::Ddagrab, Capture::Gdigrab]
    }
}

/// Reading a backend's FFmpeg name back gives the backend.
pub proof fn law_capture_name_round_trip(c: Capture)
    ensures
        spec_capture_from(capture_name(c)) == Some(c),
{
    reveal_strlit("ddagrab");
    reveal_strlit("gdigrab");
    lemma_norm_fixed(capture_name(c));
    assert("ddagrab"@[0] != "gdigrab"@[0]);
}

} // verus!
