//! Adaptive stream profile: device resolution + transport + encoder caps.
use crate::text::{chars_eq_str, norm, norm_chars, str_eq};
use vstd::prelude::*;

verus! {

/// How the Android client reaches the host.
#[derive(Clone, Copy, Debug, PartialEq, Eq, Structural)]
pub enum TransportKind {
    Usb,
    Wifi,
    Unknown,
}

/// What `TransportKind::parse` gives for an optional text.
pub open spec fn spec_transport_parse(value: Option<Seq<char>>) -> TransportKind {
    match value {
        Some(v) => if norm(v) == "usb"@ {
            TransportKind::Usb
        } else if norm(v) == "wifi"@ || norm(v) == "wi-fi"@ || norm(v) == "lan"@ {
            TransportKind::Wifi
        } else {
            TransportKind::Unknown
        },
        None => TransportKind::Unknown,
    }
}

pub open spec fn spec_default_fps(t: TransportKind) -> u32 {
    match t {
        TransportKind::Usb => 60,
        _ => 30,
    }
}

pub open spec fn spec_default_bitrate_kbps(t: TransportKind) -> u32 {
    match t {
        TransportKind::Usb => 10_000,
        _ => 5_000,
    }
}

/// The view of an optional text.
pub open spec fn opt_view(v: Option<&str>) -> Option<Seq<char>> {
    match v {
        Some(s) => Some(s@),
        None => None,
    }
}

impl TransportKind {
    /// Reads `usb`, `wifi`/`wi-fi`/`lan` (any case, surrounding white space ignored).
    pub fn parse(value: Option<&str>) -> (r: Self)
        ensures
            r == spec_transport_parse(opt_view(value)),
    {
        match value {
            Some(s) => {
                let v = norm_chars(s);
                if chars_eq_str(&v, "usb") {
                    TransportKind::Usb
                } else if chars_eq_str(&v, "wifi") || chars_eq_str(&v, "wi-fi") || chars_eq_str(
                    &v,
                    "lan",
                ) {
                    TransportKind::Wifi
                } else {
                    TransportKind::Unknown
                }
            },
            None => TransportKind::Unknown,
        }
    }

    pub fn default_fps(self) -> (r: u32)
        ensures
            r == spec_default_fps(self),
    {
        match self {
            TransportKind::Usb => 60,
            TransportKind::Wifi | TransportKind::Unknown => 30,
        }
    }

    pub fn default_bitrate_kbps(self) -> (r: u32)
        ensures
            r == spec_default_bitrate_kbps(self),
    {
        match self {
            TransportKind::Usb => 10_000,
            TransportKind::Wifi | TransportKind::Unknown => 5_000,
        }
    }
}

/// Everything that decides the base geometry, frame rate and bitrate of a stream.
#[derive(Clone, Debug)]
pub struct BaseProfileRequest {
    pub preset_active: bool,
    pub preset_w: Option<u32>,
    pub preset_h: Option<u32>,
    pub preset_fps: Option<u32>,
    pub preset_bitrate: Option<u32>,
    pub manual_w: Option<u32>,
    pub manual_h: Option<u32>,
    pub manual_bitrate: Option<u32>,
    pub env_w: Option<u32>,
    pub env_h: Option<u32>,
    pub env_fps: Option<u32>,
    pub env_bitrate: Option<u32>,
    pub client_w: Option<u32>,
    pub client_h: Option<u32>,
    pub client_fps: Option<u32>,
    pub client_bitrate: Option<u32>,
    pub mirror_host_w: Option<u32>,
    pub mirror_host_h: Option<u32>,
    pub transport: TransportKind,
    pub adaptive: bool,
}

/// Width, height, frame rate and bitrate handed to the encoder.
#[derive(Clone, Copy, Debug, PartialEq, Eq, Structural)]
pub struct StreamProfile {
    pub w: u32,
    pub h: u32,
    pub fps: u32,
    pub bitrate_kbps: u32,
}

/// `v.clamp(lo, hi)` for `lo <= hi`.
pub open spec fn clamp(v: int, lo: int, hi: int) -> int {
    if v < lo {
        lo
    } else if v > hi {
        hi
    } else {
        v
    }
}

pub open spec fn min(a: int, b: int) -> int {
    if a <= b {
        a
    } else {
        b
    }
}

/// `x & !15`: `x` rounded down to a multiple of 16.
pub open spec fn down16(x: int) -> int {
    x - x % 16
}

/// The first of two options that holds a value (`a.or(b)`).
pub open spec fn or_opt<T>(a: Option<T>, b: Option<T>) -> Option<T> {
    match a {
        Some(_) => a,
        None => b,
    }
}

/// `v.unwrap_or(d)`.
pub open spec fn or_default<T>(v: Option<T>, d: T) -> T {
    match v {
        Some(x) => x,
        None => d,
    }
}

/// `v.filter(|x| x >= lo)`.
pub open spec fn at_least(v: Option<u32>, lo: u32) -> Option<u32> {
    match v {
        Some(x) => if x >= lo {
            Some(x)
        } else {
            None
        },
        None => None,
    }
}

/// What `align_dim` gives: the value clamped into range, rounded to the nearest multiple of
/// 16 (halves up), then clamped again into `[min, max & !15]`.
pub open spec fn spec_align_dim(value: int, min: int, max: int) -> int {
    clamp(down16(clamp(value, min, max) + 8), min, down16(max))
}

/// `(a + b/2) / b` with halves rounded up: `(a / b).round()` for nonnegative values.
pub open spec fn round_div(a: int, b: int) -> int {
    (2 * a + b) / (2 * b)
}

/// The size of `w`×`h` scaled to fit inside `max_w`×`max_h` (never enlarged), before alignment.
pub open spec fn scaled_dims(w: int, h: int, max_w: int, max_h: int) -> (int, int) {
    if w <= max_w && h <= max_h {
        (w, h)
    } else if max_w * h <= max_h * w {
        (max_w, round_div(h * max_w, w))
    } else {
        (round_div(w * max_h, h), max_h)
    }
}

/// What `fit_inside` gives.
pub open spec fn spec_fit_inside(w: int, h: int, max_w: int, max_h: int) -> (int, int) {
    if w == 0 || h == 0 {
        (spec_align_dim(max_w, 320, 3840), spec_align_dim(max_h, 240, 2160))
    } else {
        let (sw, sh) = scaled_dims(w, h, max_w, max_h);
        (spec_align_dim(sw, 320, 3840), spec_align_dim(sh, 240, 2160))
    }
}

/// The soft resolution cap that a transport puts on a stream.
pub open spec fn transport_box(t: TransportKind) -> (int, int) {
    match t {
        TransportKind::Usb => (1920, 1200),
        _ => (1280, 720),
    }
}

/// Width and height that `resolve_base_profile` picks before the transport cap.
pub open spec fn requested_dims(req: BaseProfileRequest) -> (int, int) {
    let cw = at_least(req.client_w, 320);
    let ch = at_least(req.client_h, 240);
    if req.adaptive && cw is Some && ch is Some {
        (spec_align_dim(cw->0 as int, 320, 3840), spec_align_dim(ch->0 as int, 240, 2160))
    } else {
        let rw = or_default(or_opt(or_opt(or_opt(req.manual_w, req.env_w), req.mirror_host_w), cw), 960);
        let rh = or_default(or_opt(or_opt(or_opt(req.manual_h, req.env_h), req.mirror_host_h), ch), 540);
        (spec_align_dim(rw as int, 320, 3840), spec_align_dim(rh as int, 240, 2160))
    }
}

/// What `resolve_base_profile` gives.
pub open spec fn spec_base_profile(req: BaseProfileRequest) -> StreamProfile {
    if req.preset_active {
        StreamProfile {
            w: spec_align_dim(or_default(req.preset_w, 1280) as int, 320, 3840) as u32,
            h: spec_align_dim(or_default(req.preset_h, 720) as int, 240, 2160) as u32,
            fps: clamp(or_default(req.preset_fps, 60) as int, 10, 60) as u32,
            bitrate_kbps: clamp(or_default(req.preset_bitrate, 10_000) as int, 1000, 50_000) as u32,
        }
    } else {
        let (w0, h0) = requested_dims(req);
        let (bw, bh) = transport_box(req.transport);
        let (w, h) = spec_fit_inside(w0, h0, bw, bh);
        StreamProfile {
            w: w as u32,
            h: h as u32,
            fps: clamp(
                or_default(
                    or_opt(req.client_fps, req.env_fps),
                    spec_default_fps(req.transport),
                ) as int,
                10,
                60,
            ) as u32,
            bitrate_kbps: clamp(
                or_default(
                    or_opt(or_opt(req.client_bitrate, req.manual_bitrate), req.env_bitrate),
                    spec_default_bitrate_kbps(req.transport),
                ) as int,
                1000,
                50_000,
            ) as u32,
        }
    }
}

/// The limits that one encoder, on one transport and with one quality preset, puts on a stream.
pub struct EncoderCaps {
    pub max_w: u32,
    pub max_h: u32,
    pub max_fps: u32,
    pub min_kbps: u32,
    pub max_kbps: u32,
}

pub open spec fn caps(max_w: u32, max_h: u32, max_fps: u32, min_kbps: u32, max_kbps: u32) -> EncoderCaps {
    EncoderCaps { max_w, max_h, max_fps, min_kbps, max_kbps }
}

/// 60 fps over USB, 30 otherwise.
pub open spec fn transport_fps_cap(t: TransportKind) -> u32 {
    match t {
        TransportKind::Usb => 60,
        _ => 30,
    }
}

/// The caps table of `apply_encoder_profile_caps`; `None` leaves the profile unchanged.
pub open spec fn spec_encoder_caps(
    encoder: Seq<char>,
    t: TransportKind,
    preset: Option<Seq<char>>,
) -> Option<EncoderCaps> {
    let (bw, bh) = transport_box(t);
    if encoder == "libx264"@ {
        let p = or_default(preset, Seq::empty());
        if preset is Some && (p == "ahorro"@ || p == "cpu_safe"@) {
            Some(caps(960, 544, 30, 4_000, 6_000))
        } else if preset is Some && (p == "equilibrado"@ || p == "alta_720p"@) {
            Some(caps(1280, 720, transport_fps_cap(t), 5_000, 15_000))
        } else if preset is Some && p == "fluido_900p"@ {
            Some(caps(1600, 900, transport_fps_cap(t), 8_000, 12_000))
        } else if preset is Some && (p == "full_hd"@ || p == "full_hd_max"@) {
            Some(caps(1280, 720, transport_fps_cap(t), 6_000, 10_000))
        } else {
            Some(caps(1280, 720, 30, 4_000, 8_000))
        }
    } else if encoder == "h264_nvenc"@ {
        Some(caps(bw as u32, bh as u32, transport_fps_cap(t), 4_000, 10_000))
    } else if encoder == "h264_qsv"@ {
        Some(caps(bw as u32, bh as u32, transport_fps_cap(t), 5_000, 10_000))
    } else if encoder == "h264_amf"@ {
        Some(caps(bw as u32, bh as u32, transport_fps_cap(t), 5_000, 18_000))
    } else {
        None
    }
}

/// What `apply_encoder_profile_caps` gives.
pub open spec fn spec_apply_caps(
    encoder: Seq<char>,
    t: TransportKind,
    base: StreamProfile,
    preset: Option<Seq<char>>,
) -> StreamProfile {
    match spec_encoder_caps(encoder, t, preset) {
        None => base,
        Some(c) => {
            let (w, h) = spec_fit_inside(base.w as int, base.h as int, c.max_w as int, c.max_h as int);
            StreamProfile {
                w: w as u32,
                h: h as u32,
                fps: min(base.fps as int, c.max_fps as int) as u32,
                bitrate_kbps: clamp(base.bitrate_kbps as int, c.min_kbps as int, c.max_kbps as int) as u32,
            }
        },
    }
}

fn clamp_u32(v: u32, lo: u32, hi: u32) -> (r: u32)
    requires
        lo <= hi,
    ensures
        r == clamp(v as int, lo as int, hi as int),
{
    if v < lo {
        lo
    } else if v > hi {
        hi
    } else {
        v
    }
}

fn min_u32(a: u32, b: u32) -> (r: u32)
    ensures
        r == min(a as int, b as int),
{
    if a <= b {
        a
    } else {
        b
    }
}

fn first_some(a: Option<u32>, b: Option<u32>) -> (r: Option<u32>)
    ensures
        r == or_opt(a, b),
{
    match a {
        Some(_) => a,
        None => b,
    }
}

fn value_or(v: Option<u32>, d: u32) -> (r: u32)
    ensures
        r == or_default(v, d),
{
    match v {
        Some(x) => x,
        None => d,
    }
}

fn keep_at_least(v: Option<u32>, lo: u32) -> (r: Option<u32>)
    ensures
        r == at_least(v, lo),
{
    match v {
        Some(x) => if x >= lo {
            Some(x)
        } else {
            None
        },
        None => None,
    }
}

/// Clamps a dimension into `[min, max]` and rounds it to the nearest multiple of 16.
pub fn align_dim(value: u32, min: u32, max: u32) -> (r: u32)
    requires
        min <= down16(max as int),
        clamp(value as int, min as int, max as int) + 8 <= u32::MAX,
    ensures
        r == spec_align_dim(value as int, min as int, max as int),
{
    let v = clamp_u32(value, min, max);
    let bumped: u32 = v + 8;
    let aligned = bumped & !15u32;
    let top = max & !15u32;
    assert(aligned == bumped - bumped % 16) by (bit_vector)
        requires
            aligned == bumped & !15u32,
    ;
    assert(top == max - max % 16) by (bit_vector)
        requires
            top == max & !15u32,
    ;
    clamp_u32(aligned, min, top)
}

proof fn lemma_mul_u32_fits(a: u32, b: u32)
    ensures
        0 <= a * b <= 0xffff_fffe_0000_0001,
{
    assert(0 <= a * b <= 0xffff_fffe_0000_0001) by (nonlinear_arith)
        requires
            a <= 0xffff_ffff,
            b <= 0xffff_ffff,
    ;
}

/// `round_div(a, b)` never exceeds `m` when `a <= m * b`.
proof fn lemma_round_div_le(a: int, b: int, m: int)
    requires
        0 <= a,
        0 < b,
        0 <= m,
        a <= m * b,
    ensures
        0 <= round_div(a, b) <= m,
{
    assert(2 * a + b < (m + 1) * (2 * b)) by (nonlinear_arith)
        requires
            a <= m * b,
            0 < b,
    ;
    assert((2 * a + b) / (2 * b) < m + 1) by (nonlinear_arith)
        requires
            2 * a + b < (m + 1) * (2 * b),
            0 < b,
            0 <= a,
    ;
    assert(0 <= (2 * a + b) / (2 * b)) by (nonlinear_arith)
        requires
            0 < b,
            0 <= a,
    ;
}

/// Fits `w`×`h` inside `max_w`×`max_h` keeping the aspect ratio, never enlarging, then aligns
/// both sides to multiples of 16. The scale is computed exactly and each side rounded to the
/// nearest integer (halves up) before alignment.
pub fn fit_inside(w: u32, h: u32, max_w: u32, max_h: u32) -> (r: (u32, u32))
    ensures
        (r.0 as int, r.1 as int) == spec_fit_inside(w as int, h as int, max_w as int, max_h as int),
{
    if w == 0 || h == 0 {
        return (align_dim(max_w, 320, 3840), align_dim(max_h, 240, 2160));
    }
    proof {
        lemma_mul_u32_fits(max_w, h);
        lemma_mul_u32_fits(max_h, w);
        lemma_mul_u32_fits(h, max_w);
        lemma_mul_u32_fits(w, max_h);
    }
    let (sw, sh): (u32, u32) = if w <= max_w && h <= max_h {
        (w, h)
    } else if (max_w as u64) * (h as u64) <= (max_h as u64) * (w as u64) {
        let a: u128 = (h as u128) * (max_w as u128);
        let q: u128 = (2 * a + w as u128) / (2 * (w as u128));
        proof {
            assert(h * max_w <= max_h * w);
            lemma_round_div_le(h * max_w, w as int, max_h as int);
        }
        (max_w, q as u32)
    } else {
        let a: u128 = (w as u128) * (max_h as u128);
        let q: u128 = (2 * a + h as u128) / (2 * (h as u128));
        proof {
            assert(w * max_h <= max_w * h) by (nonlinear_arith)
                requires
                    (max_w as u64) * (h as u64) > (max_h as u64) * (w as u64),
            ;
            lemma_round_div_le(w * max_h, h as int, max_w as int);
        }
        (q as u32, max_h)
    };
    (align_dim(sw, 320, 3840), align_dim(sh, 240, 2160))
}

/// Resolves width/height/fps/bitrate before encoder-specific caps.
///
/// A named preset fixes everything; otherwise an adaptive client's own size wins, then the
/// manual setting, the environment, the mirrored display and the client, and the result is
/// fitted inside the transport's soft cap.
pub fn resolve_base_profile(req: &BaseProfileRequest) -> (r: StreamProfile)
    ensures
        r == spec_base_profile(*req),
{
    if req.preset_active {
        let w = align_dim(value_or(req.preset_w, 1280), 320, 3840);
        let h = align_dim(value_or(req.preset_h, 720), 240, 2160);
        let fps = clamp_u32(value_or(req.preset_fps, 60), 10, 60);
        let bitrate = clamp_u32(value_or(req.preset_bitrate, 10_000), 1000, 50_000);
        return StreamProfile { w, h, fps, bitrate_kbps: bitrate };
    }
    let client_w = keep_at_least(req.client_w, 320);
    let client_h = keep_at_least(req.client_h, 240);

    let (w0, h0): (u32, u32) = if req.adaptive && client_w.is_some() && client_h.is_some() {
        (align_dim(client_w.unwrap(), 320, 3840), align_dim(client_h.unwrap(), 240, 2160))
    } else {
        let rw = value_or(
            first_some(first_some(first_some(req.manual_w, req.env_w), req.mirror_host_w), client_w),
            960,
        );
        let rh = value_or(
            first_some(first_some(first_some(req.manual_h, req.env_h), req.mirror_host_h), client_h),
            540,
        );
        (align_dim(rw, 320, 3840), align_dim(rh, 240, 2160))
    };

    // Soft cap by transport before encoder pass (Android already scales; host double-checks).
    let (max_w, max_h): (u32, u32) = match req.transport {
        TransportKind::Usb => (1920, 1200),
        TransportKind::Wifi | TransportKind::Unknown => (1280, 720),
    };
    let (w, h) = fit_inside(w0, h0, max_w, max_h);

    let fps = clamp_u32(
        value_or(first_some(req.client_fps, req.env_fps), req.transport.default_fps()),
        10,
        60,
    );
    let bitrate = clamp_u32(
        value_or(
            first_some(first_some(req.client_bitrate, req.manual_bitrate), req.env_bitrate),
            req.transport.default_bitrate_kbps(),
        ),
        1000,
        50_000,
    );
    StreamProfile { w, h, fps, bitrate_kbps: bitrate }
}

fn opt_is(v: Option<&str>, lit: &str) -> (r: bool)
    ensures
        r == (v is Some && v->0@ == lit@),
{
    match v {
        Some(s) => str_eq(s, lit),
        None => false,
    }
}

/// The caps table behind `apply_encoder_profile_caps`.
pub fn encoder_caps(encoder: &str, transport: TransportKind, preset: Option<&str>) -> (r: Option<EncoderCaps>)
    ensures
        r == spec_encoder_caps(encoder@, transport, opt_view(preset)),
{
    let (bw, bh): (u32, u32) = match transport {
        TransportKind::Usb => (1920, 1200),
        TransportKind::Wifi | TransportKind::Unknown => (1280, 720),
    };
    let tfps: u32 = match transport {
        TransportKind::Usb => 60,
        TransportKind::Wifi | TransportKind::Unknown => 30,
    };
    if str_eq(encoder, "libx264") {
        if opt_is(preset, "ahorro") || opt_is(preset, "cpu_safe") {
            Some(EncoderCaps { max_w: 960, max_h: 544, max_fps: 30, min_kbps: 4_000, max_kbps: 6_000 })
        } else if opt_is(preset, "equilibrado") || opt_is(preset, "alta_720p") {
            Some(EncoderCaps { max_w: 1280, max_h: 720, max_fps: tfps, min_kbps: 5_000, max_kbps: 15_000 })
        } else if opt_is(preset, "fluido_900p") {
            Some(EncoderCaps { max_w: 1600, max_h: 900, max_fps: tfps, min_kbps: 8_000, max_kbps: 12_000 })
        } else if opt_is(preset, "full_hd") || opt_is(preset, "full_hd_max") {
            // 1080p60 is not sustainable on CPU — best-effort 720p60 on USB.
            Some(EncoderCaps { max_w: 1280, max_h: 720, max_fps: tfps, min_kbps: 6_000, max_kbps: 10_000 })
        } else {
            // Without a named preset: 1280×720@30 at 4–8 Mbps.
            Some(EncoderCaps { max_w: 1280, max_h: 720, max_fps: 30, min_kbps: 4_000, max_kbps: 8_000 })
        }
    } else if str_eq(encoder, "h264_nvenc") {
        Some(EncoderCaps { max_w: bw, max_h: bh, max_fps: tfps, min_kbps: 4_000, max_kbps: 10_000 })
    } else if str_eq(encoder, "h264_qsv") {
        Some(EncoderCaps { max_w: bw, max_h: bh, max_fps: tfps, min_kbps: 5_000, max_kbps: 10_000 })
    } else if str_eq(encoder, "h264_amf") {
        Some(EncoderCaps { max_w: bw, max_h: bh, max_fps: tfps, min_kbps: 5_000, max_kbps: 18_000 })
    } else {
        None
    }
}

/// Applies per-encoder + transport limits to produce the FFmpeg profile.
pub fn apply_encoder_profile_caps(
    encoder: &str,
    transport: TransportKind,
    base: StreamProfile,
    preset: Option<&str>,
) -> (r: StreamProfile)
    ensures
        r == spec_apply_caps(encoder@, transport, base, opt_view(preset)),
{
    match encoder_caps(encoder, transport, preset) {
        None => base,
        Some(c) => {
            let (w, h) = fit_inside(base.w, base.h, c.max_w, c.max_h);
            StreamProfile {
                w,
                h,
                fps: min_u32(base.fps, c.max_fps),
                bitrate_kbps: clamp_u32(base.bitrate_kbps, c.min_kbps, c.max_kbps),
            }
        },
    }
}


/// Alignment lands on a multiple of 16 inside `[min, max & !15]` whenever `min` is a multiple of 16.
pub proof fn law_align_dim_aligned(value: u32, min: u32, max: u32)
    requires
        min <= down16(max as int),
        clamp(value as int, min as int, max as int) + 8 <= u32::MAX,
        min % 16 == 0,
    ensures
        spec_align_dim(value as int, min as int, max as int) % 16 == 0,
        min <= spec_align_dim(value as int, min as int, max as int) <= down16(max as int),
{
}

/// Inside the range, alignment rounds to the nearest multiple of 16, halves up.
pub proof fn law_align_dim_nearest(value: u32, min: u32, max: u32)
    requires
        min <= down16(max as int),
        clamp(value as int, min as int, max as int) + 8 <= u32::MAX,
        min <= value <= max,
        min <= down16(value + 8) <= down16(max as int),
    ensures
        spec_align_dim(value as int, min as int, max as int) == down16(value + 8),
        spec_align_dim(value as int, min as int, max as int) % 16 == 0,
        value - 8 < spec_align_dim(value as int, min as int, max as int) <= value + 8,
{
}

/// A dimension no larger than a bound `m` stays no larger than `m` after alignment, when `m`
/// lies in the range and sits less than 8 above a multiple of 16.
proof fn lemma_align_le(v: int, lo: int, hi: int, m: int)
    requires
        0 <= v <= m,
        lo <= m <= hi,
        m % 16 < 8,
        lo <= down16(hi),
    ensures
        spec_align_dim(v, lo, hi) <= m,
{
    let c = clamp(v, lo, hi);
    assert(c <= m);
    assert(down16(c + 8) <= down16(m + 8));
    assert(down16(m + 8) <= m);
}

/// `fit_inside` keeps the result inside the box for every box whose sides lie within the
/// supported range and sit less than 8 above a multiple of 16 (all the boxes this host uses).
pub proof fn law_fit_inside_within_box(w: u32, h: u32, max_w: u32, max_h: u32)
    requires
        320 <= max_w <= 3840,
        240 <= max_h <= 2160,
        max_w % 16 < 8,
        max_h % 16 < 8,
    ensures
        spec_fit_inside(w as int, h as int, max_w as int, max_h as int).0 <= max_w,
        spec_fit_inside(w as int, h as int, max_w as int, max_h as int).1 <= max_h,
        spec_fit_inside(w as int, h as int, max_w as int, max_h as int).0 % 16 == 0,
        spec_fit_inside(w as int, h as int, max_w as int, max_h as int).1 % 16 == 0,
{
    if w == 0 || h == 0 {
        lemma_align_le(max_w as int, 320, 3840, max_w as int);
        lemma_align_le(max_h as int, 240, 2160, max_h as int);
    } else {
        let (sw, sh) = scaled_dims(w as int, h as int, max_w as int, max_h as int);
        if w <= max_w && h <= max_h {
        } else if max_w * h <= max_h * w {
            assert(h * max_w <= max_h * w) by (nonlinear_arith)
                requires
                    max_w * h <= max_h * w,
            ;
            lemma_round_div_le(h * max_w, w as int, max_h as int);
        } else {
            assert(w * max_h <= max_w * h) by (nonlinear_arith)
                requires
                    max_w * h > max_h * w,
            ;
            lemma_round_div_le(w * max_h, h as int, max_w as int);
        }
        assert(0 <= sw <= max_w && 0 <= sh <= max_h);
        lemma_align_le(sw, 320, 3840, max_w as int);
        lemma_align_le(sh, 240, 2160, max_h as int);
    }
}

/// Every resolved base profile runs at 10–60 fps and 1–50 Mbps, with 16-aligned sides in
/// 320–3840 × 240–2160; without a preset it also fits the transport's soft cap
/// (1920×1200 over USB, 1280×720 otherwise).
pub proof fn law_base_profile_bounds(req: BaseProfileRequest)
    ensures
        10 <= spec_base_profile(req).fps <= 60,
        1000 <= spec_base_profile(req).bitrate_kbps <= 50_000,
        spec_base_profile(req).w % 16 == 0,
        spec_base_profile(req).h % 16 == 0,
        320 <= spec_base_profile(req).w <= 3840,
        240 <= spec_base_profile(req).h <= 2160,
        !req.preset_active ==> spec_base_profile(req).w <= transport_box(req.transport).0,
        !req.preset_active ==> spec_base_profile(req).h <= transport_box(req.transport).1,
{
    if !req.preset_active {
        let (w0, h0) = requested_dims(req);
        let (bw, bh) = transport_box(req.transport);
        assert(0 <= w0 && 0 <= h0);
        law_fit_inside_within_box(w0 as u32, h0 as u32, bw as u32, bh as u32);
    }
}

/// Capped profiles never raise the frame rate, keep the bitrate inside the encoder's band,
/// and software encoding stays at 30 fps or below unless a 720p-or-larger preset runs over USB.
pub proof fn law_encoder_caps_bounds(
    encoder: Seq<char>,
    t: TransportKind,
    base: StreamProfile,
    preset: Option<Seq<char>>,
)
    ensures
        spec_apply_caps(encoder, t, base, preset).fps <= base.fps,
        spec_encoder_caps(encoder, t, preset) is Some ==> spec_apply_caps(encoder, t, base, preset).fps
            <= 60,
        spec_encoder_caps(encoder, t, preset) matches Some(c) ==> c.min_kbps <= spec_apply_caps(
            encoder,
            t,
            base,
            preset,
        ).bitrate_kbps <= c.max_kbps,
        encoder == "libx264"@ && !(t == TransportKind::Usb && preset is Some) ==> spec_apply_caps(
            encoder,
            t,
            base,
            preset,
        ).fps <= 30,
{
}


/// An aligned side inside its range is its own alignment.
proof fn lemma_align_fixed(v: int, lo: int, hi: int)
    requires
        lo <= v <= hi,
        v % 16 == 0,
        hi % 16 == 0,
    ensures
        spec_align_dim(v, lo, hi) == v,
{
    assert((v + 8) % 16 == 8);
}

/// A side after alignment into `[lo, hi]` (both multiples of 16) lies in the range.
proof fn lemma_align_in_range(v: int, lo: int, hi: int)
    requires
        lo <= hi,
        lo % 16 == 0,
        hi % 16 == 0,
    ensures
        lo <= spec_align_dim(v, lo, hi) <= hi,
{
}

/// Applying the encoder caps to a capped profile changes nothing.
pub proof fn law_caps_idempotent(encoder: Seq<char>, t: TransportKind, b: StreamProfile, preset: Option<Seq<char>>)
    ensures
        spec_apply_caps(encoder, t, spec_apply_caps(encoder, t, b, preset), preset) == spec_apply_caps(
            encoder,
            t,
            b,
            preset,
        ),
{
    match spec_encoder_caps(encoder, t, preset) {
        None => {},
        Some(c) => {
            let once = spec_apply_caps(encoder, t, b, preset);
            law_fit_inside_within_box(b.w, b.h, c.max_w, c.max_h);
            let (w, h) = spec_fit_inside(b.w as int, b.h as int, c.max_w as int, c.max_h as int);
            if b.w == 0 || b.h == 0 {
                lemma_align_in_range(c.max_w as int, 320, 3840);
                lemma_align_in_range(c.max_h as int, 240, 2160);
            } else {
                let (sw, sh) = scaled_dims(b.w as int, b.h as int, c.max_w as int, c.max_h as int);
                lemma_align_in_range(sw, 320, 3840);
                lemma_align_in_range(sh, 240, 2160);
            }
            assert(once.w == w && once.h == h);
            lemma_align_fixed(w, 320, 3840);
            lemma_align_fixed(h, 240, 2160);
            assert(spec_fit_inside(w, h, c.max_w as int, c.max_h as int) == (w, h));
        },
    }
}


/// Without a preset, the frame rate is the client's when it asks for 10–60 fps, else the
/// environment's, else the transport default, and the bitrate is the client's when it asks
/// for 1–50 Mbps; with a preset, the preset's frame rate and bitrate hold when in range.
pub proof fn law_base_rates(req: BaseProfileRequest)
    ensures
        !req.preset_active && req.client_fps is Some && 10 <= req.client_fps->0 <= 60
            ==> spec_base_profile(req).fps == req.client_fps->0,
        !req.preset_active && req.client_fps is None && req.env_fps is Some && 10 <= req.env_fps->0 <= 60
            ==> spec_base_profile(req).fps == req.env_fps->0,
        !req.preset_active && req.client_fps is None && req.env_fps is None ==> spec_base_profile(req).fps
            == (if req.transport == TransportKind::Usb {
            60u32
        } else {
            30u32
        }),
        !req.preset_active && req.client_bitrate is Some && 1000 <= req.client_bitrate->0 <= 50_000
            ==> spec_base_profile(req).bitrate_kbps == req.client_bitrate->0,
        req.preset_active && req.preset_fps is Some && 10 <= req.preset_fps->0 <= 60
            ==> spec_base_profile(req).fps == req.preset_fps->0,
        req.preset_active && req.preset_bitrate is Some && 1000 <= req.preset_bitrate->0 <= 50_000
            ==> spec_base_profile(req).bitrate_kbps == req.preset_bitrate->0,
{
}

/// Over USB every hardware encoder keeps the frame rate up to 60 fps, elsewhere up to 30;
/// software encoding without a preset keeps it up to 30 whatever the transport.
pub proof fn law_hardware_frame_rates(
    encoder: Seq<char>,
    t: TransportKind,
    b: StreamProfile,
    preset: Option<Seq<char>>,
)
    ensures
        (encoder == "h264_nvenc"@ || encoder == "h264_qsv"@ || encoder == "h264_amf"@) && t
            == TransportKind::Usb ==> spec_apply_caps(encoder, t, b, preset).fps == (if b.fps <= 60 {
            b.fps
        } else {
            60u32
        }),
        (encoder == "h264_nvenc"@ || encoder == "h264_qsv"@ || encoder == "h264_amf"@) && t
            != TransportKind::Usb ==> spec_apply_caps(encoder, t, b, preset).fps == (if b.fps <= 30 {
            b.fps
        } else {
            30u32
        }),
        encoder == "libx264"@ && preset is None ==> spec_apply_caps(encoder, t, b, preset).fps == (if b.fps
            <= 30 {
            b.fps
        } else {
            30u32
        }),
{
    reveal_strlit("h264_amf");
    reveal_strlit("h264_nvenc");
    reveal_strlit("h264_qsv");
    reveal_strlit("libx264");
    assert("h264_amf"@[0] != "libx264"@[0]);
    assert("h264_qsv"@[0] != "libx264"@[0]);
    assert("h264_nvenc"@[0] != "libx264"@[0]);
    assert("h264_amf"@[5] != "h264_nvenc"@[5]);
    assert("h264_qsv"@[5] != "h264_nvenc"@[5]);
    assert("h264_amf"@[5] != "h264_qsv"@[5]);
}


/// Hardware encoders keep a bitrate inside their band (NVENC 4–10 Mbps, QSV 5–10, AMF 5–18)
/// and move others to the nearer bound; libx264 without a preset does the same with 4–8 Mbps.
pub proof fn law_encoder_bitrate_bands(
    encoder: Seq<char>,
    t: TransportKind,
    b: StreamProfile,
    preset: Option<Seq<char>>,
)
    ensures
        encoder == "h264_nvenc"@ ==> spec_apply_caps(encoder, t, b, preset).bitrate_kbps == (if b.bitrate_kbps
            < 4_000 {
            4_000u32
        } else if b.bitrate_kbps > 10_000 {
            10_000u32
        } else {
            b.bitrate_kbps
        }),
        encoder == "h264_qsv"@ ==> spec_apply_caps(encoder, t, b, preset).bitrate_kbps == (if b.bitrate_kbps
            < 5_000 {
            5_000u32
        } else if b.bitrate_kbps > 10_000 {
            10_000u32
        } else {
            b.bitrate_kbps
        }),
        encoder == "h264_amf"@ ==> spec_apply_caps(encoder, t, b, preset).bitrate_kbps == (if b.bitrate_kbps
            < 5_000 {
            5_000u32
        } else if b.bitrate_kbps > 18_000 {
            18_000u32
        } else {
            b.bitrate_kbps
        }),
        encoder == "libx264"@ && preset is None ==> spec_apply_caps(encoder, t, b, preset).bitrate_kbps == (
        if b.bitrate_kbps < 4_000 {
            4_000u32
        } else if b.bitrate_kbps > 8_000 {
            8_000u32
        } else {
            b.bitrate_kbps
        }),
{
    reveal_strlit("h264_amf");
    reveal_strlit("h264_nvenc");
    reveal_strlit("h264_qsv");
    reveal_strlit("libx264");
    assert("h264_amf"@[0] != "libx264"@[0]);
    assert("h264_qsv"@[0] != "libx264"@[0]);
    assert("h264_nvenc"@[0] != "libx264"@[0]);
    assert("h264_amf"@[5] != "h264_nvenc"@[5]);
    assert("h264_qsv"@[5] != "h264_nvenc"@[5]);
    assert("h264_amf"@[5] != "h264_qsv"@[5]);
}

/// Without a preset, an adaptive client that asks for a 16-aligned size inside the
/// transport's soft cap (1920×1200 over USB, 1280×720 otherwise) gets exactly that size.
pub proof fn law_adaptive_client_size(req: BaseProfileRequest)
    requires
        !req.preset_active,
        req.adaptive,
        req.client_w is Some,
        req.client_h is Some,
        320 <= req.client_w->0,
        240 <= req.client_h->0,
        req.client_w->0 % 16 == 0,
        req.client_h->0 % 16 == 0,
        req.transport == TransportKind::Usb ==> req.client_w->0 <= 1920 && req.client_h->0 <= 1200,
        req.transport != TransportKind::Usb ==> req.client_w->0 <= 1280 && req.client_h->0 <= 720,
    ensures
        spec_base_profile(req).w == req.client_w->0,
        spec_base_profile(req).h == req.client_h->0,
{
    let w = req.client_w->0 as int;
    let h = req.client_h->0 as int;
    lemma_align_fixed(w, 320, 3840);
    lemma_align_fixed(h, 240, 2160);
    assert(requested_dims(req) == (w, h));
    let (bw, bh) = transport_box(req.transport);
    assert(scaled_dims(w, h, bw, bh) == (w, h));
}

} // verus!
