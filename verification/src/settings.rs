//! Persistent host settings, environment configuration and the canonical forms of
//! every setting the control panel can post.
use crate::text::{
    append_chars, append_str, chars_eq_str, decimal, norm, norm_chars, parse_u16, parse_u32,
    parse_unsigned, push_decimal, str_eq, str_eq_ignore_case, string_from_chars, eq_ignore_case,
    views, lemma_norm_fixed, lower,
};
use vstd::prelude::*;

verus! {

/// The last known-good encoder/capture/GPU combination.
#[derive(Clone, Debug)]
pub struct ProbeCache {
    pub encoder: String,
    pub capture: String,
    pub nvenc_gpu: Option<u32>,
    pub amf_device: Option<u32>,
}

pub struct ProbeCacheView {
    pub encoder: Seq<char>,
    pub capture: Seq<char>,
    pub nvenc_gpu: Option<u32>,
    pub amf_device: Option<u32>,
}

impl View for ProbeCache {
    type V = ProbeCacheView;

    open spec fn view(&self) -> ProbeCacheView {
        ProbeCacheView {
            encoder: self.encoder@,
            capture: self.capture@,
            nvenc_gpu: self.nvenc_gpu,
            amf_device: self.amf_device,
        }
    }
}

/// Settings kept in `host-settings.json` next to the executable.
#[derive(Clone, Debug)]
pub struct HostSettings {
    pub preferred_encoder: Option<String>,
    pub preferred_amf_device: Option<u32>,
    /// CUDA device index for NVENC (`-gpu N`). Separate from AMF adapter index.
    pub preferred_nvenc_gpu: Option<u32>,
    /// Named quality preset — overrides width/height/fps/bitrate when set.
    pub preferred_preset: Option<String>,
    // Legacy manual overrides (ignored when preferred_preset is set).
    pub preferred_width: Option<u32>,
    pub preferred_height: Option<u32>,
    pub preferred_bitrate_kbps: Option<u32>,
    /// Last known-good encoder/capture/GPU combination from a successful stream.
    pub encoder_probe_cache: Option<ProbeCache>,
    /// Keys like "h264_nvenc/Gdigrab/gpu0" that failed recently — skipped on reconnect.
    pub failed_probe_keys: Vec<String>,
}

pub struct HostSettingsView {
    pub preferred_encoder: Option<Seq<char>>,
    pub preferred_amf_device: Option<u32>,
    pub preferred_nvenc_gpu: Option<u32>,
    pub preferred_preset: Option<Seq<char>>,
    pub preferred_width: Option<u32>,
    pub preferred_height: Option<u32>,
    pub preferred_bitrate_kbps: Option<u32>,
    pub encoder_probe_cache: Option<ProbeCacheView>,
    pub failed_probe_keys: Seq<Seq<char>>,
}

/// The view of an optional owned string.
pub open spec fn opt_str_view(o: Option<String>) -> Option<Seq<char>> {
    match o {
        Some(s) => Some(s@),
        None => None,
    }
}

pub open spec fn opt_cache_view(o: Option<ProbeCache>) -> Option<ProbeCacheView> {
    match o {
        Some(c) => Some(c@),
        None => None,
    }
}

impl View for HostSettings {
    type V = HostSettingsView;

    open spec fn view(&self) -> HostSettingsView {
        HostSettingsView {
            preferred_encoder: opt_str_view(self.preferred_encoder),
            preferred_amf_device: self.preferred_amf_device,
            preferred_nvenc_gpu: self.preferred_nvenc_gpu,
            preferred_preset: opt_str_view(self.preferred_preset),
            preferred_width: self.preferred_width,
            preferred_height: self.preferred_height,
            preferred_bitrate_kbps: self.preferred_bitrate_kbps,
            encoder_probe_cache: opt_cache_view(self.encoder_probe_cache),
            failed_probe_keys: views(self.failed_probe_keys@),
        }
    }
}

impl Default for ProbeCache {
    fn default() -> (r: Self)
        ensures
            r@.encoder == Seq::<char>::empty(),
            r@.capture == Seq::<char>::empty(),
            r.nvenc_gpu is None,
            r.amf_device is None,
    {
        ProbeCache { encoder: String::new(), capture: String::new(), nvenc_gpu: None, amf_device: None }
    }
}

impl Default for HostSettings {
    fn default() -> (r: Self)
        ensures
            r@ == empty_settings(),
    {
        let r = HostSettings {
            preferred_encoder: None,
            preferred_amf_device: None,
            preferred_nvenc_gpu: None,
            preferred_preset: None,
            preferred_width: None,
            preferred_height: None,
            preferred_bitrate_kbps: None,
            encoder_probe_cache: None,
            failed_probe_keys: Vec::new(),
        };
        assert(r@.failed_probe_keys =~= Seq::<Seq<char>>::empty());
        r
    }
}

/// Settings with nothing chosen.
pub open spec fn empty_settings() -> HostSettingsView {
    HostSettingsView {
        preferred_encoder: None,
        preferred_amf_device: None,
        preferred_nvenc_gpu: None,
        preferred_preset: None,
        preferred_width: None,
        preferred_height: None,
        preferred_bitrate_kbps: None,
        encoder_probe_cache: None,
        failed_probe_keys: Seq::empty(),
    }
}

/// A copy of a string.
pub fn copy_string(s: &String) -> (r: String)
    ensures
        r@ == s@,
{
    s.clone()
}

/// A copy of an optional string.
pub fn copy_opt_string(s: &Option<String>) -> (r: Option<String>)
    ensures
        opt_str_view(r) == opt_str_view(*s),
{
    match s {
        Some(v) => Some(v.clone()),
        None => None,
    }
}

/// A copy of a list of strings.
pub fn copy_strings(v: &Vec<String>) -> (r: Vec<String>)
    ensures
        views(r@) == views(v@),
{
    let mut r: Vec<String> = Vec::new();
    let mut i: usize = 0;
    while i < v.len()
        invariant
            i <= v@.len(),
            r@.len() == i,
            forall|k: int| 0 <= k < i ==> (#[trigger] r@[k])@ == v@[k]@,
        decreases v@.len() - i,
    {
        let s = copy_string(&v[i]);
        r.push(s);
        i = i + 1;
    }
    assert(views(r@) =~= views(v@));
    r
}

impl ProbeCache {
    /// A copy of the cache entry.
    pub fn duplicate(&self) -> (r: Self)
        ensures
            r@ == self@,
    {
        ProbeCache {
            encoder: self.encoder.clone(),
            capture: self.capture.clone(),
            nvenc_gpu: self.nvenc_gpu,
            amf_device: self.amf_device,
        }
    }
}

pub fn copy_opt_cache(c: &Option<ProbeCache>) -> (r: Option<ProbeCache>)
    ensures
        opt_cache_view(r) == opt_cache_view(*c),
{
    match c {
        Some(v) => Some(v.duplicate()),
        None => None,
    }
}

impl HostSettings {
    /// A copy of the settings.
    pub fn duplicate(&self) -> (r: Self)
        ensures
            r@ == self@,
    {
        HostSettings {
            preferred_encoder: copy_opt_string(&self.preferred_encoder),
            preferred_amf_device: self.preferred_amf_device,
            preferred_nvenc_gpu: self.preferred_nvenc_gpu,
            preferred_preset: copy_opt_string(&self.preferred_preset),
            preferred_width: self.preferred_width,
            preferred_height: self.preferred_height,
            preferred_bitrate_kbps: self.preferred_bitrate_kbps,
            encoder_probe_cache: copy_opt_cache(&self.encoder_probe_cache),
            failed_probe_keys: copy_strings(&self.failed_probe_keys),
        }
    }
}

/// Configuration taken from the process environment.
#[derive(Clone, Debug)]
pub struct EnvConfig {
    pub listen_host: String,
    pub port: u16,
    pub fps: Option<u32>,
    pub bitrate_kbps: Option<u32>,
    pub hw_encoder: Option<String>,
    pub capture: Option<String>,
    pub capture_width: Option<u32>,
    pub capture_height: Option<u32>,
    pub force_software_encoder: bool,
}

/// The number a variable holds, when it holds one (`v.parse().ok()`).
pub open spec fn parsed_u32(v: Option<Seq<char>>) -> Option<u32> {
    match v {
        Some(s) => match parse_unsigned(s, u32::MAX as nat) {
            Some(n) => Some(n as u32),
            None => None,
        },
        None => None,
    }
}

/// `FORCE_SOFTWARE_ENCODER` is on when it reads `1`, `true` or `yes`.
pub open spec fn spec_force_software(v: Option<Seq<char>>) -> bool {
    match v {
        Some(s) => norm(s) == "1"@ || norm(s) == "true"@ || norm(s) == "yes"@,
        None => false,
    }
}

/// The listening port: the variable's value when it is a port number, else 9001.
pub open spec fn spec_port(v: Option<Seq<char>>) -> u16 {
    match v {
        Some(s) => match parse_unsigned(s, u16::MAX as nat) {
            Some(n) => n as u16,
            None => 9001,
        },
        None => 9001,
    }
}

fn opt_parse_u32(v: &Option<String>) -> (r: Option<u32>)
    ensures
        r == parsed_u32(opt_str_view(*v)),
{
    match v {
        Some(s) => parse_u32(s.as_str()),
        None => None,
    }
}

/// Whether a `FORCE_SOFTWARE_ENCODER` value asks for software encoding.
pub fn force_software_from(v: &Option<String>) -> (r: bool)
    ensures
        r == spec_force_software(opt_str_view(*v)),
{
    match v {
        Some(s) => {
            let n = norm_chars(s.as_str());
            chars_eq_str(&n, "1") || chars_eq_str(&n, "true") || chars_eq_str(&n, "yes")
        },
        None => false,
    }
}

impl EnvConfig {
    /// Builds the configuration from the values of `FLEXDISPLAY_LISTEN`, `FLEXDISPLAY_PORT`,
    /// `FLEXDISPLAY_FPS`, `FLEXDISPLAY_BITRATE`, `FLEXDISPLAY_HW_ENCODER`, `FLEXDISPLAY_CAPTURE`,
    /// `FLEXDISPLAY_CAPTURE_WIDTH`, `FLEXDISPLAY_CAPTURE_HEIGHT` and `FORCE_SOFTWARE_ENCODER`
    /// (each `None` when unset).
    pub fn from_values(
        listen: Option<String>,
        port: Option<String>,
        fps: Option<String>,
        bitrate: Option<String>,
        hw_encoder: Option<String>,
        capture: Option<String>,
        capture_width: Option<String>,
        capture_height: Option<String>,
        force_software: Option<String>,
    ) -> (r: Self)
        ensures
            r.listen_host@ == (match opt_str_view(listen) {
                Some(l) => l,
                None => "0.0.0.0"@,
            }),
            r.port == spec_port(opt_str_view(port)),
            r.fps == parsed_u32(opt_str_view(fps)),
            r.bitrate_kbps == parsed_u32(opt_str_view(bitrate)),
            opt_str_view(r.hw_encoder) == opt_str_view(hw_encoder),
            opt_str_view(r.capture) == opt_str_view(capture),
            r.capture_width == parsed_u32(opt_str_view(capture_width)),
            r.capture_height == parsed_u32(opt_str_view(capture_height)),
            r.force_software_encoder == spec_force_software(opt_str_view(force_software)),
    {
        let force = force_software_from(&force_software);
        let fps_v = opt_parse_u32(&fps);
        let bitrate_v = opt_parse_u32(&bitrate);
        let w = opt_parse_u32(&capture_width);
        let h = opt_parse_u32(&capture_height);
        let port_v: u16 = match &port {
            Some(p) => match parse_u16(p.as_str()) {
                Some(n) => n,
                None => 9001,
            },
            None => 9001,
        };
        let listen_host = match listen {
            Some(l) => l,
            None => String::from_str("0.0.0.0"),
        };
        EnvConfig {
            listen_host,
            port: port_v,
            fps: fps_v,
            bitrate_kbps: bitrate_v,
            hw_encoder,
            capture,
            capture_width: w,
            capture_height: h,
            force_software_encoder: force,
        }
    }
}

/// The encoders the host knows how to drive.
pub open spec fn is_known_encoder(s: Seq<char>) -> bool {
    s == "h264_nvenc"@ || s == "h264_qsv"@ || s == "h264_amf"@ || s == "libx264"@
}

/// What `canonical_encoder` gives.
pub open spec fn spec_canonical_encoder(v: Option<Seq<char>>) -> Option<Seq<char>> {
    match v {
        Some(s) => if is_known_encoder(norm(s)) {
            Some(norm(s))
        } else {
            None
        },
        None => None,
    }
}

/// The resolutions the control panel may fix.
pub open spec fn is_allowed_resolution(w: u32, h: u32) -> bool {
    (w == 800 && h == 600) || (w == 1024 && h == 768) || (w == 1280 && h == 720) || (w == 1600
        && h == 900) || (w == 1920 && h == 1080)
}

pub open spec fn spec_canonical_resolution(w: Option<u32>, h: Option<u32>) -> (Option<u32>, Option<u32>) {
    match (w, h) {
        (Some(a), Some(b)) => if is_allowed_resolution(a, b) {
            (Some(a), Some(b))
        } else {
            (None, None)
        },
        _ => (None, None),
    }
}

/// The bitrates the control panel may fix.
pub open spec fn is_allowed_bitrate(v: u32) -> bool {
    v == 3000 || v == 4000 || v == 5000 || v == 8000 || v == 10000 || v == 12000 || v == 15000
        || v == 18000 || v == 25000 || v == 30000 || v == 35000 || v == 50000
}

pub open spec fn spec_canonical_bitrate(v: Option<u32>) -> Option<u32> {
    match v {
        Some(x) => if is_allowed_bitrate(x) {
            Some(x)
        } else {
            None
        },
        None => None,
    }
}

/// The named quality presets, current and legacy.
pub open spec fn is_known_preset(s: Seq<char>) -> bool {
    s == "ahorro"@ || s == "cpu_safe"@ || s == "equilibrado"@ || s == "alta_720p"@ || s
        == "fluido_900p"@ || s == "full_hd"@ || s == "full_hd_max"@
}

pub open spec fn spec_canonical_preset(v: Option<Seq<char>>) -> Option<Seq<char>> {
    match v {
        Some(s) => if is_known_preset(norm(s)) {
            Some(norm(s))
        } else {
            None
        },
        None => None,
    }
}

/// (width, height, fps, bitrate_kbps) of a named preset, spelled exactly.
pub open spec fn spec_resolve_preset(name: Seq<char>) -> Option<(u32, u32, u32, u32)> {
    if name == "ahorro"@ || name == "cpu_safe"@ {
        Some((960, 544, 30, 5_000))
    } else if name == "equilibrado"@ {
        Some((1280, 720, 60, 10_000))
    } else if name == "alta_720p"@ {
        Some((1280, 720, 60, 15_000))
    } else if name == "fluido_900p"@ {
        Some((1600, 900, 60, 20_000))
    } else if name == "full_hd"@ {
        Some((1920, 1080, 60, 25_000))
    } else if name == "full_hd_max"@ {
        Some((1920, 1080, 60, 35_000))
    } else {
        None
    }
}

/// Keeps an encoder name only when it is one the host drives, trimmed and lower-cased.
pub fn canonical_encoder(value: Option<String>) -> (r: Option<String>)
    ensures
        opt_str_view(r) == spec_canonical_encoder(opt_str_view(value)),
{
    let v = match value {
        Some(v) => v,
        None => return None,
    };
    let raw = norm_chars(v.as_str());
    if chars_eq_str(&raw, "h264_nvenc") || chars_eq_str(&raw, "h264_qsv") || chars_eq_str(
        &raw,
        "h264_amf",
    ) || chars_eq_str(&raw, "libx264") {
        Some(string_from_chars(&raw))
    } else {
        None
    }
}

/// Keeps a manual resolution only when it is one of the offered sizes.
pub fn canonical_resolution(width: Option<u32>, height: Option<u32>) -> (r: (Option<u32>, Option<u32>))
    ensures
        r == spec_canonical_resolution(width, height),
{
    match (width, height) {
        (Some(w), Some(h)) => {
            if (w == 800 && h == 600) || (w == 1024 && h == 768) || (w == 1280 && h == 720) || (w
                == 1600 && h == 900) || (w == 1920 && h == 1080) {
                (Some(w), Some(h))
            } else {
                (None, None)
            }
        },
        _ => (None, None),
    }
}

/// Keeps a manual bitrate only when it is one of the offered values.
pub fn canonical_bitrate_kbps(value: Option<u32>) -> (r: Option<u32>)
    ensures
        r == spec_canonical_bitrate(value),
{
    let v = match value {
        Some(v) => v,
        None => return None,
    };
    if v == 3000 || v == 4000 || v == 5000 || v == 8000 || v == 10000 || v == 12000 || v == 15000
        || v == 18000 || v == 25000 || v == 30000 || v == 35000 || v == 50000 {
        Some(v)
    } else {
        None
    }
}

/// Keeps a preset name only when it names a known preset, trimmed and lower-cased.
pub fn canonical_preset(value: Option<String>) -> (r: Option<String>)
    ensures
        opt_str_view(r) == spec_canonical_preset(opt_str_view(value)),
{
    let v = match value {
        Some(v) => v,
        None => return None,
    };
    let n = norm_chars(v.as_str());
    if chars_eq_str(&n, "ahorro") || chars_eq_str(&n, "cpu_safe") || chars_eq_str(&n, "equilibrado")
        || chars_eq_str(&n, "alta_720p") || chars_eq_str(&n, "fluido_900p") || chars_eq_str(
        &n,
        "full_hd",
    ) || chars_eq_str(&n, "full_hd_max") {
        Some(string_from_chars(&n))
    } else {
        None
    }
}

/// Returns (width, height, fps, bitrate_kbps) for a named quality preset.
pub fn resolve_preset(name: &str) -> (r: Option<(u32, u32, u32, u32)>)
    ensures
        r == spec_resolve_preset(name@),
{
    if str_eq(name, "ahorro") || str_eq(name, "cpu_safe") {
        Some((960, 544, 30, 5_000))
    } else if str_eq(name, "equilibrado") {
        Some((1280, 720, 60, 10_000))
    } else if str_eq(name, "alta_720p") {
        Some((1280, 720, 60, 15_000))
    } else if str_eq(name, "fluido_900p") {
        Some((1600, 900, 60, 20_000))
    } else if str_eq(name, "full_hd") {
        Some((1920, 1080, 60, 25_000))
    } else if str_eq(name, "full_hd_max") {
        Some((1920, 1080, 60, 35_000))
    } else {
        None
    }
}

/// The GPU part of a probe key: `gpu<N>` for an NVENC device, else `amf<N>`, else `default`.
pub open spec fn gpu_tag(nvenc_gpu: Option<u32>, amf_device: Option<u32>) -> Seq<char> {
    match nvenc_gpu {
        Some(g) => "gpu"@ + decimal(g as nat),
        None => match amf_device {
            Some(d) => "amf"@ + decimal(d as nat),
            None => "default"@,
        },
    }
}

/// `{encoder}/{capture}/{gpu}`.
pub open spec fn spec_probe_key(
    encoder: Seq<char>,
    capture: Seq<char>,
    nvenc_gpu: Option<u32>,
    amf_device: Option<u32>,
) -> Seq<char> {
    encoder + "/"@ + capture + "/"@ + gpu_tag(nvenc_gpu, amf_device)
}

/// The key under which a probe result is remembered.
pub fn probe_cache_key(
    encoder: &str,
    capture: &str,
    nvenc_gpu: Option<u32>,
    amf_device: Option<u32>,
) -> (r: String)
    ensures
        r@ == spec_probe_key(encoder@, capture@, nvenc_gpu, amf_device),
{
    let mut out = String::new();
    append_str(&mut out, encoder);
    append_str(&mut out, "/");
    append_str(&mut out, capture);
    append_str(&mut out, "/");
    let ghost before = out@;
    match nvenc_gpu {
        Some(g) => {
            append_str(&mut out, "gpu");
            let mut d: Vec<char> = Vec::new();
            push_decimal(&mut d, g as u128);
            assert(d@ =~= decimal(g as nat));
            append_chars(&mut out, &d);
        },
        None => match amf_device {
            Some(a) => {
                append_str(&mut out, "amf");
                let mut d: Vec<char> = Vec::new();
                push_decimal(&mut d, a as u128);
                assert(d@ =~= decimal(a as nat));
                append_chars(&mut out, &d);
            },
            None => {
                append_str(&mut out, "default");
            },
        },
    }
    assert(out@ =~= spec_probe_key(encoder@, capture@, nvenc_gpu, amf_device));
    out
}

/// The cache entry after loading: hardware encoders cached with GDI capture move to DXGI.
pub open spec fn spec_migrate_cache(c: ProbeCacheView) -> ProbeCacheView {
    if c.encoder != "libx264"@ && eq_ignore_case(c.capture, "gdigrab"@) {
        ProbeCacheView { capture: "ddagrab"@, ..c }
    } else {
        c
    }
}

/// What loading does to settings read from disk.
pub open spec fn spec_migrate(s: HostSettingsView) -> HostSettingsView {
    let nvenc = if s.preferred_nvenc_gpu is None && s.preferred_encoder == Some("h264_nvenc"@) {
        s.preferred_amf_device
    } else {
        s.preferred_nvenc_gpu
    };
    let cache = match s.encoder_probe_cache {
        Some(c) => Some(spec_migrate_cache(c)),
        None => None,
    };
    HostSettingsView { preferred_nvenc_gpu: nvenc, encoder_probe_cache: cache, ..s }
}

fn opt_string_is(v: &Option<String>, lit: &str) -> (r: bool)
    ensures
        r == (opt_str_view(*v) == Some(lit@)),
{
    match v {
        Some(s) => str_eq(s.as_str(), lit),
        None => false,
    }
}

/// Upgrades settings read from disk: the NVENC CUDA index was once stored as the AMF device,
/// and cached GDI capture for hardware encoders becomes DXGI (GDI caused dup/drop at 1080p60).
pub fn migrate_loaded_settings(settings: &mut HostSettings)
    ensures
        final(settings)@ == spec_migrate(old(settings)@),
{
    // Legacy migration: NVENC CUDA index was stored in preferred_amf_device.
    if settings.preferred_nvenc_gpu.is_none() && opt_string_is(&settings.preferred_encoder, "h264_nvenc") {
        settings.preferred_nvenc_gpu = settings.preferred_amf_device;
    }
    // Prefer DXGI capture for hardware encoders — cached gdigrab caused dup/drop at 1080p60.
    let cache = settings.encoder_probe_cache.take();
    let migrated = match cache {
        Some(mut c) => {
            if !str_eq(c.encoder.as_str(), "libx264") && str_eq_ignore_case(c.capture.as_str(), "gdigrab") {
                c.capture = String::from_str("ddagrab");
            }
            Some(c)
        },
        None => None,
    };
    settings.encoder_probe_cache = migrated;
}

/// An adapter index that names a detected adapter; with no adapter detected, none is judged.
pub open spec fn valid_gpu_index(i: Option<u32>, count: nat) -> bool {
    match i {
        Some(g) => count == 0 || (g as nat) < count,
        None => true,
    }
}

/// The settings with adapter indices that name no detected adapter cleared: the preferred
/// NVENC and AMF devices, and a probe cache that names such a device.
pub open spec fn spec_clear_invalid(s: HostSettingsView, count: nat) -> HostSettingsView {
    HostSettingsView {
        preferred_nvenc_gpu: if valid_gpu_index(s.preferred_nvenc_gpu, count) {
            s.preferred_nvenc_gpu
        } else {
            None
        },
        preferred_amf_device: if valid_gpu_index(s.preferred_amf_device, count) {
            s.preferred_amf_device
        } else {
            None
        },
        encoder_probe_cache: match s.encoder_probe_cache {
            Some(c) => if valid_gpu_index(c.nvenc_gpu, count) && valid_gpu_index(c.amf_device, count) {
                Some(c)
            } else {
                None
            },
            None => None,
        },
        ..s
    }
}

fn valid_index(i: Option<u32>, count: usize) -> (r: bool)
    ensures
        r == valid_gpu_index(i, count as nat),
{
    match i {
        Some(g) => count == 0 || (g as u64) < (count as u64),
        None => true,
    }
}

/// Clears the adapter indices that name none of the `gpu_count` detected adapters (on load
/// and at stream start); says whether anything changed.
pub fn clear_invalid_gpu_indices(settings: &mut HostSettings, gpu_count: usize) -> (changed: bool)
    ensures
        final(settings)@ == spec_clear_invalid(old(settings)@, gpu_count as nat),
        changed == (final(settings)@ != old(settings)@),
{
    let mut changed = false;
    if !valid_index(settings.preferred_nvenc_gpu, gpu_count) {
        settings.preferred_nvenc_gpu = None;
        changed = true;
    }
    if !valid_index(settings.preferred_amf_device, gpu_count) {
        settings.preferred_amf_device = None;
        changed = true;
    }
    let drop_cache = match &settings.encoder_probe_cache {
        Some(c) => !(valid_index(c.nvenc_gpu, gpu_count) && valid_index(c.amf_device, gpu_count)),
        None => false,
    };
    if drop_cache {
        settings.encoder_probe_cache = None;
        changed = true;
    }
    proof {
        if changed {
            let o = old(settings)@;
            let f = settings@;
            if !valid_gpu_index(o.preferred_nvenc_gpu, gpu_count as nat) {
                assert(f.preferred_nvenc_gpu != o.preferred_nvenc_gpu);
            } else if !valid_gpu_index(o.preferred_amf_device, gpu_count as nat) {
                assert(f.preferred_amf_device != o.preferred_amf_device);
            } else {
                assert(f.encoder_probe_cache != o.encoder_probe_cache);
            }
        }
    }
    changed
}

/// Clearing invalid adapter indices twice clears nothing more, and leaves every remaining
/// index naming a detected adapter.
pub proof fn law_clear_invalid(s: HostSettingsView, count: nat)
    ensures
        spec_clear_invalid(spec_clear_invalid(s, count), count) == spec_clear_invalid(s, count),
        valid_gpu_index(spec_clear_invalid(s, count).preferred_nvenc_gpu, count),
        valid_gpu_index(spec_clear_invalid(s, count).preferred_amf_device, count),
        spec_clear_invalid(s, count).encoder_probe_cache matches Some(c) ==> valid_gpu_index(c.nvenc_gpu, count)
            && valid_gpu_index(c.amf_device, count),
{
    let once = spec_clear_invalid(s, count);
    let twice = spec_clear_invalid(once, count);
    assert(twice.encoder_probe_cache == once.encoder_probe_cache);
}

/// What the control panel's settings post stores, given what it posted and what was stored.
pub open spec fn spec_normalize(incoming: HostSettingsView, existing: HostSettingsView) -> HostSettingsView {
    let (w, h) = spec_canonical_resolution(incoming.preferred_width, incoming.preferred_height);
    let preset = spec_canonical_preset(incoming.preferred_preset);
    HostSettingsView {
        preferred_encoder: spec_canonical_encoder(incoming.preferred_encoder),
        preferred_amf_device: incoming.preferred_amf_device,
        preferred_nvenc_gpu: incoming.preferred_nvenc_gpu,
        preferred_preset: preset,
        preferred_width: if preset is Some {
            None
        } else {
            w
        },
        preferred_height: if preset is Some {
            None
        } else {
            h
        },
        preferred_bitrate_kbps: if preset is Some {
            None
        } else {
            spec_canonical_bitrate(incoming.preferred_bitrate_kbps)
        },
        encoder_probe_cache: match incoming.encoder_probe_cache {
            Some(c) => Some(c),
            None => existing.encoder_probe_cache,
        },
        failed_probe_keys: existing.failed_probe_keys,
    }
}

/// Normalises settings posted by the control panel: unknown encoders, presets, sizes and
/// bitrates are dropped, a preset overrides the manual size and bitrate, the probe cache is
/// kept unless a new one is posted, and the failed-probe list always stays the stored one.
pub fn normalize_posted_settings(incoming: HostSettings, existing: &HostSettings) -> (r: HostSettings)
    ensures
        r@ == spec_normalize(incoming@, existing@),
{
    let (preferred_width, preferred_height) = canonical_resolution(
        incoming.preferred_width,
        incoming.preferred_height,
    );
    let preferred_preset = canonical_preset(incoming.preferred_preset);
    let (eff_width, eff_height, eff_bitrate) = if preferred_preset.is_some() {
        (None, None, None)
    } else {
        (preferred_width, preferred_height, canonical_bitrate_kbps(incoming.preferred_bitrate_kbps))
    };
    let cache = match incoming.encoder_probe_cache {
        Some(c) => Some(c),
        None => copy_opt_cache(&existing.encoder_probe_cache),
    };
    HostSettings {
        preferred_encoder: canonical_encoder(incoming.preferred_encoder),
        preferred_amf_device: incoming.preferred_amf_device,
        preferred_nvenc_gpu: incoming.preferred_nvenc_gpu,
        preferred_preset,
        preferred_width: eff_width,
        preferred_height: eff_height,
        preferred_bitrate_kbps: eff_bitrate,
        encoder_probe_cache: cache,
        failed_probe_keys: copy_strings(&existing.failed_probe_keys),
    }
}


/// The encoder names are their own normal forms.
proof fn lemma_known_encoder_norm(s: Seq<char>)
    requires
        is_known_encoder(s),
    ensures
        norm(s) == s,
{
    reveal_strlit("h264_nvenc");
    reveal_strlit("h264_qsv");
    reveal_strlit("h264_amf");
    reveal_strlit("libx264");
    lemma_norm_fixed(s);
}

/// The preset names are their own normal forms.
proof fn lemma_known_preset_norm(s: Seq<char>)
    requires
        is_known_preset(s),
    ensures
        norm(s) == s,
{
    reveal_strlit("ahorro");
    reveal_strlit("cpu_safe");
    reveal_strlit("equilibrado");
    reveal_strlit("alta_720p");
    reveal_strlit("fluido_900p");
    reveal_strlit("full_hd");
    reveal_strlit("full_hd_max");
    lemma_norm_fixed(s);
}

/// Canonical encoder names stay canonical.
pub proof fn law_canonical_encoder_idempotent(v: Option<Seq<char>>)
    ensures
        spec_canonical_encoder(spec_canonical_encoder(v)) == spec_canonical_encoder(v),
{
    if let Some(s) = v {
        if is_known_encoder(norm(s)) {
            lemma_known_encoder_norm(norm(s));
        }
    }
}

/// Canonical preset names stay canonical.
pub proof fn law_canonical_preset_idempotent(v: Option<Seq<char>>)
    ensures
        spec_canonical_preset(spec_canonical_preset(v)) == spec_canonical_preset(v),
{
    if let Some(s) = v {
        if is_known_preset(norm(s)) {
            lemma_known_preset_norm(norm(s));
        }
    }
}

/// Every preset name that survives canonicalisation resolves to a profile.
pub proof fn law_canonical_preset_resolves(v: Option<Seq<char>>)
    ensures
        spec_canonical_preset(v) matches Some(p) ==> spec_resolve_preset(p) is Some,
{
}

/// Posting the stored result of a settings post again changes nothing; and a stored preset
/// always clears the manual size and bitrate.
pub proof fn law_normalize_idempotent(incoming: HostSettingsView, existing: HostSettingsView)
    ensures
        spec_normalize(spec_normalize(incoming, existing), existing) == spec_normalize(incoming, existing),
        spec_normalize(incoming, existing).preferred_preset is Some ==> spec_normalize(
            incoming,
            existing,
        ).preferred_width is None && spec_normalize(incoming, existing).preferred_height is None
            && spec_normalize(incoming, existing).preferred_bitrate_kbps is None,
{
    law_canonical_encoder_idempotent(incoming.preferred_encoder);
    law_canonical_preset_idempotent(incoming.preferred_preset);
    let once = spec_normalize(incoming, existing);
    let twice = spec_normalize(once, existing);
    assert(twice.preferred_encoder == once.preferred_encoder);
    assert(twice.preferred_preset == once.preferred_preset);
    assert(twice.preferred_width == once.preferred_width);
    assert(twice.preferred_height == once.preferred_height);
    assert(twice.preferred_bitrate_kbps == once.preferred_bitrate_kbps);
    assert(twice.encoder_probe_cache == once.encoder_probe_cache);
}

/// Loading migrated settings migrates nothing further.
pub proof fn law_migrate_idempotent(s: HostSettingsView)
    ensures
        spec_migrate(spec_migrate(s)) == spec_migrate(s),
{
    reveal_strlit("ddagrab");
    reveal_strlit("gdigrab");
    assert(lower("ddagrab"@)[0] != lower("gdigrab"@)[0]);
    assert(!eq_ignore_case("ddagrab"@, "gdigrab"@));
    let once = spec_migrate(s);
    let twice = spec_migrate(once);
    assert(twice.preferred_nvenc_gpu == once.preferred_nvenc_gpu);
    assert(twice.encoder_probe_cache == once.encoder_probe_cache);
}


/// Every bitrate the control panel offers survives canonicalisation, and with no preset
/// posted it is stored as posted; canonicalisation never alters a kept value.
pub proof fn law_offered_bitrates_kept(v: u32, incoming: HostSettingsView, existing: HostSettingsView)
    ensures
        (v == 3000 || v == 4000 || v == 5000 || v == 8000 || v == 10000 || v == 12000 || v == 15000
            || v == 18000 || v == 25000 || v == 30000 || v == 35000 || v == 50000)
            ==> spec_canonical_bitrate(Some(v)) == Some(v),
        spec_canonical_bitrate(Some(v)) is Some ==> spec_canonical_bitrate(Some(v)) == Some(v),
        incoming.preferred_preset is None && incoming.preferred_bitrate_kbps == Some(v) && (v == 3000 || v
            == 4000 || v == 5000 || v == 8000 || v == 10000 || v == 12000 || v == 15000 || v == 18000
            || v == 25000 || v == 30000 || v == 35000 || v == 50000) ==> spec_normalize(
            incoming,
            existing,
        ).preferred_bitrate_kbps == Some(v),
{
}

/// Every size the control panel offers survives canonicalisation, and a size outside the
/// offer is dropped as a whole.
pub proof fn law_offered_sizes_kept(w: u32, h: u32)
    ensures
        ((w == 800 && h == 600) || (w == 1024 && h == 768) || (w == 1280 && h == 720) || (w == 1600 && h
            == 900) || (w == 1920 && h == 1080)) ==> spec_canonical_resolution(Some(w), Some(h)) == (
            Some(w),
            Some(h),
        ),
        spec_canonical_resolution(Some(w), Some(h)) == (Some(w), Some(h)) || spec_canonical_resolution(
            Some(w),
            Some(h),
        ) == (None::<u32>, None::<u32>),
{
}

} // verus!
