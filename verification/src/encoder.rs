//! H.264 encoder discovery, the ordered encoder × capture × GPU trial list, per-encoder
//! low-latency arguments and the memory of which trials failed.
use crate::capture::{
    capture_key_name, capture_name, capture_order, spec_capture_from, spec_capture_order, Capture,
};
use crate::profile::opt_view;
use crate::settings::{
    clear_invalid_gpu_indices, copy_string, copy_strings, gpu_tag, opt_str_view, probe_cache_key,
    spec_clear_invalid, spec_probe_key, valid_gpu_index, HostSettings, HostSettingsView, ProbeCache, ProbeCacheView,
};
use crate::text::{
    append_chars, append_str, chars_contain_str, chars_eq_str, chars_of, chars_strip_prefix,
    contains, decimal, lemma_parse_decimal, lower, lower_chars, parse_u32_chars,
    parse_unsigned, push_decimal, str_eq, strip_prefix, views,
};
use vstd::prelude::*;

verus! {

/// How long an encoder may stay silent before its trial counts as failed.
pub const PROBE_TIMEOUT_MS: u64 = 1500;

/// How many failed probe keys are remembered.
pub const MAX_FAILED_PROBE_KEYS: usize = 32;

/// A display adapter as Windows reports it.
#[derive(Clone, Debug)]
pub struct GpuInfo {
    pub index: usize,
    pub name: String,
    pub driver_version: String,
}

/// Which GPU vendors are present.
#[derive(Clone, Copy, Debug, PartialEq, Eq, Structural)]
pub struct GpuVendorInfo {
    pub has_nvidia: bool,
    pub has_amd: bool,
    pub has_intel: bool,
}

impl Default for GpuVendorInfo {
    fn default() -> (r: Self)
        ensures
            !r.has_nvidia && !r.has_amd && !r.has_intel,
    {
        GpuVendorInfo { has_nvidia: false, has_amd: false, has_intel: false }
    }
}

/// A lower-cased adapter name that marks an NVIDIA card.
pub open spec fn is_nvidia_name(n: Seq<char>) -> bool {
    contains(n, "nvidia"@) || contains(n, "geforce"@) || contains(n, "rtx"@) || contains(n, "gtx"@)
        || contains(n, "quadro"@)
}

pub open spec fn is_amd_name(n: Seq<char>) -> bool {
    contains(n, "amd"@) || contains(n, "radeon"@)
}

pub open spec fn is_intel_name(n: Seq<char>) -> bool {
    contains(n, "intel"@)
}

/// The adapter names of a GPU list.
pub open spec fn gpu_names(gpus: Seq<GpuInfo>) -> Seq<Seq<char>> {
    gpus.map_values(|g: GpuInfo| g.name@)
}

/// What `GpuVendorInfo::from_gpus` gives for a list of adapter names.
pub open spec fn spec_vendors(names: Seq<Seq<char>>) -> GpuVendorInfo {
    GpuVendorInfo {
        has_nvidia: exists|i: int| 0 <= i < names.len() && is_nvidia_name(lower(#[trigger] names[i])),
        has_amd: exists|i: int| 0 <= i < names.len() && is_amd_name(lower(#[trigger] names[i])),
        has_intel: exists|i: int| 0 <= i < names.len() && is_intel_name(lower(#[trigger] names[i])),
    }
}

impl GpuVendorInfo {
    /// Recognises vendors by the adapter names (any case).
    pub fn from_gpus(gpus: &[GpuInfo]) -> (r: Self)
        ensures
            r == spec_vendors(gpu_names(gpus@)),
    {
        let ghost names = gpu_names(gpus@);
        let mut info = GpuVendorInfo::default();
        let mut i: usize = 0;
        while i < gpus.len()
            invariant
                i <= gpus@.len(),
                names == gpu_names(gpus@),
                info.has_nvidia == exists|k: int| 0 <= k < i && is_nvidia_name(lower(#[trigger] names[k])),
                info.has_amd == exists|k: int| 0 <= k < i && is_amd_name(lower(#[trigger] names[k])),
                info.has_intel == exists|k: int| 0 <= k < i && is_intel_name(lower(#[trigger] names[k])),
            decreases gpus@.len() - i,
        {
            let raw = chars_of(gpus[i].name.as_str());
            let name = lower_chars(&raw);
            assert(names[i as int] == gpus@[i as int].name@);
            let nv = chars_contain_str(&name, "nvidia") || chars_contain_str(&name, "geforce")
                || chars_contain_str(&name, "rtx") || chars_contain_str(&name, "gtx")
                || chars_contain_str(&name, "quadro");
            let amd = chars_contain_str(&name, "amd") || chars_contain_str(&name, "radeon");
            let intel = chars_contain_str(&name, "intel");
            if nv {
                info.has_nvidia = true;
            }
            if amd {
                info.has_amd = true;
            }
            if intel {
                info.has_intel = true;
            }
            i = i + 1;
        }
        info
    }
}

/// Builds a `GpuInfo` from what the adapter query reported: a missing name reads
/// `Unknown GPU`, a missing driver version reads empty.
pub fn gpu_info_from_parts(index: usize, name: Option<String>, driver_version: Option<String>) -> (r: GpuInfo)
    ensures
        r.index == index,
        r.name@ == (match opt_str_view(name) {
            Some(n) => n,
            None => "Unknown GPU"@,
        }),
        r.driver_version@ == (match opt_str_view(driver_version) {
            Some(d) => d,
            None => Seq::<char>::empty(),
        }),
{
    let name = match name {
        Some(n) => n,
        None => String::from_str("Unknown GPU"),
    };
    let driver_version = match driver_version {
        Some(d) => d,
        None => String::new(),
    };
    GpuInfo { index, name, driver_version }
}

/// Whether an encoder may be offered given the vendors present.
pub open spec fn vendor_allows(enc: Seq<char>, v: GpuVendorInfo) -> bool {
    if enc == "h264_nvenc"@ {
        v.has_nvidia
    } else if enc == "h264_amf"@ {
        v.has_amd
    } else if enc == "h264_qsv"@ {
        v.has_intel
    } else {
        true
    }
}

/// `[enc]` when FFmpeg lists it and the vendors allow it, else nothing.
pub open spec fn listed(text: Seq<char>, enc: Seq<char>, v: GpuVendorInfo) -> Seq<Seq<char>> {
    if contains(text, enc) && vendor_allows(enc, v) {
        seq![enc]
    } else {
        Seq::empty()
    }
}

/// The encoders found in a lower-cased `ffmpeg -encoders` listing, in trial order.
pub open spec fn found_encoders(text: Seq<char>, v: GpuVendorInfo) -> Seq<Seq<char>> {
    listed(text, "h264_nvenc"@, v) + listed(text, "h264_qsv"@, v) + listed(text, "h264_amf"@, v)
        + listed(text, "libx264"@, v)
}

/// What `available_h264_encoders` gives.
pub open spec fn spec_available_encoders(
    force_software: bool,
    listing: Option<Seq<char>>,
    names: Seq<Seq<char>>,
) -> Seq<Seq<char>> {
    if force_software || listing is None {
        seq!["libx264"@]
    } else {
        let found = found_encoders(lower(listing->0), spec_vendors(names));
        if found.len() == 0 {
            seq!["libx264"@]
        } else {
            found
        }
    }
}

/// Whether a lower-cased `ffmpeg -encoders` listing names an encoder.
fn ffmpeg_lists_encoder(text: &[char], enc: &str) -> (r: bool)
    ensures
        r == contains(text@, enc@),
{
    chars_contain_str(text, enc)
}

fn push_if_listed(
    found: &mut Vec<String>,
    text: &Vec<char>,
    enc: &str,
    vendors: GpuVendorInfo,
)
    ensures
        views(final(found)@) == views(old(found)@) + listed(text@, enc@, vendors),
{
    let allowed = if str_eq(enc, "h264_nvenc") {
        vendors.has_nvidia
    } else if str_eq(enc, "h264_amf") {
        vendors.has_amd
    } else if str_eq(enc, "h264_qsv") {
        vendors.has_intel
    } else {
        true
    };
    let ghost before = found@;
    if ffmpeg_lists_encoder(text, enc) && allowed {
        found.push(String::from_str(enc));
        assert(views(found@) =~= views(before) + seq![enc@]);
    } else {
        assert(views(found@) =~= views(before) + Seq::<Seq<char>>::empty());
    }
}

/// The H.264 encoders to offer, from the output of `ffmpeg -hide_banner -encoders`
/// (`None` when FFmpeg could not be run) filtered by the GPU vendors present; software
/// encoding alone when it is forced or nothing else is found.
pub fn available_h264_encoders(
    force_software: bool,
    listing: Option<&str>,
    gpus: &[GpuInfo],
) -> (r: Vec<String>)
    ensures
        views(r@) == spec_available_encoders(force_software, opt_view(listing), gpu_names(gpus@)),
{
    if force_software || listing.is_none() {
        let mut v: Vec<String> = Vec::new();
        v.push(String::from_str("libx264"));
        assert(views(v@) =~= seq!["libx264"@]);
        return v;
    }
    let raw = chars_of(listing.unwrap());
    let text = lower_chars(&raw);
    let vendors = GpuVendorInfo::from_gpus(gpus);
    let mut found: Vec<String> = Vec::new();
    push_if_listed(&mut found, &text, "h264_nvenc", vendors);
    push_if_listed(&mut found, &text, "h264_qsv", vendors);
    push_if_listed(&mut found, &text, "h264_amf", vendors);
    push_if_listed(&mut found, &text, "libx264", vendors);
    assert(views(found@) =~= found_encoders(text@, vendors));
    if found.len() == 0 {
        found.push(String::from_str("libx264"));
        assert(views(found@) =~= seq!["libx264"@]);
    }
    found
}

/// One encoder/capture/GPU combination to try.
#[derive(Clone, Debug)]
pub struct EncoderCandidate {
    pub encoder: String,
    pub capture: Capture,
    pub pre_input_args: Vec<String>,
    pub nvenc_gpu: Option<u32>,
    pub amf_device: Option<u32>,
}

pub struct CandidateView {
    pub encoder: Seq<char>,
    pub capture: Capture,
    pub pre_input_args: Seq<Seq<char>>,
    pub nvenc_gpu: Option<u32>,
    pub amf_device: Option<u32>,
}

impl View for EncoderCandidate {
    type V = CandidateView;

    open spec fn view(&self) -> CandidateView {
        CandidateView {
            encoder: self.encoder@,
            capture: self.capture,
            pre_input_args: views(self.pre_input_args@),
            nvenc_gpu: self.nvenc_gpu,
            amf_device: self.amf_device,
        }
    }
}

/// The probe key of a candidate, e.g. `h264_nvenc/Gdigrab/gpu0`.
pub open spec fn candidate_key(c: CandidateView) -> Seq<char> {
    spec_probe_key(c.encoder, capture_key_name(c.capture), c.nvenc_gpu, c.amf_device)
}

/// The candidate views of a candidate list.
pub open spec fn candidate_views(v: Seq<EncoderCandidate>) -> Seq<CandidateView> {
    v.map_values(|c: EncoderCandidate| c@)
}

/// The AMF device that `-init_hw_device d3d11va=amf_dx:<N>` pre-input arguments select.
pub open spec fn spec_amf_device(args: Seq<Seq<char>>) -> Option<u32> {
    if args.len() < 2 || args[0] != "-init_hw_device"@ {
        None
    } else {
        match strip_prefix(args[1], "d3d11va=amf_dx:"@) {
            Some(rest) => match parse_unsigned(rest, u32::MAX as nat) {
                Some(n) => Some(n as u32),
                None => None,
            },
            None => None,
        }
    }
}

/// The pre-input arguments that open AMF device `idx`.
pub open spec fn amf_args(idx: u32) -> Seq<Seq<char>> {
    seq!["-init_hw_device"@, "d3d11va=amf_dx:"@ + decimal(idx as nat)]
}

/// Reads the AMF device index back from pre-input arguments.
pub fn amf_device_from_pre_args(pre_args: &[String]) -> (r: Option<u32>)
    ensures
        r == spec_amf_device(views(pre_args@)),
{
    if pre_args.len() < 2 || !str_eq(pre_args[0].as_str(), "-init_hw_device") {
        return None;
    }
    let spec_chars = chars_of(pre_args[1].as_str());
    match chars_strip_prefix(&spec_chars, "d3d11va=amf_dx:") {
        Some(rest) => parse_u32_chars(&rest),
        None => None,
    }
}

/// `["-init_hw_device", "d3d11va=amf_dx:<idx>"]`.
pub fn amf_pre_args(idx: u32) -> (r: Vec<String>)
    ensures
        views(r@) == amf_args(idx),
{
    let mut second = String::from_str("d3d11va=amf_dx:");
    let mut d: Vec<char> = Vec::new();
    push_decimal(&mut d, idx as u128);
    append_chars(&mut second, &d);
    let mut r: Vec<String> = Vec::new();
    r.push(String::from_str("-init_hw_device"));
    r.push(second);
    assert(views(r@) =~= amf_args(idx));
    r
}

/// The device written into AMF pre-input arguments is the one read back from them.
pub proof fn law_amf_args_round_trip(idx: u32)
    ensures
        spec_amf_device(amf_args(idx)) == Some(idx),
{
    let a = amf_args(idx);
    let p = "d3d11va=amf_dx:"@;
    let s = p + decimal(idx as nat);
    assert(s.subrange(0, p.len() as int) =~= p);
    assert(s.subrange(p.len() as int, s.len() as int) =~= decimal(idx as nat));
    lemma_parse_decimal(idx as nat, u32::MAX as nat);
}


/// The views of a list of string literals.
pub open spec fn lit_views(v: Seq<&str>) -> Seq<Seq<char>> {
    v.map_values(|s: &str| s@)
}

/// Owned copies of string literals, in order.
fn owned_strings(lits: &[&str]) -> (r: Vec<String>)
    ensures
        views(r@) == lit_views(lits@),
{
    let mut r: Vec<String> = Vec::new();
    let mut i: usize = 0;
    while i < lits.len()
        invariant
            i <= lits@.len(),
            r@.len() == i,
            forall|k: int| 0 <= k < i ==> (#[trigger] r@[k])@ == lits@[k]@,
        decreases lits@.len() - i,
    {
        let s = String::from_str(lits[i]);
        r.push(s);
        i = i + 1;
    }
    assert(views(r@) =~= lit_views(lits@));
    r
}

/// The x264 parameter string, with sliced threads on (`1`) or off (`0`).
pub open spec fn x264_params(sliced: Seq<char>) -> Seq<char> {
    "bframes=0:scenecut=0:ref=1:cabac=0:rc-lookahead=0:sync-lookahead=0:repeat-headers=1:aud=1:sliced-threads="@
        + sliced
}

/// What `encoder_extra_args` gives; sliced threads need at least four CPU threads.
pub open spec fn spec_extra_args(encoder: Seq<char>, cpu_threads: u32) -> Seq<Seq<char>> {
    let sliced = if cpu_threads >= 4 {
        "1"@
    } else {
        "0"@
    };
    if encoder == "h264_nvenc"@ {
        seq![
            "-preset"@, "p1"@, "-tune"@, "ll"@, "-rc"@, "cbr"@, "-bf"@, "0"@, "-zerolatency"@, "1"@,
            "-profile:v"@, "main"@, "-aud"@, "1"@, "-level"@, "5.1"@, "-no-scenecut"@, "1"@,
            "-forced-idr"@, "0"@, "-strict_gop"@, "1"@,
        ]
    } else if encoder == "h264_qsv"@ {
        seq!["-preset"@, "veryfast"@, "-async_depth"@, "1"@, "-bf"@, "0"@]
    } else if encoder == "h264_amf"@ {
        seq![
            "-usage"@, "lowlatency"@, "-quality"@, "balanced"@, "-latency"@, "true"@, "-rc"@,
            "cbr"@, "-async_depth"@, "1"@, "-profile"@, "baseline"@, "-coder"@, "cavlc"@, "-bf"@,
            "0"@, "-max_b_frames"@, "0"@, "-vbaq"@, "true"@,
        ]
    } else if encoder == "libx264"@ {
        seq![
            "-preset"@, "ultrafast"@, "-tune"@, "zerolatency"@, "-profile:v"@, "baseline"@,
            "-level"@, "5.1"@, "-x264-params"@, x264_params(sliced),
        ]
    } else {
        seq!["-bf"@, "0"@]
    }
}

/// The CPU thread count the host works with, from the available parallelism (`None` when it
/// cannot be read): that count cut to 32 bits, 4 when unknown, and at least 1.
pub fn cpu_threads_from(available: Option<usize>) -> (r: u32)
    ensures
        r == (match available {
            Some(n) => if (n as u32) < 1 {
                1u32
            } else {
                n as u32
            },
            None => 4u32,
        }),
{
    match available {
        Some(n) => {
            let t = n as u32;
            if t < 1 {
                1
            } else {
                t
            }
        },
        None => 4,
    }
}

/// Per-encoder low-latency arguments; `cpu_threads` is the machine's available parallelism.
pub fn encoder_extra_args(encoder: &str, cpu_threads: u32) -> (r: Vec<String>)
    ensures
        views(r@) == spec_extra_args(encoder@, cpu_threads),
{
    let sliced_threads = if cpu_threads >= 4 {
        "1"
    } else {
        "0"
    };
    if str_eq(encoder, "h264_nvenc") {
        let lits = [
            "-preset", "p1", "-tune", "ll", "-rc", "cbr", "-bf", "0", "-zerolatency", "1",
            "-profile:v", "main", "-aud", "1", "-level", "5.1", "-no-scenecut", "1", "-forced-idr",
            "0", "-strict_gop", "1",
        ];
        let r = owned_strings(&lits);
        assert(lit_views(lits@) =~= spec_extra_args(encoder@, cpu_threads));
        r
    } else if str_eq(encoder, "h264_qsv") {
        let lits = ["-preset", "veryfast", "-async_depth", "1", "-bf", "0"];
        let r = owned_strings(&lits);
        assert(lit_views(lits@) =~= spec_extra_args(encoder@, cpu_threads));
        r
    } else if str_eq(encoder, "h264_amf") {
        let lits = [
            "-usage", "lowlatency", "-quality", "balanced", "-latency", "true", "-rc", "cbr",
            "-async_depth", "1", "-profile", "baseline", "-coder", "cavlc", "-bf", "0",
            "-max_b_frames", "0", "-vbaq", "true",
        ];
        let r = owned_strings(&lits);
        assert(lit_views(lits@) =~= spec_extra_args(encoder@, cpu_threads));
        r
    } else if str_eq(encoder, "libx264") {
        let lits = [
            "-preset", "ultrafast", "-tune", "zerolatency", "-profile:v", "baseline", "-level",
            "5.1", "-x264-params",
        ];
        let mut r = owned_strings(&lits);
        let mut params = String::from_str(
            "bframes=0:scenecut=0:ref=1:cabac=0:rc-lookahead=0:sync-lookahead=0:repeat-headers=1:aud=1:sliced-threads=",
        );
        append_str(&mut params, sliced_threads);
        let ghost before = r@;
        r.push(params);
        assert(views(r@) =~= views(before).push(x264_params(sliced_threads@)));
        assert(views(r@) =~= spec_extra_args(encoder@, cpu_threads));
        r
    } else {
        let lits = ["-bf", "0"];
        let r = owned_strings(&lits);
        assert(lit_views(lits@) =~= spec_extra_args(encoder@, cpu_threads));
        r
    }
}

/// The probe key list without any copy of `key` (`retain(|k| k != key)`).
pub open spec fn remove_key(keys: Seq<Seq<char>>, key: Seq<char>) -> Seq<Seq<char>>
    decreases keys.len(),
{
    if keys.len() == 0 {
        keys
    } else {
        let rest = remove_key(keys.drop_last(), key);
        if keys.last() == key {
            rest
        } else {
            rest.push(keys.last())
        }
    }
}

/// The probe key list after recording a failure: the key is appended once, and only the
/// newest `MAX_FAILED_PROBE_KEYS` are kept.
pub open spec fn spec_record_failure(keys: Seq<Seq<char>>, key: Seq<char>) -> Seq<Seq<char>> {
    if keys.contains(key) {
        keys
    } else {
        let p = keys.push(key);
        if p.len() > 32 {
            p.subrange(p.len() - 32, p.len() as int)
        } else {
            p
        }
    }
}

/// The cache entry that a successful candidate leaves behind.
pub open spec fn cache_of(c: CandidateView) -> ProbeCacheView {
    ProbeCacheView {
        encoder: c.encoder,
        capture: capture_name(c.capture),
        nvenc_gpu: c.nvenc_gpu,
        amf_device: c.amf_device,
    }
}

/// The settings after a successful stream with candidate `c`.
pub open spec fn spec_record_success(s: HostSettingsView, c: CandidateView) -> HostSettingsView {
    HostSettingsView {
        encoder_probe_cache: Some(cache_of(c)),
        failed_probe_keys: remove_key(s.failed_probe_keys, candidate_key(c)),
        ..s
    }
}

/// The settings after candidate `c` produced nothing.
pub open spec fn spec_record_fail(s: HostSettingsView, c: CandidateView) -> HostSettingsView {
    HostSettingsView {
        failed_probe_keys: spec_record_failure(s.failed_probe_keys, candidate_key(c)),
        ..s
    }
}

/// The probe key of a candidate.
pub fn candidate_probe_key(c: &EncoderCandidate) -> (r: String)
    ensures
        r@ == candidate_key(c@),
{
    probe_cache_key(c.encoder.as_str(), c.capture.key_name(), c.nvenc_gpu, c.amf_device)
}

/// Whether a list of strings holds a text.
pub fn strings_contain(v: &Vec<String>, key: &String) -> (r: bool)
    ensures
        r == views(v@).contains(key@),
{
    let mut i: usize = 0;
    while i < v.len()
        invariant
            i <= v@.len(),
            forall|k: int| 0 <= k < i ==> v@[k]@ != key@,
        decreases v@.len() - i,
    {
        if str_eq(v[i].as_str(), key.as_str()) {
            assert(views(v@)[i as int] == key@);
            return true;
        }
        i = i + 1;
    }
    assert forall|k: int| 0 <= k < views(v@).len() implies views(v@)[k] != key@ by {
        assert(views(v@)[k] == v@[k]@);
    }
    false
}

/// Remembers a working combination: it becomes the probe cache and leaves the failed list.
pub fn record_probe_success(settings: &mut HostSettings, candidate: &EncoderCandidate)
    ensures
        final(settings)@ == spec_record_success(old(settings)@, candidate@),
{
    settings.encoder_probe_cache = Some(
        ProbeCache {
            encoder: copy_string(&candidate.encoder),
            capture: candidate.capture.to_string(),
            nvenc_gpu: candidate.nvenc_gpu,
            amf_device: candidate.amf_device,
        },
    );
    let key = candidate_probe_key(candidate);
    let ghost old_keys = views(settings.failed_probe_keys@);
    let mut kept: Vec<String> = Vec::new();
    let mut i: usize = 0;
    while i < settings.failed_probe_keys.len()
        invariant
            i <= settings.failed_probe_keys@.len(),
            old_keys == views(settings.failed_probe_keys@),
            views(kept@) == remove_key(old_keys.subrange(0, i as int), key@),
        decreases settings.failed_probe_keys@.len() - i,
    {
        let k = &settings.failed_probe_keys[i];
        let same = str_eq(k.as_str(), key.as_str());
        let ghost prev = kept@;
        assert(old_keys.subrange(0, i + 1).drop_last() =~= old_keys.subrange(0, i as int));
        assert(old_keys[i as int] == k@);
        if !same {
            kept.push(copy_string(k));
            assert(views(kept@) =~= views(prev).push(k@));
        }
        i = i + 1;
    }
    assert(old_keys.subrange(0, old_keys.len() as int) =~= old_keys);
    settings.failed_probe_keys = kept;
}

/// Remembers a combination that produced nothing, keeping the newest
/// `MAX_FAILED_PROBE_KEYS` keys.
pub fn record_probe_failure(settings: &mut HostSettings, candidate: &EncoderCandidate)
    ensures
        final(settings)@ == spec_record_fail(old(settings)@, candidate@),
{
    let key = candidate_probe_key(candidate);
    if strings_contain(&settings.failed_probe_keys, &key) {
        return;
    }
    let ghost pushed = views(settings.failed_probe_keys@).push(key@);
    settings.failed_probe_keys.push(key);
    assert(views(settings.failed_probe_keys@) =~= pushed);
    let n = settings.failed_probe_keys.len();
    if n > MAX_FAILED_PROBE_KEYS {
        let drain = n - MAX_FAILED_PROBE_KEYS;
        let mut kept: Vec<String> = Vec::new();
        let mut i: usize = drain;
        while i < n
            invariant
                drain <= i <= n,
                n == settings.failed_probe_keys@.len(),
                pushed == views(settings.failed_probe_keys@),
                kept@.len() == i - drain,
                forall|k: int| 0 <= k < i - drain ==> (#[trigger] kept@[k])@ == pushed[k + drain],
            decreases n - i,
        {
            let c = copy_string(&settings.failed_probe_keys[i]);
            assert(c@ == pushed[i as int]);
            kept.push(c);
            i = i + 1;
        }
        assert(views(kept@) =~= pushed.subrange(drain as int, n as int));
        settings.failed_probe_keys = kept;
    }
}

/// Removing a key leaves no copy of it.
proof fn lemma_remove_key_absent(keys: Seq<Seq<char>>, key: Seq<char>)
    ensures
        !remove_key(keys, key).contains(key),
        remove_key(keys, key).len() <= keys.len(),
    decreases keys.len(),
{
    if keys.len() > 0 {
        lemma_remove_key_absent(keys.drop_last(), key);
        let rest = remove_key(keys.drop_last(), key);
        if keys.last() != key {
            assert forall|i: int| 0 <= i < rest.push(keys.last()).len() implies rest.push(
                keys.last(),
            )[i] != key by {
                if i < rest.len() {
                    assert(rest.push(keys.last())[i] == rest[i]);
                }
            }
        }
    }
}

/// After a success the candidate's key is no longer marked failed and the candidate is the
/// probe cache; after a failure its key is marked failed and at most
/// `MAX_FAILED_PROBE_KEYS` keys are kept (when no more were kept before).
pub proof fn law_probe_outcomes(s: HostSettingsView, c: CandidateView)
    ensures
        !spec_record_success(s, c).failed_probe_keys.contains(candidate_key(c)),
        spec_record_success(s, c).encoder_probe_cache == Some(cache_of(c)),
        spec_record_fail(s, c).failed_probe_keys.contains(candidate_key(c)),
        s.failed_probe_keys.len() <= 32 ==> spec_record_fail(s, c).failed_probe_keys.len() <= 32,
        spec_record_fail(spec_record_success(s, c), c).failed_probe_keys.contains(candidate_key(c)),
        !spec_record_success(spec_record_fail(s, c), c).failed_probe_keys.contains(candidate_key(c)),
{
    lemma_remove_key_absent(s.failed_probe_keys, candidate_key(c));
    lemma_remove_key_absent(spec_record_fail(s, c).failed_probe_keys, candidate_key(c));
    let keys = s.failed_probe_keys;
    let key = candidate_key(c);
    if !keys.contains(key) {
        let p = keys.push(key);
        assert(p[p.len() - 1] == key);
        if p.len() > 32 {
            let t = p.subrange(p.len() - 32, p.len() as int);
            assert(t[31] == key);
        }
    }
    let k2 = remove_key(keys, key);
    let p2 = k2.push(key);
    assert(p2[p2.len() - 1] == key);
    if p2.len() > 32 {
        let t = p2.subrange(p2.len() - 32, p2.len() as int);
        assert(t[31] == key);
    }
}


impl EncoderCandidate {
    /// A copy of the candidate.
    pub fn duplicate(&self) -> (r: Self)
        ensures
            r@ == self@,
    {
        EncoderCandidate {
            encoder: copy_string(&self.encoder),
            capture: self.capture,
            pre_input_args: copy_strings(&self.pre_input_args),
            nvenc_gpu: self.nvenc_gpu,
            amf_device: self.amf_device,
        }
    }
}

/// A candidate view from its parts.
pub open spec fn cand(
    encoder: Seq<char>,
    capture: Capture,
    pre: Seq<Seq<char>>,
    nvenc_gpu: Option<u32>,
    amf_device: Option<u32>,
) -> CandidateView {
    CandidateView { encoder, capture, pre_input_args: pre, nvenc_gpu, amf_device }
}

/// The views of a list of argument lists.
pub open spec fn arg_lists(v: Seq<Vec<String>>) -> Seq<Seq<Seq<char>>> {
    v.map_values(|a: Vec<String>| views(a@))
}

/// One AMF row: a candidate per pre-input argument list, on one capture backend.
pub open spec fn amf_row(enc: Seq<char>, cap: Capture, pres: Seq<Seq<Seq<char>>>) -> Seq<CandidateView> {
    pres.map_values(|pre: Seq<Seq<char>>| cand(enc, cap, pre, None, spec_amf_device(pre)))
}

/// One NVENC row: a candidate per CUDA device choice, on one capture backend.
pub open spec fn nvenc_row(enc: Seq<char>, cap: Capture, gpus: Seq<Option<u32>>) -> Seq<CandidateView> {
    gpus.map_values(|g: Option<u32>| cand(enc, cap, Seq::empty(), g, None))
}

/// The trials for one encoder: every capture backend in order, crossed with the AMF devices
/// (for AMF) or the CUDA devices (for NVENC).
pub open spec fn matrix(
    enc: Seq<char>,
    order: (Capture, Capture),
    pres: Seq<Seq<Seq<char>>>,
    gpus: Seq<Option<u32>>,
) -> Seq<CandidateView> {
    if enc == "h264_amf"@ {
        amf_row(enc, order.0, pres) + amf_row(enc, order.1, pres)
    } else if enc == "h264_nvenc"@ {
        nvenc_row(enc, order.0, gpus) + nvenc_row(enc, order.1, gpus)
    } else {
        seq![
            cand(enc, order.0, Seq::empty(), None, None),
            cand(enc, order.1, Seq::empty(), None, None),
        ]
    }
}

/// Pushes the trials for one encoder.
fn push_encoder_matrix(
    out: &mut Vec<EncoderCandidate>,
    encoder: &str,
    capture_order: [Capture; 2],
    amf_pre_args: &[Vec<String>],
    nvenc_gpu_candidates: &[Option<u32>],
)
    ensures
        candidate_views(final(out)@) == candidate_views(old(out)@) + matrix(
            encoder@,
            (capture_order[0], capture_order[1]),
            arg_lists(amf_pre_args@),
            nvenc_gpu_candidates@,
        ),
{
    let ghost m = matrix(
        encoder@,
        (capture_order[0], capture_order[1]),
        arg_lists(amf_pre_args@),
        nvenc_gpu_candidates@,
    );
    let ghost start = candidate_views(out@);
    if str_eq(encoder, "h264_amf") {
        let ghost pres = arg_lists(amf_pre_args@);
        let mut ci: usize = 0;
        while ci < 2
            invariant
                ci <= 2,
                pres == arg_lists(amf_pre_args@),
                encoder@ == "h264_amf"@,
                candidate_views(out@) == start + (if ci == 0 {
                    Seq::<CandidateView>::empty()
                } else if ci == 1 {
                    amf_row(encoder@, capture_order[0], pres)
                } else {
                    amf_row(encoder@, capture_order[0], pres) + amf_row(encoder@, capture_order[1], pres)
                }),
            decreases 2 - ci,
        {
            let cap = capture_order[ci];
            let ghost row_start = candidate_views(out@);
            let mut i: usize = 0;
            while i < amf_pre_args.len()
                invariant
                    i <= amf_pre_args@.len(),
                    pres == arg_lists(amf_pre_args@),
                    candidate_views(out@) == row_start + amf_row(encoder@, cap, pres.subrange(0, i as int)),
                decreases amf_pre_args@.len() - i,
            {
                let pre = &amf_pre_args[i];
                let amf = amf_device_from_pre_args(pre.as_slice());
                let c = EncoderCandidate {
                    encoder: String::from_str(encoder),
                    capture: cap,
                    pre_input_args: copy_strings(pre),
                    nvenc_gpu: None,
                    amf_device: amf,
                };
                let ghost prev = candidate_views(out@);
                assert(pres[i as int] == views(pre@));
                out.push(c);
                i = i + 1;
                assert(amf_row(encoder@, cap, pres.subrange(0, i as int)) =~= amf_row(
                    encoder@,
                    cap,
                    pres.subrange(0, i - 1),
                ).push(cand(encoder@, cap, pres[i - 1], None, spec_amf_device(pres[i - 1]))));
                assert(candidate_views(out@) =~= prev.push(c@));
            }
            assert(pres.subrange(0, amf_pre_args@.len() as int) =~= pres);
            ci = ci + 1;
            proof {
                if ci == 2 {
                    assert(candidate_views(out@) =~= start + (amf_row(encoder@, capture_order[0], pres)
                        + amf_row(encoder@, capture_order[1], pres)));
                }
            }
        }
    } else if str_eq(encoder, "h264_nvenc") {
        let ghost gpus = nvenc_gpu_candidates@;
        let mut ci: usize = 0;
        while ci < 2
            invariant
                ci <= 2,
                gpus == nvenc_gpu_candidates@,
                encoder@ == "h264_nvenc"@,
                candidate_views(out@) == start + (if ci == 0 {
                    Seq::<CandidateView>::empty()
                } else if ci == 1 {
                    nvenc_row(encoder@, capture_order[0], gpus)
                } else {
                    nvenc_row(encoder@, capture_order[0], gpus) + nvenc_row(encoder@, capture_order[1], gpus)
                }),
            decreases 2 - ci,
        {
            let cap = capture_order[ci];
            let ghost row_start = candidate_views(out@);
            let mut i: usize = 0;
            while i < nvenc_gpu_candidates.len()
                invariant
                    i <= gpus.len(),
                    gpus == nvenc_gpu_candidates@,
                    candidate_views(out@) == row_start + nvenc_row(encoder@, cap, gpus.subrange(0, i as int)),
                decreases gpus.len() - i,
            {
                let gpu = nvenc_gpu_candidates[i];
                let c = EncoderCandidate {
                    encoder: String::from_str(encoder),
                    capture: cap,
                    pre_input_args: Vec::new(),
                    nvenc_gpu: gpu,
                    amf_device: None,
                };
                let ghost prev = candidate_views(out@);
                assert(views(c.pre_input_args@) =~= Seq::<Seq<char>>::empty());
                out.push(c);
                i = i + 1;
                assert(nvenc_row(encoder@, cap, gpus.subrange(0, i as int)) =~= nvenc_row(
                    encoder@,
                    cap,
                    gpus.subrange(0, i - 1),
                ).push(cand(encoder@, cap, Seq::empty(), gpus[i - 1], None)));
                assert(candidate_views(out@) =~= prev.push(c@));
            }
            assert(gpus.subrange(0, gpus.len() as int) =~= gpus);
            ci = ci + 1;
            proof {
                if ci == 2 {
                    assert(candidate_views(out@) =~= start + (nvenc_row(encoder@, capture_order[0], gpus)
                        + nvenc_row(encoder@, capture_order[1], gpus)));
                }
            }
        }
    } else {
        let mut ci: usize = 0;
        while ci < 2
            invariant
                ci <= 2,
                encoder@ != "h264_amf"@,
                encoder@ != "h264_nvenc"@,
                candidate_views(out@) == start + (if ci == 0 {
                    Seq::<CandidateView>::empty()
                } else if ci == 1 {
                    seq![cand(encoder@, capture_order[0], Seq::empty(), None, None)]
                } else {
                    seq![
                        cand(encoder@, capture_order[0], Seq::empty(), None, None),
                        cand(encoder@, capture_order[1], Seq::empty(), None, None),
                    ]
                }),
            decreases 2 - ci,
        {
            let c = EncoderCandidate {
                encoder: String::from_str(encoder),
                capture: capture_order[ci],
                pre_input_args: Vec::new(),
                nvenc_gpu: None,
                amf_device: None,
            };
            let ghost prev = candidate_views(out@);
            assert(views(c.pre_input_args@) =~= Seq::<Seq<char>>::empty());
            out.push(c);
            assert(candidate_views(out@) =~= prev.push(c@));
            ci = ci + 1;
            assert(candidate_views(out@) =~= start + (if ci == 1 {
                seq![cand(encoder@, capture_order[0], Seq::empty(), None, None)]
            } else {
                seq![
                    cand(encoder@, capture_order[0], Seq::empty(), None, None),
                    cand(encoder@, capture_order[1], Seq::empty(), None, None),
                ]
            }));
        }
    }
}


/// The candidates whose keys are not marked failed, in order.
pub open spec fn filter_failed(list: Seq<CandidateView>, failed: Seq<Seq<char>>) -> Seq<CandidateView>
    decreases list.len(),
{
    if list.len() == 0 {
        list
    } else {
        let r = filter_failed(list.drop_last(), failed);
        if failed.contains(candidate_key(list.last())) {
            r
        } else {
            r.push(list.last())
        }
    }
}

/// The probe keys of a candidate list.
pub open spec fn keys_of(list: Seq<CandidateView>) -> Seq<Seq<char>> {
    list.map_values(|c: CandidateView| candidate_key(c))
}

/// The first candidate for each probe key, in order.
pub open spec fn dedupe(list: Seq<CandidateView>) -> Seq<CandidateView>
    decreases list.len(),
{
    if list.len() == 0 {
        list
    } else {
        let r = dedupe(list.drop_last());
        if keys_of(r).contains(candidate_key(list.last())) {
            r
        } else {
            r.push(list.last())
        }
    }
}

/// Drops the candidates whose probe keys are marked failed.
fn filter_failed_candidates(list: &Vec<EncoderCandidate>, failed: &Vec<String>) -> (r: Vec<EncoderCandidate>)
    ensures
        candidate_views(r@) == filter_failed(candidate_views(list@), views(failed@)),
{
    let ghost all = candidate_views(list@);
    let mut out: Vec<EncoderCandidate> = Vec::new();
    let mut i: usize = 0;
    while i < list.len()
        invariant
            i <= list@.len(),
            all == candidate_views(list@),
            candidate_views(out@) == filter_failed(all.subrange(0, i as int), views(failed@)),
        decreases list@.len() - i,
    {
        let key = candidate_probe_key(&list[i]);
        let ghost prev = candidate_views(out@);
        assert(all.subrange(0, i + 1).drop_last() =~= all.subrange(0, i as int));
        assert(all[i as int] == list@[i as int]@);
        if !strings_contain(failed, &key) {
            out.push(list[i].duplicate());
            assert(candidate_views(out@) =~= prev.push(all[i as int]));
        }
        i = i + 1;
    }
    assert(all.subrange(0, all.len() as int) =~= all);
    out
}

/// The trials not marked failed; all of them again when every one is marked failed, so that
/// stale marks never block every trial.
pub open spec fn unless_all_failed(list: Seq<CandidateView>, failed: Seq<Seq<char>>) -> Seq<CandidateView> {
    if filter_failed(list, failed).len() == 0 {
        list
    } else {
        filter_failed(list, failed)
    }
}

/// Drops the trials marked failed, unless that would drop every one of them.
fn drop_failed_unless_all(list: Vec<EncoderCandidate>, failed: &Vec<String>) -> (r: Vec<EncoderCandidate>)
    ensures
        candidate_views(r@) == unless_all_failed(candidate_views(list@), views(failed@)),
{
    let filtered = filter_failed_candidates(&list, failed);
    if filtered.len() == 0 {
        list
    } else {
        filtered
    }
}

/// Keeps the first candidate for each probe key.
fn dedupe_candidates(list: Vec<EncoderCandidate>) -> (r: Vec<EncoderCandidate>)
    ensures
        candidate_views(r@) == dedupe(candidate_views(list@)),
{
    let ghost all = candidate_views(list@);
    let mut out: Vec<EncoderCandidate> = Vec::new();
    let mut seen: Vec<String> = Vec::new();
    let mut i: usize = 0;
    while i < list.len()
        invariant
            i <= list@.len(),
            all == candidate_views(list@),
            candidate_views(out@) == dedupe(all.subrange(0, i as int)),
            views(seen@) == keys_of(candidate_views(out@)),
        decreases list@.len() - i,
    {
        let key = candidate_probe_key(&list[i]);
        let ghost prev = candidate_views(out@);
        assert(all.subrange(0, i + 1).drop_last() =~= all.subrange(0, i as int));
        assert(all[i as int] == list@[i as int]@);
        if !strings_contain(&seen, &key) {
            let ghost kprev = views(seen@);
            seen.push(key);
            out.push(list[i].duplicate());
            assert(candidate_views(out@) =~= prev.push(all[i as int]));
            assert(views(seen@) =~= kprev.push(candidate_key(all[i as int])));
            assert(keys_of(candidate_views(out@)) =~= keys_of(prev).push(candidate_key(all[i as int])));
        }
        i = i + 1;
    }
    assert(all.subrange(0, all.len() as int) =~= all);
    out
}

/// What `build_encoder_candidates` reads.
pub struct CandidateBuildOptions<'a> {
    pub available_encoders: &'a [String],
    pub preferred_encoder: Option<&'a str>,
    pub manual_encoder_lock: bool,
    pub stream_mode: &'a str,
    pub capture_env: Option<&'a str>,
    pub settings: &'a HostSettings,
    pub gpus: &'a [GpuInfo],
    pub force_software: bool,
}

/// `0..n` without `skip`.
pub open spec fn range_without(n: nat, skip: Option<u32>) -> Seq<u32>
    decreases n,
{
    if n == 0 {
        Seq::empty()
    } else {
        let r = range_without((n - 1) as nat, skip);
        if skip == Some((n - 1) as u32) {
            r
        } else {
            r.push((n - 1) as u32)
        }
    }
}

pub open spec fn opt_seq<T>(o: Option<T>) -> Seq<T> {
    match o {
        Some(x) => seq![x],
        None => Seq::empty(),
    }
}

/// How many adapters the matrix considers (at most ten).
pub open spec fn considered_gpus(n: nat) -> nat {
    if n < 10 {
        n
    } else {
        10
    }
}

/// AMF pre-input argument lists: the preferred device, the other devices, then none.
pub open spec fn amf_pre_lists(pref: Option<u32>, count: nat) -> Seq<Seq<Seq<char>>> {
    (opt_seq(pref) + range_without(count, pref)).map_values(|i: u32| amf_args(i)).push(Seq::empty())
}

/// NVENC device choices: the preferred device, the other devices (at least device 0), then none.
pub open spec fn nvenc_choices(pref: Option<u32>, count: nat) -> Seq<Option<u32>> {
    (opt_seq(pref) + range_without(if count == 0 {
        1
    } else {
        count
    }, pref)).map_values(|i: u32| Some(i)).push(None)
}

/// `[e]` when `e` is among the available encoders.
pub open spec fn keep_available(available: Seq<Seq<char>>, e: Seq<char>) -> Seq<Seq<char>> {
    if available.contains(e) {
        seq![e]
    } else {
        Seq::empty()
    }
}

/// The available hardware encoders, in trial order.
pub open spec fn hw_list(available: Seq<Seq<char>>) -> Seq<Seq<char>> {
    keep_available(available, "h264_nvenc"@) + keep_available(available, "h264_qsv"@)
        + keep_available(available, "h264_amf"@)
}

/// The cached combination, first, when it is still readable and not marked failed.
pub open spec fn cache_part(s: HostSettingsView) -> Seq<CandidateView> {
    match s.encoder_probe_cache {
        Some(c) => match spec_capture_from(c.capture) {
            Some(cap) => if s.failed_probe_keys.contains(
                spec_probe_key(c.encoder, capture_key_name(cap), c.nvenc_gpu, c.amf_device),
            ) {
                Seq::empty()
            } else {
                seq![
                    cand(
                        c.encoder,
                        cap,
                        match c.amf_device {
                            Some(d) => amf_args(d),
                            None => Seq::empty(),
                        },
                        c.nvenc_gpu,
                        c.amf_device,
                    ),
                ]
            },
            None => Seq::empty(),
        },
        None => Seq::empty(),
    }
}

/// The matrices of the listed encoders other than the preferred one.
pub open spec fn hw_part(
    hw: Seq<Seq<char>>,
    preferred: Option<Seq<char>>,
    order: (Capture, Capture),
    pres: Seq<Seq<Seq<char>>>,
    gpus: Seq<Option<u32>>,
) -> Seq<CandidateView>
    decreases hw.len(),
{
    if hw.len() == 0 {
        Seq::empty()
    } else {
        let r = hw_part(hw.drop_last(), preferred, order, pres, gpus);
        if preferred == Some(hw.last()) {
            r
        } else {
            r + matrix(hw.last(), order, pres, gpus)
        }
    }
}

/// Every trial in order before failed keys and duplicates are dropped.
pub open spec fn raw_candidates(
    available: Seq<Seq<char>>,
    preferred: Option<Seq<char>>,
    manual_lock: bool,
    capture_env: Option<Seq<char>>,
    s: HostSettingsView,
    names: Seq<Seq<char>>,
    force_software: bool,
) -> Seq<CandidateView> {
    let v = spec_vendors(names);
    let count = considered_gpus(names.len());
    let pres = amf_pre_lists(s.preferred_amf_device, count);
    let gpus = nvenc_choices(s.preferred_nvenc_gpu, count);
    let order = spec_capture_order(capture_env);
    let hw = hw_list(available);
    let skip_hw = force_software || (!v.has_nvidia && !v.has_amd && !v.has_intel) || hw.len() == 0;
    let pref = match preferred {
        Some(p) => if p == "libx264"@ || hw.contains(p) {
            matrix(p, order, pres, gpus)
        } else {
            Seq::empty()
        },
        None => Seq::empty(),
    };
    if preferred is Some && manual_lock {
        cache_part(s) + pref
    } else {
        cache_part(s) + pref + (if skip_hw {
            Seq::empty()
        } else {
            hw_part(hw, preferred, order, pres, gpus)
        }) + (if preferred == Some("libx264"@) {
            Seq::empty()
        } else {
            matrix("libx264"@, order, pres, gpus)
        })
    }
}

/// What `build_encoder_candidates` gives.
pub open spec fn spec_candidates(
    available: Seq<Seq<char>>,
    preferred: Option<Seq<char>>,
    manual_lock: bool,
    capture_env: Option<Seq<char>>,
    s: HostSettingsView,
    names: Seq<Seq<char>>,
    force_software: bool,
) -> Seq<CandidateView> {
    let t = spec_clear_invalid(s, names.len());
    dedupe(
        unless_all_failed(
            raw_candidates(available, preferred, manual_lock, capture_env, t, names, force_software),
            t.failed_probe_keys,
        ),
    )
}

/// `0..n` without `skip`, pushed after what `out` holds.
fn push_range_without(out: &mut Vec<u32>, n: u32, skip: Option<u32>)
    ensures
        final(out)@ == old(out)@ + range_without(n as nat, skip),
{
    let mut i: u32 = 0;
    while i < n
        invariant
            i <= n,
            out@ == old(out)@ + range_without(i as nat, skip),
        decreases n - i,
    {
        let ghost prev = out@;
        if skip != Some(i) {
            out.push(i);
        }
        i = i + 1;
        assert(out@ =~= old(out)@ + range_without(i as nat, skip));
    }
}

/// Whether a list of strings holds a literal.
fn strings_contain_str(v: &[String], s: &str) -> (r: bool)
    ensures
        r == views(v@).contains(s@),
{
    let mut i: usize = 0;
    while i < v.len()
        invariant
            i <= v@.len(),
            forall|k: int| 0 <= k < i ==> v@[k]@ != s@,
        decreases v@.len() - i,
    {
        if str_eq(v[i].as_str(), s) {
            assert(views(v@)[i as int] == s@);
            return true;
        }
        i = i + 1;
    }
    assert forall|k: int| 0 <= k < views(v@).len() implies views(v@)[k] != s@ by {
        assert(views(v@)[k] == v@[k]@);
    }
    false
}

/// The AMF pre-input argument lists, one per device to try, then none.
fn amf_pre_arg_lists(pref: Option<u32>, count: u32) -> (r: Vec<Vec<String>>)
    ensures
        arg_lists(r@) == amf_pre_lists(pref, count as nat),
{
    let mut order: Vec<u32> = Vec::new();
    if let Some(idx) = pref {
        order.push(idx);
    }
    assert(order@ =~= opt_seq(pref));
    push_range_without(&mut order, count, pref);
    let ghost os = order@;
    let mut out: Vec<Vec<String>> = Vec::new();
    let mut i: usize = 0;
    while i < order.len()
        invariant
            i <= os.len(),
            os == order@,
            out@.len() == i,
            forall|k: int| 0 <= k < i ==> views((#[trigger] out@[k])@) == amf_args(os[k]),
        decreases os.len() - i,
    {
        out.push(amf_pre_args(order[i]));
        i = i + 1;
    }
    out.push(Vec::new());
    proof {
        assert(views(out@[i as int]@) =~= Seq::<Seq<char>>::empty());
        assert(arg_lists(out@) =~= amf_pre_lists(pref, count as nat));
    }
    out
}

/// The CUDA device choices for NVENC: the preferred one, the others (at least device 0), then none.
fn nvenc_gpu_choices(pref: Option<u32>, count: u32) -> (r: Vec<Option<u32>>)
    ensures
        r@ == nvenc_choices(pref, count as nat),
{
    let mut order: Vec<u32> = Vec::new();
    if let Some(preferred) = pref {
        order.push(preferred);
    }
    assert(order@ =~= opt_seq(pref));
    let n: u32 = if count == 0 {
        1
    } else {
        count
    };
    push_range_without(&mut order, n, pref);
    let ghost os = order@;
    let mut out: Vec<Option<u32>> = Vec::new();
    let mut j: usize = 0;
    while j < order.len()
        invariant
            j <= os.len(),
            os == order@,
            out@ == os.subrange(0, j as int).map_values(|d: u32| Some(d)),
        decreases os.len() - j,
    {
        out.push(Some(order[j]));
        j = j + 1;
        assert(out@ =~= os.subrange(0, j as int).map_values(|d: u32| Some(d)));
    }
    out.push(None);
    proof {
        assert(os.subrange(0, os.len() as int) =~= os);
        assert(out@ =~= nvenc_choices(pref, count as nat));
    }
    out
}

/// The available hardware encoders, in trial order.
fn available_hw(available: &[String]) -> (r: Vec<&'static str>)
    ensures
        lit_views(r@) == hw_list(views(available@)),
{
    let mut hw: Vec<&str> = Vec::new();
    if strings_contain_str(available, "h264_nvenc") {
        hw.push("h264_nvenc");
    }
    if strings_contain_str(available, "h264_qsv") {
        hw.push("h264_qsv");
    }
    if strings_contain_str(available, "h264_amf") {
        hw.push("h264_amf");
    }
    assert(lit_views(hw@) =~= hw_list(views(available@)));
    hw
}

/// Pushes the cached working combination when it is readable and not marked failed.
fn push_cached_candidate(out: &mut Vec<EncoderCandidate>, settings: &HostSettings)
    ensures
        candidate_views(final(out)@) == candidate_views(old(out)@) + cache_part(settings@),
{
    let ghost start = candidate_views(out@);
    if let Some(cache) = &settings.encoder_probe_cache {
        if let Some(cap) = Capture::from_str_loose(cache.capture.as_str()) {
            let nvenc = cache.nvenc_gpu;
            let amf_pre = match cache.amf_device {
                Some(d) => amf_pre_args(d),
                None => Vec::new(),
            };
            let key = probe_cache_key(cache.encoder.as_str(), cap.key_name(), nvenc, cache.amf_device);
            if !strings_contain(&settings.failed_probe_keys, &key) {
                let c = EncoderCandidate {
                    encoder: copy_string(&cache.encoder),
                    capture: cap,
                    pre_input_args: amf_pre,
                    nvenc_gpu: nvenc,
                    amf_device: cache.amf_device,
                };
                assert(cache.amf_device is None ==> views(c.pre_input_args@) =~= Seq::<Seq<char>>::empty());
                out.push(c);
                assert(candidate_views(out@) =~= start.push(c@));
            }
        }
    }
    assert(candidate_views(out@) =~= start + cache_part(settings@));
}

/// Whether `pref` is one of the listed encoders.
fn listed_in(hw: &[&str], pref: &str) -> (r: bool)
    ensures
        r == lit_views(hw@).contains(pref@),
{
    let mut k: usize = 0;
    while k < hw.len()
        invariant
            k <= hw@.len(),
            forall|m: int| 0 <= m < k ==> hw@[m]@ != pref@,
        decreases hw@.len() - k,
    {
        if str_eq(hw[k], pref) {
            assert(lit_views(hw@)[k as int] == pref@);
            return true;
        }
        k = k + 1;
    }
    assert forall|m: int| 0 <= m < lit_views(hw@).len() implies lit_views(hw@)[m] != pref@ by {
        assert(lit_views(hw@)[m] == hw@[m]@);
    }
    false
}

/// Pushes the matrices of the listed encoders other than the preferred one.
fn push_hw_matrices(
    out: &mut Vec<EncoderCandidate>,
    hw: &[&str],
    preferred: Option<&str>,
    order: [Capture; 2],
    amf_pre: &[Vec<String>],
    nvenc: &[Option<u32>],
)
    ensures
        candidate_views(final(out)@) == candidate_views(old(out)@) + hw_part(
            lit_views(hw@),
            opt_view(preferred),
            (order[0], order[1]),
            arg_lists(amf_pre@),
            nvenc@,
        ),
{
    let ghost hwv = lit_views(hw@);
    let ghost start = candidate_views(out@);
    let ghost ord = (order[0], order[1]);
    let mut k: usize = 0;
    while k < hw.len()
        invariant
            k <= hw@.len(),
            hwv == lit_views(hw@),
            ord == (order[0], order[1]),
            candidate_views(out@) == start + hw_part(
                hwv.subrange(0, k as int),
                opt_view(preferred),
                ord,
                arg_lists(amf_pre@),
                nvenc@,
            ),
        decreases hw@.len() - k,
    {
        let enc = hw[k];
        let same = match preferred {
            Some(p) => str_eq(p, enc),
            None => false,
        };
        assert(hwv.subrange(0, k + 1).drop_last() =~= hwv.subrange(0, k as int));
        assert(hwv[k as int] == enc@);
        if !same {
            push_encoder_matrix(out, enc, order, amf_pre, nvenc);
        }
        k = k + 1;
        assert(candidate_views(out@) =~= start + hw_part(
            hwv.subrange(0, k as int),
            opt_view(preferred),
            ord,
            arg_lists(amf_pre@),
            nvenc@,
        ));
    }
    assert(hwv.subrange(0, hwv.len() as int) =~= hwv);
}

/// Builds the ordered encoder × capture × GPU trial list: the cached working combination
/// first, then the preferred encoder (alone, when locked by hand), then the other available
/// hardware encoders (when a known GPU vendor is present and software is not forced), then
/// software encoding; combinations marked failed and repeated combinations are dropped.
pub fn build_encoder_candidates(opts: &CandidateBuildOptions<'_>) -> (r: Vec<EncoderCandidate>)
    ensures
        candidate_views(r@) == spec_candidates(
            views(opts.available_encoders@),
            opt_view(opts.preferred_encoder),
            opts.manual_encoder_lock,
            opt_view(opts.capture_env),
            opts.settings@,
            gpu_names(opts.gpus@),
            opts.force_software,
        ),
{
    // Adapter indices that name no detected adapter are not tried.
    let mut settings = opts.settings.duplicate();
    let _ = clear_invalid_gpu_indices(&mut settings, opts.gpus.len());
    let vendors = GpuVendorInfo::from_gpus(opts.gpus);
    let gpu_count: u32 = if opts.gpus.len() < 10 {
        opts.gpus.len() as u32
    } else {
        10
    };
    let amf_pre = amf_pre_arg_lists(settings.preferred_amf_device, gpu_count);
    let nvenc_gpu_candidates = nvenc_gpu_choices(settings.preferred_nvenc_gpu, gpu_count);
    let hw = available_hw(opts.available_encoders);

    let skip_hw = opts.force_software || (!vendors.has_nvidia && !vendors.has_amd
        && !vendors.has_intel) || hw.len() == 0;
    let preferred = opts.preferred_encoder;
    let order = capture_order(opts.stream_mode, opts.capture_env, None);

    let mut candidates: Vec<EncoderCandidate> = Vec::new();
    // Fast-path: cached working combination first.
    push_cached_candidate(&mut candidates, &settings);

    if let Some(pref) = preferred {
        if str_eq(pref, "libx264") || listed_in(hw.as_slice(), pref) {
            push_encoder_matrix(&mut candidates, pref, order, amf_pre.as_slice(), nvenc_gpu_candidates.as_slice());
        }
        if opts.manual_encoder_lock {
            let kept = drop_failed_unless_all(candidates, &settings.failed_probe_keys);
            return dedupe_candidates(kept);
        }
    }
    if !skip_hw {
        push_hw_matrices(&mut candidates, hw.as_slice(), preferred, order, amf_pre.as_slice(), nvenc_gpu_candidates.as_slice());
    }
    let pref_is_x264 = match preferred {
        Some(p) => str_eq(p, "libx264"),
        None => false,
    };
    if !pref_is_x264 {
        push_encoder_matrix(&mut candidates, "libx264", order, amf_pre.as_slice(), nvenc_gpu_candidates.as_slice());
    }
    let kept = drop_failed_unless_all(candidates, &settings.failed_probe_keys);
    dedupe_candidates(kept)
}


/// When every trial is filtered out, every trial's key is marked failed.
proof fn lemma_filter_failed_empty(list: Seq<CandidateView>, failed: Seq<Seq<char>>)
    requires
        filter_failed(list, failed).len() == 0,
    ensures
        forall|k: int| 0 <= k < list.len() ==> failed.contains(candidate_key(#[trigger] list[k])),
    decreases list.len(),
{
    if list.len() > 0 {
        let rest = list.drop_last();
        lemma_filter_failed_empty(rest, failed);
        assert forall|k: int| 0 <= k < list.len() implies failed.contains(candidate_key(#[trigger] list[k])) by {
            if k < rest.len() {
                assert(list[k] == rest[k]);
            }
        }
    }
}

/// What survives the failed-key filter (or its fallback) comes from the list; either none of
/// it is marked failed, or all of it is.
proof fn lemma_unless_all_failed(list: Seq<CandidateView>, failed: Seq<Seq<char>>)
    ensures
        forall|i: int|
            0 <= i < unless_all_failed(list, failed).len() ==> list.contains(
                #[trigger] unless_all_failed(list, failed)[i],
            ),
        (forall|i: int|
            0 <= i < unless_all_failed(list, failed).len() ==> !failed.contains(
                candidate_key(#[trigger] unless_all_failed(list, failed)[i]),
            )) || (forall|i: int|
            0 <= i < unless_all_failed(list, failed).len() ==> failed.contains(
                candidate_key(#[trigger] unless_all_failed(list, failed)[i]),
            )),
{
    lemma_filter_failed(list, failed);
    if filter_failed(list, failed).len() == 0 {
        lemma_filter_failed_empty(list, failed);
        assert forall|i: int| 0 <= i < list.len() implies list.contains(#[trigger] list[i]) by {}
    }
}

proof fn lemma_filter_failed(list: Seq<CandidateView>, failed: Seq<Seq<char>>)
    ensures
        forall|i: int|
            0 <= i < filter_failed(list, failed).len() ==> list.contains(
                #[trigger] filter_failed(list, failed)[i],
            ) && !failed.contains(candidate_key(filter_failed(list, failed)[i])),
    decreases list.len(),
{
    if list.len() > 0 {
        let rest = list.drop_last();
        lemma_filter_failed(rest, failed);
        let r = filter_failed(rest, failed);
        assert forall|i: int| 0 <= i < filter_failed(list, failed).len() implies list.contains(
            #[trigger] filter_failed(list, failed)[i],
        ) && !failed.contains(candidate_key(filter_failed(list, failed)[i])) by {
            if i < r.len() {
                assert(filter_failed(list, failed)[i] == r[i]);
                let k = choose|k: int| 0 <= k < rest.len() && rest[k] == r[i];
                assert(list[k] == rest[k]);
            } else {
                assert(list[list.len() - 1] == list.last());
            }
        }
    }
}

proof fn lemma_dedupe(list: Seq<CandidateView>)
    ensures
        forall|i: int| 0 <= i < dedupe(list).len() ==> list.contains(#[trigger] dedupe(list)[i]),
        forall|i: int, j: int|
            0 <= i < j < dedupe(list).len() ==> candidate_key(#[trigger] dedupe(list)[i])
                != candidate_key(#[trigger] dedupe(list)[j]),
    decreases list.len(),
{
    if list.len() > 0 {
        let rest = list.drop_last();
        lemma_dedupe(rest);
        let r = dedupe(rest);
        let d = dedupe(list);
        assert forall|i: int| 0 <= i < d.len() implies list.contains(#[trigger] d[i]) by {
            if i < r.len() {
                assert(d[i] == r[i]);
                let k = choose|k: int| 0 <= k < rest.len() && rest[k] == r[i];
                assert(list[k] == rest[k]);
            } else {
                assert(list[list.len() - 1] == list.last());
            }
        }
        assert forall|i: int, j: int| 0 <= i < j < d.len() implies candidate_key(#[trigger] d[i])
            != candidate_key(#[trigger] d[j]) by {
            if j < r.len() {
                assert(d[i] == r[i] && d[j] == r[j]);
            } else {
                assert(d[i] == r[i]);
                assert(keys_of(r)[i] == candidate_key(r[i]));
            }
        }
    }
}

/// Every candidate of an encoder's matrix runs that encoder.
proof fn lemma_matrix_encoder(
    enc: Seq<char>,
    order: (Capture, Capture),
    pres: Seq<Seq<Seq<char>>>,
    gpus: Seq<Option<u32>>,
)
    ensures
        forall|i: int|
            0 <= i < matrix(enc, order, pres, gpus).len() ==> (#[trigger] matrix(
                enc,
                order,
                pres,
                gpus,
            )[i]).encoder == enc,
{
    let m = matrix(enc, order, pres, gpus);
    if enc == "h264_amf"@ {
        let a = amf_row(enc, order.0, pres);
        let b = amf_row(enc, order.1, pres);
        assert forall|i: int| 0 <= i < m.len() implies (#[trigger] m[i]).encoder == enc by {
            if i < a.len() {
                assert(m[i] == a[i]);
            } else {
                assert(m[i] == b[i - a.len()]);
            }
        }
    } else if enc == "h264_nvenc"@ {
        let a = nvenc_row(enc, order.0, gpus);
        let b = nvenc_row(enc, order.1, gpus);
        assert forall|i: int| 0 <= i < m.len() implies (#[trigger] m[i]).encoder == enc by {
            if i < a.len() {
                assert(m[i] == a[i]);
            } else {
                assert(m[i] == b[i - a.len()]);
            }
        }
    }
}

/// The trial list never repeats a probe key; it holds no key marked failed unless every
/// trial is marked failed, in which case all are tried again; with the encoder locked by hand,
/// every trial runs the preferred encoder except the cached one.
pub proof fn law_candidates(
    available: Seq<Seq<char>>,
    preferred: Option<Seq<char>>,
    manual_lock: bool,
    capture_env: Option<Seq<char>>,
    s: HostSettingsView,
    names: Seq<Seq<char>>,
    force_software: bool,
)
    ensures
        ({
            let r = spec_candidates(available, preferred, manual_lock, capture_env, s, names, force_software);
            &&& forall|i: int, j: int|
                0 <= i < j < r.len() ==> candidate_key(#[trigger] r[i]) != candidate_key(#[trigger] r[j])
            &&& (forall|i: int| 0 <= i < r.len() ==> !s.failed_probe_keys.contains(candidate_key(#[trigger] r[i])))
                || (forall|i: int| 0 <= i < r.len() ==> s.failed_probe_keys.contains(candidate_key(#[trigger] r[i])))
            &&& (manual_lock && preferred is Some) ==> forall|i: int|
                0 <= i < r.len() ==> (#[trigger] r[i]).encoder == preferred->0 || cache_part(
                    spec_clear_invalid(s, names.len()),
                ).contains(r[i])
        }),
{
    let t = spec_clear_invalid(s, names.len());
    let raw = raw_candidates(available, preferred, manual_lock, capture_env, t, names, force_software);
    let f = unless_all_failed(raw, s.failed_probe_keys);
    let r = dedupe(f);
    lemma_unless_all_failed(raw, s.failed_probe_keys);
    lemma_dedupe(f);
    if forall|i: int| 0 <= i < f.len() ==> !s.failed_probe_keys.contains(candidate_key(#[trigger] f[i])) {
        assert forall|i: int| 0 <= i < r.len() implies !s.failed_probe_keys.contains(candidate_key(#[trigger] r[i])) by {
            let k = choose|k: int| 0 <= k < f.len() && f[k] == r[i];
            assert(f.contains(f[k]));
        }
    } else {
        assert forall|i: int| 0 <= i < r.len() implies s.failed_probe_keys.contains(candidate_key(#[trigger] r[i])) by {
            let k = choose|k: int| 0 <= k < f.len() && f[k] == r[i];
            assert(f.contains(f[k]));
        }
    }
    if manual_lock && preferred is Some {
        let p = preferred->0;
        let count = considered_gpus(names.len());
        let pres = amf_pre_lists(t.preferred_amf_device, count);
        let gpus = nvenc_choices(t.preferred_nvenc_gpu, count);
        let order = spec_capture_order(capture_env);
        lemma_matrix_encoder(p, order, pres, gpus);
        let c = cache_part(t);
        assert forall|i: int| 0 <= i < r.len() implies (#[trigger] r[i]).encoder == preferred->0
            || cache_part(t).contains(r[i]) by {
            let k = choose|k: int| 0 <= k < f.len() && f[k] == r[i];
            assert(f.contains(f[k]));
            let m = choose|m: int| 0 <= m < raw.len() && raw[m] == f[k];
            if m < c.len() {
                assert(raw[m] == c[m]);
            } else {
                assert(raw[m] == (raw.subrange(c.len() as int, raw.len() as int))[m - c.len()]);
            }
        }
    }
}


proof fn lemma_filter_failed_append(a: Seq<CandidateView>, b: Seq<CandidateView>, failed: Seq<Seq<char>>)
    ensures
        filter_failed(a + b, failed) == filter_failed(a, failed) + filter_failed(b, failed),
    decreases b.len(),
{
    if b.len() == 0 {
        assert(a + b =~= a);
        assert(filter_failed(a, failed) + filter_failed(b, failed) =~= filter_failed(a, failed));
    } else {
        let b2 = b.drop_last();
        lemma_filter_failed_append(a, b2, failed);
        assert((a + b).drop_last() =~= a + b2);
        assert((a + b).last() == b.last());
        let x = b.last();
        if !failed.contains(candidate_key(x)) {
            assert((filter_failed(a, failed) + filter_failed(b2, failed)).push(x) =~= filter_failed(a, failed)
                + filter_failed(b2, failed).push(x));
        }
    }
}

proof fn lemma_dedupe_prefix(a: Seq<CandidateView>, b: Seq<CandidateView>)
    ensures
        dedupe(a).len() <= dedupe(a + b).len(),
        forall|i: int| 0 <= i < dedupe(a).len() ==> #[trigger] dedupe(a + b)[i] == dedupe(a)[i],
    decreases b.len(),
{
    if b.len() == 0 {
        assert(a + b =~= a);
    } else {
        let b2 = b.drop_last();
        lemma_dedupe_prefix(a, b2);
        assert((a + b).drop_last() =~= a + b2);
        let r = dedupe(a + b2);
        assert forall|i: int| 0 <= i < dedupe(a).len() implies #[trigger] dedupe(a + b)[i] == dedupe(a)[i] by {
            assert(dedupe(a + b)[i] == r[i]);
        }
    }
}

/// The cached combination, when it is readable, names only detected adapters and is not
/// marked failed, is the first trial.
pub proof fn law_cache_first(
    available: Seq<Seq<char>>,
    preferred: Option<Seq<char>>,
    manual_lock: bool,
    capture_env: Option<Seq<char>>,
    s: HostSettingsView,
    names: Seq<Seq<char>>,
    force_software: bool,
)
    requires
        cache_part(spec_clear_invalid(s, names.len())).len() > 0,
    ensures
        spec_candidates(available, preferred, manual_lock, capture_env, s, names, force_software).len() > 0,
        spec_candidates(available, preferred, manual_lock, capture_env, s, names, force_software)[0]
            == cache_part(spec_clear_invalid(s, names.len()))[0],
{
    let t = spec_clear_invalid(s, names.len());
    let raw = raw_candidates(available, preferred, manual_lock, capture_env, t, names, force_software);
    let c = cache_part(t);
    let failed = t.failed_probe_keys;
    let rest = raw.subrange(c.len() as int, raw.len() as int);
    assert(raw.subrange(0, c.len() as int) =~= c);
    assert(raw =~= c + rest);
    lemma_filter_failed_append(c, rest, failed);
    assert(c.len() == 1);
    assert(c.last() == c[0]);
    let e = Seq::<CandidateView>::empty();
    assert(c.drop_last() =~= e);
    assert(filter_failed(e, failed) == e);
    assert(filter_failed(c, failed) =~= e.push(c[0]));
    assert(filter_failed(c, failed) =~= c);
    let f = filter_failed(raw, failed);
    assert(f.len() > 0);
    assert(unless_all_failed(raw, failed) == f);
    lemma_dedupe_prefix(c, filter_failed(rest, failed));
    assert(dedupe(e) == e);
    assert(!keys_of(e).contains(candidate_key(c[0])));
    assert(dedupe(c) =~= e.push(c[0]));
    assert(dedupe(f)[0] == dedupe(c)[0]);
}


/// A trial that names only detected adapters (or none).
pub open spec fn names_detected(c: CandidateView, n: nat) -> bool {
    valid_gpu_index(c.nvenc_gpu, n) && valid_gpu_index(c.amf_device, n)
}

pub open spec fn all_detected(list: Seq<CandidateView>, n: nat) -> bool {
    forall|k: int| 0 <= k < list.len() ==> names_detected(#[trigger] list[k], n)
}

proof fn lemma_range_without_below(m: nat, skip: Option<u32>)
    ensures
        forall|k: int| 0 <= k < range_without(m, skip).len() ==> (#[trigger] range_without(m, skip)[k]) < m,
    decreases m,
{
    if m > 0 {
        let r = range_without((m - 1) as nat, skip);
        lemma_range_without_below((m - 1) as nat, skip);
        if skip != Some((m - 1) as u32) {
            assert forall|k: int| 0 <= k < range_without(m, skip).len() implies (#[trigger] range_without(
                m,
                skip,
            )[k]) < m by {
                if k < r.len() {
                    assert(range_without(m, skip)[k] == r[k]);
                }
            }
        }
    }
}

proof fn lemma_matrix_detected(
    enc: Seq<char>,
    order: (Capture, Capture),
    pres: Seq<Seq<Seq<char>>>,
    gpus: Seq<Option<u32>>,
    n: nat,
)
    requires
        forall|k: int| 0 <= k < pres.len() ==> valid_gpu_index(spec_amf_device(#[trigger] pres[k]), n),
        forall|k: int| 0 <= k < gpus.len() ==> valid_gpu_index(#[trigger] gpus[k], n),
    ensures
        all_detected(matrix(enc, order, pres, gpus), n),
{
    let m = matrix(enc, order, pres, gpus);
    if enc == "h264_amf"@ {
        let a = amf_row(enc, order.0, pres);
        let b = amf_row(enc, order.1, pres);
        assert forall|k: int| 0 <= k < m.len() implies names_detected(#[trigger] m[k], n) by {
            if k < a.len() {
                assert(m[k] == a[k]);
                assert(valid_gpu_index(spec_amf_device(pres[k]), n));
            } else {
                assert(m[k] == b[k - a.len()]);
                assert(valid_gpu_index(spec_amf_device(pres[k - a.len()]), n));
            }
        }
    } else if enc == "h264_nvenc"@ {
        let a = nvenc_row(enc, order.0, gpus);
        let b = nvenc_row(enc, order.1, gpus);
        assert forall|k: int| 0 <= k < m.len() implies names_detected(#[trigger] m[k], n) by {
            if k < a.len() {
                assert(m[k] == a[k]);
                assert(valid_gpu_index(gpus[k], n));
            } else {
                assert(m[k] == b[k - a.len()]);
                assert(valid_gpu_index(gpus[k - a.len()], n));
            }
        }
    }
}

proof fn lemma_concat_detected(a: Seq<CandidateView>, b: Seq<CandidateView>, n: nat)
    requires
        all_detected(a, n),
        all_detected(b, n),
    ensures
        all_detected(a + b, n),
{
    assert forall|k: int| 0 <= k < (a + b).len() implies names_detected(#[trigger] (a + b)[k], n) by {
        if k < a.len() {
            assert((a + b)[k] == a[k]);
        } else {
            assert((a + b)[k] == b[k - a.len()]);
        }
    }
}

proof fn lemma_hw_part_detected(
    hw: Seq<Seq<char>>,
    preferred: Option<Seq<char>>,
    order: (Capture, Capture),
    pres: Seq<Seq<Seq<char>>>,
    gpus: Seq<Option<u32>>,
    n: nat,
)
    requires
        forall|k: int| 0 <= k < pres.len() ==> valid_gpu_index(spec_amf_device(#[trigger] pres[k]), n),
        forall|k: int| 0 <= k < gpus.len() ==> valid_gpu_index(#[trigger] gpus[k], n),
    ensures
        all_detected(hw_part(hw, preferred, order, pres, gpus), n),
    decreases hw.len(),
{
    if hw.len() > 0 {
        lemma_hw_part_detected(hw.drop_last(), preferred, order, pres, gpus, n);
        if preferred != Some(hw.last()) {
            lemma_matrix_detected(hw.last(), order, pres, gpus, n);
            lemma_concat_detected(hw_part(hw.drop_last(), preferred, order, pres, gpus), matrix(hw.last(), order, pres, gpus), n);
        }
    }
}

/// With at least one adapter detected, no trial names an NVENC or AMF device index beyond the
/// detected adapters.
pub proof fn law_candidates_name_detected_gpus(
    available: Seq<Seq<char>>,
    preferred: Option<Seq<char>>,
    manual_lock: bool,
    capture_env: Option<Seq<char>>,
    s: HostSettingsView,
    names: Seq<Seq<char>>,
    force_software: bool,
)
    requires
        names.len() > 0,
    ensures
        forall|i: int|
            0 <= i < spec_candidates(available, preferred, manual_lock, capture_env, s, names, force_software).len()
                ==> names_detected(
                #[trigger] spec_candidates(available, preferred, manual_lock, capture_env, s, names, force_software)[i],
                names.len(),
            ),
{
    let n = names.len();
    let t = spec_clear_invalid(s, n);
    let count = considered_gpus(n);
    let pres = amf_pre_lists(t.preferred_amf_device, count);
    let gpus = nvenc_choices(t.preferred_nvenc_gpu, count);
    let order = spec_capture_order(capture_env);
    let idx_a = opt_seq(t.preferred_amf_device) + range_without(count, t.preferred_amf_device);
    let idx_n = opt_seq(t.preferred_nvenc_gpu) + range_without(count, t.preferred_nvenc_gpu);
    lemma_range_without_below(count, t.preferred_amf_device);
    lemma_range_without_below(count, t.preferred_nvenc_gpu);
    assert forall|k: int| 0 <= k < pres.len() implies valid_gpu_index(spec_amf_device(#[trigger] pres[k]), n) by {
        if k < idx_a.len() {
            let d = idx_a[k];
            assert(pres[k] == amf_args(d));
            law_amf_args_round_trip(d);
            if k >= opt_seq(t.preferred_amf_device).len() {
                assert(d == range_without(count, t.preferred_amf_device)[k - opt_seq(t.preferred_amf_device).len()]);
            }
        } else {
            assert(pres[k] == Seq::<Seq<char>>::empty());
        }
    }
    assert forall|k: int| 0 <= k < gpus.len() implies valid_gpu_index(#[trigger] gpus[k], n) by {
        if k < idx_n.len() {
            if k >= opt_seq(t.preferred_nvenc_gpu).len() {
                assert(idx_n[k] == range_without(count, t.preferred_nvenc_gpu)[k - opt_seq(t.preferred_nvenc_gpu).len()]);
            }
            assert(gpus[k] == Some(idx_n[k]));
        }
    }
    let c = cache_part(t);
    assert(all_detected(c, n));
    let raw = raw_candidates(available, preferred, manual_lock, capture_env, t, names, force_software);
    let v = spec_vendors(names);
    let hw = hw_list(available);
    let skip_hw = force_software || (!v.has_nvidia && !v.has_amd && !v.has_intel) || hw.len() == 0;
    let pm = match preferred {
        Some(p) => if p == "libx264"@ || hw.contains(p) {
            matrix(p, order, pres, gpus)
        } else {
            Seq::empty()
        },
        None => Seq::empty(),
    };
    if let Some(p) = preferred {
        lemma_matrix_detected(p, order, pres, gpus, n);
    }
    assert(all_detected(pm, n));
    lemma_concat_detected(c, pm, n);
    if !(preferred is Some && manual_lock) {
        let hp = if skip_hw {
            Seq::empty()
        } else {
            hw_part(hw, preferred, order, pres, gpus)
        };
        lemma_hw_part_detected(hw, preferred, order, pres, gpus, n);
        assert(all_detected(hp, n));
        let xm = if preferred == Some("libx264"@) {
            Seq::empty()
        } else {
            matrix("libx264"@, order, pres, gpus)
        };
        lemma_matrix_detected("libx264"@, order, pres, gpus, n);
        assert(all_detected(xm, n));
        lemma_concat_detected(c + pm, hp, n);
        lemma_concat_detected(c + pm + hp, xm, n);
    }
    assert(all_detected(raw, n));
    let f = unless_all_failed(raw, t.failed_probe_keys);
    let r = dedupe(f);
    lemma_unless_all_failed(raw, t.failed_probe_keys);
    lemma_dedupe(f);
    assert forall|i: int| 0 <= i < r.len() implies names_detected(#[trigger] r[i], n) by {
        let k = choose|k: int| 0 <= k < f.len() && f[k] == r[i];
        assert(f.contains(f[k]));
        let m = choose|m: int| 0 <= m < raw.len() && raw[m] == f[k];
    }
}


/// Removing a key that a list does not hold leaves the list as it is.
proof fn lemma_remove_key_missing(keys: Seq<Seq<char>>, key: Seq<char>)
    requires
        !keys.contains(key),
    ensures
        remove_key(keys, key) == keys,
    decreases keys.len(),
{
    if keys.len() > 0 {
        let rest = keys.drop_last();
        assert(!rest.contains(key)) by {
            if rest.contains(key) {
                let k = choose|k: int| 0 <= k < rest.len() && rest[k] == key;
                assert(keys[k] == key);
            }
        }
        lemma_remove_key_missing(rest, key);
        assert(keys[keys.len() - 1] != key);
        assert(rest.push(keys.last()) =~= keys);
    }
}

/// A success recorded right after a failure of the same trial restores the failed-key list,
/// when the key was not marked before and fewer than `MAX_FAILED_PROBE_KEYS` keys were kept.
pub proof fn law_success_undoes_failure(s: HostSettingsView, c: CandidateView)
    requires
        !s.failed_probe_keys.contains(candidate_key(c)),
        s.failed_probe_keys.len() < 32,
    ensures
        spec_record_success(spec_record_fail(s, c), c).failed_probe_keys == s.failed_probe_keys,
{
    let keys = s.failed_probe_keys;
    let key = candidate_key(c);
    let p = keys.push(key);
    assert(spec_record_failure(keys, key) == p);
    lemma_remove_key_missing(keys, key);
    assert(p.drop_last() =~= keys);
    assert(p.last() == key);
}


/// Two trials of one encoder on different capture backends have different probe keys.
proof fn lemma_key_differs_by_capture(x: CandidateView, y: CandidateView)
    requires
        x.encoder == y.encoder,
        x.capture != y.capture,
    ensures
        candidate_key(x) != candidate_key(y),
{
    reveal_strlit("/");
    reveal_strlit("Ddagrab");
    reveal_strlit("Gdigrab");
    let n = x.encoder.len() as int;
    let cx = capture_key_name(x.capture);
    let cy = capture_key_name(y.capture);
    let ax = x.encoder + "/"@ + cx + "/"@;
    let ay = y.encoder + "/"@ + cy + "/"@;
    let kx = candidate_key(x);
    let ky = candidate_key(y);
    assert(kx == ax + gpu_tag(x.nvenc_gpu, x.amf_device));
    assert(ky == ay + gpu_tag(y.nvenc_gpu, y.amf_device));
    assert(kx[n + 1] == ax[n + 1]);
    assert(ax[n + 1] == (x.encoder + "/"@ + cx)[n + 1]);
    assert((x.encoder + "/"@ + cx)[n + 1] == cx[0]);
    assert(ky[n + 1] == ay[n + 1]);
    assert(ay[n + 1] == (y.encoder + "/"@ + cy)[n + 1]);
    assert((y.encoder + "/"@ + cy)[n + 1] == cy[0]);
    assert(cx[0] != cy[0]);
}

/// Without failed keys, the filter keeps every trial.
proof fn lemma_filter_nothing_failed(list: Seq<CandidateView>, failed: Seq<Seq<char>>)
    requires
        failed.len() == 0,
    ensures
        filter_failed(list, failed) == list,
    decreases list.len(),
{
    if list.len() > 0 {
        lemma_filter_nothing_failed(list.drop_last(), failed);
        assert(!failed.contains(candidate_key(list.last())));
        assert(list.drop_last().push(list.last()) =~= list);
    }
}

/// The first trial always survives deduplication, in first place.
proof fn lemma_dedupe_head(list: Seq<CandidateView>)
    requires
        list.len() > 0,
    ensures
        dedupe(list).len() > 0,
        dedupe(list)[0] == list[0],
{
    let h = seq![list[0]];
    let rest = list.subrange(1, list.len() as int);
    assert(list =~= h + rest);
    let e = Seq::<CandidateView>::empty();
    assert(h.drop_last() =~= e);
    assert(dedupe(e) == e);
    assert(!keys_of(e).contains(candidate_key(list[0])));
    assert(dedupe(h) =~= h);
    lemma_dedupe_prefix(h, rest);
}

/// A trial whose key no earlier trial has survives deduplication.
proof fn lemma_dedupe_keeps_first_of_key(list: Seq<CandidateView>, k: int)
    requires
        0 <= k < list.len(),
        forall|j: int| 0 <= j < k ==> candidate_key(#[trigger] list[j]) != candidate_key(list[k]),
    ensures
        dedupe(list).contains(list[k]),
{
    let a = list.subrange(0, k);
    let a1 = list.subrange(0, k + 1);
    let rest = list.subrange(k + 1, list.len() as int);
    assert(list =~= a1 + rest);
    assert(a1.drop_last() =~= a);
    assert(a1.last() == list[k]);
    let d = dedupe(a);
    lemma_dedupe(a);
    assert(!keys_of(d).contains(candidate_key(list[k]))) by {
        if keys_of(d).contains(candidate_key(list[k])) {
            let m = choose|m: int| 0 <= m < keys_of(d).len() && keys_of(d)[m] == candidate_key(list[k]);
            assert(keys_of(d)[m] == candidate_key(d[m]));
            assert(a.contains(d[m]));
            let j = choose|j: int| 0 <= j < a.len() && a[j] == d[m];
            assert(list[j] == a[j]);
        }
    }
    assert(dedupe(a1) == d.push(list[k]));
    lemma_dedupe_prefix(a1, rest);
    let i = d.len() as int;
    assert(dedupe(a1)[i] == list[k]);
    assert(dedupe(list)[i] == list[k]);
}

/// An encoder's matrix tries it first on the first backend of the order, then on the second.
proof fn lemma_matrix_shape(
    enc: Seq<char>,
    order: (Capture, Capture),
    pres: Seq<Seq<Seq<char>>>,
    gpus: Seq<Option<u32>>,
) -> (k: int)
    requires
        pres.len() > 0,
        gpus.len() > 0,
    ensures
        0 < k < matrix(enc, order, pres, gpus).len(),
        forall|j: int|
            0 <= j < k ==> (#[trigger] matrix(enc, order, pres, gpus)[j]).encoder == enc && matrix(
                enc,
                order,
                pres,
                gpus,
            )[j].capture == order.0,
        matrix(enc, order, pres, gpus)[k].encoder == enc,
        matrix(enc, order, pres, gpus)[k].capture == order.1,
{
    let m = matrix(enc, order, pres, gpus);
    if enc == "h264_amf"@ {
        let a = amf_row(enc, order.0, pres);
        let b = amf_row(enc, order.1, pres);
        assert(m[a.len() as int] == b[0]);
        assert forall|j: int| 0 <= j < a.len() implies (#[trigger] m[j]).encoder == enc && m[j].capture
            == order.0 by {
            assert(m[j] == a[j]);
        }
        a.len() as int
    } else if enc == "h264_nvenc"@ {
        let a = nvenc_row(enc, order.0, gpus);
        let b = nvenc_row(enc, order.1, gpus);
        assert(m[a.len() as int] == b[0]);
        assert forall|j: int| 0 <= j < a.len() implies (#[trigger] m[j]).encoder == enc && m[j].capture
            == order.0 by {
            assert(m[j] == a[j]);
        }
        a.len() as int
    } else {
        1
    }
}

/// With no cached combination and no failed keys, a preferred encoder that is libx264 or an
/// available hardware encoder is tried first, and on both capture backends, whether or not
/// it is locked by hand.
pub proof fn law_preferred_tried_first(
    available: Seq<Seq<char>>,
    preferred: Option<Seq<char>>,
    manual_lock: bool,
    capture_env: Option<Seq<char>>,
    s: HostSettingsView,
    names: Seq<Seq<char>>,
    force_software: bool,
)
    requires
        s.failed_probe_keys.len() == 0,
        s.encoder_probe_cache is None,
        preferred is Some,
        preferred->0 == "libx264"@ || ((preferred->0 == "h264_nvenc"@ || preferred->0 == "h264_qsv"@
            || preferred->0 == "h264_amf"@) && available.contains(preferred->0)),
    ensures
        ({
            let r = spec_candidates(available, preferred, manual_lock, capture_env, s, names, force_software);
            &&& r.len() > 0
            &&& r[0].encoder == preferred->0
            &&& exists|i: int| 0 <= i < r.len() && r[i].encoder == preferred->0 && r[i].capture == Capture::Ddagrab
            &&& exists|i: int| 0 <= i < r.len() && r[i].encoder == preferred->0 && r[i].capture == Capture::Gdigrab
        }),
{
    let p = preferred->0;
    let n = names.len();
    let t = spec_clear_invalid(s, n);
    assert(t.encoder_probe_cache is None);
    assert(cache_part(t) =~= Seq::<CandidateView>::empty());
    let count = considered_gpus(n);
    let pres = amf_pre_lists(t.preferred_amf_device, count);
    let gpus = nvenc_choices(t.preferred_nvenc_gpu, count);
    let order = spec_capture_order(capture_env);
    let hw = hw_list(available);
    if p != "libx264"@ {
        let a = keep_available(available, "h264_nvenc"@);
        let b = keep_available(available, "h264_qsv"@);
        let c = keep_available(available, "h264_amf"@);
        assert(hw == a + b + c);
        if p == "h264_nvenc"@ {
            assert(hw[0] == p);
        } else if p == "h264_qsv"@ {
            assert(hw[a.len() as int] == p);
        } else {
            assert(hw[(a.len() + b.len()) as int] == p);
        }
    }
    assert(p == "libx264"@ || hw.contains(p));
    let pm = matrix(p, order, pres, gpus);
    let raw = raw_candidates(available, preferred, manual_lock, capture_env, t, names, force_software);
    let x = raw.subrange(pm.len() as int, raw.len() as int);
    assert(raw.subrange(0, pm.len() as int) =~= pm);
    assert(raw =~= pm + x);
    lemma_filter_nothing_failed(raw, t.failed_probe_keys);
    assert(unless_all_failed(raw, t.failed_probe_keys) == raw);
    let r = dedupe(raw);
    let k = lemma_matrix_shape(p, order, pres, gpus);
    assert forall|j: int| 0 <= j < k implies candidate_key(#[trigger] pm[j]) != candidate_key(pm[k]) by {
        lemma_key_differs_by_capture(pm[j], pm[k]);
    }
    lemma_dedupe_keeps_first_of_key(pm, k);
    lemma_dedupe_head(pm);
    lemma_dedupe_prefix(pm, x);
    let i = choose|i: int| 0 <= i < dedupe(pm).len() && dedupe(pm)[i] == pm[k];
    assert(r[i] == pm[k]);
    assert(r[0] == pm[0]);
    if order.0 == Capture::Ddagrab {
        assert(r[0].capture == Capture::Ddagrab);
        assert(r[i].capture == Capture::Gdigrab);
    } else {
        assert(r[0].capture == Capture::Gdigrab);
        assert(r[i].capture == Capture::Ddagrab);
    }
}

} // verus!
