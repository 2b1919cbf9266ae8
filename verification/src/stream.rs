//! The decisions of one H.264 WebSocket session: what the client asked for, the profile and
//! encoder preference it resolves to, what each trial's outcome means, and what the client
//! is told.
use crate::capture::{capture_name, Capture};
use crate::encoder::{
    candidate_views, record_probe_success, spec_record_success, CandidateView, EncoderCandidate,
};
use crate::ffmpeg::{DisplayRect, StreamExit};
use crate::profile::{
    opt_view, or_opt, spec_transport_parse, BaseProfileRequest, StreamProfile, TransportKind,
};
use crate::settings::{
    canonical_encoder, copy_opt_string, copy_string, opt_str_view, resolve_preset,
    spec_canonical_encoder, spec_resolve_preset, EnvConfig, HostSettings, HostSettingsView,
};
use crate::text::{
    append_chars, append_str, chars_contain_str, chars_of, contains, decimal, eq_ignore_case,
    lemma_norm_fixed, lower, lower_chars, push_decimal, str_eq, str_eq_ignore_case, string_from_chars, trim,
    trim_chars, views,
};
use vstd::prelude::*;

verus! {

/// The query string of `/h264`.
#[derive(Clone, Debug)]
pub struct StreamQuery {
    pub w: Option<u32>,
    pub h: Option<u32>,
    pub fps: Option<u32>,
    pub bitrate_kbps: Option<u32>,
    pub encoder: Option<String>,
    pub mode: Option<String>,
    pub display: Option<u32>,
    pub fit: Option<String>,
    /// `usb` or `wifi` — set by Android for adaptive profile selection.
    pub transport: Option<String>,
    /// `auto` (default) or `manual` — when `manual`, legacy host-first geometry applies.
    pub profile: Option<String>,
}

impl Default for StreamQuery {
    fn default() -> (r: Self)
        ensures
            r.w is None && r.h is None && r.fps is None && r.bitrate_kbps is None,
            r.encoder is None && r.mode is None && r.display is None && r.fit is None,
            r.transport is None && r.profile is None,
    {
        StreamQuery {
            w: None,
            h: None,
            fps: None,
            bitrate_kbps: None,
            encoder: None,
            mode: None,
            display: None,
            fit: None,
            transport: None,
            profile: None,
        }
    }
}

/// The stream mode: the requested one lower-cased, `mirror` by default.
pub open spec fn spec_stream_mode(mode: Option<Seq<char>>) -> Seq<char> {
    match mode {
        Some(m) => lower(m),
        None => "mirror"@,
    }
}

pub fn stream_mode_of(mode: &Option<String>) -> (r: String)
    ensures
        r@ == spec_stream_mode(opt_str_view(*mode)),
{
    match mode {
        Some(m) => {
            let v = chars_of(m.as_str());
            string_from_chars(&lower_chars(&v))
        },
        None => String::from_str("mirror"),
    }
}

/// The display to capture by default: the mode's display for extended streams (0 when it is
/// unknown), display 0 otherwise.
pub fn default_display_index(stream_mode: &str, extended_display: Option<u32>) -> (r: u32)
    ensures
        r == (if eq_ignore_case(stream_mode@, "extended"@) {
            match extended_display {
                Some(d) => d,
                None => 0,
            }
        } else {
            0
        }),
{
    if str_eq_ignore_case(stream_mode, "extended") {
        match extended_display {
            Some(d) => d,
            None => 0,
        }
    } else {
        0
    }
}

/// Whether the display a mode shows by default is a primary one: every mode but `extended`
/// shows the primary display.
pub open spec fn wants_primary(mode: Seq<char>) -> bool {
    !eq_ignore_case(mode, "extended"@)
}

/// The display a mode shows by default, given which displays (in enumeration order) are
/// primary: the first secondary display for `extended`, the first primary one otherwise;
/// `None` when there is no such display.
pub fn default_display_for_mode(mode: &str, primary: &[bool]) -> (r: Option<usize>)
    ensures
        r matches Some(i) ==> i < primary@.len() && primary@[i as int] == wants_primary(mode@) && forall|
            j: int,
        |
            0 <= j < i ==> primary@[j] != wants_primary(mode@),
        r is None ==> forall|j: int| 0 <= j < primary@.len() ==> primary@[j] != wants_primary(mode@),
{
    let want = !str_eq_ignore_case(mode, "extended");
    let mut i: usize = 0;
    while i < primary.len()
        invariant
            i <= primary@.len(),
            want == wants_primary(mode@),
            forall|j: int| 0 <= j < i ==> primary@[j] != want,
        decreases primary@.len() - i,
    {
        if primary[i] == want {
            return Some(i);
        }
        i = i + 1;
    }
    None
}

/// The display index actually used: the requested one (else the default), at most 9.
pub fn display_index(requested: Option<u32>, default_idx: u32) -> (r: u32)
    ensures
        r == (match requested {
            Some(d) => if d < 9 { d } else { 9 },
            None => if default_idx < 9 { default_idx } else { 9 },
        }),
        r <= 9,
{
    let d = match requested {
        Some(d) => d,
        None => default_idx,
    };
    if d < 9 {
        d
    } else {
        9
    }
}

/// Whether the client asked for the adaptive profile: no preset is active and the profile is
/// not `manual` (any case).
pub open spec fn spec_adaptive(preset_active: bool, profile: Option<Seq<char>>) -> bool {
    !preset_active && !(profile is Some && eq_ignore_case(profile->0, "manual"@))
}

pub fn adaptive_requested(preset_active: bool, profile: &Option<String>) -> (r: bool)
    ensures
        r == spec_adaptive(preset_active, opt_str_view(*profile)),
{
    let manual = match profile {
        Some(p) => str_eq_ignore_case(p.as_str(), "manual"),
        None => false,
    };
    !preset_active && !manual
}

/// The geometry of the mirrored display, in mirror mode, when it is known (each side at least 1).
pub open spec fn spec_mirror_dims(stream_mode: Seq<char>, target: Option<DisplayRect>) -> (Option<u32>, Option<u32>) {
    if eq_ignore_case(stream_mode, "mirror"@) && target is Some {
        let t = target->0;
        (
            Some(if t.width < 1 { 1u32 } else { t.width as u32 }),
            Some(if t.height < 1 { 1u32 } else { t.height as u32 }),
        )
    } else {
        (None, None)
    }
}

pub fn mirror_host_dims(stream_mode: &str, target: Option<DisplayRect>) -> (r: (Option<u32>, Option<u32>))
    ensures
        r == spec_mirror_dims(stream_mode@, target),
{
    if str_eq_ignore_case(stream_mode, "mirror") {
        if let Some(t) = target {
            let w: u32 = if t.width < 1 {
                1
            } else {
                t.width as u32
            };
            let h: u32 = if t.height < 1 {
                1
            } else {
                t.height as u32
            };
            return (Some(w), Some(h));
        }
    }
    (None, None)
}

/// The preset's (width, height, fps, bitrate) when the stored preset names one.
pub open spec fn spec_preset_fields(preset: Option<Seq<char>>) -> Option<(u32, u32, u32, u32)> {
    match preset {
        Some(p) => spec_resolve_preset(p),
        None => None,
    }
}

pub open spec fn opt_field(p: Option<(u32, u32, u32, u32)>, i: int) -> Option<u32> {
    match p {
        Some(t) => Some(if i == 0 { t.0 } else if i == 1 { t.1 } else if i == 2 { t.2 } else { t.3 }),
        None => None,
    }
}

/// What `profile_request` gives.
pub open spec fn spec_profile_request(
    q: StreamQuery,
    s: HostSettingsView,
    env: EnvConfig,
    mirror: (Option<u32>, Option<u32>),
) -> BaseProfileRequest {
    let preset = spec_preset_fields(s.preferred_preset);
    let preset_active = s.preferred_preset is Some;
    BaseProfileRequest {
        preset_active,
        preset_w: opt_field(preset, 0),
        preset_h: opt_field(preset, 1),
        preset_fps: opt_field(preset, 2),
        preset_bitrate: opt_field(preset, 3),
        manual_w: s.preferred_width,
        manual_h: s.preferred_height,
        manual_bitrate: s.preferred_bitrate_kbps,
        env_w: env.capture_width,
        env_h: env.capture_height,
        env_fps: env.fps,
        env_bitrate: env.bitrate_kbps,
        client_w: q.w,
        client_h: q.h,
        client_fps: q.fps,
        client_bitrate: q.bitrate_kbps,
        mirror_host_w: mirror.0,
        mirror_host_h: mirror.1,
        transport: spec_transport_parse(opt_str_view(q.transport)),
        adaptive: spec_adaptive(preset_active, opt_str_view(q.profile)),
    }
}

/// Gathers everything that decides the base profile of a session: the stored preset or
/// manual size, the environment, the client's request and the mirrored display.
pub fn profile_request(
    query: &StreamQuery,
    settings: &HostSettings,
    env: &EnvConfig,
    mirror: (Option<u32>, Option<u32>),
) -> (r: BaseProfileRequest)
    ensures
        r == spec_profile_request(*query, settings@, *env, mirror),
{
    let preset = match &settings.preferred_preset {
        Some(p) => resolve_preset(p.as_str()),
        None => None,
    };
    let (preset_w, preset_h, preset_fps, preset_bitrate) = match preset {
        Some((pw, ph, pfps, pbr)) => (Some(pw), Some(ph), Some(pfps), Some(pbr)),
        None => (None, None, None, None),
    };
    let preset_active = settings.preferred_preset.is_some();
    let transport = match &query.transport {
        Some(t) => TransportKind::parse(Some(t.as_str())),
        None => TransportKind::parse(None),
    };
    BaseProfileRequest {
        preset_active,
        preset_w,
        preset_h,
        preset_fps,
        preset_bitrate,
        manual_w: settings.preferred_width,
        manual_h: settings.preferred_height,
        manual_bitrate: settings.preferred_bitrate_kbps,
        env_w: env.capture_width,
        env_h: env.capture_height,
        env_fps: env.fps,
        env_bitrate: env.bitrate_kbps,
        client_w: query.w,
        client_h: query.h,
        client_fps: query.fps,
        client_bitrate: query.bitrate_kbps,
        mirror_host_w: mirror.0,
        mirror_host_h: mirror.1,
        transport,
        adaptive: adaptive_requested(preset_active, &query.profile),
    }
}

/// The profile label sent to the client: the preset's name, `auto` or `manual`.
pub open spec fn spec_profile_label(preset: Option<Seq<char>>, adaptive: bool) -> Seq<char> {
    match preset {
        Some(p) => p,
        None => if adaptive {
            "auto"@
        } else {
            "manual"@
        },
    }
}

pub fn profile_label(preset: &Option<String>, adaptive: bool) -> (r: String)
    ensures
        r@ == spec_profile_label(opt_str_view(*preset), adaptive),
{
    match preset {
        Some(p) => copy_string(p),
        None => if adaptive {
            String::from_str("auto")
        } else {
            String::from_str("manual")
        },
    }
}

pub open spec fn spec_transport_label(t: TransportKind) -> Seq<char> {
    match t {
        TransportKind::Usb => "usb"@,
        TransportKind::Wifi => "wifi"@,
        TransportKind::Unknown => "unknown"@,
    }
}

pub fn transport_label(t: TransportKind) -> (r: &'static str)
    ensures
        r@ == spec_transport_label(t),
{
    match t {
        TransportKind::Usb => "usb",
        TransportKind::Wifi => "wifi",
        TransportKind::Unknown => "unknown",
    }
}

/// A transport's label reads back as the transport.
pub proof fn law_transport_label_round_trip(t: TransportKind)
    ensures
        spec_transport_parse(Some(spec_transport_label(t))) == t,
{
    reveal_strlit("usb");
    reveal_strlit("wifi");
    reveal_strlit("wi-fi");
    reveal_strlit("lan");
    reveal_strlit("unknown");
    lemma_norm_fixed(spec_transport_label(t));
    assert("unknown"@[1] != "usb"@[1]);
    assert("unknown"@[0] != "wi-fi"@[0]);
    assert("unknown"@[0] != "wifi"@[0]);
    assert("unknown"@[0] != "lan"@[0]);
    assert("usb"@[0] != "wifi"@[0]);
    assert("usb"@[0] != "lan"@[0]);
}

/// The encoder the session prefers: the stored preference, else the client's, else the
/// environment's; blank names count as none, and only encoders the host drives are kept.
pub open spec fn spec_preferred_encoder(
    stored: Option<Seq<char>>,
    client: Option<Seq<char>>,
    env: Option<Seq<char>>,
) -> Option<Seq<char>> {
    match or_opt(or_opt(stored, client), env) {
        Some(s) => if trim(s).len() == 0 {
            None
        } else {
            spec_canonical_encoder(Some(trim(s)))
        },
        None => None,
    }
}

pub fn preferred_encoder(
    stored: &Option<String>,
    client: &Option<String>,
    env: &Option<String>,
) -> (r: Option<String>)
    ensures
        opt_str_view(r) == spec_preferred_encoder(
            opt_str_view(*stored),
            opt_str_view(*client),
            opt_str_view(*env),
        ),
{
    let first = match stored {
        Some(s) => Some(s),
        None => match client {
            Some(c) => Some(c),
            None => match env {
                Some(e) => Some(e),
                None => None,
            },
        },
    };
    match first {
        Some(s) => {
            let v = chars_of(s.as_str());
            let t = trim_chars(&v);
            if t.len() == 0 {
                None
            } else {
                canonical_encoder(Some(string_from_chars(&t)))
            }
        },
        None => None,
    }
}

/// How a mirrored stream is fitted: the requested fit lower-cased, else `contain` in mirror
/// mode and `cover` otherwise.
pub open spec fn spec_fit(fit: Option<Seq<char>>, stream_mode: Seq<char>) -> Seq<char> {
    match fit {
        Some(f) => lower(f),
        None => if eq_ignore_case(stream_mode, "mirror"@) {
            "contain"@
        } else {
            "cover"@
        },
    }
}

pub fn fit_of(fit: &Option<String>, stream_mode: &str) -> (r: String)
    ensures
        r@ == spec_fit(opt_str_view(*fit), stream_mode@),
{
    match fit {
        Some(f) => {
            let v = chars_of(f.as_str());
            string_from_chars(&lower_chars(&v))
        },
        None => if str_eq_ignore_case(stream_mode, "mirror") {
            String::from_str("contain")
        } else {
            String::from_str("cover")
        },
    }
}

/// `CFG:encoder=…;capture=…;w=…;h=…;fps=…;bitrate_kbps=…;profile=…;transport=…`.
pub open spec fn spec_cfg_message(
    encoder: Seq<char>,
    capture: Capture,
    p: StreamProfile,
    profile: Seq<char>,
    transport: Seq<char>,
) -> Seq<char> {
    "CFG:encoder="@ + encoder + ";capture="@ + capture_name(capture) + ";w="@ + decimal(p.w as nat)
        + ";h="@ + decimal(p.h as nat) + ";fps="@ + decimal(p.fps as nat) + ";bitrate_kbps="@
        + decimal(p.bitrate_kbps as nat) + ";profile="@ + profile + ";transport="@ + transport
}

fn append_decimal(out: &mut String, n: u32)
    ensures
        final(out)@ == old(out)@ + decimal(n as nat),
{
    let mut d: Vec<char> = Vec::new();
    push_decimal(&mut d, n as u128);
    assert(d@ =~= decimal(n as nat));
    append_chars(out, &d);
}

/// The profile frame sent to the client before a trial.
pub fn cfg_message(
    encoder: &str,
    capture: Capture,
    profile: StreamProfile,
    profile_label: &str,
    transport_label: &str,
) -> (r: String)
    ensures
        r@ == spec_cfg_message(encoder@, capture, profile, profile_label@, transport_label@),
{
    let mut m = String::from_str("CFG:encoder=");
    append_str(&mut m, encoder);
    append_str(&mut m, ";capture=");
    append_str(&mut m, capture.as_str());
    append_str(&mut m, ";w=");
    append_decimal(&mut m, profile.w);
    append_str(&mut m, ";h=");
    append_decimal(&mut m, profile.h);
    append_str(&mut m, ";fps=");
    append_decimal(&mut m, profile.fps);
    append_str(&mut m, ";bitrate_kbps=");
    append_decimal(&mut m, profile.bitrate_kbps);
    append_str(&mut m, ";profile=");
    append_str(&mut m, profile_label);
    append_str(&mut m, ";transport=");
    append_str(&mut m, transport_label);
    m
}

/// What a trial's outcome means for the session.
#[derive(Debug, Clone, Copy, PartialEq, Eq, Structural)]
pub enum TrialDecision {
    /// The trial streamed: remember it (and learn the encoder) and stop trying.
    Won,
    /// Settings changed mid-stream: stop trying; the client reconnects.
    Restarted,
    /// The encoder produced nothing: mark the combination failed and try the next.
    FailedTryNext,
    /// FFmpeg failed for another reason: try the next combination.
    ErrorTryNext,
    /// The client went away: stop.
    ClientGone,
    /// FFmpeg is not installed: tell the client and stop.
    FfmpegMissing,
}

/// An error text that says the FFmpeg program was not found.
pub open spec fn is_missing_program(error: Seq<char>) -> bool {
    contains(lower(error), "program not found"@)
}

pub open spec fn spec_trial_decision(exit: Option<StreamExit>, error: Seq<char>) -> TrialDecision {
    match exit {
        Some(StreamExit::Streamed) => TrialDecision::Won,
        Some(StreamExit::RestartRequested) => TrialDecision::Restarted,
        Some(StreamExit::Unavailable) => TrialDecision::FailedTryNext,
        Some(StreamExit::SocketClosed) => TrialDecision::ClientGone,
        None => if is_missing_program(error) {
            TrialDecision::FfmpegMissing
        } else {
            TrialDecision::ErrorTryNext
        },
    }
}

/// Decides what a trial's outcome means: `Ok(exit)` or `Err(error text)`.
pub fn trial_decision(outcome: &Result<StreamExit, String>) -> (r: TrialDecision)
    ensures
        r == (match outcome {
            Ok(e) => spec_trial_decision(Some(*e), Seq::empty()),
            Err(msg) => spec_trial_decision(None, msg@),
        }),
{
    match outcome {
        Ok(StreamExit::Streamed) => TrialDecision::Won,
        Ok(StreamExit::RestartRequested) => TrialDecision::Restarted,
        Ok(StreamExit::Unavailable) => TrialDecision::FailedTryNext,
        Ok(StreamExit::SocketClosed) => TrialDecision::ClientGone,
        Err(msg) => {
            let v = chars_of(msg.as_str());
            let low = lower_chars(&v);
            if chars_contain_str(&low, "program not found") {
                TrialDecision::FfmpegMissing
            } else {
                TrialDecision::ErrorTryNext
            }
        },
    }
}

/// What a session does once a round of trials is over.
#[derive(Debug, Clone, Copy, PartialEq, Eq, Structural)]
pub enum SessionStep {
    /// The client went away: end the session.
    Disconnect,
    /// Settings changed: send `RESET` so the client reconnects, and end the session.
    Reset,
    /// No trial started: send the no-encoder error frame and end the session.
    ReportNoEncoder,
    /// A stream ran and ended: start another round.
    NextRound,
}

pub open spec fn spec_session_step(connection_alive: bool, restart_requested: bool, started: bool) -> SessionStep {
    if !connection_alive {
        SessionStep::Disconnect
    } else if restart_requested {
        SessionStep::Reset
    } else if !started {
        SessionStep::ReportNoEncoder
    } else {
        SessionStep::NextRound
    }
}

/// Decides what follows a round of trials: a departed client ends the session, a settings
/// change resets it, a round where nothing started reports that no encoder is available.
pub fn session_step(connection_alive: bool, restart_requested: bool, started: bool) -> (r: SessionStep)
    ensures
        r == spec_session_step(connection_alive, restart_requested, started),
{
    if !connection_alive {
        SessionStep::Disconnect
    } else if restart_requested {
        SessionStep::Reset
    } else if !started {
        SessionStep::ReportNoEncoder
    } else {
        SessionStep::NextRound
    }
}

/// The settings after candidate `c` streamed: without a manual lock and with no stored
/// preference, its encoder (and, for NVENC, its CUDA device) is learned; the combination
/// becomes the probe cache either way.
pub open spec fn spec_learn(s: HostSettingsView, c: CandidateView, manual_lock: bool) -> HostSettingsView {
    let learned = if !manual_lock && s.preferred_encoder is None {
        HostSettingsView {
            preferred_encoder: Some(c.encoder),
            preferred_nvenc_gpu: if c.encoder == "h264_nvenc"@ {
                c.nvenc_gpu
            } else {
                s.preferred_nvenc_gpu
            },
            ..s
        }
    } else {
        s
    };
    spec_record_success(learned, c)
}

/// Learns from a candidate that streamed.
pub fn learn_from_success(settings: &mut HostSettings, candidate: &EncoderCandidate, manual_lock: bool)
    ensures
        final(settings)@ == spec_learn(old(settings)@, candidate@, manual_lock),
{
    if !manual_lock && settings.preferred_encoder.is_none() {
        settings.preferred_encoder = Some(copy_string(&candidate.encoder));
        if str_eq(candidate.encoder.as_str(), "h264_nvenc") {
            settings.preferred_nvenc_gpu = candidate.nvenc_gpu;
        }
    }
    record_probe_success(settings, candidate);
}

/// `enc/capture` for each candidate, joined by `, `.
pub open spec fn attempted_list(c: Seq<CandidateView>) -> Seq<char>
    decreases c.len(),
{
    if c.len() == 0 {
        Seq::empty()
    } else if c.len() == 1 {
        c[0].encoder + "/"@ + capture_name(c[0].capture)
    } else {
        attempted_list(c.drop_last()) + ", "@ + c.last().encoder + "/"@ + capture_name(c.last().capture)
    }
}

/// The text with each `"` escaped as `\"`.
pub open spec fn escape_quotes(s: Seq<char>) -> Seq<char>
    decreases s.len(),
{
    if s.len() == 0 {
        s
    } else {
        escape_quotes(s.drop_last()) + if s.last() == '"' {
            seq!['\\', '"']
        } else {
            seq![s.last()]
        }
    }
}

/// The message of a session that found no working encoder.
pub open spec fn spec_no_encoder_message(requested: Option<Seq<char>>, c: Seq<CandidateView>) -> Seq<char> {
    let req = match requested {
        Some(r) => r,
        None => "auto"@,
    };
    "No H.264 encoder available (requested="@ + req + ", attempted="@ + (if c.len() == 0 {
        "none"@
    } else {
        attempted_list(c)
    }) + ")"@
}

/// The JSON error frame `{"type":"error","message":"…"}` for a message.
pub open spec fn spec_error_frame(msg: Seq<char>) -> Seq<char> {
    "{\"type\":\"error\",\"message\":\""@ + escape_quotes(msg) + "\"}"@
}

/// The error frame sent when no encoder could start.
pub fn no_encoder_frame(requested: &Option<String>, candidates: &Vec<EncoderCandidate>) -> (r: String)
    ensures
        r@ == spec_error_frame(spec_no_encoder_message(opt_str_view(*requested), candidate_views(candidates@))),
{
    let mut msg = String::from_str("No H.264 encoder available (requested=");
    match requested {
        Some(r) => append_str(&mut msg, r.as_str()),
        None => append_str(&mut msg, "auto"),
    }
    append_str(&mut msg, ", attempted=");
    let ghost cv = candidate_views(candidates@);
    if candidates.len() == 0 {
        append_str(&mut msg, "none");
    } else {
        let ghost base = msg@;
        let mut i: usize = 0;
        while i < candidates.len()
            invariant
                i <= candidates@.len(),
                cv == candidate_views(candidates@),
                msg@ == base + attempted_list(cv.subrange(0, i as int)),
            decreases candidates@.len() - i,
        {
            let ghost before = msg@;
            if i > 0 {
                append_str(&mut msg, ", ");
            }
            append_str(&mut msg, candidates[i].encoder.as_str());
            append_str(&mut msg, "/");
            append_str(&mut msg, candidates[i].capture.as_str());
            proof {
                let sub = cv.subrange(0, i + 1);
                assert(sub.drop_last() =~= cv.subrange(0, i as int));
                assert(sub.last() == candidates@[i as int]@);
                if i == 0 {
                    assert(cv.subrange(0, 0).len() == 0);
                    assert(sub[0] == candidates@[0]@);
                }
            }
            i = i + 1;
            assert(msg@ =~= base + attempted_list(cv.subrange(0, i as int)));
        }
        assert(cv.subrange(0, cv.len() as int) =~= cv);
    }
    append_str(&mut msg, ")");
    let m = chars_of(msg.as_str());
    let mut frame = String::from_str("{\"type\":\"error\",\"message\":\"");
    let ghost head = frame@;
    let mut k: usize = 0;
    while k < m.len()
        invariant
            k <= m@.len(),
            frame@ == head + escape_quotes(m@.subrange(0, k as int)),
        decreases m@.len() - k,
    {
        let c = m[k];
        proof {
            let sub = m@.subrange(0, k + 1);
            assert(sub.drop_last() =~= m@.subrange(0, k as int));
            assert(sub.last() == c);
        }
        if c == '"' {
            append_str(&mut frame, "\\\"");
            proof {
                reveal_strlit("\\\"");
            }
        } else {
            let one = [c];
            append_chars(&mut frame, &one);
            assert(one@ =~= seq![c]);
        }
        k = k + 1;
        assert(frame@ =~= head + escape_quotes(m@.subrange(0, k as int)));
    }
    assert(m@.subrange(0, m@.len() as int) =~= m@);
    append_str(&mut frame, "\"}");
    frame
}

} // verus!
