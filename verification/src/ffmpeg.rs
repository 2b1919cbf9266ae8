//! The FFmpeg side of a stream: the command line for a trial, the rate-control numbers, the
//! decisions taken while its output is relayed, and the name of its log file.
use crate::capture::{capture_name, Capture};
use crate::encoder::{amf_device_from_pre_args, encoder_extra_args, spec_amf_device, spec_extra_args};
use crate::profile::{clamp, min};
use crate::settings::{copy_strings, HostSettings, HostSettingsView};
use crate::text::{
    append_chars, append_str, chars_contain_str, chars_of, chars_start_with, contains, decimal,
    decimal_string, eq_ignore_case, lower, lower_chars, pad_zeros, push_decimal,
    push_decimal_padded, signed_decimal, signed_decimal_string, starts_with, str_eq,
    str_eq_ignore_case, string_from_chars, views,
};
use vstd::prelude::*;

verus! {

/// How one FFmpeg trial ended.
#[derive(Debug, Clone, Copy, PartialEq, Eq, Structural)]
pub enum StreamExit {
    Streamed,
    RestartRequested,
    Unavailable,
    SocketClosed,
}

/// Everything one FFmpeg trial needs.
pub struct FfmpegConfig {
    pub out_w: u32,
    pub out_h: u32,
    pub fps: u32,
    pub bitrate_kbps: u32,
    pub mode: String,
    pub fit: String,
    pub display_idx: u32,
    pub encoder: String,
    pub capture: Capture,
    pub pre_input_args: Vec<String>,
    pub nvenc_gpu: Option<u32>,
}

/// A display's placement on the Windows desktop, for GDI capture.
#[derive(Clone, Copy, Debug, PartialEq, Eq, Structural)]
pub struct DisplayRect {
    pub left: i32,
    pub top: i32,
    pub width: i32,
    pub height: i32,
}

/// The bitrate the encoder is actually given.
pub open spec fn spec_effective_bitrate(encoder: Seq<char>, kbps: u32) -> u32 {
    if encoder == "libx264"@ {
        min(kbps as int, 12000) as u32
    } else if encoder == "h264_nvenc"@ {
        min(kbps as int, 8000) as u32
    } else if encoder == "h264_amf"@ {
        clamp(kbps as int, 5_000, 18_000) as u32
    } else {
        kbps
    }
}

/// The GPU (hardware) encoders.
pub open spec fn is_gpu_encoder(encoder: Seq<char>) -> bool {
    encoder == "h264_nvenc"@ || encoder == "h264_amf"@ || encoder == "h264_qsv"@
}

/// The VBV buffer: a twelfth of a second on GPU encoders (lower glass-to-glass delay),
/// a quarter otherwise.
pub open spec fn spec_bufsize(encoder: Seq<char>, effective: u32) -> u32 {
    if is_gpu_encoder(encoder) {
        effective / 12
    } else {
        effective / 4
    }
}

/// The keyframe interval in frames.
pub open spec fn spec_gop(encoder: Seq<char>, fps: u32) -> u32 {
    if encoder == "h264_amf"@ {
        clamp(fps as int, 30, 60) as u32
    } else if encoder == "libx264"@ {
        clamp(fps as int, 15, 30) as u32
    } else if encoder == "h264_nvenc"@ {
        clamp(fps as int, 30, 120) as u32
    } else {
        clamp((fps / 2) as int, 15, 30) as u32
    }
}

pub fn effective_bitrate_kbps(encoder: &str, bitrate_kbps: u32) -> (r: u32)
    ensures
        r == spec_effective_bitrate(encoder@, bitrate_kbps),
{
    if str_eq(encoder, "libx264") {
        if bitrate_kbps < 12000 {
            bitrate_kbps
        } else {
            12000
        }
    } else if str_eq(encoder, "h264_nvenc") {
        if bitrate_kbps < 8000 {
            bitrate_kbps
        } else {
            8000
        }
    } else if str_eq(encoder, "h264_amf") {
        if bitrate_kbps < 5_000 {
            5_000
        } else if bitrate_kbps > 18_000 {
            18_000
        } else {
            bitrate_kbps
        }
    } else {
        bitrate_kbps
    }
}

pub fn vbv_bufsize_kbps(encoder: &str, effective_kbps: u32) -> (r: u32)
    ensures
        r == spec_bufsize(encoder@, effective_kbps),
{
    if str_eq(encoder, "h264_nvenc") || str_eq(encoder, "h264_amf") || str_eq(encoder, "h264_qsv") {
        effective_kbps / 12
    } else {
        effective_kbps / 4
    }
}

fn clamp_fps(v: u32, lo: u32, hi: u32) -> (r: u32)
    requires
        lo <= hi,
    ensures
        r == clamp(v as int, lo as int, hi as int),
{
    if v < lo {
        lo
    } else if v > hi {
        hi
    } else {
        v
    }
}

pub fn gop_frames(encoder: &str, fps: u32) -> (r: u32)
    ensures
        r == spec_gop(encoder@, fps),
{
    if str_eq(encoder, "h264_amf") {
        clamp_fps(fps, 30, 60)
    } else if str_eq(encoder, "libx264") {
        clamp_fps(fps, 15, 30)
    } else if str_eq(encoder, "h264_nvenc") {
        // One IDR per second at 60 fps — avoids 150 KB keyframes every 0.5 s.
        clamp_fps(fps, 30, 120)
    } else {
        clamp_fps(fps / 2, 15, 30)
    }
}

/// Appends a literal argument.
fn push_lit(args: &mut Vec<String>, s: &str)
    ensures
        views(final(args)@) == views(old(args)@).push(s@),
{
    let ghost before = views(args@);
    args.push(String::from_str(s));
    assert(views(args@) =~= before.push(s@));
}

/// Appends an owned argument.
fn push_owned(args: &mut Vec<String>, s: String)
    ensures
        views(final(args)@) == views(old(args)@).push(s@),
{
    let ghost before = views(args@);
    args.push(s);
    assert(views(args@) =~= before.push(s@));
}

/// Appends a list of arguments.
fn push_all(args: &mut Vec<String>, more: Vec<String>)
    ensures
        views(final(args)@) == views(old(args)@) + views(more@),
{
    let ghost before = views(args@);
    let mut i: usize = 0;
    while i < more.len()
        invariant
            i <= more@.len(),
            views(args@) == before + views(more@).subrange(0, i as int),
        decreases more@.len() - i,
    {
        let s = crate::settings::copy_string(&more[i]);
        assert(s@ == views(more@)[i as int]);
        push_owned(args, s);
        i = i + 1;
        assert(views(more@).subrange(0, i as int) =~= views(more@).subrange(0, i - 1).push(
            views(more@)[i - 1],
        ));
        assert(views(args@) =~= before + views(more@).subrange(0, i as int));
    }
    assert(views(more@).subrange(0, more@.len() as int) =~= views(more@));
}

/// The DXGI capture input.
pub open spec fn ddagrab_input(display: u32, fps: u32) -> Seq<Seq<char>> {
    seq![
        "-f"@, "lavfi"@, "-i"@,
        "ddagrab="@ + decimal(display as nat) + ":framerate="@ + decimal(fps as nat) + ",hwdownload,format=bgra"@,
    ]
}

/// The GDI capture input, placed on the target display when it is known.
pub open spec fn gdigrab_input(fps: u32, target: Option<DisplayRect>) -> Seq<Seq<char>> {
    seq!["-probesize"@, "32"@, "-analyzeduration"@, "0"@, "-f"@, "gdigrab"@, "-framerate"@, decimal(fps as nat)]
        + match target {
        Some(t) => seq![
            "-offset_x"@, signed_decimal(t.left as int), "-offset_y"@, signed_decimal(t.top as int),
            "-video_size"@, signed_decimal(t.width as int) + "x"@ + signed_decimal(t.height as int),
        ],
        None => Seq::empty(),
    } + seq!["-i"@, "desktop"@]
}

pub open spec fn capture_input(capture: Capture, display: u32, fps: u32, target: Option<DisplayRect>) -> Seq<Seq<char>> {
    match capture {
        Capture::Ddagrab => ddagrab_input(display, fps),
        Capture::Gdigrab => gdigrab_input(fps, target),
    }
}

/// Mirror streams letterbox (`contain`, the default there); others crop (`cover`).
pub open spec fn use_contain(mode: Seq<char>, fit: Seq<char>) -> bool {
    eq_ignore_case(mode, "mirror"@) && (eq_ignore_case(fit, "contain"@) || fit.len() == 0)
}

/// The `-vf` filter chain.
pub open spec fn video_filter(contain: bool, w: u32, h: u32) -> Seq<char> {
    let ws = decimal(w as nat);
    let hs = decimal(h as nat);
    if contain {
        "scale="@ + ws + ":"@ + hs + ":force_original_aspect_ratio=decrease,pad="@ + ws + ":"@ + hs
            + ":(ow-iw)/2:(oh-ih)/2:black,format=yuv420p"@
    } else {
        "scale="@ + ws + ":"@ + hs + ":force_original_aspect_ratio=increase,crop="@ + ws + ":"@ + hs
            + ":(iw-"@ + ws + ")/2:(ih-"@ + hs + ")/2,format=yuv420p"@
    }
}

pub open spec fn low_delay_flags() -> Seq<Seq<char>> {
    seq!["-fflags"@, "+nobuffer"@, "-flags"@, "+low_delay"@, "-avioflags"@, "direct"@, "-fps_mode"@, "cfr"@]
}

/// Keyframe interval, bitrate, VBV and the raw H.264 output on stdout.
pub open spec fn rate_args(encoder: Seq<char>, kbps: u32, fps: u32) -> Seq<Seq<char>> {
    let eff = spec_effective_bitrate(encoder, kbps);
    seq![
        "-g"@, decimal(spec_gop(encoder, fps) as nat), "-b:v"@, decimal(eff as nat) + "k"@,
        "-maxrate"@, decimal(eff as nat) + "k"@, "-bufsize"@,
        decimal(spec_bufsize(encoder, eff) as nat) + "k"@, "-bsf:v"@, "dump_extra"@, "-f"@,
        "h264"@, "-"@,
    ]
}

/// The CUDA device argument, for NVENC with a chosen device.
pub open spec fn gpu_args(encoder: Seq<char>, gpu: Option<u32>) -> Seq<Seq<char>> {
    if encoder == "h264_nvenc"@ && gpu is Some {
        seq!["-gpu"@, decimal(gpu->0 as nat)]
    } else {
        Seq::empty()
    }
}

/// Scaling, no audio, output rate and the codec.
pub open spec fn output_args(c: FfmpegConfig) -> Seq<Seq<char>> {
    seq!["-vf"@, video_filter(use_contain(c.mode@, c.fit@), c.out_w, c.out_h), "-an"@]
        + seq!["-r"@, decimal(c.fps as nat)] + seq!["-c:v"@, c.encoder@]
}

/// The whole FFmpeg command line of a trial (after the program name).
pub open spec fn spec_ffmpeg_args(
    c: FfmpegConfig,
    target: Option<DisplayRect>,
    cpu_threads: u32,
) -> Seq<Seq<char>> {
    views(c.pre_input_args@) + capture_input(c.capture, c.display_idx, c.fps, target)
        + low_delay_flags() + output_args(c) + spec_extra_args(
        c.encoder@,
        cpu_threads,
    ) + gpu_args(c.encoder@, c.nvenc_gpu) + rate_args(c.encoder@, c.bitrate_kbps, c.fps)
}

/// `decimal(n)` as characters.
fn dec(n: u32) -> (r: Vec<char>)
    ensures
        r@ == decimal(n as nat),
{
    let mut v: Vec<char> = Vec::new();
    push_decimal(&mut v, n as u128);
    assert(v@ =~= decimal(n as nat));
    v
}

fn capture_input_args(capture: Capture, display: u32, fps: u32, target: Option<DisplayRect>) -> (r: Vec<String>)
    ensures
        views(r@) == capture_input(capture, display, fps, target),
{
    let mut args: Vec<String> = Vec::new();
    match capture {
        Capture::Ddagrab => {
            push_lit(&mut args, "-f");
            push_lit(&mut args, "lavfi");
            push_lit(&mut args, "-i");
            let mut spec = String::from_str("ddagrab=");
            append_chars(&mut spec, &dec(display));
            append_str(&mut spec, ":framerate=");
            append_chars(&mut spec, &dec(fps));
            append_str(&mut spec, ",hwdownload,format=bgra");
            push_owned(&mut args, spec);
            assert(views(args@) =~= ddagrab_input(display, fps));
        },
        Capture::Gdigrab => {
            push_lit(&mut args, "-probesize");
            push_lit(&mut args, "32");
            push_lit(&mut args, "-analyzeduration");
            push_lit(&mut args, "0");
            push_lit(&mut args, "-f");
            push_lit(&mut args, "gdigrab");
            push_lit(&mut args, "-framerate");
            push_owned(&mut args, decimal_string(fps as u128));
            let ghost head = views(args@);
            if let Some(t) = target {
                push_lit(&mut args, "-offset_x");
                push_owned(&mut args, signed_decimal_string(t.left as i64));
                push_lit(&mut args, "-offset_y");
                push_owned(&mut args, signed_decimal_string(t.top as i64));
                push_lit(&mut args, "-video_size");
                let mut size = signed_decimal_string(t.width as i64);
                append_str(&mut size, "x");
                let hs = signed_decimal_string(t.height as i64);
                append_str(&mut size, hs.as_str());
                push_owned(&mut args, size);
            }
            let ghost mid = views(args@);
            push_lit(&mut args, "-i");
            push_lit(&mut args, "desktop");
            assert(views(args@) =~= gdigrab_input(fps, target));
        },
    }
    args
}

fn video_filter_arg(contain: bool, w: u32, h: u32) -> (r: String)
    ensures
        r@ == video_filter(contain, w, h),
{
    let ws = dec(w);
    let hs = dec(h);
    let mut vf = String::from_str("scale=");
    append_chars(&mut vf, &ws);
    append_str(&mut vf, ":");
    append_chars(&mut vf, &hs);
    if contain {
        append_str(&mut vf, ":force_original_aspect_ratio=decrease,pad=");
        append_chars(&mut vf, &ws);
        append_str(&mut vf, ":");
        append_chars(&mut vf, &hs);
        append_str(&mut vf, ":(ow-iw)/2:(oh-ih)/2:black,format=yuv420p");
    } else {
        append_str(&mut vf, ":force_original_aspect_ratio=increase,crop=");
        append_chars(&mut vf, &ws);
        append_str(&mut vf, ":");
        append_chars(&mut vf, &hs);
        append_str(&mut vf, ":(iw-");
        append_chars(&mut vf, &ws);
        append_str(&mut vf, ")/2:(ih-");
        append_chars(&mut vf, &hs);
        append_str(&mut vf, ")/2,format=yuv420p");
    }
    assert(vf@ =~= video_filter(contain, w, h));
    vf
}

fn kbps_arg(n: u32) -> (r: String)
    ensures
        r@ == decimal(n as nat) + "k"@,
{
    let mut s = decimal_string(n as u128);
    append_str(&mut s, "k");
    s
}

fn rate_control_args(encoder: &str, kbps: u32, fps: u32) -> (r: Vec<String>)
    ensures
        views(r@) == rate_args(encoder@, kbps, fps),
{
    let eff = effective_bitrate_kbps(encoder, kbps);
    let bufsize = vbv_bufsize_kbps(encoder, eff);
    let gop = gop_frames(encoder, fps);
    let mut args: Vec<String> = Vec::new();
    push_lit(&mut args, "-g");
    push_owned(&mut args, decimal_string(gop as u128));
    push_lit(&mut args, "-b:v");
    push_owned(&mut args, kbps_arg(eff));
    push_lit(&mut args, "-maxrate");
    push_owned(&mut args, kbps_arg(eff));
    push_lit(&mut args, "-bufsize");
    push_owned(&mut args, kbps_arg(bufsize));
    push_lit(&mut args, "-bsf:v");
    push_lit(&mut args, "dump_extra");
    push_lit(&mut args, "-f");
    push_lit(&mut args, "h264");
    push_lit(&mut args, "-");
    assert(views(args@) =~= rate_args(encoder@, kbps, fps));
    args
}

fn low_delay_args() -> (r: Vec<String>)
    ensures
        views(r@) == low_delay_flags(),
{
    let mut args: Vec<String> = Vec::new();
    push_lit(&mut args, "-fflags");
    push_lit(&mut args, "+nobuffer");
    push_lit(&mut args, "-flags");
    push_lit(&mut args, "+low_delay");
    push_lit(&mut args, "-avioflags");
    push_lit(&mut args, "direct");
    push_lit(&mut args, "-fps_mode");
    push_lit(&mut args, "cfr");
    assert(views(args@) =~= low_delay_flags());
    args
}

fn output_arg_list(config: &FfmpegConfig) -> (r: Vec<String>)
    ensures
        views(r@) == output_args(*config),
{
    let contain = str_eq_ignore_case(config.mode.as_str(), "mirror") && (str_eq_ignore_case(
        config.fit.as_str(),
        "contain",
    ) || config.fit.as_str().unicode_len() == 0);
    let mut args: Vec<String> = Vec::new();
    push_lit(&mut args, "-vf");
    push_owned(&mut args, video_filter_arg(contain, config.out_w, config.out_h));
    push_lit(&mut args, "-an");
    push_lit(&mut args, "-r");
    push_owned(&mut args, decimal_string(config.fps as u128));
    push_lit(&mut args, "-c:v");
    push_owned(&mut args, crate::settings::copy_string(&config.encoder));
    assert(views(args@) =~= output_args(*config));
    args
}

fn gpu_arg_list(encoder: &str, gpu: Option<u32>) -> (r: Vec<String>)
    ensures
        views(r@) == gpu_args(encoder@, gpu),
{
    let mut args: Vec<String> = Vec::new();
    if str_eq(encoder, "h264_nvenc") {
        if let Some(gpu_idx) = gpu {
            push_lit(&mut args, "-gpu");
            push_owned(&mut args, decimal_string(gpu_idx as u128));
        }
    }
    assert(views(args@) =~= gpu_args(encoder@, gpu));
    args
}

/// The FFmpeg command line for a trial: pre-input arguments, the capture input (placed on
/// `gdi_target` for GDI capture), low-delay flags, scaling, the encoder with its low-latency
/// arguments (`cpu_threads` decides x264 sliced threads), and rate control to raw H.264 on
/// stdout.
pub fn build_ffmpeg_args(config: &FfmpegConfig, gdi_target: Option<DisplayRect>, cpu_threads: u32) -> (r: Vec<String>)
    ensures
        views(r@) == spec_ffmpeg_args(*config, gdi_target, cpu_threads),
{
    let mut args = copy_strings(&config.pre_input_args);
    push_all(&mut args, capture_input_args(config.capture, config.display_idx, config.fps, gdi_target));
    push_all(&mut args, low_delay_args());
    push_all(&mut args, output_arg_list(config));
    push_all(&mut args, encoder_extra_args(config.encoder.as_str(), cpu_threads));
    push_all(&mut args, gpu_arg_list(config.encoder.as_str(), config.nvenc_gpu));
    push_all(&mut args, rate_control_args(config.encoder.as_str(), config.bitrate_kbps, config.fps));
    assert(views(args@) =~= spec_ffmpeg_args(*config, gdi_target, cpu_threads));
    args
}


/// What one read of FFmpeg's stdout produced.
#[derive(Debug, Clone, Copy, PartialEq, Eq, Structural)]
pub enum ReadOutcome {
    /// `n > 0` bytes of H.264.
    Bytes(usize),
    /// FFmpeg closed its output.
    Eof,
    /// Nothing arrived before the probe deadline (only while nothing has been sent yet).
    TimedOut,
    /// Reading failed for another reason.
    Failed,
}

/// What the relay does with a read.
#[derive(Debug, Clone, Copy, PartialEq, Eq, Structural)]
pub enum RelayStep {
    /// Send the bytes to the client; `first` marks the first output of this trial.
    Forward { first: bool },
    /// Stop relaying and classify the trial.
    EndOfOutput,
    /// Kill FFmpeg: the encoder produced nothing in time.
    GiveUp,
    /// Kill FFmpeg and report the read error.
    Error,
}

/// How sending one chunk to the client went.
#[derive(Debug, Clone, Copy, PartialEq, Eq, Structural)]
pub enum SendOutcome {
    Sent,
    Failed,
    /// The send took longer than 2 s: the Android decoder is overloaded.
    Stalled,
}

/// The relay's own state: whether any H.264 has reached the client.
#[derive(Debug, Clone, Copy, PartialEq, Eq, Structural)]
pub struct RelayState {
    pub sent_any: bool,
}

pub open spec fn spec_relay_step(sent_any: bool, outcome: ReadOutcome) -> RelayStep {
    match outcome {
        ReadOutcome::Bytes(n) => if n == 0 {
            RelayStep::EndOfOutput
        } else {
            RelayStep::Forward { first: !sent_any }
        },
        ReadOutcome::Eof => RelayStep::EndOfOutput,
        ReadOutcome::TimedOut => RelayStep::GiveUp,
        ReadOutcome::Failed => RelayStep::Error,
    }
}

/// How a trial ends once the relay loop has stopped.
pub open spec fn spec_exit_after_relay(connection_alive: bool, restart_requested: bool, sent_any: bool) -> StreamExit {
    if !connection_alive {
        StreamExit::SocketClosed
    } else if restart_requested {
        StreamExit::RestartRequested
    } else if sent_any {
        StreamExit::Streamed
    } else {
        StreamExit::Unavailable
    }
}

impl RelayState {
    pub fn new() -> (r: Self)
        ensures
            !r.sent_any,
    {
        RelayState { sent_any: false }
    }

    /// Decides what to do with a read: forward data (noting the first output), stop at the
    /// end of output, give up on a probe timeout, or fail on a read error.
    pub fn on_read(&mut self, outcome: ReadOutcome) -> (r: RelayStep)
        ensures
            r == spec_relay_step(old(self).sent_any, outcome),
            final(self).sent_any == (old(self).sent_any || r is Forward),
    {
        match outcome {
            ReadOutcome::Bytes(n) => {
                if n == 0 {
                    RelayStep::EndOfOutput
                } else {
                    let first = !self.sent_any;
                    self.sent_any = true;
                    RelayStep::Forward { first }
                }
            },
            ReadOutcome::Eof => RelayStep::EndOfOutput,
            ReadOutcome::TimedOut => RelayStep::GiveUp,
            ReadOutcome::Failed => RelayStep::Error,
        }
    }

    /// How the trial ends after a chunk was sent: a failed or stalled send closes it.
    pub fn on_send(&self, outcome: SendOutcome) -> (r: Option<StreamExit>)
        ensures
            r == (match outcome {
                SendOutcome::Sent => None,
                _ => Some(StreamExit::SocketClosed),
            }),
    {
        match outcome {
            SendOutcome::Sent => None,
            SendOutcome::Failed | SendOutcome::Stalled => Some(StreamExit::SocketClosed),
        }
    }

    /// Whether reads still wait for the probe deadline (nothing sent yet).
    pub fn probing(&self) -> (r: bool)
        ensures
            r == !self.sent_any,
    {
        !self.sent_any
    }

    /// How the trial ends once the relay loop stopped.
    pub fn exit(&self, connection_alive: bool, restart_requested: bool) -> (r: StreamExit)
        ensures
            r == spec_exit_after_relay(connection_alive, restart_requested, self.sent_any),
    {
        if !connection_alive {
            StreamExit::SocketClosed
        } else if restart_requested {
            StreamExit::RestartRequested
        } else if self.sent_any {
            StreamExit::Streamed
        } else {
            StreamExit::Unavailable
        }
    }
}

/// A trial counts as streamed only when some output reached a live client without restart.
pub proof fn law_streamed_needs_output(alive: bool, restart: bool, sent_any: bool)
    ensures
        spec_exit_after_relay(alive, restart, sent_any) == StreamExit::Streamed <==> (alive && !restart
            && sent_any),
        !alive ==> spec_exit_after_relay(alive, restart, sent_any) == StreamExit::SocketClosed,
{
}

/// The settings after an AMF trial first produced output with the given pre-input
/// arguments: the device they select becomes the preferred AMF device.
pub open spec fn spec_amf_success(s: HostSettingsView, pre: Seq<Seq<char>>) -> HostSettingsView {
    HostSettingsView { preferred_amf_device: spec_amf_device(pre), ..s }
}

/// Remembers the AMF device of a trial that produced output; says whether the settings
/// changed (and so need saving).
pub fn record_amf_success(settings: &mut HostSettings, pre_input_args: &[String]) -> (changed: bool)
    ensures
        final(settings)@ == spec_amf_success(old(settings)@, views(pre_input_args@)),
        changed == (old(settings)@.preferred_amf_device != spec_amf_device(views(pre_input_args@))),
{
    let successful_device = amf_device_from_pre_args(pre_input_args);
    if settings.preferred_amf_device != successful_device {
        settings.preferred_amf_device = successful_device;
        true
    } else {
        false
    }
}

/// A stderr line that reports a problem (logged as a warning).
pub open spec fn is_problem_line(line: Seq<char>) -> bool {
    let low = lower(line);
    contains(low, "error"@) || contains(low, "invalid"@) || contains(low, "could not"@) || contains(
        low,
        "no such"@,
    ) || contains(low, "failed"@)
}

/// Whether an FFmpeg stderr line reports a problem.
pub fn ffmpeg_line_is_problem(line: &str) -> (r: bool)
    ensures
        r == is_problem_line(line@),
{
    let raw = chars_of(line);
    let low = lower_chars(&raw);
    chars_contain_str(&low, "error") || chars_contain_str(&low, "invalid") || chars_contain_str(
        &low,
        "could not",
    ) || chars_contain_str(&low, "no such") || chars_contain_str(&low, "failed")
}

/// The end-to-end latency ticker frame `T:<micros>`.
pub fn ticker_message(now_us: u128) -> (r: String)
    ensures
        r@ == "T:"@ + decimal(now_us as nat),
{
    let mut s = String::from_str("T:");
    let mut d: Vec<char> = Vec::new();
    push_decimal(&mut d, now_us);
    append_chars(&mut s, &d);
    s
}

/// A WinGet package directory that holds Gyan's FFmpeg build.
pub fn is_winget_ffmpeg_package(dir_name: &str) -> (r: bool)
    ensures
        r == starts_with(dir_name@, "Gyan.FFmpeg_"@),
{
    let v = chars_of(dir_name);
    let p = chars_of("Gyan.FFmpeg_");
    chars_start_with(&v, &p)
}

pub open spec fn is_leap(y: nat) -> bool {
    y % 400 == 0 || (y % 4 == 0 && y % 100 != 0)
}

pub open spec fn year_days(y: nat) -> nat {
    if is_leap(y) {
        366
    } else {
        365
    }
}

/// The year that day `d` (counted from 1 January of year `y`) falls in, and its day of the year.
pub open spec fn civil_year(d: nat, y: nat) -> (nat, nat)
    decreases d,
{
    if d < year_days(y) {
        (y, d)
    } else {
        civil_year((d - year_days(y)) as nat, y + 1)
    }
}

pub open spec fn month_lengths(leap: bool) -> Seq<nat> {
    seq![31, if leap { 29 } else { 28 }, 31, 30, 31, 30, 31, 31, 30, 31, 30, 31]
}

/// The month (numbered from `m`) that day `d` of the remaining months falls in, and the day
/// within that month (from 0).
pub open spec fn civil_month(d: nat, months: Seq<nat>, m: nat) -> (nat, nat)
    decreases months.len(),
{
    if months.len() == 0 || d < months[0] {
        (m, d)
    } else {
        civil_month((d - months[0]) as nat, months.drop_first(), m + 1)
    }
}

/// `YYYYMMDD-HHMMSS` (UTC) for a UNIX time in seconds.
pub open spec fn log_timestamp(secs: nat) -> Seq<char> {
    let days = secs / 86400;
    let rem = secs % 86400;
    let (year, day_of_year) = civil_year(days, 1970);
    let (month, day) = civil_month(day_of_year, month_lengths(is_leap(year)), 1);
    pad_zeros(decimal(year), 4) + pad_zeros(decimal(month), 2) + pad_zeros(decimal(day + 1), 2) + "-"@
        + pad_zeros(decimal(rem / 3600), 2) + pad_zeros(decimal((rem % 3600) / 60), 2) + pad_zeros(
        decimal(rem % 60),
        2,
    )
}

/// The encoder name with `:` and `/` replaced by `_`.
pub open spec fn safe_name(s: Seq<char>) -> Seq<char> {
    s.map_values(|c: char| if c == ':' || c == '/' { '_' } else { c })
}

/// `ffmpeg-<encoder>-<timestamp>.txt`.
pub open spec fn spec_log_file_name(encoder: Seq<char>, secs: nat) -> Seq<char> {
    "ffmpeg-"@ + safe_name(encoder) + "-"@ + log_timestamp(secs) + ".txt"@
}

proof fn lemma_civil_year_step(d: nat, y: nat)
    requires
        d >= year_days(y),
    ensures
        civil_year(d, y) == civil_year((d - year_days(y)) as nat, y + 1),
{
}

/// Splits a day count since 1 January 1970 into (year, day of year).
fn year_and_day(days: u64) -> (r: (u64, u64))
    requires
        days <= u64::MAX - 1970,
    ensures
        (r.0 as nat, r.1 as nat) == civil_year(days as nat, 1970),
{
    let mut year: u64 = 1970;
    let mut d: u64 = days;
    loop
        invariant
            civil_year(d as nat, year as nat) == civil_year(days as nat, 1970),
            year + d <= 1970 + days,
            days <= u64::MAX - 1970,
        decreases d,
    {
        let len: u64 = if year % 400 == 0 || (year % 4 == 0 && year % 100 != 0) {
            366
        } else {
            365
        };
        assert(len == year_days(year as nat));
        if d < len {
            return (year, d);
        }
        proof {
            lemma_civil_year_step(d as nat, year as nat);
        }
        d = d - len;
        year = year + 1;
    }
}

/// Splits a day of the year into (month, day of month from 0).
fn month_and_day(day_of_year: u64, leap: bool) -> (r: (u64, u64))
    ensures
        (r.0 as nat, r.1 as nat) == civil_month(day_of_year as nat, month_lengths(leap), 1),
{
    let feb: u64 = if leap {
        29
    } else {
        28
    };
    let months: [u64; 12] = [31, feb, 31, 30, 31, 30, 31, 31, 30, 31, 30, 31];
    let ghost ml = month_lengths(leap);
    assert(forall|i: int| 0 <= i < 12 ==> months@[i] as nat == #[trigger] ml[i]);
    let mut month: u64 = 1;
    let mut d: u64 = day_of_year;
    let mut i: usize = 0;
    assert(ml.subrange(0, 12) =~= ml);
    while i < 12
        invariant
            i <= 12,
            month == i + 1,
            ml == month_lengths(leap),
            forall|k: int| 0 <= k < 12 ==> months@[k] as nat == #[trigger] ml[k],
            civil_month(d as nat, ml.subrange(i as int, 12), month as nat) == civil_month(
                day_of_year as nat,
                ml,
                1,
            ),
        decreases 12 - i,
    {
        let m = months[i];
        let ghost rest = ml.subrange(i as int, 12);
        assert(rest[0] == ml[i as int]);
        if d < m {
            return (month, d);
        }
        assert(rest.drop_first() =~= ml.subrange(i + 1, 12));
        d = d - m;
        month = month + 1;
        i = i + 1;
    }
    assert(ml.subrange(12, 12).len() == 0);
    (month, d)
}

/// Appends `n` zero-padded to `width` digits.
fn push_padded(out: &mut Vec<char>, n: u64, width: usize)
    ensures
        final(out)@ == old(out)@ + pad_zeros(decimal(n as nat), width as nat),
{
    push_decimal_padded(out, n as u128, width);
}

/// The log timestamp `YYYYMMDD-HHMMSS` (UTC) of a UNIX time.
pub fn log_timestamp_chars(unix_secs: u64) -> (r: Vec<char>)
    ensures
        r@ == log_timestamp(unix_secs as nat),
{
    let days = unix_secs / 86400;
    let rem = unix_secs % 86400;
    let hh = rem / 3600;
    let mm = (rem % 3600) / 60;
    let ss = rem % 60;
    let (year, day_of_year) = year_and_day(days);
    let leap = year % 400 == 0 || (year % 4 == 0 && year % 100 != 0);
    let (month, d) = month_and_day(day_of_year, leap);
    proof {
        let (y, dy) = civil_year(days as nat, 1970);
        assert(y == year as nat && dy == day_of_year as nat);
        lemma_civil_year_bound(days as nat, 1970);
        assert(d < 400) by {
            lemma_civil_month_small(day_of_year as nat, leap);
        }
    }
    let mut out: Vec<char> = Vec::new();
    push_padded(&mut out, year, 4);
    push_padded(&mut out, month, 2);
    push_padded(&mut out, d + 1, 2);
    out.push('-');
    push_padded(&mut out, hh, 2);
    push_padded(&mut out, mm, 2);
    push_padded(&mut out, ss, 2);
    proof {
        reveal_strlit("-");
    }
    assert(out@ =~= log_timestamp(unix_secs as nat));
    out
}

proof fn lemma_civil_year_bound(d: nat, y: nat)
    ensures
        civil_year(d, y).1 < year_days(civil_year(d, y).0),
        civil_year(d, y).0 >= y,
    decreases d,
{
    if d >= year_days(y) {
        lemma_civil_year_bound((d - year_days(y)) as nat, y + 1);
    }
}

proof fn lemma_civil_month_small(d: nat, leap: bool)
    requires
        d < 366,
    ensures
        civil_month(d, month_lengths(leap), 1).1 < 400,
{
    lemma_civil_month_le(d, month_lengths(leap), 1);
}

proof fn lemma_civil_month_le(d: nat, months: Seq<nat>, m: nat)
    ensures
        civil_month(d, months, m).1 <= d,
    decreases months.len(),
{
    if !(months.len() == 0 || d < months[0]) {
        lemma_civil_month_le((d - months[0]) as nat, months.drop_first(), m + 1);
    }
}

/// The name of the log file of one FFmpeg trial started at `unix_secs`.
pub fn ffmpeg_log_file_name(encoder: &str, unix_secs: u64) -> (r: String)
    ensures
        r@ == spec_log_file_name(encoder@, unix_secs as nat),
{
    let raw = chars_of(encoder);
    let mut safe: Vec<char> = Vec::new();
    let mut i: usize = 0;
    while i < raw.len()
        invariant
            i <= raw@.len(),
            safe@ == safe_name(raw@.subrange(0, i as int)),
        decreases raw@.len() - i,
    {
        let c = raw[i];
        safe.push(if c == ':' || c == '/' { '_' } else { c });
        i = i + 1;
        assert(safe@ =~= safe_name(raw@.subrange(0, i as int)));
    }
    assert(raw@.subrange(0, raw@.len() as int) =~= raw@);
    let mut name = String::from_str("ffmpeg-");
    append_chars(&mut name, &safe);
    append_str(&mut name, "-");
    append_chars(&mut name, &log_timestamp_chars(unix_secs));
    append_str(&mut name, ".txt");
    name
}


pub open spec fn total(s: Seq<nat>) -> nat
    decreases s.len(),
{
    if s.len() == 0 {
        0
    } else {
        s[0] + total(s.drop_first())
    }
}

proof fn lemma_civil_month_range(d: nat, months: Seq<nat>, m: nat)
    requires
        d < total(months),
    ensures
        m <= civil_month(d, months, m).0 < m + months.len(),
        civil_month(d, months, m).1 < months[civil_month(d, months, m).0 - m],
    decreases months.len(),
{
    if !(d < months[0]) {
        let rest = months.drop_first();
        lemma_civil_month_range((d - months[0]) as nat, rest, m + 1);
        let r = civil_month((d - months[0]) as nat, rest, m + 1);
        assert(rest[r.0 - (m + 1)] == months[r.0 - m]);
    }
}

proof fn lemma_month_total(leap: bool)
    ensures
        total(month_lengths(leap)) == if leap { 366nat } else { 365nat },
{
    let ml = month_lengths(leap);
    reveal_with_fuel(total, 13);
    assert(ml.drop_first() =~= seq![if leap { 29nat } else { 28nat }, 31nat, 30, 31, 30, 31, 31, 30, 31, 30, 31]);
    assert(total(ml) == 31 + total(ml.drop_first()));
}

/// The log timestamp is a real UTC date and time: a year from 1970, month 1–12, a day
/// within the month, and hours, minutes and seconds in range.
pub proof fn law_log_timestamp_fields(secs: nat)
    ensures
        ({
            let days = secs / 86400;
            let rem = secs % 86400;
            let (year, day_of_year) = civil_year(days, 1970);
            let (month, day) = civil_month(day_of_year, month_lengths(is_leap(year)), 1);
            &&& year >= 1970
            &&& 1 <= month <= 12
            &&& day + 1 <= month_lengths(is_leap(year))[month - 1] <= 31
            &&& rem / 3600 < 24
            &&& (rem % 3600) / 60 < 60
            &&& rem % 60 < 60
        }),
{
    let days = secs / 86400;
    let (year, day_of_year) = civil_year(days, 1970);
    lemma_civil_year_bound(days, 1970);
    lemma_month_total(is_leap(year));
    lemma_civil_month_range(day_of_year, month_lengths(is_leap(year)), 1);
}


/// The bitrate given to the encoder: AMF keeps a requested bitrate inside 5–18 Mbps as it
/// is and moves others to the nearer bound; libx264 and NVENC keep bitrates up to their
/// ceilings (12 and 8 Mbps) and cut larger ones to it; other encoders get the request
/// unchanged. It never exceeds the request, unless the request is below AMF's floor.
pub proof fn law_effective_bitrate(encoder: Seq<char>, kbps: u32)
    ensures
        encoder == "h264_amf"@ && 5_000 <= kbps <= 18_000 ==> spec_effective_bitrate(encoder, kbps) == kbps,
        encoder == "h264_amf"@ && kbps < 5_000 ==> spec_effective_bitrate(encoder, kbps) == 5_000,
        encoder == "h264_amf"@ && kbps > 18_000 ==> spec_effective_bitrate(encoder, kbps) == 18_000,
        encoder == "libx264"@ ==> spec_effective_bitrate(encoder, kbps) == (if kbps <= 12_000 {
            kbps
        } else {
            12_000
        }),
        encoder == "h264_nvenc"@ ==> spec_effective_bitrate(encoder, kbps) == (if kbps <= 8_000 {
            kbps
        } else {
            8_000
        }),
        encoder != "h264_amf"@ && encoder != "libx264"@ && encoder != "h264_nvenc"@
            ==> spec_effective_bitrate(encoder, kbps) == kbps,
        spec_effective_bitrate(encoder, kbps) <= kbps || (encoder == "h264_amf"@ && kbps < 5_000),
{
    reveal_strlit("h264_amf");
    reveal_strlit("h264_nvenc");
    reveal_strlit("libx264");
    assert("h264_amf"@[0] != "libx264"@[0]);
    assert("h264_amf"@[5] != "h264_nvenc"@[5]);
    assert("h264_nvenc"@[0] != "libx264"@[0]);
}

/// The VBV buffer is a twelfth of the bitrate on the GPU encoders and a quarter elsewhere
/// (rounded down).
pub proof fn law_vbv_buffer(encoder: Seq<char>, kbps: u32)
    ensures
        (encoder == "h264_nvenc"@ || encoder == "h264_amf"@ || encoder == "h264_qsv"@) ==> 12
            * spec_bufsize(encoder, kbps) <= kbps < 12 * spec_bufsize(encoder, kbps) + 12,
        !(encoder == "h264_nvenc"@ || encoder == "h264_amf"@ || encoder == "h264_qsv"@) ==> 4
            * spec_bufsize(encoder, kbps) <= kbps < 4 * spec_bufsize(encoder, kbps) + 4,
{
}


/// One keyframe per second for NVENC (30–120 fps), AMF (30–60 fps) and libx264 (15–30 fps)
/// inside those ranges; QSV puts one every half second at 30–60 fps; keyframes are always
/// 15–120 frames apart.
pub proof fn law_gop_one_second(encoder: Seq<char>, fps: u32)
    ensures
        encoder == "h264_nvenc"@ && 30 <= fps <= 120 ==> spec_gop(encoder, fps) == fps,
        encoder == "h264_amf"@ && 30 <= fps <= 60 ==> spec_gop(encoder, fps) == fps,
        encoder == "libx264"@ && 15 <= fps <= 30 ==> spec_gop(encoder, fps) == fps,
        encoder == "h264_qsv"@ && 30 <= fps <= 60 ==> spec_gop(encoder, fps) == fps / 2,
        15 <= spec_gop(encoder, fps) <= 120,
{
    reveal_strlit("h264_amf");
    reveal_strlit("h264_nvenc");
    reveal_strlit("h264_qsv");
    reveal_strlit("libx264");
    assert("h264_amf"@[0] != "libx264"@[0]);
    assert("h264_qsv"@[0] != "libx264"@[0]);
    assert("h264_nvenc"@[0] != "libx264"@[0]);
    assert("h264_amf"@[5] != "h264_nvenc"@[5]);
    assert("h264_qsv"@[5] != "h264_nvenc"@[5]);
    assert("h264_amf"@[5] != "h264_qsv"@[5]);
}

} // verus!
