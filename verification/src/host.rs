//! What the host's HTTP routes decide: the brand logo, the status mode, LAN address and ADB
//! device detection from command output, and the control panel URL.
use crate::adaptive::{spec_evaluate, tuning_name, updated_stat, AdaptiveStreamState, AdaptiveView, PlaybackTuning};
use crate::settings::opt_str_view;
use crate::text::{
    append_chars, append_str, chars_contain_str, chars_end_with, chars_of, contains, decimal,
    ends_with, push_decimal, signed_decimal, signed_decimal_string, str_eq, string_from_chars,
    trim, trim_chars,
};
use vstd::prelude::*;

verus! {

/// The bytes of the brand logo: a 1×1 transparent PNG.
pub open spec fn logo_png() -> Seq<u8> {
    seq![0x89u8, 0x50, 0x4E, 0x47, 0x0D, 0x0A, 0x1A, 0x0A, 0x00, 0x00, 0x00, 0x0D, 0x49, 0x48, 0x44, 0x52, 0x00, 0x00, 0x00, 0x01, 0x00, 0x00, 0x00, 0x01, 0x08, 0x06, 0x00, 0x00, 0x00, 0x1F, 0x15, 0xC4, 0x89, 0x00, 0x00, 0x00, 0x0B, 0x49, 0x44, 0x41, 0x54, 0x78, 0x9C, 0x62, 0x00, 0x00, 0x00, 0x02, 0x00, 0x01, 0xE5, 0x27, 0xDE, 0xFC, 0x00, 0x00, 0x00, 0x00, 0x49, 0x45, 0x4E, 0x44, 0xAE, 0x42, 0x60, 0x82]
}

/// The 1×1 PNG served as the brand logo.
pub fn logo_png_bytes() -> (r: &'static [u8])
    ensures
        r@ == logo_png(),
{
    &[
        0x89, 0x50, 0x4E, 0x47, 0x0D, 0x0A, 0x1A, 0x0A, 0x00, 0x00, 0x00, 0x0D, 0x49, 0x48, 0x44,
        0x52, 0x00, 0x00, 0x00, 0x01, 0x00, 0x00, 0x00, 0x01, 0x08, 0x06, 0x00, 0x00, 0x00, 0x1F,
        0x15, 0xC4, 0x89, 0x00, 0x00, 0x00, 0x0B, 0x49, 0x44, 0x41, 0x54, 0x78, 0x9C, 0x62, 0x00,
        0x00, 0x00, 0x02, 0x00, 0x01, 0xE5, 0x27, 0xDE, 0xFC, 0x00, 0x00, 0x00, 0x00, 0x49, 0x45,
        0x4E, 0x44, 0xAE, 0x42, 0x60, 0x82,
    ]
}


/// The connection mode the status page shows: `usb` when the host listens on loopback only
/// (`127.0.0.1` or `localhost`, reached through `adb reverse`), `wifi` otherwise.
pub open spec fn spec_host_mode(listen_host: Seq<char>) -> Seq<char> {
    if listen_host == "127.0.0.1"@ || listen_host == "localhost"@ {
        "usb"@
    } else {
        "wifi"@
    }
}

pub fn host_mode(listen_host: &str) -> (r: &'static str)
    ensures
        r@ == spec_host_mode(listen_host@),
{
    if str_eq(listen_host, "127.0.0.1") || str_eq(listen_host, "localhost") {
        "usb"
    } else {
        "wifi"
    }
}

/// The LAN address in the output of the address query: the trimmed output, unless it is
/// empty or holds a space.
pub open spec fn spec_lan_ip(output: Seq<char>) -> Option<Seq<char>> {
    let t = trim(output);
    if t.len() == 0 || contains(t, " "@) {
        None
    } else {
        Some(t)
    }
}

pub fn lan_ip_from_output(output: &str) -> (r: Option<String>)
    ensures
        opt_str_view(r) == spec_lan_ip(output@),
{
    let v = chars_of(output);
    let t = trim_chars(&v);
    if t.len() == 0 || chars_contain_str(&t, " ") {
        None
    } else {
        Some(string_from_chars(&t))
    }
}

/// The pieces of a text between line feeds (`split('\n')`): one more piece than line feeds.
pub open spec fn split_lines(s: Seq<char>) -> Seq<Seq<char>>
    decreases s.len(),
{
    if s.len() == 0 {
        seq![Seq::empty()]
    } else {
        let r = split_lines(s.drop_last());
        if s.last() == '\n' {
            r.push(Seq::empty())
        } else {
            r.update(r.len() - 1, r.last().push(s.last()))
        }
    }
}

proof fn lemma_split_lines_nonempty(s: Seq<char>)
    ensures
        split_lines(s).len() >= 1,
    decreases s.len(),
{
    if s.len() > 0 {
        lemma_split_lines_nonempty(s.drop_last());
    }
}

/// A line of `adb devices` that lists an attached, authorised device.
pub open spec fn is_device_line(line: Seq<char>) -> bool {
    ends_with(trim(line), "\tdevice"@) || ends_with(trim(line), " device"@)
}

/// Whether `adb devices` output lists a device after its header line.
pub open spec fn spec_lists_device(output: Seq<char>) -> bool {
    exists|i: int| 1 <= i < split_lines(output).len() && is_device_line(#[trigger] split_lines(output)[i])
}

fn is_device_line_exec(line: &[char]) -> (r: bool)
    ensures
        r == is_device_line(line@),
{
    let t = trim_chars(line);
    let tab = chars_of("\tdevice");
    let sp = chars_of(" device");
    chars_end_with(&t, &tab) || chars_end_with(&t, &sp)
}

/// Whether the output of `adb devices` lists a connected device (any line after the
/// header that ends in `device`, separated by a tab or a space).
pub fn adb_lists_device(output: &str) -> (r: bool)
    ensures
        r == spec_lists_device(output@),
{
    let v = chars_of(output);
    let ghost s = v@;
    let mut cur: Vec<char> = Vec::new();
    let mut line_no: usize = 0;
    let mut found = false;
    let mut i: usize = 0;
    while i < v.len()
        invariant
            i <= s.len(),
            s == v@,
            split_lines(s.subrange(0, i as int)).len() == line_no + 1,
            split_lines(s.subrange(0, i as int)).last() == cur@,
            found == exists|k: int| 1 <= k < line_no && is_device_line(#[trigger] split_lines(s.subrange(0, i as int))[k]),
            line_no <= i,
        decreases s.len() - i,
    {
        let c = v[i];
        let ghost pre = s.subrange(0, i as int);
        let ghost next = s.subrange(0, i + 1);
        proof {
            assert(next.drop_last() =~= pre);
            assert(next.last() == c);
            lemma_split_lines_nonempty(pre);
        }
        if c == '\n' {
            if line_no >= 1 && !found {
                found = is_device_line_exec(&cur);
            }
            proof {
                let r = split_lines(pre);
                assert(split_lines(next) == r.push(Seq::empty()));
                assert forall|k: int| 1 <= k < line_no + 1 implies split_lines(next)[k] == r[k] by {}
                if line_no >= 1 {
                    assert(r[line_no as int] == cur@);
                }
            }
            cur = Vec::new();
            line_no = line_no + 1;
        } else {
            proof {
                let r = split_lines(pre);
                assert(split_lines(next) == r.update(r.len() - 1, r.last().push(c)));
                assert forall|k: int| 1 <= k < line_no implies split_lines(next)[k] == r[k] by {}
            }
            cur.push(c);
        }
        i = i + 1;
    }
    assert(s.subrange(0, s.len() as int) =~= s);
    let last_matches = line_no >= 1 && is_device_line_exec(&cur);
    found || last_matches
}

/// Dotted-quad notation of an IPv4 address.
pub open spec fn dotted(o: [u8; 4]) -> Seq<char> {
    decimal(o[0] as nat) + "."@ + decimal(o[1] as nat) + "."@ + decimal(o[2] as nat) + "."@
        + decimal(o[3] as nat)
}

/// The control panel URL: the listening address, or loopback when listening on every
/// interface (`0.0.0.0`).
pub open spec fn spec_gui_url(o: [u8; 4], port: u16) -> Seq<char> {
    let host = if o[0] == 0 && o[1] == 0 && o[2] == 0 && o[3] == 0 {
        "127.0.0.1"@
    } else {
        dotted(o)
    };
    "http://"@ + host + ":"@ + decimal(port as nat)
}

fn append_u32(out: &mut String, n: u32)
    ensures
        final(out)@ == old(out)@ + decimal(n as nat),
{
    let mut d: Vec<char> = Vec::new();
    push_decimal(&mut d, n as u128);
    assert(d@ =~= decimal(n as nat));
    append_chars(out, &d);
}

pub fn gui_url(listen_octets: [u8; 4], port: u16) -> (r: String)
    ensures
        r@ == spec_gui_url(listen_octets, port),
{
    let mut url = String::from_str("http://");
    if listen_octets[0] == 0 && listen_octets[1] == 0 && listen_octets[2] == 0 && listen_octets[3] == 0 {
        append_str(&mut url, "127.0.0.1");
    } else {
        append_u32(&mut url, listen_octets[0] as u32);
        append_str(&mut url, ".");
        append_u32(&mut url, listen_octets[1] as u32);
        append_str(&mut url, ".");
        append_u32(&mut url, listen_octets[2] as u32);
        append_str(&mut url, ".");
        append_u32(&mut url, listen_octets[3] as u32);
    }
    append_str(&mut url, ":");
    append_u32(&mut url, port as u32);
    url
}

/// The member `key` of the JSON document `text`, read as a string, as a signed and as an
/// unsigned integer (`None` when the text is not JSON or holds no such member).
pub uninterp spec fn json_member(text: Seq<char>, key: Seq<char>) -> Option<(Option<Seq<char>>, Option<i64>, Option<u64>)>;

/// The view of a member read from a JSON document.
pub open spec fn member_view(m: Option<(Option<String>, Option<i64>, Option<u64>)>) -> Option<
    (Option<Seq<char>>, Option<i64>, Option<u64>),
> {
    match m {
        Some((t, i, u)) => Some((opt_str_view(t), i, u)),
        None => None,
    }
}

/// serde_json: `from_str::<Value>(text)`, then `Value::get(key)` on the document, then
/// `as_str`, `as_i64` and `as_u64` of that member. The contract claims only that the result
/// is a function of the text and the key (named `json_member`); what the parser reads is not
/// stated.
#[verifier::external_body]
fn read_json_member(text: &str, key: &str) -> (r: Option<(Option<String>, Option<i64>, Option<u64>)>)
    ensures
        member_view(r) == json_member(text@, key@),
{
    let doc = serde_json::from_str::<serde_json::Value>(text).ok()?;
    let m = doc.get(key)?;
    Some((m.as_str().map(|t| t.to_string()), m.as_i64(), m.as_u64()))
}

/// The string reading of a member.
pub open spec fn member_str(m: Option<(Option<Seq<char>>, Option<i64>, Option<u64>)>) -> Option<Seq<char>> {
    match m {
        Some((t, _, _)) => t,
        None => None,
    }
}

/// The signed integer reading of a member.
pub open spec fn member_i64(m: Option<(Option<Seq<char>>, Option<i64>, Option<u64>)>) -> Option<i64> {
    match m {
        Some((_, i, _)) => i,
        None => None,
    }
}

/// The unsigned integer reading of a member.
pub open spec fn member_u64(m: Option<(Option<Seq<char>>, Option<i64>, Option<u64>)>) -> Option<u64> {
    match m {
        Some((_, _, u)) => u,
        None => None,
    }
}

/// A latency probe from the client.
#[derive(Clone, Copy, Debug, PartialEq, Eq, Structural)]
pub struct PingReport {
    pub ts_ms: i64,
    pub glass_ms: u32,
    pub dec_ms: u32,
}

pub open spec fn spec_ping_report(
    type_field: Option<Seq<char>>,
    ts_ms: Option<i64>,
    glass_ms: Option<u64>,
    dec_ms: Option<u64>,
) -> Option<PingReport> {
    if type_field == Some("ping"@) {
        Some(PingReport {
            ts_ms: match ts_ms { Some(t) => t, None => 0 },
            glass_ms: (match glass_ms { Some(g) => g, None => 0 }) as u32,
            dec_ms: (match dec_ms { Some(d) => d, None => 0 }) as u32,
        })
    } else {
        None
    }
}

/// Reads a latency probe from the fields of a client message: a message whose `type` is
/// `ping` is one; a missing time stamp or latency counts as 0, latencies are cut to 32 bits.
pub fn ping_report(
    type_field: Option<String>,
    ts_ms: Option<i64>,
    glass_ms: Option<u64>,
    dec_ms: Option<u64>,
) -> (r: Option<PingReport>)
    ensures
        r == spec_ping_report(opt_str_view(type_field), ts_ms, glass_ms, dec_ms),
{
    let is_ping = match &type_field {
        Some(t) => str_eq(t.as_str(), "ping"),
        None => false,
    };
    if !is_ping {
        return None;
    }
    let g: u64 = match glass_ms {
        Some(g) => g,
        None => 0,
    };
    let d: u64 = match dec_ms {
        Some(d) => d,
        None => 0,
    };
    Some(PingReport {
        ts_ms: match ts_ms {
            Some(t) => t,
            None => 0,
        },
        glass_ms: g as u32,
        dec_ms: d as u32,
    })
}

/// What a client text message gives as a latency probe: the report that `ping_report` builds
/// from the message's `type`, `ts_ms`, `glass_ms` and `dec_ms` members.
pub open spec fn spec_parse_ping(text: Seq<char>) -> Option<PingReport> {
    spec_ping_report(
        member_str(json_member(text, "type"@)),
        member_i64(json_member(text, "ts_ms"@)),
        member_u64(json_member(text, "glass_ms"@)),
        member_u64(json_member(text, "dec_ms"@)),
    )
}

/// Reads a client text message as a latency probe, when it is a JSON object whose `type` is
/// `ping`.
pub fn parse_ping(text: &str) -> (r: Option<PingReport>)
    ensures
        r == spec_parse_ping(text@),
{
    let type_field = match read_json_member(text, "type") {
        Some((t, _, _)) => t,
        None => None,
    };
    let ts_ms = match read_json_member(text, "ts_ms") {
        Some((_, i, _)) => i,
        None => None,
    };
    let glass_ms = match read_json_member(text, "glass_ms") {
        Some((_, _, u)) => u,
        None => None,
    };
    let dec_ms = match read_json_member(text, "dec_ms") {
        Some((_, _, u)) => u,
        None => None,
    };
    ping_report(type_field, ts_ms, glass_ms, dec_ms)
}

/// `{"type":"pong","ts_ms":…,"host_us":…,"stream_send_us":…,"tuning":"…"}`.
pub open spec fn spec_pong(ts_ms: i64, host_us: u64, stream_send_us: u64, tuning: PlaybackTuning) -> Seq<char> {
    "{\"type\":\"pong\",\"ts_ms\":"@ + signed_decimal(ts_ms as int) + ",\"host_us\":"@ + decimal(host_us as nat)
        + ",\"stream_send_us\":"@ + decimal(stream_send_us as nat) + ",\"tuning\":\""@ + tuning_name(tuning)
        + "\"}"@
}

fn append_u64(out: &mut String, n: u64)
    ensures
        final(out)@ == old(out)@ + decimal(n as nat),
{
    let mut d: Vec<char> = Vec::new();
    push_decimal(&mut d, n as u128);
    assert(d@ =~= decimal(n as nat));
    append_chars(out, &d);
}

/// Answers a latency probe: the client's latencies are recorded, the tuning is re-evaluated,
/// and the pong carries the probe's time stamp, the host clock, the latest stream send time
/// and the tuning.
pub fn answer_ping(
    report: PingReport,
    adaptive: &mut AdaptiveStreamState,
    host_us: u64,
    stream_send_us: u64,
) -> (r: String)
    ensures
        final(adaptive)@ == (AdaptiveView {
            glass_ms: updated_stat(old(adaptive)@.glass_ms, report.glass_ms),
            dec_ms: updated_stat(old(adaptive)@.dec_ms, report.dec_ms),
            ..old(adaptive)@
        }),
        r@ == spec_pong(report.ts_ms, host_us, stream_send_us, spec_evaluate(final(adaptive)@.motion_milli, final(adaptive)@.glass_ms)),
{
    adaptive.update_client_stats(report.glass_ms, report.dec_ms);
    let tuning = adaptive.evaluate_tuning();
    let mut m = String::from_str("{\"type\":\"pong\",\"ts_ms\":");
    let ts = signed_decimal_string(report.ts_ms);
    append_str(&mut m, ts.as_str());
    append_str(&mut m, ",\"host_us\":");
    append_u64(&mut m, host_us);
    append_str(&mut m, ",\"stream_send_us\":");
    append_u64(&mut m, stream_send_us);
    append_str(&mut m, ",\"tuning\":\"");
    append_str(&mut m, tuning.as_str());
    append_str(&mut m, "\"}");
    m
}

} // verus!
