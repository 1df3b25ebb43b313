//! Reading a media description out of the probing tool's structured
//! output: locate the first video stream, take the duration from the
//! container-level format block, the dimensions and codec from the stream,
//! and the frame rate as an exact `num/den` rational. The probing tool
//! emits JSON; its parsed value is navigated through a small set of
//! trusted accessors over an abstract model of the JSON tree.

use vstd::prelude::*;
use crate::text::{all_digits, dec_val, digit_val, find_char, parse_u64};
use crate::types::VideoMetadata;

verus! {

/// Why no metadata could be read.
#[derive(Clone, Copy, Debug, PartialEq, Eq, Structural)]
pub enum ProbeError {
    /// The probing tool exited with a failure.
    EngineFailed,
    /// Its output is not parseable structured data.
    NotParseable,
    /// The output carries no stream list.
    NoStreams,
    /// No stream is a video stream.
    NoVideoStream,
    /// The format block carries no duration field.
    NoDuration,
    /// The duration field does not denote a time that fits.
    BadDuration,
    /// The video stream carries no width.
    NoWidth,
    /// The video stream carries no height.
    NoHeight,
    /// The video stream carries no frame-rate field.
    NoFrameRate,
    /// The frame-rate field is not a `num/den` rational.
    BadFrameRate,
}

/// The description a probe failure carries.
pub open spec fn probe_message_of(e: ProbeError) -> Seq<char> {
    match e {
        ProbeError::EngineFailed => "ffprobe command failed"@,
        ProbeError::NotParseable => "probe output is not parseable"@,
        ProbeError::NoStreams => "No streams found"@,
        ProbeError::NoVideoStream => "No video stream found"@,
        ProbeError::NoDuration => "No duration found"@,
        ProbeError::BadDuration => "Invalid duration"@,
        ProbeError::NoWidth => "No width found"@,
        ProbeError::NoHeight => "No height found"@,
        ProbeError::NoFrameRate => "No frame rate found"@,
        ProbeError::BadFrameRate => "Invalid frame rate format"@,
    }
}

impl ProbeError {
    /// A human-readable description.
    pub fn message(&self) -> (r: &'static str)
        ensures
            r@ == probe_message_of(*self),
    {
        match self {
            ProbeError::EngineFailed => "ffprobe command failed",
            ProbeError::NotParseable => "probe output is not parseable",
            ProbeError::NoStreams => "No streams found",
            ProbeError::NoVideoStream => "No video stream found",
            ProbeError::NoDuration => "No duration found",
            ProbeError::BadDuration => "Invalid duration",
            ProbeError::NoWidth => "No width found",
            ProbeError::NoHeight => "No height found",
            ProbeError::NoFrameRate => "No frame rate found",
            ProbeError::BadFrameRate => "Invalid frame rate format",
        }
    }
}

/// Powers of ten up to a thousand, for padding fraction digits.
pub open spec fn pow10(n: nat) -> int
    decreases n,
{
    if n == 0 {
        1
    } else {
        10 * pow10((n - 1) as nat)
    }
}

/// The milliseconds a fraction part denotes: its first three digits,
/// padded with zeros on the right when it is shorter.
pub open spec fn frac_ms_of(frac: Seq<char>) -> int {
    if frac.len() >= 3 {
        dec_val(frac.take(3))
    } else {
        dec_val(frac) * pow10((3 - frac.len()) as nat)
    }
}

/// The milliseconds a decimal seconds string denotes: `None` when the
/// string is not digits with at most one point, or the value does not
/// fit. The integer part must be non-empty; the fraction may be empty and
/// counts by its first three digits.
pub open spec fn duration_ms_of(s: Seq<char>) -> Option<int> {
    let dot = first_dot(s);
    let int_part = if dot < 0 {
        s
    } else {
        s.take(dot)
    };
    let frac_part = if dot < 0 {
        Seq::<char>::empty()
    } else {
        s.skip(dot + 1)
    };
    if int_part.len() > 0 && all_digits(int_part) && all_digits(frac_part) && dec_val(int_part)
        * 1000 + frac_ms_of(frac_part) <= u64::MAX {
        Some(dec_val(int_part) * 1000 + frac_ms_of(frac_part))
    } else {
        None
    }
}

/// The index of the first `.` of `s`, `-1` when it has none.
pub open spec fn first_dot(s: Seq<char>) -> int {
    if exists|i: int| 0 <= i < s.len() && s[i] == '.' {
        choose|i: int|
            0 <= i < s.len() && s[i] == '.' && forall|j: int| 0 <= j < i ==> s[j] != '.'
    } else {
        -1
    }
}

/// The first-occurrence characterisation pins down `first_dot`.
proof fn lemma_first_dot_at(s: Seq<char>, i: int)
    requires
        0 <= i < s.len(),
        s[i] == '.',
        forall|j: int| 0 <= j < i ==> s[j] != '.',
    ensures
        first_dot(s) == i,
{
    assert(exists|k: int| 0 <= k < s.len() && s[k] == '.');
    let w = choose|k: int|
        0 <= k < s.len() && s[k] == '.' && forall|j: int| 0 <= j < k ==> s[j] != '.';
    if w < i {
        assert(s[w] != '.');
    }
    if i < w {
        assert(s[i] != '.');
    }
}

/// A string without dots pins `first_dot` to none.
proof fn lemma_first_dot_none(s: Seq<char>)
    requires
        forall|j: int| 0 <= j < s.len() ==> s[j] != '.',
    ensures
        first_dot(s) == -1,
{
    if exists|i: int| 0 <= i < s.len() && s[i] == '.' {
        let i = choose|i: int| 0 <= i < s.len() && s[i] == '.';
        assert(false);
    }
}

/// Parses a decimal seconds string into milliseconds.
pub fn parse_duration_ms(s: &str) -> (r: Option<u64>)
    ensures
        match r {
            Some(v) => duration_ms_of(s@) == Some(v as int),
            None => duration_ms_of(s@) is None,
        },
{
    let len = s.unicode_len();
    let dot = find_char(s, '.');
    let (int_str, frac_str) = match dot {
        Some(i) => {
            proof {
                lemma_first_dot_at(s@, i as int);
            }
            (s.substring_char(0, i), s.substring_char(i + 1, len))
        },
        None => {
            proof {
                lemma_first_dot_none(s@);
            }
            (s, s.substring_char(len, len))
        },
    };
    assert(int_str@ == if first_dot(s@) < 0 {
        s@
    } else {
        s@.take(first_dot(s@))
    });
    assert(frac_str@ =~= if first_dot(s@) < 0 {
        Seq::<char>::empty()
    } else {
        s@.skip(first_dot(s@) + 1)
    });
    let frac3 = match parse_frac3(frac_str) {
        Some(v) => v,
        None => {
            return None;
        },
    };
    let int_ms = match parse_u64(int_str) {
        Some(v) => v,
        None => {
            proof {
                if int_str@.len() > 0 && all_digits(int_str@) {
                    assert(dec_val(int_str@) * 1000 > u64::MAX) by (nonlinear_arith)
                        requires
                            dec_val(int_str@) > u64::MAX,
                    ;
                }
            }
            return None;
        },
    };
    proof {
        crate::text::lemma_dec_val_nonneg(int_str@);
    }
    if int_ms > (u64::MAX - frac3) / 1000 {
        proof {
            assert(int_ms * 1000 + frac3 > u64::MAX) by (nonlinear_arith)
                requires
                    int_ms > (u64::MAX - frac3) / 1000,
                    frac3 <= 999,
            ;
        }
        return None;
    }
    proof {
        assert(int_ms <= (u64::MAX - frac3) / 1000 ==> int_ms * 1000 + frac3 <= u64::MAX)
            by (nonlinear_arith)
            requires
                frac3 <= 999,
        ;
    }
    Some(int_ms * 1000 + frac3)
}

/// Reads the first three digits of the fraction part, padded with zeros;
/// `None` exactly when the fraction holds a non-digit.
fn parse_frac3(frac: &str) -> (r: Option<u64>)
    ensures
        match r {
            Some(v) => all_digits(frac@) && v == frac_ms_of(frac@) && v <= 999,
            None => !all_digits(frac@),
        },
{
    if !all_digits_check(frac) {
        return None;
    }
    let len = frac.unicode_len();
    proof {
        reveal_with_fuel(pow10, 4);
    }
    if len == 0 {
        assert(dec_val(frac@) == 0);
        return Some(0);
    }
    let take_n = if len >= 3 {
        3
    } else {
        len
    };
    let head = frac.substring_char(0, take_n);
    proof {
        assert(all_digits(head@)) by {
            assert(forall|j: int|
                0 <= j < head@.len() ==> head@[j] == frac@[j] && crate::text::is_digit(
                    #[trigger] frac@[j],
                ));
        }
        lemma_dec_val_digits_bound(head@);
        if head@.len() == 1 {
            assert(dec_val(head@) < 10);
        } else if head@.len() == 2 {
            assert(dec_val(head@) < 100);
        } else {
            assert(dec_val(head@) < 1000);
        }
    }
    let v = match parse_u64(head) {
        Some(v) => v,
        None => {
            proof {
                assert(false);
            }
            0
        },
    };
    if len >= 3 {
        assert(head@ =~= frac@.take(3));
        Some(v)
    } else if len == 1 {
        proof {
            reveal_with_fuel(pow10, 4);
            assert(head@ =~= frac@);
            assert(frac_ms_of(frac@) == dec_val(frac@) * pow10(2nat));
            assert(pow10(2nat) == 100);
        }
        Some(v * 100)
    } else {
        proof {
            reveal_with_fuel(pow10, 4);
            assert(head@ =~= frac@);
            assert(frac_ms_of(frac@) == dec_val(frac@) * pow10(1nat));
            assert(pow10(1nat) == 10);
        }
        Some(v * 10)
    }
}

/// Whether every character is a digit.
fn all_digits_check(s: &str) -> (r: bool)
    ensures
        r == all_digits(s@),
{
    let len = s.unicode_len();
    let mut i: usize = 0;
    while i < len
        invariant
            0 <= i <= len,
            len == s@.len(),
            forall|j: int| 0 <= j < i ==> crate::text::is_digit(#[trigger] s@[j]),
        decreases len - i,
    {
        let c = s.get_char(i);
        if c < '0' || c > '9' {
            return false;
        }
        i = i + 1;
    }
    true
}

/// A digit string denotes less than ten to the power of its length.
proof fn lemma_dec_val_digits_bound(s: Seq<char>)
    requires
        all_digits(s),
    ensures
        0 <= dec_val(s) < pow10(s.len()),
    decreases s.len(),
{
    if s.len() == 0 {
    } else {
        assert(forall|i: int|
            0 <= i < s.drop_last().len() ==> crate::text::is_digit(#[trigger] s.drop_last()[i]));
        lemma_dec_val_digits_bound(s.drop_last());
        assert(crate::text::is_digit(s.last()));
        assert(pow10(s.len()) == 10 * pow10((s.len() - 1) as nat));
        assert(dec_val(s.drop_last()) * 10 + digit_val(s.last()) < 10 * pow10(
            (s.len() - 1) as nat,
        )) by (nonlinear_arith)
            requires
                0 <= dec_val(s.drop_last()) < pow10((s.len() - 1) as nat),
                0 <= digit_val(s.last()) <= 9,
        ;
        assert(dec_val(s.drop_last()) * 10 >= 0) by (nonlinear_arith)
            requires
                dec_val(s.drop_last()) >= 0,
        ;
    }
}

/// The rational a `num/den` string denotes: `None` when the string is not
/// two unsigned decimal numbers around a single slash, or one of them
/// does not fit.
pub open spec fn rational_of(s: Seq<char>) -> Option<(int, int)> {
    let k = first_slash(s);
    if k < 0 {
        None
    } else {
        let num = s.take(k);
        let den = s.skip(k + 1);
        if num.len() > 0 && all_digits(num) && dec_val(num) <= u64::MAX && den.len() > 0
            && all_digits(den) && dec_val(den) <= u64::MAX {
            Some((dec_val(num), dec_val(den)))
        } else {
            None
        }
    }
}

/// The index of the first `/` of `s`, `-1` when it has none.
pub open spec fn first_slash(s: Seq<char>) -> int {
    if exists|i: int| 0 <= i < s.len() && s[i] == '/' {
        choose|i: int|
            0 <= i < s.len() && s[i] == '/' && forall|j: int| 0 <= j < i ==> s[j] != '/'
    } else {
        -1
    }
}

/// The first-occurrence characterisation pins down `first_slash`.
proof fn lemma_first_slash_at(s: Seq<char>, i: int)
    requires
        0 <= i < s.len(),
        s[i] == '/',
        forall|j: int| 0 <= j < i ==> s[j] != '/',
    ensures
        first_slash(s) == i,
{
    assert(exists|k: int| 0 <= k < s.len() && s[k] == '/');
    let w = choose|k: int|
        0 <= k < s.len() && s[k] == '/' && forall|j: int| 0 <= j < k ==> s[j] != '/';
    if w < i {
        assert(s[w] != '/');
    }
    if i < w {
        assert(s[i] != '/');
    }
}

/// A string without slashes pins `first_slash` to none.
proof fn lemma_first_slash_none(s: Seq<char>)
    requires
        forall|j: int| 0 <= j < s.len() ==> s[j] != '/',
    ensures
        first_slash(s) == -1,
{
    if exists|i: int| 0 <= i < s.len() && s[i] == '/' {
        let i = choose|i: int| 0 <= i < s.len() && s[i] == '/';
        assert(false);
    }
}

/// The abstract JSON tree a parsed value stands for: object members by
/// key, array elements in order, strings as character sequences, numbers
/// the parser holds as unsigned 64-bit integers by their value, and every
/// other number opaquely.
pub enum JsonData {
    Null,
    Bool(bool),
    UInt(u64),
    OtherNum,
    Str(Seq<char>),
    Arr(Seq<JsonData>),
    Obj(Map<Seq<char>, JsonData>),
}

#[verifier::external_type_specification]
#[verifier::external_body]
pub struct ExJsonValue(serde_json::Value);

/// The JSON tree of a parsed value, in the sense of `JsonData`: the
/// accessors below are trusted to read a value consistently with this one
/// model of it.
pub uninterp spec fn json_model(v: serde_json::Value) -> JsonData;

/// The JSON tree a text parses to, in the sense of `JsonData`; `None`
/// when the text is not valid JSON. What the parser returns depends on
/// the text alone, so its result can carry this name.
pub uninterp spec fn json_tree_of(text: Seq<char>) -> Option<JsonData>;

/// Relies on `serde_json::from_str`: parses the text as JSON, a function
/// of the text alone; the produced value's model is the text's tree.
#[verifier::external_body]
fn parse_json(text: &str) -> (r: Option<serde_json::Value>)
    ensures
        match r {
            Some(v) => json_tree_of(text@) == Some(json_model(v)),
            None => json_tree_of(text@) is None,
        },
{
    serde_json::from_str(text).ok()
}

/// Relies on `serde_json::Value::get` with a string index: member lookup
/// on an object, `None` on a missing key and on any non-object value.
#[verifier::external_body]
fn json_get<'a>(v: &'a serde_json::Value, key: &str) -> (r: Option<&'a serde_json::Value>)
    ensures
        match json_model(*v) {
            JsonData::Obj(m) => {
                if m.contains_key(key@) {
                    r matches Some(x) && json_model(*x) == m[key@]
                } else {
                    r is None
                }
            },
            _ => r is None,
        },
{
    v.get(key)
}

/// Relies on `serde_json::Value::as_array`: the array's elements, in
/// order; `None` on any other value.
#[verifier::external_body]
fn json_as_array<'a>(v: &'a serde_json::Value) -> (r: Option<&'a Vec<serde_json::Value>>)
    ensures
        match json_model(*v) {
            JsonData::Arr(s) => r matches Some(a) && a@.len() == s.len() && (forall|i: int|
                0 <= i < s.len() ==> json_model(#[trigger] a@[i]) == s[i]),
            _ => r is None,
        },
{
    v.as_array()
}

/// Relies on `serde_json::Value::as_str`: the string's characters; `None`
/// on any other value.
#[verifier::external_body]
fn json_as_str<'a>(v: &'a serde_json::Value) -> (r: Option<&'a str>)
    ensures
        match json_model(*v) {
            JsonData::Str(s) => r matches Some(x) && x@ == s,
            _ => r is None,
        },
{
    v.as_str()
}

/// Relies on `serde_json::Value::as_u64`: the number when it is an
/// unsigned integer in range; `None` on every other value.
#[verifier::external_body]
fn json_as_u64(v: &serde_json::Value) -> (r: Option<u64>)
    ensures
        match json_model(*v) {
            JsonData::UInt(n) => r == Some(n),
            _ => r is None,
        },
{
    v.as_u64()
}

/// The member of an object under a key, when both exist.
pub open spec fn member_of(j: JsonData, key: Seq<char>) -> Option<JsonData> {
    match j {
        JsonData::Obj(m) => if m.contains_key(key) {
            Some(m[key])
        } else {
            None
        },
        _ => None,
    }
}

/// Whether a stream description declares itself a video stream.
pub open spec fn is_video_stream(j: JsonData) -> bool {
    member_of(j, "codec_type"@) matches Some(JsonData::Str(s)) && s == "video"@
}

/// The index of the first video stream in a stream list.
pub open spec fn first_video_in(s: Seq<JsonData>) -> Option<int>
    decreases s.len(),
{
    if s.len() == 0 {
        None
    } else if is_video_stream(s.first()) {
        Some(0)
    } else {
        match first_video_in(s.drop_first()) {
            Some(i) => Some(i + 1),
            None => None,
        }
    }
}

/// A video stream at `i` with none before it pins down `first_video_in`.
proof fn lemma_first_video_at(s: Seq<JsonData>, i: int)
    requires
        0 <= i < s.len(),
        is_video_stream(s[i]),
        forall|j: int| 0 <= j < i ==> !is_video_stream(#[trigger] s[j]),
    ensures
        first_video_in(s) == Some(i),
    decreases s.len(),
{
    if i == 0 {
    } else {
        assert(!is_video_stream(s.first()));
        assert(s.drop_first()[i - 1] == s[i]);
        assert(forall|j: int| 0 <= j < i - 1 ==> s.drop_first()[j] == s[j + 1]);
        lemma_first_video_at(s.drop_first(), i - 1);
    }
}

/// A list without video streams pins `first_video_in` to none.
proof fn lemma_first_video_none(s: Seq<JsonData>)
    requires
        forall|j: int| 0 <= j < s.len() ==> !is_video_stream(#[trigger] s[j]),
    ensures
        first_video_in(s) is None,
    decreases s.len(),
{
    if s.len() > 0 {
        assert(forall|j: int| 0 <= j < s.len() - 1 ==> s.drop_first()[j] == s[j + 1]);
        lemma_first_video_none(s.drop_first());
    }
}

/// The fields the probe reads, as one specification value.
pub struct MetadataParts {
    pub duration_ms: u64,
    pub width: u32,
    pub height: u32,
    pub fps_num: u64,
    pub fps_den: u64,
    pub codec: Seq<char>,
}

/// The codec identifier of a stream, with a fixed fallback when it is
/// absent.
pub open spec fn codec_of(vs: JsonData) -> Seq<char> {
    match member_of(vs, "codec_name"@) {
        Some(JsonData::Str(c)) => c,
        _ => "unknown"@,
    }
}

/// What the probe reads out of the JSON tree `j`: the first video
/// stream's dimensions, frame rate and codec, and the container-level
/// duration — or the first thing found missing, in that reading order.
pub open spec fn metadata_spec(j: JsonData) -> Result<MetadataParts, ProbeError> {
    match member_of(j, "streams"@) {
        Some(JsonData::Arr(streams)) => match first_video_in(streams) {
            Some(vi) => {
                let vs = streams[vi];
                let dur = match member_of(j, "format"@) {
                    Some(f) => member_of(f, "duration"@),
                    None => None,
                };
                match dur {
                    Some(JsonData::Str(ds)) => match duration_ms_of(ds) {
                        Some(ms) => match member_of(vs, "width"@) {
                            Some(JsonData::UInt(w)) => match member_of(vs, "height"@) {
                                Some(JsonData::UInt(h)) => match member_of(
                                    vs,
                                    "r_frame_rate"@,
                                ) {
                                    Some(JsonData::Str(fr)) => match rational_of(fr) {
                                        Some(rat) => Ok(
                                            MetadataParts {
                                                duration_ms: ms as u64,
                                                width: w as u32,
                                                height: h as u32,
                                                fps_num: rat.0 as u64,
                                                fps_den: rat.1 as u64,
                                                codec: codec_of(vs),
                                            },
                                        ),
                                        None => Err(ProbeError::BadFrameRate),
                                    },
                                    _ => Err(ProbeError::NoFrameRate),
                                },
                                _ => Err(ProbeError::NoHeight),
                            },
                            _ => Err(ProbeError::NoWidth),
                        },
                        None => Err(ProbeError::BadDuration),
                    },
                    _ => Err(ProbeError::NoDuration),
                }
            },
            None => Err(ProbeError::NoVideoStream),
        },
        _ => Err(ProbeError::NoStreams),
    }
}

/// Whether a stream description declares itself a video stream.
fn stream_is_video(sv: &serde_json::Value) -> (r: bool)
    ensures
        r == is_video_stream(json_model(*sv)),
{
    match json_get(sv, "codec_type") {
        Some(ct) => match json_as_str(ct) {
            Some(s) => crate::text::str_eq(s, "video"),
            None => false,
        },
        None => false,
    }
}

/// Whether the produced metadata agrees with what the specification reads
/// out of the tree, field by field.
pub open spec fn metadata_matches(
    r: Result<VideoMetadata, ProbeError>,
    s: Result<MetadataParts, ProbeError>,
) -> bool {
    match r {
        Ok(m) => s matches Ok(p) && m.duration_ms == p.duration_ms && m.width == p.width
            && m.height == p.height && m.fps_num == p.fps_num && m.fps_den == p.fps_den
            && m.codec@ == p.codec,
        Err(e) => s == Err::<MetadataParts, ProbeError>(e),
    }
}

/// Reads the metadata out of a parsed probe output, exactly as
/// `metadata_spec` describes on the value's JSON tree.
pub fn metadata_from_json(v: &serde_json::Value) -> (r: Result<VideoMetadata, ProbeError>)
    ensures
        metadata_matches(r, metadata_spec(json_model(*v))),
{
    let streams_field = match json_get(v, "streams") {
        Some(s) => s,
        None => {
            return Err(ProbeError::NoStreams);
        },
    };
    let streams = match json_as_array(streams_field) {
        Some(a) => a,
        None => {
            return Err(ProbeError::NoStreams);
        },
    };
    let ghost streams_model = json_model(*streams_field)->Arr_0;
    proof {
        assert(json_model(*streams_field) == JsonData::Arr(streams_model));
        assert(member_of(json_model(*v), "streams"@) == Some(json_model(*streams_field)));
    }

    let n = streams.len();
    let mut vi: usize = 0;
    loop
        invariant
            member_of(json_model(*v), "streams"@) == Some(JsonData::Arr(streams_model)),
            n == streams@.len(),
            streams_model.len() == n,
            forall|i: int| 0 <= i < n ==> json_model(#[trigger] streams@[i]) == streams_model[i],
            0 <= vi <= n,
            forall|j: int| 0 <= j < vi ==> !is_video_stream(#[trigger] streams_model[j]),
        ensures
            vi < n,
            is_video_stream(streams_model[vi as int]),
            forall|j: int| 0 <= j < vi ==> !is_video_stream(#[trigger] streams_model[j]),
        decreases n - vi,
    {
        if vi == n {
            proof {
                lemma_first_video_none(streams_model);
            }
            return Err(ProbeError::NoVideoStream);
        }
        if stream_is_video(&streams[vi]) {
            break ;
        }
        vi = vi + 1;
    }
    proof {
        lemma_first_video_at(streams_model, vi as int);
    }
    let vs = &streams[vi];

    let duration_str = match json_get(v, "format") {
        Some(f) => match json_get(f, "duration") {
            Some(d) => match json_as_str(d) {
                Some(s) => s,
                None => {
                    return Err(ProbeError::NoDuration);
                },
            },
            None => {
                return Err(ProbeError::NoDuration);
            },
        },
        None => {
            return Err(ProbeError::NoDuration);
        },
    };
    let duration_ms = match parse_duration_ms(duration_str) {
        Some(ms) => ms,
        None => {
            return Err(ProbeError::BadDuration);
        },
    };

    let width64 = match json_get(vs, "width") {
        Some(w) => match json_as_u64(w) {
            Some(w) => w,
            None => {
                return Err(ProbeError::NoWidth);
            },
        },
        None => {
            return Err(ProbeError::NoWidth);
        },
    };
    let height64 = match json_get(vs, "height") {
        Some(h) => match json_as_u64(h) {
            Some(h) => h,
            None => {
                return Err(ProbeError::NoHeight);
            },
        },
        None => {
            return Err(ProbeError::NoHeight);
        },
    };
    let frame_rate_str = match json_get(vs, "r_frame_rate") {
        Some(fr) => match json_as_str(fr) {
            Some(s) => s,
            None => {
                return Err(ProbeError::NoFrameRate);
            },
        },
        None => {
            return Err(ProbeError::NoFrameRate);
        },
    };
    let (fps_num, fps_den) = match parse_frame_rate(frame_rate_str) {
        Some(r) => r,
        None => {
            return Err(ProbeError::BadFrameRate);
        },
    };
    let codec = match json_get(vs, "codec_name") {
        Some(c) => match json_as_str(c) {
            Some(s) => String::from_str(s),
            None => String::from_str("unknown"),
        },
        None => String::from_str("unknown"),
    };
    Ok(
        VideoMetadata {
            duration_ms,
            width: #[verifier::truncate] (width64 as u32),
            height: #[verifier::truncate] (height64 as u32),
            fps_num,
            fps_den,
            codec,
        },
    )
}

/// Reads the metadata out of the probing tool's raw output text: text
/// that is not valid JSON is rejected, and everything else is read
/// exactly as `metadata_spec` describes on the text's JSON tree.
pub fn metadata_from_probe_output(text: &str) -> (r: Result<VideoMetadata, ProbeError>)
    ensures
        match json_tree_of(text@) {
            Some(j) => metadata_matches(r, metadata_spec(j)),
            None => r == Err::<VideoMetadata, ProbeError>(ProbeError::NotParseable),
        },
        r matches Err(e) ==> !(e is EngineFailed),
{
    match parse_json(text) {
        Some(v) => {
            let m = metadata_from_json(&v);
            proof {
                lemma_metadata_spec_errors(json_model(v));
            }
            m
        },
        None => Err(ProbeError::NotParseable),
    }
}

/// The probe's navigation itself never reports an engine failure or an
/// unparseable output: those arise before a JSON tree exists.
proof fn lemma_metadata_spec_errors(j: JsonData)
    ensures
        metadata_spec(j) matches Err(e) ==> !(e is EngineFailed) && !(e is NotParseable),
{
}

/// Parses a `num/den` frame-rate string into its exact rational. A second
/// slash makes the denominator unparseable, so the string must hold
/// exactly two numbers around one slash.
pub fn parse_frame_rate(s: &str) -> (r: Option<(u64, u64)>)
    ensures
        match r {
            Some(v) => rational_of(s@) == Some((v.0 as int, v.1 as int)),
            None => rational_of(s@) is None,
        },
{
    let len = s.unicode_len();
    match find_char(s, '/') {
        Some(k) => {
            proof {
                lemma_first_slash_at(s@, k as int);
            }
            let num_str = s.substring_char(0, k);
            let den_str = s.substring_char(k + 1, len);
            let num = match parse_u64(num_str) {
                Some(v) => v,
                None => {
                    return None;
                },
            };
            let den = match parse_u64(den_str) {
                Some(v) => v,
                None => {
                    return None;
                },
            };
            Some((num, den))
        },
        None => {
            proof {
                lemma_first_slash_none(s@);
            }
            None
        },
    }
}

} // verus!
