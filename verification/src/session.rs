//! Session-level conventions of the analysis engine's ABI: the stream and
//! info-kind enumerations with their numeric codes, the error taxonomy
//! shared by every marshaling call, the text marshaling applied around
//! each query, the "count everything" sentinel, and the 64-bit seek
//! positions that the ABI splits across two 32-bit halves.

use vstd::prelude::*;

use crate::c_w_string::{is_terminator_index, wide_units, CWcharString, WideWidth};

verus! {

/// The metadata table a query targets.  General is present exactly once
/// per opened item; every other category occurs zero or more times and is
/// indexed from zero.  Max is the engine's sentinel closing the list.
#[derive(Debug, Clone, Copy, PartialEq, Eq, Structural)]
pub enum MediaInfoStream {
    General,
    Video,
    Audio,
    Text,
    Other,
    Image,
    Menu,
    Max,
}

impl MediaInfoStream {
    /// The numeric code the ABI assigns to this category.
    pub open spec fn code_spec(self) -> int {
        match self {
            MediaInfoStream::General => 0,
            MediaInfoStream::Video => 1,
            MediaInfoStream::Audio => 2,
            MediaInfoStream::Text => 3,
            MediaInfoStream::Other => 4,
            MediaInfoStream::Image => 5,
            MediaInfoStream::Menu => 6,
            MediaInfoStream::Max => 7,
        }
    }

    /// The category as the C-compatible integer the ABI expects.
    pub fn c_compatible(self) -> (r: i32)
        ensures
            r == self.code_spec(),
    {
        match self {
            MediaInfoStream::General => 0,
            MediaInfoStream::Video => 1,
            MediaInfoStream::Audio => 2,
            MediaInfoStream::Text => 3,
            MediaInfoStream::Other => 4,
            MediaInfoStream::Image => 5,
            MediaInfoStream::Menu => 6,
            MediaInfoStream::Max => 7,
        }
    }

    /// The categories a caller enumerates when walking an opened item.
    /// General is left out, since every opened item has exactly one.
    pub fn variants() -> (r: Vec<MediaInfoStream>)
        ensures
            r@ == seq![
                MediaInfoStream::Video,
                MediaInfoStream::Audio,
                MediaInfoStream::Text,
                MediaInfoStream::Other,
                MediaInfoStream::Image,
                MediaInfoStream::Menu,
                MediaInfoStream::Max,
            ],
    {
        let mut v: Vec<MediaInfoStream> = Vec::new();
        v.push(MediaInfoStream::Video);
        v.push(MediaInfoStream::Audio);
        v.push(MediaInfoStream::Text);
        v.push(MediaInfoStream::Other);
        v.push(MediaInfoStream::Image);
        v.push(MediaInfoStream::Menu);
        v.push(MediaInfoStream::Max);
        proof {
            assert(v@ =~= seq![
                MediaInfoStream::Video,
                MediaInfoStream::Audio,
                MediaInfoStream::Text,
                MediaInfoStream::Other,
                MediaInfoStream::Image,
                MediaInfoStream::Menu,
                MediaInfoStream::Max,
            ]);
        }
        v
    }
}

/// Which representation of a field a query returns, and what a field is
/// searched by.  Nearly every typed accessor fixes these to the text
/// value, searched by name.
#[derive(Debug, Clone, Copy, PartialEq, Eq, Structural)]
pub enum MediaInfoInfo {
    Name,
    Text,
    Measure,
    Options,
    NameText,
    MeasureText,
    Info,
    HowTo,
    Max,
}

impl MediaInfoInfo {
    /// The numeric code the ABI assigns to this kind.
    pub open spec fn code_spec(self) -> int {
        match self {
            MediaInfoInfo::Name => 0,
            MediaInfoInfo::Text => 1,
            MediaInfoInfo::Measure => 2,
            MediaInfoInfo::Options => 3,
            MediaInfoInfo::NameText => 4,
            MediaInfoInfo::MeasureText => 5,
            MediaInfoInfo::Info => 6,
            MediaInfoInfo::HowTo => 7,
            MediaInfoInfo::Max => 8,
        }
    }

    /// The kind as the C-compatible integer the ABI expects.
    pub fn c_compatible(self) -> (r: i32)
        ensures
            r == self.code_spec(),
    {
        match self {
            MediaInfoInfo::Name => 0,
            MediaInfoInfo::Text => 1,
            MediaInfoInfo::Measure => 2,
            MediaInfoInfo::Options => 3,
            MediaInfoInfo::NameText => 4,
            MediaInfoInfo::MeasureText => 5,
            MediaInfoInfo::Info => 6,
            MediaInfoInfo::HowTo => 7,
            MediaInfoInfo::Max => 8,
        }
    }
}

/// Failure kinds of the marshaling layer.  Every ABI-facing operation
/// reports one of these instead of aborting.
#[derive(Debug, Clone, Copy, PartialEq, Eq, Structural)]
pub enum MediaInfoError {
    /// A caller-supplied string could not be encoded for the ABI
    /// (for instance, it holds an embedded null character).
    RustToCString,
    /// A buffer returned by the engine could not be decoded back into text.
    CToRust,
    /// The engine answered with an empty string, its convention for
    /// "field not present / not applicable".
    ZeroLengthResult,
    /// A field was present but its text did not parse as the requested
    /// numeric form.
    NonNumericResult,
    /// A stream accessor was invoked without a backing session.
    NoDataOpen,
}

pub type MediaInfoResult<T> = Result<T, MediaInfoError>;

/// The stream-number argument that asks the engine for the total count of
/// a category, rather than for one stream's own sub-count: the maximum
/// representable count.
pub const COUNT_GET_ALL_STREAMS: usize = usize::MAX;

/// Encodes one caller-supplied string argument for an ABI query, mapping
/// the codec's rejection to the marshaling error.
pub fn encode_text_arg(text: &str, width: WideWidth) -> (r: MediaInfoResult<CWcharString>)
    ensures
        match r {
            Ok(w) => {
                &&& !text@.contains('\0')
                &&& w.width == width
                &&& w.wf()
                &&& w.represents(text@)
            },
            Err(e) => e == MediaInfoError::RustToCString && text@.contains('\0'),
        },
{
    match CWcharString::from_str(text, width) {
        Ok(w) => Ok(w),
        Err(_) => Err(MediaInfoError::RustToCString),
    }
}

/// Applies the engine's empty-string convention to a reply that is
/// already text: an empty reply means the field is absent and becomes
/// the empty-result error; any other reply passes through unchanged.
pub fn interpret_text_reply(reply: String) -> (r: MediaInfoResult<String>)
    ensures
        match r {
            Ok(t) => t == reply && reply@.len() > 0,
            Err(e) => e == MediaInfoError::ZeroLengthResult && reply@.len() == 0,
        },
{
    if reply.as_str().unicode_len() == 0 {
        Err(MediaInfoError::ZeroLengthResult)
    } else {
        Ok(reply)
    }
}

/// Decodes a wide reply buffer handed back by the engine and applies the
/// empty-string convention: a missing buffer or one that decodes to no
/// valid text is a decode failure, a decoded empty text is the
/// empty-result error, and any other text is the answer.
pub fn decode_text_reply(raw: Option<&Vec<u32>>, width: WideWidth) -> (r: MediaInfoResult<
    String,
>)
    requires
        raw is Some ==> raw.unwrap()@.contains(0u32),
    ensures
        raw is None ==> r == MediaInfoResult::<String>::Err(MediaInfoError::CToRust),
        raw is Some ==> forall|n: int|
            #[trigger] is_terminator_index(raw.unwrap()@, n) ==> {
                let units = raw.unwrap()@.take(n);
                match r {
                    Ok(t) => wide_units(t@, width) == units && t@.len() > 0,
                    Err(e) => {
                        ||| (e == MediaInfoError::CToRust && forall|s: Seq<char>|
                            wide_units(s, width) != units)
                        ||| (e == MediaInfoError::ZeroLengthResult && n == 0)
                    },
                }
            },
{
    if raw.is_none() {
        return Err(MediaInfoError::CToRust);
    }
    match CWcharString::from_raw_to_string(raw, width) {
        Ok(t) => {
            let r = interpret_text_reply(t);
            proof {
                if r is Err {
                    assert forall|n: int| #[trigger] is_terminator_index(raw.unwrap()@, n)
                        implies n == 0 by {
                        assert(wide_units(t@, width) == raw.unwrap()@.take(n));
                    }
                }
            }
            r
        },
        Err(_) => Err(MediaInfoError::CToRust),
    }
}

/// Reassembles a 64-bit seek position from the two 32-bit halves that the
/// bridge ABI returns, the lower half first.
pub fn goto_position_from_halves(lower: u32, upper: u32) -> (r: u64)
    ensures
        r == lower + upper * 0x1_0000_0000u64,
{
    lower as u64 + (upper as u64) * 0x1_0000_0000u64
}

/// The upper half of a 64-bit seek position, as the native target reads
/// it: the value shifted down by thirty-two bits.
pub fn goto_position_upper_half(position: u64) -> (r: u64)
    ensures
        r == position / 0x1_0000_0000u64,
        r <= 0xFFFF_FFFFu64,
{
    proof {
        assert((position >> 32u64) == position / 0x1_0000_0000u64 && position
            / 0x1_0000_0000u64 <= 0xFFFF_FFFFu64) by (bit_vector);
    }
    position >> 32u64
}

/// The lower half of a 64-bit seek position.
pub fn goto_position_lower_half(position: u64) -> (r: u64)
    ensures
        r == position % 0x1_0000_0000u64,
        r <= 0xFFFF_FFFFu64,
{
    position % 0x1_0000_0000u64
}

/// The two halves recombine to the position they were split from.
pub proof fn lemma_goto_halves_roundtrip(position: u64)
    ensures
        position % 0x1_0000_0000u64 + (position / 0x1_0000_0000u64) * 0x1_0000_0000u64
            == position,
{
    vstd::arithmetic::div_mod::lemma_fundamental_div_mod(position as int, 0x1_0000_0000);
}

} // verus!
