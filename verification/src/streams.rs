//! Typed stream descriptors.  A descriptor carries a category tag and a
//! zero-based index and is cheap to clone; the session that actually
//! answers field queries is held by the surrounding program.  The derived
//! readers here turn fetched field values into their documented
//! interpretations.

use vstd::prelude::*;

use crate::fields::{frame_size_string, frame_size_text};
use crate::session::{MediaInfoResult, MediaInfoStream};

verus! {

/// Compares two texts character by character.
fn text_equals(a: &str, b: &str) -> (r: bool)
    ensures
        r == (a@ == b@),
{
    let la = a.unicode_len();
    let lb = b.unicode_len();
    if la != lb {
        return false;
    }
    let mut i: usize = 0;
    while i < la
        invariant
            i <= la,
            la == a@.len(),
            lb == b@.len(),
            la == lb,
            forall|j: int| 0 <= j < i ==> a@[j] == b@[j],
        decreases la - i,
    {
        if a.get_char(i) != b.get_char(i) {
            return false;
        }
        i = i + 1;
    }
    proof {
        assert(a@ =~= b@);
    }
    true
}

/// True exactly when a fetched text field was readable and reads the
/// given word.
pub open spec fn field_reads(r: MediaInfoResult<String>, word: Seq<char>) -> bool {
    r is Ok && r.unwrap()@ == word
}

/// What every stream descriptor reports: its category and its index
/// within that category.
pub trait BaseStream {
    fn stream_type(&self) -> MediaInfoStream;

    fn index(&self) -> usize;
}

/// The always-present general metadata table of an opened item.  A
/// detached descriptor, one not yet attached to a session, reports the
/// no-session error on use instead of answering.
#[derive(Clone, Debug)]
pub struct GeneralStream {
    pub stream_type: MediaInfoStream,
    pub attached: bool,
}

impl BaseStream for GeneralStream {
    fn stream_type(&self) -> MediaInfoStream {
        self.stream_type
    }

    fn index(&self) -> usize {
        0
    }
}

/// One video stream of an opened item.
#[derive(Clone, Debug)]
pub struct VideoStream {
    pub stream_type: MediaInfoStream,
    pub index: usize,
}

impl BaseStream for VideoStream {
    fn stream_type(&self) -> MediaInfoStream {
        self.stream_type
    }

    fn index(&self) -> usize {
        self.index
    }
}

/// One audio stream of an opened item.
#[derive(Clone, Debug)]
pub struct AudioStream {
    pub stream_type: MediaInfoStream,
    pub index: usize,
}

impl BaseStream for AudioStream {
    fn stream_type(&self) -> MediaInfoStream {
        self.stream_type
    }

    fn index(&self) -> usize {
        self.index
    }
}

/// One text (subtitle or caption) stream of an opened item.
#[derive(Clone, Debug)]
pub struct TextStream {
    pub stream_type: MediaInfoStream,
    pub index: usize,
}

impl BaseStream for TextStream {
    fn stream_type(&self) -> MediaInfoStream {
        self.stream_type
    }

    fn index(&self) -> usize {
        self.index
    }
}

/// One stream of an opened item outside the named categories.
#[derive(Clone, Debug)]
pub struct OtherStream {
    pub stream_type: MediaInfoStream,
    pub index: usize,
}

impl BaseStream for OtherStream {
    fn stream_type(&self) -> MediaInfoStream {
        self.stream_type
    }

    fn index(&self) -> usize {
        self.index
    }
}

/// One still-image stream of an opened item.
#[derive(Clone, Debug)]
pub struct ImageStream {
    pub stream_type: MediaInfoStream,
    pub index: usize,
}

impl BaseStream for ImageStream {
    fn stream_type(&self) -> MediaInfoStream {
        self.stream_type
    }

    fn index(&self) -> usize {
        self.index
    }
}

/// One menu or chapter stream of an opened item.
#[derive(Clone, Debug)]
pub struct MenuStream {
    pub stream_type: MediaInfoStream,
    pub index: usize,
}

impl BaseStream for MenuStream {
    fn stream_type(&self) -> MediaInfoStream {
        self.stream_type
    }

    fn index(&self) -> usize {
        self.index
    }
}

impl GeneralStream {
    /// The application that wrote the item: the fetched
    /// Encoded_Application field when it is readable, else whatever the
    /// fetched Encoded_Application/String field gave.
    pub fn writing_application(
        &self,
        encoded_application: MediaInfoResult<String>,
        encoded_application_string: MediaInfoResult<String>,
    ) -> (r: MediaInfoResult<String>)
        ensures
            encoded_application is Ok ==> r == encoded_application,
            encoded_application is Err ==> r == encoded_application_string,
    {
        match encoded_application {
            Ok(x) => Ok(x),
            Err(_) => encoded_application_string,
        }
    }
}

impl VideoStream {
    /// Whether the stream reports a constant bit rate, judged from its
    /// fetched BitRate_Mode field; an absent or unreadable field counts
    /// as the negative case rather than an error.
    pub fn cbr(&self, bit_rate_mode: &MediaInfoResult<String>) -> (r: bool)
        ensures
            r == field_reads(*bit_rate_mode, "Constant"@),
    {
        match bit_rate_mode {
            Ok(x) => text_equals(x.as_str(), "Constant"),
            Err(_) => false,
        }
    }

    /// The complementary reading of the same field: a stream not
    /// reporting a constant bit rate counts as variable.
    pub fn vbr(&self, bit_rate_mode: &MediaInfoResult<String>) -> (r: bool)
        ensures
            r == !field_reads(*bit_rate_mode, "Constant"@),
    {
        !self.cbr(bit_rate_mode)
    }

    /// Whether the stream is interlaced, judged from its fetched ScanType
    /// field; an absent or unreadable field counts as the negative case.
    pub fn interlaced(&self, scan_type: &MediaInfoResult<String>) -> (r: bool)
        ensures
            r == field_reads(*scan_type, "Interlaced"@),
    {
        match scan_type {
            Ok(x) => text_equals(x.as_str(), "Interlaced"),
            Err(_) => false,
        }
    }

    /// The complementary reading of the same field: a stream not
    /// reporting itself interlaced counts as progressive.
    pub fn progressive(&self, scan_type: &MediaInfoResult<String>) -> (r: bool)
        ensures
            r == !field_reads(*scan_type, "Interlaced"@),
    {
        !self.interlaced(scan_type)
    }

    /// The frame size as WxH text, composed from the fetched Width and
    /// Height fields; a failure reading the height is reported before one
    /// reading the width.
    pub fn frame_size(
        &self,
        height: MediaInfoResult<i64>,
        width: MediaInfoResult<i64>,
    ) -> (r: MediaInfoResult<String>)
        ensures
            match height {
                Err(e) => r == MediaInfoResult::<String>::Err(e),
                Ok(h) => match width {
                    Err(e) => r == MediaInfoResult::<String>::Err(e),
                    Ok(w) => r is Ok && r.unwrap()@ == frame_size_text(w as int, h as int),
                },
            },
    {
        let h = match height {
            Ok(h) => h,
            Err(e) => {
                return Err(e);
            },
        };
        let w = match width {
            Ok(w) => w,
            Err(e) => {
                return Err(e);
            },
        };
        Ok(frame_size_string(w, h))
    }
}

impl AudioStream {
    /// Whether the stream is two-channel, judged from its fetched
    /// Channels field; an absent or non-numeric field counts as the
    /// negative case.
    pub fn stereo(&self, channels: &MediaInfoResult<i64>) -> (r: bool)
        ensures
            r == (channels is Ok && channels.unwrap() == 2),
    {
        match channels {
            Ok(x) => *x == 2i64,
            Err(_) => false,
        }
    }

    /// Whether the stream is single-channel, judged the same way.
    pub fn mono(&self, channels: &MediaInfoResult<i64>) -> (r: bool)
        ensures
            r == (channels is Ok && channels.unwrap() == 1),
    {
        match channels {
            Ok(x) => *x == 1i64,
            Err(_) => false,
        }
    }
}

impl ImageStream {
    /// The image size as WxH text, composed from the fetched Width and
    /// Height fields; a failure reading the height is reported before one
    /// reading the width.
    pub fn frame_size(
        &self,
        height: MediaInfoResult<i64>,
        width: MediaInfoResult<i64>,
    ) -> (r: MediaInfoResult<String>)
        ensures
            match height {
                Err(e) => r == MediaInfoResult::<String>::Err(e),
                Ok(h) => match width {
                    Err(e) => r == MediaInfoResult::<String>::Err(e),
                    Ok(w) => r is Ok && r.unwrap()@ == frame_size_text(w as int, h as int),
                },
            },
    {
        let h = match height {
            Ok(h) => h,
            Err(e) => {
                return Err(e);
            },
        };
        let w = match width {
            Ok(w) => w,
            Err(e) => {
                return Err(e);
            },
        };
        Ok(frame_size_string(w, h))
    }
}

} // verus!
