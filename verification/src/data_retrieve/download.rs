//! What the remote answer says about the archive, and whether the stored
//! file can be trusted.

use vstd::prelude::*;
use crate::data_retrieve::outcome::PipelineError;
use crate::data_retrieve::paths::{join, joined};

verus! {

/// Address of the pre-built data archive.
pub const TAR_URL: &'static str =
    "https://dl.fbaipublicfiles.com/SymbolicMathematics/data/prim_fwd.tar.gz";

/// Name of the download directory inside the scratch directory.
pub const DOWNLOAD_FOLDER: &'static str = "deepmath_data";

/// The download directory that belongs to the scratch directory `temp_dir`.
/// The caller creates it before anything is stored there.
pub fn init_download_dir(temp_dir: &str) -> (folder: String)
    ensures
        folder@ == joined(temp_dir@, DOWNLOAD_FOLDER@),
{
    join(temp_dir, DOWNLOAD_FOLDER)
}

/// The path segments of an address: what `Url::parse` followed by
/// `Url::path_segments` yields for it, each segment as it stands in the
/// parsed address (percent-encoded). `None` where the text is no absolute
/// address, or where the address cannot be a base and so has no segments.
pub uninterp spec fn url_path_segments(url: Seq<char>) -> Option<Seq<Seq<char>>>;

/// The characters of each string of an optional list.
pub open spec fn segments_view(segments: Option<Vec<String>>) -> Option<Seq<Seq<char>>> {
    match segments {
        None => None,
        Some(list) => Some(list@.map_values(|s: String| s@)),
    }
}

/// Parses `url` with `reqwest::Url::parse` and collects what
/// `Url::path_segments` iterates over. Trusted: the result is taken to be a
/// function of the text alone, named `url_path_segments`; nothing else is
/// claimed of it.
#[verifier::external_body]
fn path_segments(url: &str) -> (segments: Option<Vec<String>>)
    ensures
        segments_view(segments) == url_path_segments(url@),
{
    let parsed = reqwest::Url::parse(url).ok()?;
    let parts = parsed.path_segments()?;
    Some(parts.map(|part| part.to_owned()).collect())
}

/// The file name that a list of path segments gives: its last segment.
/// An address without segments gives a protocol error.
pub open spec fn filename_of(segments: Option<Seq<Seq<char>>>) -> Result<
    Seq<char>,
    PipelineError,
> {
    match segments {
        None => Err(PipelineError::ProtocolError),
        Some(list) => if list.len() == 0 {
            Err(PipelineError::ProtocolError)
        } else {
            Ok(list.last())
        },
    }
}

/// Picks the file name out of the path segments of an address.
pub fn last_segment(segments: Option<Vec<String>>) -> (name: Result<String, PipelineError>)
    ensures
        match name {
            Ok(text) => filename_of(segments_view(segments)) == Ok::<Seq<char>, PipelineError>(
                text@,
            ),
            Err(error) => filename_of(segments_view(segments)) == Err::<Seq<char>, PipelineError>(
                error,
            ),
        },
{
    match segments {
        None => Err(PipelineError::ProtocolError),
        Some(mut list) => {
            let ghost before = list@;
            match list.pop() {
                None => Err(PipelineError::ProtocolError),
                Some(text) => {
                    assert(before.map_values(|s: String| s@).last() == text@);
                    Ok(text)
                },
            }
        },
    }
}

/// The name under which the archive behind `url` is stored: the final path
/// segment of the address. A text that is no address, and an address
/// without path segments, give a protocol error.
pub fn get_filename(url: &str) -> (name: Result<String, PipelineError>)
    ensures
        match name {
            Ok(text) => filename_of(url_path_segments(url@)) == Ok::<Seq<char>, PipelineError>(
                text@,
            ),
            Err(error) => filename_of(url_path_segments(url@)) == Err::<Seq<char>, PipelineError>(
                error,
            ),
        },
{
    last_segment(path_segments(url))
}

/// Whether every byte of `text` is an ASCII digit.
pub open spec fn all_digits(text: Seq<u8>) -> bool {
    forall|i: int| 0 <= i < text.len() ==> 0x30 <= #[trigger] text[i] <= 0x39
}

/// The number that a sequence of ASCII digits writes in base ten.
pub open spec fn decimal_value(digits: Seq<u8>) -> nat
    decreases digits.len(),
{
    if digits.len() == 0 {
        0
    } else {
        (decimal_value(digits.drop_last()) * 10 + (digits.last() - 0x30)) as nat
    }
}

/// The number that `text` writes in base ten, where it is made of one or
/// more ASCII digits and nothing else and the number fits 64 bits.
pub open spec fn decimal_of(text: Seq<u8>) -> Option<u64> {
    if text.len() > 0 && all_digits(text) && decimal_value(text) <= u64::MAX {
        Some(decimal_value(text) as u64)
    } else {
        None
    }
}

/// The byte count that the value of a content-length field announces. An
/// answer without the field, and one whose field is no number, leave the
/// count unknown: `None`, never zero.
pub open spec fn announced_length(field: Option<Seq<u8>>) -> Option<u64> {
    match field {
        None => None,
        Some(text) => decimal_of(text),
    }
}

/// A longer run of digits never writes a smaller number than its prefix.
proof fn lemma_decimal_value_grows(digits: Seq<u8>, shorter: int)
    requires
        all_digits(digits),
        0 <= shorter <= digits.len(),
    ensures
        decimal_value(digits.take(shorter)) <= decimal_value(digits),
    decreases digits.len() - shorter,
{
    if shorter == digits.len() {
        assert(digits.take(shorter) =~= digits);
    } else {
        assert(digits.drop_last().take(shorter) =~= digits.take(shorter));
        assert(all_digits(digits.drop_last()));
        lemma_decimal_value_grows(digits.drop_last(), shorter);
    }
}

/// Reads a number written in ASCII digits.
pub fn parse_decimal(text: &[u8]) -> (number: Option<u64>)
    ensures
        number == decimal_of(text@),
{
    if text.len() == 0 {
        return None;
    }
    let mut value: u64 = 0;
    let mut i: usize = 0;
    while i < text.len()
        invariant
            i <= text.len(),
            all_digits(text@.take(i as int)),
            value == decimal_value(text@.take(i as int)),
        decreases text.len() - i,
    {
        let byte: u8 = text[i];
        if byte < 0x30 || byte > 0x39 {
            assert(!(0x30 <= text@[i as int] <= 0x39));
            return None;
        }
        let digit: u64 = (byte - 0x30) as u64;
        proof {
            let next = text@.take(i + 1);
            assert(next.drop_last() =~= text@.take(i as int));
            assert(next.last() == byte);
            assert(all_digits(next));
            if all_digits(text@) {
                lemma_decimal_value_grows(text@, i + 1);
            }
        }
        if value > (u64::MAX - digit) / 10 {
            return None;
        }
        value = value * 10 + digit;
        i += 1;
    }
    proof {
        assert(text@.take(i as int) =~= text@);
    }
    Some(value)
}

/// Reads the byte count of the archive from the value of the content-length
/// field of the answer, if the answer has one.
pub fn get_filesize(field: Option<&[u8]>) -> (size: Option<u64>)
    ensures
        size == announced_length(
            match field {
                None => None,
                Some(text) => Some(text@),
            },
        ),
{
    match field {
        None => None,
        Some(text) => parse_decimal(text),
    }
}

/// Whether a status code tells of success: the codes from 200 to 299.
pub open spec fn status_accepted(status: u16) -> bool {
    200 <= status <= 299
}

/// Accepts the status code of an answer, or rejects it as a protocol error.
pub fn check_status(status: u16) -> (verdict: Result<(), PipelineError>)
    ensures
        verdict == if status_accepted(status) {
            Ok::<(), PipelineError>(())
        } else {
            Err::<(), PipelineError>(PipelineError::ProtocolError)
        },
{
    if 200 <= status && status <= 299 {
        Ok(())
    } else {
        Err(PipelineError::ProtocolError)
    }
}

/// What one answer of the remote side tells about the archive.
#[derive(Clone, Debug, PartialEq, Eq)]
pub struct RemoteArchiveMetadata {
    /// The address that answered.
    pub source_url: String,
    /// The name under which the archive is stored.
    pub filename: String,
    /// The announced number of bytes; `None` where it is unknown.
    pub content_length: Option<u64>,
}

/// The metadata that an answer gives: of a successful answer from an
/// address with path segments, the address, its final segment and the
/// announced length; of any other answer, a protocol error.
pub open spec fn metadata_of(
    url: Seq<char>,
    segments: Option<Seq<Seq<char>>>,
    status: u16,
    field: Option<Seq<u8>>,
) -> Result<(Seq<char>, Seq<char>, Option<u64>), PipelineError> {
    if !status_accepted(status) {
        Err(PipelineError::ProtocolError)
    } else {
        match filename_of(segments) {
            Err(error) => Err(error),
            Ok(name) => Ok((url, name, announced_length(field))),
        }
    }
}

impl RemoteArchiveMetadata {
    /// The three fields as plain values.
    pub open spec fn view(&self) -> (Seq<char>, Seq<char>, Option<u64>) {
        (self.source_url@, self.filename@, self.content_length)
    }

    /// Puts the metadata together from the parts of an answer: the path
    /// segments of its address, its status code and the value of its
    /// content-length field.
    pub fn assemble(
        url: &str,
        segments: Option<Vec<String>>,
        status: u16,
        field: Option<&[u8]>,
    ) -> (metadata: Result<RemoteArchiveMetadata, PipelineError>)
        ensures
            match metadata {
                Ok(found) => metadata_of(
                    url@,
                    segments_view(segments),
                    status,
                    match field {
                        None => None,
                        Some(text) => Some(text@),
                    },
                ) == Ok::<(Seq<char>, Seq<char>, Option<u64>), PipelineError>(found@),
                Err(error) => metadata_of(
                    url@,
                    segments_view(segments),
                    status,
                    match field {
                        None => None,
                        Some(text) => Some(text@),
                    },
                ) == Err::<(Seq<char>, Seq<char>, Option<u64>), PipelineError>(error),
            },
    {
        match check_status(status) {
            Err(error) => Err(error),
            Ok(_) => match last_segment(segments) {
                Err(error) => Err(error),
                Ok(filename) => Ok(
                    RemoteArchiveMetadata {
                        source_url: url.to_owned(),
                        filename,
                        content_length: get_filesize(field),
                    },
                ),
            },
        }
    }

    /// Reads the metadata off an answer: its address, its status code and
    /// the value of its content-length field.
    pub fn from_response(url: &str, status: u16, field: Option<&[u8]>) -> (metadata: Result<
        RemoteArchiveMetadata,
        PipelineError,
    >)
        ensures
            match metadata {
                Ok(found) => metadata_of(
                    url@,
                    url_path_segments(url@),
                    status,
                    match field {
                        None => None,
                        Some(text) => Some(text@),
                    },
                ) == Ok::<(Seq<char>, Seq<char>, Option<u64>), PipelineError>(found@),
                Err(error) => metadata_of(
                    url@,
                    url_path_segments(url@),
                    status,
                    match field {
                        None => None,
                        Some(text) => Some(text@),
                    },
                ) == Err::<(Seq<char>, Seq<char>, Option<u64>), PipelineError>(error),
            },
    {
        RemoteArchiveMetadata::assemble(url, path_segments(url), status, field)
    }
}

/// Whether a stored file of `written` bytes agrees with the announced
/// length. An unknown length agrees with every count.
pub open spec fn length_agrees(expected: Option<u64>, written: u64) -> bool {
    match expected {
        None => true,
        Some(announced) => announced == written,
    }
}

/// Checks the number of bytes that were stored against the announced
/// length, and rejects a mismatch as an integrity error.
pub fn verify_length(expected: Option<u64>, written: u64) -> (verdict: Result<(), PipelineError>)
    ensures
        verdict == if length_agrees(expected, written) {
            Ok::<(), PipelineError>(())
        } else {
            Err::<(), PipelineError>(PipelineError::IntegrityError)
        },
{
    match expected {
        None => Ok(()),
        Some(announced) => if announced == written {
            Ok(())
        } else {
            Err(PipelineError::IntegrityError)
        },
    }
}

} // verus!
