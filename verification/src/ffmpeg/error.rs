//! Errors of ffmpeg operations and ffmpeg's own error codes.
use vstd::prelude::*;
use crate::ffmpeg::text::{int_decimal, push_i32_decimal};

verus! {

/// `AVERROR(EINVAL)`: invalid argument.
pub const AVERROR_EINVAL: i32 = -22;
/// `AVERROR(EAGAIN)`: resource temporarily unavailable.
pub const AVERROR_EAGAIN: i32 = -11;
/// End of file.
pub const AVERROR_EOF: i32 = -541478725;
/// Invalid data found when processing input.
pub const AVERROR_INVALIDDATA: i32 = -1094995529;
/// Muxer not found.
pub const AVERROR_MUXER_NOT_FOUND: i32 = -1481985528;
/// Option not found.
pub const AVERROR_OPTION_NOT_FOUND: i32 = -1414549496;
/// Not yet implemented in FFmpeg, patches welcome.
pub const AVERROR_PATCHWELCOME: i32 = -1163346256;
/// Protocol not found.
pub const AVERROR_PROTOCOL_NOT_FOUND: i32 = -1330794744;
/// Stream not found.
pub const AVERROR_STREAM_NOT_FOUND: i32 = -1381258232;
/// Bitstream filter not found.
pub const AVERROR_BSF_NOT_FOUND: i32 = -1179861752;
/// Internal bug.
pub const AVERROR_BUG: i32 = -558323010;
/// Buffer too small.
pub const AVERROR_BUFFER_TOO_SMALL: i32 = -1397118274;
/// Decoder not found.
pub const AVERROR_DECODER_NOT_FOUND: i32 = -1128613112;
/// Demuxer not found.
pub const AVERROR_DEMUXER_NOT_FOUND: i32 = -1296385272;
/// Encoder not found.
pub const AVERROR_ENCODER_NOT_FOUND: i32 = -1129203192;
/// Immediate exit was requested.
pub const AVERROR_EXIT: i32 = -1414092869;
/// Generic error in an external library.
pub const AVERROR_EXTERNAL: i32 = -542398533;
/// Filter not found.
pub const AVERROR_FILTER_NOT_FOUND: i32 = -1279870712;
/// HTTP 400 Bad Request.
pub const AVERROR_HTTP_BAD_REQUEST: i32 = -808465656;
/// HTTP 403 Forbidden.
pub const AVERROR_HTTP_FORBIDDEN: i32 = -858797304;
/// HTTP 404 Not Found.
pub const AVERROR_HTTP_NOT_FOUND: i32 = -875574520;
/// Other HTTP 4xx errors.
pub const AVERROR_HTTP_OTHER_4XX: i32 = -1482175736;
/// HTTP 5xx server errors.
pub const AVERROR_HTTP_SERVER_ERROR: i32 = -1482175992;
/// HTTP 401 Unauthorized.
pub const AVERROR_HTTP_UNAUTHORIZED: i32 = -825242872;
/// A second internal bug code.
pub const AVERROR_BUG2: i32 = -541545794;
/// Unknown error, typically from an external library.
pub const AVERROR_UNKNOWN: i32 = -1313558101;

/// The message of a named error code, if the code has one.
pub open spec fn named_code_text(c: i32) -> Option<Seq<char>> {
    if c == AVERROR_EOF {
        Some("end of file"@)
    } else if c == AVERROR_INVALIDDATA {
        Some("invalid data"@)
    } else if c == AVERROR_MUXER_NOT_FOUND {
        Some("muxer not found"@)
    } else if c == AVERROR_OPTION_NOT_FOUND {
        Some("option not found"@)
    } else if c == AVERROR_PATCHWELCOME {
        Some("patch welcome"@)
    } else if c == AVERROR_PROTOCOL_NOT_FOUND {
        Some("protocol not found"@)
    } else if c == AVERROR_STREAM_NOT_FOUND {
        Some("stream not found"@)
    } else if c == AVERROR_BSF_NOT_FOUND {
        Some("bitstream filter not found"@)
    } else if c == AVERROR_BUG {
        Some("bug"@)
    } else if c == AVERROR_BUFFER_TOO_SMALL {
        Some("buffer too small"@)
    } else if c == AVERROR_DECODER_NOT_FOUND {
        Some("decoder not found"@)
    } else if c == AVERROR_DEMUXER_NOT_FOUND {
        Some("demuxer not found"@)
    } else if c == AVERROR_ENCODER_NOT_FOUND {
        Some("encoder not found"@)
    } else if c == AVERROR_EXIT {
        Some("exit"@)
    } else if c == AVERROR_EXTERNAL {
        Some("external"@)
    } else if c == AVERROR_FILTER_NOT_FOUND {
        Some("filter not found"@)
    } else if c == AVERROR_HTTP_BAD_REQUEST {
        Some("http bad request"@)
    } else if c == AVERROR_HTTP_FORBIDDEN {
        Some("http forbidden"@)
    } else if c == AVERROR_HTTP_NOT_FOUND {
        Some("http not found"@)
    } else if c == AVERROR_HTTP_OTHER_4XX {
        Some("http other 4xx"@)
    } else if c == AVERROR_HTTP_SERVER_ERROR {
        Some("http server error"@)
    } else if c == AVERROR_HTTP_UNAUTHORIZED {
        Some("http unauthorized"@)
    } else if c == AVERROR_BUG2 {
        Some("bug2"@)
    } else if c == AVERROR_UNKNOWN {
        Some("unknown"@)
    } else {
        None
    }
}

/// The message of an error code: its name for a named code, otherwise
/// "unknown error code: " followed by the number.
pub open spec fn code_text(c: i32) -> Seq<char> {
    match named_code_text(c) {
        Some(t) => t,
        None => "unknown error code: "@ + int_decimal(c as int),
    }
}

/// An ffmpeg error code: negative values are errors, the others success.
#[derive(Debug, Clone, Copy, PartialEq, Eq, Hash, Structural)]
pub struct FfmpegErrorCode(pub i32);

impl FfmpegErrorCode {
    /// FFmpeg error code for invalid arguments.
    #[allow(non_snake_case)]
    pub fn Einval() -> (c: FfmpegErrorCode)
        ensures
            c.0 == AVERROR_EINVAL,
    {
        FfmpegErrorCode(AVERROR_EINVAL)
    }

    /// FFmpeg error code for end of file.
    #[allow(non_snake_case)]
    pub fn EndOfFile() -> (c: FfmpegErrorCode)
        ensures
            c.0 == AVERROR_EOF,
    {
        FfmpegErrorCode(AVERROR_EOF)
    }

    /// FFmpeg error code for invalid data.
    #[allow(non_snake_case)]
    pub fn InvalidData() -> (c: FfmpegErrorCode)
        ensures
            c.0 == AVERROR_INVALIDDATA,
    {
        FfmpegErrorCode(AVERROR_INVALIDDATA)
    }

    /// FFmpeg error code for muxer not found.
    #[allow(non_snake_case)]
    pub fn MuxerNotFound() -> (c: FfmpegErrorCode)
        ensures
            c.0 == AVERROR_MUXER_NOT_FOUND,
    {
        FfmpegErrorCode(AVERROR_MUXER_NOT_FOUND)
    }

    /// FFmpeg error code for option not found.
    #[allow(non_snake_case)]
    pub fn OptionNotFound() -> (c: FfmpegErrorCode)
        ensures
            c.0 == AVERROR_OPTION_NOT_FOUND,
    {
        FfmpegErrorCode(AVERROR_OPTION_NOT_FOUND)
    }

    /// FFmpeg error code for patch welcome.
    #[allow(non_snake_case)]
    pub fn PatchWelcome() -> (c: FfmpegErrorCode)
        ensures
            c.0 == AVERROR_PATCHWELCOME,
    {
        FfmpegErrorCode(AVERROR_PATCHWELCOME)
    }

    /// FFmpeg error code for protocol not found.
    #[allow(non_snake_case)]
    pub fn ProtocolNotFound() -> (c: FfmpegErrorCode)
        ensures
            c.0 == AVERROR_PROTOCOL_NOT_FOUND,
    {
        FfmpegErrorCode(AVERROR_PROTOCOL_NOT_FOUND)
    }

    /// FFmpeg error code for stream not found.
    #[allow(non_snake_case)]
    pub fn StreamNotFound() -> (c: FfmpegErrorCode)
        ensures
            c.0 == AVERROR_STREAM_NOT_FOUND,
    {
        FfmpegErrorCode(AVERROR_STREAM_NOT_FOUND)
    }

    /// FFmpeg error code for bitstream filter not found.
    #[allow(non_snake_case)]
    pub fn BitstreamFilterNotFound() -> (c: FfmpegErrorCode)
        ensures
            c.0 == AVERROR_BSF_NOT_FOUND,
    {
        FfmpegErrorCode(AVERROR_BSF_NOT_FOUND)
    }

    /// FFmpeg error code for bug.
    #[allow(non_snake_case)]
    pub fn Bug() -> (c: FfmpegErrorCode)
        ensures
            c.0 == AVERROR_BUG,
    {
        FfmpegErrorCode(AVERROR_BUG)
    }

    /// FFmpeg error code for eof.
    #[allow(non_snake_case)]
    pub fn Eof() -> (c: FfmpegErrorCode)
        ensures
            c.0 == AVERROR_EOF,
    {
        FfmpegErrorCode(AVERROR_EOF)
    }

    /// FFmpeg error code for eagain.
    #[allow(non_snake_case)]
    pub fn Eagain() -> (c: FfmpegErrorCode)
        ensures
            c.0 == AVERROR_EAGAIN,
    {
        FfmpegErrorCode(AVERROR_EAGAIN)
    }

    /// FFmpeg error code for buffer too small.
    #[allow(non_snake_case)]
    pub fn BufferTooSmall() -> (c: FfmpegErrorCode)
        ensures
            c.0 == AVERROR_BUFFER_TOO_SMALL,
    {
        FfmpegErrorCode(AVERROR_BUFFER_TOO_SMALL)
    }

    /// FFmpeg error code for decoder not found.
    #[allow(non_snake_case)]
    pub fn DecoderNotFound() -> (c: FfmpegErrorCode)
        ensures
            c.0 == AVERROR_DECODER_NOT_FOUND,
    {
        FfmpegErrorCode(AVERROR_DECODER_NOT_FOUND)
    }

    /// FFmpeg error code for demuxer not found.
    #[allow(non_snake_case)]
    pub fn DemuxerNotFound() -> (c: FfmpegErrorCode)
        ensures
            c.0 == AVERROR_DEMUXER_NOT_FOUND,
    {
        FfmpegErrorCode(AVERROR_DEMUXER_NOT_FOUND)
    }

    /// FFmpeg error code for encoder not found.
    #[allow(non_snake_case)]
    pub fn EncoderNotFound() -> (c: FfmpegErrorCode)
        ensures
            c.0 == AVERROR_ENCODER_NOT_FOUND,
    {
        FfmpegErrorCode(AVERROR_ENCODER_NOT_FOUND)
    }

    /// FFmpeg error code for exit.
    #[allow(non_snake_case)]
    pub fn Exit() -> (c: FfmpegErrorCode)
        ensures
            c.0 == AVERROR_EXIT,
    {
        FfmpegErrorCode(AVERROR_EXIT)
    }

    /// FFmpeg error code for external.
    #[allow(non_snake_case)]
    pub fn External() -> (c: FfmpegErrorCode)
        ensures
            c.0 == AVERROR_EXTERNAL,
    {
        FfmpegErrorCode(AVERROR_EXTERNAL)
    }

    /// FFmpeg error code for filter not found.
    #[allow(non_snake_case)]
    pub fn FilterNotFound() -> (c: FfmpegErrorCode)
        ensures
            c.0 == AVERROR_FILTER_NOT_FOUND,
    {
        FfmpegErrorCode(AVERROR_FILTER_NOT_FOUND)
    }

    /// FFmpeg error code for http bad request.
    #[allow(non_snake_case)]
    pub fn HttpBadRequest() -> (c: FfmpegErrorCode)
        ensures
            c.0 == AVERROR_HTTP_BAD_REQUEST,
    {
        FfmpegErrorCode(AVERROR_HTTP_BAD_REQUEST)
    }

    /// FFmpeg error code for http forbidden.
    #[allow(non_snake_case)]
    pub fn HttpForbidden() -> (c: FfmpegErrorCode)
        ensures
            c.0 == AVERROR_HTTP_FORBIDDEN,
    {
        FfmpegErrorCode(AVERROR_HTTP_FORBIDDEN)
    }

    /// FFmpeg error code for http not found.
    #[allow(non_snake_case)]
    pub fn HttpNotFound() -> (c: FfmpegErrorCode)
        ensures
            c.0 == AVERROR_HTTP_NOT_FOUND,
    {
        FfmpegErrorCode(AVERROR_HTTP_NOT_FOUND)
    }

    /// FFmpeg error code for http other 4xx.
    #[allow(non_snake_case)]
    pub fn HttpOther4xx() -> (c: FfmpegErrorCode)
        ensures
            c.0 == AVERROR_HTTP_OTHER_4XX,
    {
        FfmpegErrorCode(AVERROR_HTTP_OTHER_4XX)
    }

    /// FFmpeg error code for http server error.
    #[allow(non_snake_case)]
    pub fn HttpServerError() -> (c: FfmpegErrorCode)
        ensures
            c.0 == AVERROR_HTTP_SERVER_ERROR,
    {
        FfmpegErrorCode(AVERROR_HTTP_SERVER_ERROR)
    }

    /// FFmpeg error code for http unauthorized.
    #[allow(non_snake_case)]
    pub fn HttpUnauthorized() -> (c: FfmpegErrorCode)
        ensures
            c.0 == AVERROR_HTTP_UNAUTHORIZED,
    {
        FfmpegErrorCode(AVERROR_HTTP_UNAUTHORIZED)
    }

    /// FFmpeg error code for bug2.
    #[allow(non_snake_case)]
    pub fn Bug2() -> (c: FfmpegErrorCode)
        ensures
            c.0 == AVERROR_BUG2,
    {
        FfmpegErrorCode(AVERROR_BUG2)
    }

    /// FFmpeg error code for unknown.
    #[allow(non_snake_case)]
    pub fn Unknown() -> (c: FfmpegErrorCode)
        ensures
            c.0 == AVERROR_UNKNOWN,
    {
        FfmpegErrorCode(AVERROR_UNKNOWN)
    }
}

impl FfmpegErrorCode {
    /// Returns `Ok` with the code when it is a success code, and the code
    /// as an error otherwise.
    pub fn result(self) -> (r: Result<i32, FfmpegError>)
        ensures
            self.0 >= 0 ==> r == Ok::<i32, FfmpegError>(self.0),
            self.0 < 0 ==> r == Err::<i32, FfmpegError>(FfmpegError::Code(self)),
    {
        if self.is_success() {
            Ok(self.0)
        } else {
            Err(FfmpegError::Code(self))
        }
    }

    /// Returns true if the error code is a success code.
    pub fn is_success(self) -> (b: bool)
        ensures
            b == (self.0 >= 0),
    {
        self.0 >= 0
    }

    /// Returns the message of a named error code, if the code has one.
    fn named_text(self) -> (r: Option<&'static str>)
        ensures
            r matches Some(t) ==> named_code_text(self.0) == Some(t@),
            r is None ==> named_code_text(self.0) is None,
    {
        if self.0 == AVERROR_EOF {
            Some("end of file")
        } else if self.0 == AVERROR_INVALIDDATA {
            Some("invalid data")
        } else if self.0 == AVERROR_MUXER_NOT_FOUND {
            Some("muxer not found")
        } else if self.0 == AVERROR_OPTION_NOT_FOUND {
            Some("option not found")
        } else if self.0 == AVERROR_PATCHWELCOME {
            Some("patch welcome")
        } else if self.0 == AVERROR_PROTOCOL_NOT_FOUND {
            Some("protocol not found")
        } else if self.0 == AVERROR_STREAM_NOT_FOUND {
            Some("stream not found")
        } else if self.0 == AVERROR_BSF_NOT_FOUND {
            Some("bitstream filter not found")
        } else if self.0 == AVERROR_BUG {
            Some("bug")
        } else if self.0 == AVERROR_BUFFER_TOO_SMALL {
            Some("buffer too small")
        } else if self.0 == AVERROR_DECODER_NOT_FOUND {
            Some("decoder not found")
        } else if self.0 == AVERROR_DEMUXER_NOT_FOUND {
            Some("demuxer not found")
        } else if self.0 == AVERROR_ENCODER_NOT_FOUND {
            Some("encoder not found")
        } else if self.0 == AVERROR_EXIT {
            Some("exit")
        } else if self.0 == AVERROR_EXTERNAL {
            Some("external")
        } else if self.0 == AVERROR_FILTER_NOT_FOUND {
            Some("filter not found")
        } else if self.0 == AVERROR_HTTP_BAD_REQUEST {
            Some("http bad request")
        } else if self.0 == AVERROR_HTTP_FORBIDDEN {
            Some("http forbidden")
        } else if self.0 == AVERROR_HTTP_NOT_FOUND {
            Some("http not found")
        } else if self.0 == AVERROR_HTTP_OTHER_4XX {
            Some("http other 4xx")
        } else if self.0 == AVERROR_HTTP_SERVER_ERROR {
            Some("http server error")
        } else if self.0 == AVERROR_HTTP_UNAUTHORIZED {
            Some("http unauthorized")
        } else if self.0 == AVERROR_BUG2 {
            Some("bug2")
        } else if self.0 == AVERROR_UNKNOWN {
            Some("unknown")
        } else {
            None
        }
    }

    /// Returns the message of the code.
    pub fn to_string(&self) -> (s: String)
        ensures
            s@ == code_text(self.0),
    {
        match self.named_text() {
            Some(t) => String::from_str(t),
            None => {
                let mut s = String::from_str("unknown error code: ");
                push_i32_decimal(&mut s, self.0);
                s
            },
        }
    }
}

impl From<i32> for FfmpegErrorCode {
    fn from(value: i32) -> (c: FfmpegErrorCode) {
        FfmpegErrorCode(value)
    }
}

impl vstd::std_specs::convert::FromSpecImpl<i32> for FfmpegErrorCode {
    open spec fn obeys_from_spec() -> bool {
        true
    }

    open spec fn from_spec(v: i32) -> FfmpegErrorCode {
        FfmpegErrorCode(v)
    }
}

impl From<FfmpegErrorCode> for i32 {
    fn from(value: FfmpegErrorCode) -> (v: i32) {
        value.0
    }
}

impl vstd::std_specs::convert::FromSpecImpl<FfmpegErrorCode> for i32 {
    open spec fn obeys_from_spec() -> bool {
        true
    }

    open spec fn from_spec(v: FfmpegErrorCode) -> i32 {
        v.0
    }
}

/// An error that occurs when an ffmpeg operation fails.
#[derive(Debug, PartialEq, Eq)]
pub enum FfmpegError {
    /// The memory allocation failed.
    Alloc,
    /// An ffmpeg call returned an error code.
    Code(FfmpegErrorCode),
    /// No decoder was found.
    NoDecoder,
    /// No encoder was found.
    NoEncoder,
    /// No stream was found.
    NoStream,
    /// No filter was found.
    NoFilter,
    /// No frame was found.
    NoFrame,
    /// The arguments were invalid.
    Arguments(&'static str),
}

impl From<FfmpegErrorCode> for FfmpegError {
    fn from(code: FfmpegErrorCode) -> (e: FfmpegError) {
        FfmpegError::Code(code)
    }
}

impl vstd::std_specs::convert::FromSpecImpl<FfmpegErrorCode> for FfmpegError {
    open spec fn obeys_from_spec() -> bool {
        true
    }

    open spec fn from_spec(v: FfmpegErrorCode) -> FfmpegError {
        FfmpegError::Code(v)
    }
}

/// The message of an error.
pub open spec fn error_text(e: FfmpegError) -> Seq<char> {
    match e {
        FfmpegError::Alloc => "failed to allocate memory"@,
        FfmpegError::Code(c) => "ffmpeg error: "@ + code_text(c.0),
        FfmpegError::NoDecoder => "no decoder found"@,
        FfmpegError::NoEncoder => "no encoder found"@,
        FfmpegError::NoStream => "no stream found"@,
        FfmpegError::NoFilter => "no filter found"@,
        FfmpegError::NoFrame => "no frame found"@,
        FfmpegError::Arguments(a) => "invalid arguments: "@ + a@,
    }
}

impl FfmpegError {
    /// Returns the message of the error.
    pub fn to_string(&self) -> (s: String)
        ensures
            s@ == error_text(*self),
    {
        match self {
            FfmpegError::Alloc => String::from_str("failed to allocate memory"),
            FfmpegError::Code(c) => {
                let s = String::from_str("ffmpeg error: ");
                let t = c.to_string();
                s.concat(t.as_str())
            },
            FfmpegError::NoDecoder => String::from_str("no decoder found"),
            FfmpegError::NoEncoder => String::from_str("no encoder found"),
            FfmpegError::NoStream => String::from_str("no stream found"),
            FfmpegError::NoFilter => String::from_str("no filter found"),
            FfmpegError::NoFrame => String::from_str("no frame found"),
            FfmpegError::Arguments(a) => {
                let s = String::from_str("invalid arguments: ");
                s.concat(a)
            },
        }
    }
}

} // verus!
