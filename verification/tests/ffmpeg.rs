use scuffle::ffmpeg::muxer::next_buffered_timing;
use scuffle::ffmpeg::consts::{Const, Mut};
use scuffle::ffmpeg::error::{FfmpegError, FfmpegErrorCode, AVERROR_BSF_NOT_FOUND, AVERROR_BUFFER_TOO_SMALL, AVERROR_BUG, AVERROR_BUG2, AVERROR_DECODER_NOT_FOUND, AVERROR_DEMUXER_NOT_FOUND, AVERROR_ENCODER_NOT_FOUND, AVERROR_EOF, AVERROR_EXIT, AVERROR_EXTERNAL, AVERROR_FILTER_NOT_FOUND, AVERROR_HTTP_BAD_REQUEST, AVERROR_HTTP_FORBIDDEN, AVERROR_HTTP_NOT_FOUND, AVERROR_HTTP_OTHER_4XX, AVERROR_HTTP_SERVER_ERROR, AVERROR_HTTP_UNAUTHORIZED, AVERROR_INVALIDDATA, AVERROR_MUXER_NOT_FOUND, AVERROR_OPTION_NOT_FOUND, AVERROR_PATCHWELCOME, AVERROR_PROTOCOL_NOT_FOUND, AVERROR_STREAM_NOT_FOUND, AVERROR_UNKNOWN};
use scuffle::ffmpeg::frame::Frame;
use scuffle::ffmpeg::limiter::FrameRateLimiter;
use scuffle::ffmpeg::log::LogLevel;
use scuffle::ffmpeg::packet::{AVPacket, AVPktFlags, Packet};
use scuffle::ffmpeg::rational::{AVRational, NonZeroI32, Rational};
use scuffle::ffmpeg::smart_object::SmartObject;
use scuffle::ffmpeg::utils::{check_i64, or_nopts, AV_NOPTS_VALUE};

#[test]
fn test_ffmpeg_error_code_display() {
    let cases = [
        (FfmpegErrorCode::EndOfFile(), "end of file"),
        (FfmpegErrorCode::InvalidData(), "invalid data"),
        (FfmpegErrorCode::MuxerNotFound(), "muxer not found"),
        (FfmpegErrorCode::OptionNotFound(), "option not found"),
        (FfmpegErrorCode::PatchWelcome(), "patch welcome"),
        (FfmpegErrorCode::ProtocolNotFound(), "protocol not found"),
        (FfmpegErrorCode::StreamNotFound(), "stream not found"),
        (FfmpegErrorCode::BitstreamFilterNotFound(), "bitstream filter not found"),
        (FfmpegErrorCode::Bug(), "bug"),
        (FfmpegErrorCode::BufferTooSmall(), "buffer too small"),
        (FfmpegErrorCode::DecoderNotFound(), "decoder not found"),
        (FfmpegErrorCode::DemuxerNotFound(), "demuxer not found"),
        (FfmpegErrorCode::EncoderNotFound(), "encoder not found"),
        (FfmpegErrorCode::Exit(), "exit"),
        (FfmpegErrorCode::External(), "external"),
        (FfmpegErrorCode::FilterNotFound(), "filter not found"),
        (FfmpegErrorCode::HttpBadRequest(), "http bad request"),
        (FfmpegErrorCode::HttpForbidden(), "http forbidden"),
        (FfmpegErrorCode::HttpNotFound(), "http not found"),
        (FfmpegErrorCode::HttpOther4xx(), "http other 4xx"),
        (FfmpegErrorCode::HttpServerError(), "http server error"),
        (FfmpegErrorCode::HttpUnauthorized(), "http unauthorized"),
        (FfmpegErrorCode::Bug2(), "bug2"),
        (FfmpegErrorCode::Unknown(), "unknown"),
        (FfmpegErrorCode(123), "unknown error code: 123"),
    ];

    for (code, expected) in cases {
        assert_eq!(code.to_string(), expected);
    }
}

#[test]
fn test_ffmpeg_error_code_from_i32() {
    const TEST_CASES: &[(i32, FfmpegErrorCode)] = &[
        (AVERROR_EOF, FfmpegErrorCode(AVERROR_EOF)),
        (AVERROR_INVALIDDATA, FfmpegErrorCode(AVERROR_INVALIDDATA)),
        (AVERROR_MUXER_NOT_FOUND, FfmpegErrorCode(AVERROR_MUXER_NOT_FOUND)),
        (AVERROR_OPTION_NOT_FOUND, FfmpegErrorCode(AVERROR_OPTION_NOT_FOUND)),
        (AVERROR_PATCHWELCOME, FfmpegErrorCode(AVERROR_PATCHWELCOME)),
        (AVERROR_PROTOCOL_NOT_FOUND, FfmpegErrorCode(AVERROR_PROTOCOL_NOT_FOUND)),
        (AVERROR_STREAM_NOT_FOUND, FfmpegErrorCode(AVERROR_STREAM_NOT_FOUND)),
        (AVERROR_BSF_NOT_FOUND, FfmpegErrorCode(AVERROR_BSF_NOT_FOUND)),
        (AVERROR_BUG, FfmpegErrorCode(AVERROR_BUG)),
        (AVERROR_BUFFER_TOO_SMALL, FfmpegErrorCode(AVERROR_BUFFER_TOO_SMALL)),
        (AVERROR_DECODER_NOT_FOUND, FfmpegErrorCode(AVERROR_DECODER_NOT_FOUND)),
        (AVERROR_DEMUXER_NOT_FOUND, FfmpegErrorCode(AVERROR_DEMUXER_NOT_FOUND)),
        (AVERROR_ENCODER_NOT_FOUND, FfmpegErrorCode(AVERROR_ENCODER_NOT_FOUND)),
        (AVERROR_EXIT, FfmpegErrorCode(AVERROR_EXIT)),
        (AVERROR_EXTERNAL, FfmpegErrorCode(AVERROR_EXTERNAL)),
        (AVERROR_FILTER_NOT_FOUND, FfmpegErrorCode(AVERROR_FILTER_NOT_FOUND)),
        (AVERROR_HTTP_BAD_REQUEST, FfmpegErrorCode(AVERROR_HTTP_BAD_REQUEST)),
        (AVERROR_HTTP_FORBIDDEN, FfmpegErrorCode(AVERROR_HTTP_FORBIDDEN)),
        (AVERROR_HTTP_NOT_FOUND, FfmpegErrorCode(AVERROR_HTTP_NOT_FOUND)),
        (AVERROR_HTTP_OTHER_4XX, FfmpegErrorCode(AVERROR_HTTP_OTHER_4XX)),
        (AVERROR_HTTP_SERVER_ERROR, FfmpegErrorCode(AVERROR_HTTP_SERVER_ERROR)),
        (AVERROR_HTTP_UNAUTHORIZED, FfmpegErrorCode(AVERROR_HTTP_UNAUTHORIZED)),
        (AVERROR_BUG2, FfmpegErrorCode(AVERROR_BUG2)),
        (AVERROR_UNKNOWN, FfmpegErrorCode(AVERROR_UNKNOWN)),
    ];
    let named = [
        FfmpegErrorCode::EndOfFile(),
        FfmpegErrorCode::InvalidData(),
        FfmpegErrorCode::MuxerNotFound(),
        FfmpegErrorCode::OptionNotFound(),
        FfmpegErrorCode::PatchWelcome(),
        FfmpegErrorCode::ProtocolNotFound(),
        FfmpegErrorCode::StreamNotFound(),
        FfmpegErrorCode::BitstreamFilterNotFound(),
        FfmpegErrorCode::Bug(),
        FfmpegErrorCode::BufferTooSmall(),
        FfmpegErrorCode::DecoderNotFound(),
        FfmpegErrorCode::DemuxerNotFound(),
        FfmpegErrorCode::EncoderNotFound(),
        FfmpegErrorCode::Exit(),
        FfmpegErrorCode::External(),
        FfmpegErrorCode::FilterNotFound(),
        FfmpegErrorCode::HttpBadRequest(),
        FfmpegErrorCode::HttpForbidden(),
        FfmpegErrorCode::HttpNotFound(),
        FfmpegErrorCode::HttpOther4xx(),
        FfmpegErrorCode::HttpServerError(),
        FfmpegErrorCode::HttpUnauthorized(),
        FfmpegErrorCode::Bug2(),
        FfmpegErrorCode::Unknown(),
    ];

    for (&(value, expected), named) in TEST_CASES.iter().zip(named) {
        let result: FfmpegErrorCode = value.into();
        assert_eq!(result, expected, "Failed for value: {value}");
        assert_eq!(result, named, "Failed for value: {value}");
    }

    let unknown_value = 9999;
    let result: FfmpegErrorCode = unknown_value.into();
    assert_eq!(
        result,
        FfmpegErrorCode(unknown_value),
        "Failed for unknown value: {unknown_value}"
    );
}

#[test]
fn test_ffmpeg_error_display() {
    let cases = [
        (FfmpegError::Alloc, "failed to allocate memory"),
        (FfmpegError::Code(FfmpegErrorCode::EndOfFile()), "ffmpeg error: end of file"),
        (FfmpegError::NoDecoder, "no decoder found"),
        (FfmpegError::NoEncoder, "no encoder found"),
        (FfmpegError::NoStream, "no stream found"),
        (FfmpegError::NoFilter, "no filter found"),
        (FfmpegError::NoFrame, "no frame found"),
        (
            FfmpegError::Arguments("invalid argument example"),
            "invalid arguments: invalid argument example",
        ),
    ];

    for (error, expected) in cases {
        assert_eq!(error.to_string(), expected);
    }
}

#[test]
fn test_ffmpeg_error_code_unnamed_messages() {
    assert_eq!(FfmpegErrorCode::Einval().to_string(), "unknown error code: -22");
    assert_eq!(FfmpegErrorCode::Eagain().to_string(), "unknown error code: -11");
    assert_eq!(FfmpegErrorCode::Eof().to_string(), "end of file");
    assert_eq!(FfmpegErrorCode(0).to_string(), "unknown error code: 0");
    assert_eq!(FfmpegErrorCode(i32::MIN).to_string(), "unknown error code: -2147483648");
    assert_eq!(FfmpegErrorCode(i32::MAX).to_string(), "unknown error code: 2147483647");
    assert_eq!(
        FfmpegError::Code(FfmpegErrorCode(-5)).to_string(),
        "ffmpeg error: unknown error code: -5"
    );
}

#[test]
fn test_ffmpeg_error_code_result() {
    assert_eq!(FfmpegErrorCode(0).result(), Ok(0));
    assert_eq!(FfmpegErrorCode(7).result(), Ok(7));
    assert!(FfmpegErrorCode(7).is_success());
    assert!(!FfmpegErrorCode::EndOfFile().is_success());
    assert_eq!(
        FfmpegErrorCode::EndOfFile().result(),
        Err(FfmpegError::Code(FfmpegErrorCode::EndOfFile()))
    );
    let back: i32 = FfmpegErrorCode(-3).into();
    assert_eq!(back, -3);
    let err: FfmpegError = FfmpegErrorCode(-3).into();
    assert_eq!(err, FfmpegError::Code(FfmpegErrorCode(-3)));
}

#[test]
fn test_deref_for_mut_with_complex_type() {
    let value = vec![1, 2, 3];
    let mut_value = Mut::new(value);
    let deref_value: &Vec<i32> = &mut_value;

    assert_eq!(deref_value, &vec![1, 2, 3], "Dereferencing Mut should return the inner value");
}

#[test]
fn test_mut_and_const_deref() {
    let mut m = Mut::new(5);
    *m += 1;
    assert_eq!(*m, 6);
    let c = Const::new("x");
    assert_eq!(*c, "x");
}

#[test]
fn test_smart_object_as_ref() {
    let smart_object = SmartObject::new(42, |_value: &mut i32| {});
    let as_ref_value: &i32 = smart_object.as_ref();

    assert_eq!(*as_ref_value, 42, "Expected `as_ref` to return a reference to the value");
}

#[test]
fn test_smart_object_as_mut() {
    let mut smart_object = SmartObject::new(42, |_value: &mut i32| {});
    let as_mut_value: &mut i32 = smart_object.as_mut();
    *as_mut_value = 100;

    assert_eq!(*smart_object, 100, "Expected `as_mut` to allow modifying the value");
}

#[test]
fn test_smart_object_into_inner() {
    let mut smart_object = SmartObject::new(1, |_value: &mut i32| {});
    *smart_object.inner_mut() += 1;
    assert_eq!(smart_object.inner(), 2);
    assert_eq!(*smart_object.inner_ref(), 2);
    assert_eq!(smart_object.into_inner(), 2);
}

#[test]
fn test_packet_as_ptr() {
    let packet = Packet::new().expect("Failed to create Packet");
    let raw_ptr: &AVPacket = packet.as_ptr();

    assert_eq!(
        raw_ptr.stream_index, 0,
        "Expected the default stream_index to be 0 for a new Packet"
    );
}

#[test]
fn test_packet_clone_snapshot() {
    let mut original_packet = Packet::new().expect("Failed to create original Packet");
    original_packet.set_stream_index(1);
    original_packet.set_pts(Some(12345));
    original_packet.set_dts(Some(54321));
    original_packet.set_duration(Some(1000));
    original_packet.set_pos(Some(2000));

    let cloned_packet = original_packet.clone();

    assert_eq!(cloned_packet.stream_index(), 1);
    assert_eq!(cloned_packet.pts(), Some(12345));
    assert_eq!(cloned_packet.dts(), Some(54321));
    assert_eq!(cloned_packet.duration(), Some(1000));
    assert_eq!(cloned_packet.pos(), Some(2000));
    assert!(!cloned_packet.is_key());
    assert!(!cloned_packet.is_corrupt());
    assert!(!cloned_packet.is_discard());
    assert!(!cloned_packet.is_trusted());
    assert!(!cloned_packet.is_disposable());

    original_packet.set_pts(Some(99999));
    assert_ne!(
        cloned_packet.pts(),
        original_packet.pts(),
        "Expected cloned packet PTS to remain unchanged after modifying the original"
    );

    assert_eq!(original_packet.stream_index(), 1);
    assert_eq!(original_packet.pts(), Some(99999));
    assert_eq!(original_packet.dts(), Some(54321));
    assert_eq!(original_packet.duration(), Some(1000));
    assert_eq!(original_packet.pos(), Some(2000));
}

#[test]
fn test_packet_defaults_and_flags() {
    let mut packet = Packet::new().unwrap();
    assert_eq!(packet.pts(), None);
    assert_eq!(packet.dts(), None);
    assert_eq!(packet.duration(), Some(0));
    assert_eq!(packet.pos(), Some(-1));
    assert_eq!(packet.flags(), AVPktFlags(0));
    packet.as_mut_ptr().flags = 1 | 4 | 16;
    assert!(packet.is_key());
    assert!(!packet.is_corrupt());
    assert!(packet.is_discard());
    assert!(!packet.is_trusted());
    assert!(packet.is_disposable());
    assert_eq!(packet.flags(), AVPktFlags(21));
    assert!(AVPktFlags(10).intersects(AVPktFlags::Trusted()));
    packet.set_pts(None);
    assert_eq!(packet.as_ptr().pts, AV_NOPTS_VALUE);
}

#[test]
fn test_timestamp_helpers() {
    assert_eq!(check_i64(AV_NOPTS_VALUE), None);
    assert_eq!(check_i64(5), Some(5));
    assert_eq!(or_nopts(None), i64::MIN);
    assert_eq!(or_nopts(Some(-7)), -7);
    for v in [None, Some(0), Some(-1), Some(i64::MAX)] {
        assert_eq!(check_i64(or_nopts(v)), v);
    }
    for v in [AV_NOPTS_VALUE, 0, 42] {
        assert_eq!(or_nopts(check_i64(v)), v);
    }
}

#[test]
fn test_frame_rate_limiter_new() {
    let frame_rate = 30;
    let time_base = AVRational { num: 1, den: 30000 };

    let limiter = FrameRateLimiter::new(frame_rate, time_base);

    assert_eq!(limiter.last_frame, 0);
    assert_eq!(limiter.accumulated_time, 0);
    assert_eq!(limiter.frame_timing, 1000);
}

#[test]
fn test_frame_rate_limiter_limit_if_case() {
    let frame_rate = 30;
    let time_base = AVRational { num: 1, den: 30000 };
    let mut limiter = FrameRateLimiter::new(frame_rate, time_base);
    let mut frame = Frame::new().unwrap();
    frame.set_dts(Some(2000));
    let result = limiter.limit(&frame);

    assert!(result);
    assert_eq!(limiter.last_frame, 2000);
    assert_eq!(limiter.accumulated_time, 1000);
}

#[test]
fn test_frame_rate_limiter_limit_else_case() {
    let frame_rate = 30;
    let time_base = AVRational { num: 1, den: 30000 };
    let mut limiter = FrameRateLimiter::new(frame_rate, time_base);
    let mut frame = Frame::new().unwrap();
    frame.set_dts(Some(500));
    let result = limiter.limit(&frame);

    assert!(!result);
    assert_eq!(limiter.last_frame, 500);
    assert_eq!(limiter.accumulated_time, 500);
}

#[test]
fn test_frame_rate_limiter_rounding_and_pts() {
    let limiter = FrameRateLimiter::new(7, AVRational { num: -1, den: 100 });
    assert_eq!(limiter.frame_timing, -14);
    let limiter = FrameRateLimiter::new(-7, AVRational { num: 2, den: 100 });
    assert_eq!(limiter.frame_timing, -7);

    let mut limiter = FrameRateLimiter::new(30, AVRational { num: 1, den: 30000 });
    let mut frame = Frame::new().unwrap();
    frame.set_pts(Some(999));
    assert!(!limiter.limit(&frame));
    frame.set_pts(Some(1001));
    assert!(limiter.limit(&frame));
    assert_eq!(limiter.accumulated_time, 1);
}

#[test]
fn test_log_level_as_str_using_from_i32() {
    let test_cases = [
        (-8, "quiet"),
        (0, "panic"),
        (8, "fatal"),
        (16, "error"),
        (24, "warning"),
        (32, "info"),
        (40, "verbose"),
        (48, "debug"),
        (56, "trace"),
        (100, "info"),
        (-1, "info"),
    ];

    for &(input, expected) in &test_cases {
        let log_level = LogLevel::from_i32(input);
        assert_eq!(
            log_level.as_str(),
            expected,
            "Expected '{}' for input {}, but got '{}'",
            expected,
            input,
            log_level.as_str()
        );
    }
}

#[test]
fn test_log_level_numbers() {
    assert_eq!(LogLevel::Trace.to_i32(), 56);
    assert_eq!(LogLevel::from_i32(LogLevel::Quiet.to_i32()), LogLevel::Quiet);
}

#[test]
fn test_rational() {
    let zero = Rational::default();
    assert_eq!(zero.numerator, 0);
    assert_eq!(zero.denominator.get(), 1);
    assert!(NonZeroI32::new(0).is_none());
    let r = Rational::new(3, NonZeroI32::new(4).unwrap());
    let av: AVRational = r.into();
    assert_eq!(av, AVRational { num: 3, den: 4 });
    let back: Rational = AVRational { num: 5, den: 0 }.into();
    assert_eq!(back, Rational::zero());
    let back: Rational = av.into();
    assert_eq!(back, r);
    let from_int: Rational = 7.into();
    assert_eq!(from_int, Rational::static_new(7, 1));
}

fn timed_packet(pts: Option<i64>, dts: Option<i64>, duration: Option<i64>) -> Packet {
    let mut packet = Packet::new().unwrap();
    packet.set_pts(pts);
    packet.set_dts(dts);
    packet.set_duration(duration);
    packet
}

#[test]
fn test_next_buffered_timing() {
    let next = timed_packet(Some(120), Some(110), None);

    let (p, prev_dts, prev_pts) = next_buffered_timing(timed_packet(Some(100), Some(100), Some(0)), &next, 50, 50, 7);
    assert_eq!(p.duration(), Some(10));
    assert_eq!((p.dts(), p.pts()), (Some(100), Some(100)));
    assert_eq!((prev_dts, prev_pts), (100, 100));

    let (p, _, _) = next_buffered_timing(timed_packet(Some(100), Some(200), None), &next, 0, 0, 7);
    assert_eq!(p.duration(), Some(20));

    let (p, _, _) = next_buffered_timing(timed_packet(Some(300), Some(200), None), &next, 0, 0, 7);
    assert_eq!(p.duration(), Some(7));

    let (p, prev_dts, prev_pts) = next_buffered_timing(timed_packet(Some(40), Some(30), Some(5)), &next, 30, 40, 7);
    assert_eq!(p.duration(), Some(5));
    assert_eq!((p.dts(), p.pts()), (Some(31), Some(41)));
    assert_eq!((prev_dts, prev_pts), (30, 40));

    let (p, prev_dts, prev_pts) = next_buffered_timing(timed_packet(None, None, Some(5)), &next, 9, 8, 7);
    assert_eq!((p.dts(), p.pts()), (None, None));
    assert_eq!((prev_dts, prev_pts), (9, 8));
}

#[test]
fn test_rational_identities() {
    assert_eq!(Rational::static_new(3, 4), Rational::new(3, NonZeroI32::new(4).unwrap()));
    assert_eq!(Rational::zero(), Rational::static_new(0, 1));
    assert_eq!(Rational::zero(), Rational::default());
}
