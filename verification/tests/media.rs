use autopiercam::camera::BayerPattern;
use autopiercam::preview::{
    check_preview_size, encode_preview, preview_metadata, LatestPreviewQueue, PreviewEncodeError,
    PreviewError, PreviewHub, PreviewJob, PreviewMetadata, PreviewMode, PreviewPacer,
    PreviewProtocol, PreviewTake, PREVIEW_INTERVAL,
};
use autopiercam::still::{
    check_jpeg_quality, encode_still, gray_to_rgb, still_format,
    temporary_artifact_name, StillError, StillFormat, StillPixels,
};
use autopiercam::video::{
    check_encoded, check_segment, concat_manifest, encoder_arguments, encoder_step,
    sample_filename, EncodeError, EncoderStatus, EncoderStep, SampleStep, Segment, SpoolBound,
    VideoSampler, ENCODER_TIMEOUT, MAX_SAMPLES, MAX_SPOOL_BYTES,
};

const SECOND: u128 = 1_000_000_000;

const PROTOCOL: PreviewProtocol = PreviewProtocol {
    version: 1,
    max_jpeg_size: 1_000_000,
};

fn metadata() -> PreviewMetadata {
    PreviewMetadata {
        version: 1,
        session_generation: 1,
        sequence: 1,
        captured_at_unix_ms: 1,
        width: 1,
        height: 1,
        exposure_us: Some(1_000),
        gain: Some(10),
        mode: PreviewMode::Unknown,
        dropped_frames: 0,
    }
}

fn job(value: u8) -> PreviewJob {
    PreviewJob {
        width: 2,
        height: 2,
        bayer: BayerPattern::Rg,
        data: vec![value; 4],
        raw16: false,
        captured_at_unix_ms: u64::from(value),
        exposure_us: 1_000,
        gain: 10,
        mode: PreviewMode::Night,
        dropped_frames: 0,
    }
}

fn publish(hub: &mut PreviewHub, session: u64) -> bool {
    let jpeg = vec![0xff, 0xd8, 0xff, 0xd9];
    let stamped = hub.stamp(session, metadata(), jpeg.len(), PROTOCOL).unwrap();
    hub.publish(stamped, jpeg)
}

#[test]
fn sessions_clear_stale_frames_and_reject_old_publishers() {
    let mut hub = PreviewHub::new();
    let first = hub.begin_session().generation();
    assert!(publish(&mut hub, first));
    let first_snapshot = hub.snapshot();
    assert_eq!(
        first_snapshot
            .frame
            .as_ref()
            .unwrap()
            .metadata
            .session_generation,
        first
    );

    let second = hub.begin_session().generation();
    assert!(hub.snapshot().frame.is_none());
    assert!(!publish(&mut hub, first));
    assert!(publish(&mut hub, second));
    hub.end_session(second);
    assert!(hub.snapshot().frame.is_none());
}

#[test]
fn ended_sessions_do_not_clear_later_ones() {
    let mut hub = PreviewHub::new();
    let first = hub.begin_session().generation();
    let second = hub.begin_session().generation();
    assert!(publish(&mut hub, second));
    let before = hub.snapshot().change_generation;
    hub.end_session(first);
    assert_eq!(hub.snapshot().change_generation, before);
    assert_eq!(hub.snapshot().frame.unwrap().metadata.sequence, 1);
    assert_eq!(
        hub.stamp(second, metadata(), 0, PROTOCOL),
        Err(PreviewError::Length(0))
    );
    assert_eq!(
        hub.stamp(second, metadata(), 1_000_001, PROTOCOL),
        Err(PreviewError::Length(1_000_001))
    );
    assert_eq!(
        hub.stamp(second, metadata(), 1, PROTOCOL).unwrap().sequence,
        2
    );
}

#[test]
fn pending_preview_is_replaced_and_drop_count_is_carried_forward() {
    let mut queue = LatestPreviewQueue::new();
    assert!(queue.try_publish(job(1)));
    assert!(queue.try_publish(job(2)));
    match queue.next() {
        PreviewTake::Job(latest) => {
            assert_eq!(latest.data, vec![2; 4]);
            assert_eq!(latest.dropped_frames, 1);
        }
        other => panic!("{other:?}"),
    }
    assert!(matches!(queue.next(), PreviewTake::Empty));
    queue.skip_contended();
    assert_eq!(queue.dropped_frames, 2);
    assert!(queue.try_publish(job(3)));
    queue.close();
    assert!(matches!(queue.next(), PreviewTake::Closed));
    assert!(!queue.try_publish(job(4)));
}

#[test]
fn previews_are_paced() {
    let mut pacer = PreviewPacer::new(5);
    assert!(pacer.is_due(5));
    assert!(!pacer.is_due(4 + PREVIEW_INTERVAL));
    assert!(pacer.is_due(5 + PREVIEW_INTERVAL));
}

#[test]
fn previews_are_encoded_within_their_limit() {
    let rgb = vec![128; 3 * 16 * 16];
    let jpeg = encode_preview(&rgb, 16, 16, 1_000_000).unwrap();
    assert_eq!(&jpeg[..2], &[0xff, 0xd8]);
    assert_eq!(
        image::load_from_memory(&jpeg).unwrap().to_rgb8().dimensions(),
        (16, 16)
    );
    assert!(matches!(
        encode_preview(&rgb, 16, 16, 10),
        Err(PreviewEncodeError::TooLarge(length)) if length == jpeg.len()
    ));
    assert!(matches!(
        encode_preview(&Vec::new(), 0, 16, 10),
        Err(PreviewEncodeError::Jpeg(_))
    ));
    assert_eq!(check_preview_size(vec![1], 1).unwrap(), vec![1]);
}

#[test]
fn preview_metadata_describes_the_job() {
    let described = preview_metadata(&job(7), 20, 10, 4, 3);
    assert_eq!(described.version, 3);
    assert_eq!(described.session_generation, 4);
    assert_eq!((described.width, described.height), (20, 10));
    assert_eq!(described.captured_at_unix_ms, 7);
    assert_eq!(described.exposure_us, Some(1_000));
    assert_eq!(described.mode, PreviewMode::Night);
}

#[test]
fn raw16_png_roundtrip_preserves_low_sensor_bits() {
    let samples: Vec<u16> = (0..48).map(|n| 12_345 + n * 17).collect();
    let png = encode_still(StillPixels::Rgb16(samples.clone()), 4, 4, 88, "png").unwrap();
    let decoded = image::load_from_memory(&png).unwrap();
    assert_eq!(decoded.color(), image::ColorType::Rgb16);
    assert_eq!(decoded.to_rgb16().into_raw(), samples);
}

#[test]
fn stills_are_encoded_as_their_extension_asks() {
    let rgb = || StillPixels::Rgb8(vec![10, 20, 30]);
    let png = encode_still(rgb(), 1, 1, 80, "PNG").unwrap();
    assert_eq!(
        image::load_from_memory(&png).unwrap().to_rgb8().into_raw(),
        vec![10, 20, 30]
    );
    let jpeg = encode_still(rgb(), 1, 1, 80, "jpeg").unwrap();
    assert_eq!(&jpeg[..2], &[0xff, 0xd8]);
    assert_ne!(
        jpeg,
        encode_still(rgb(), 1, 1, 1, "jpg").unwrap(),
        "quality matters"
    );
    assert!(matches!(
        encode_still(rgb(), 1, 1, 80, "gif"),
        Err(StillError::Extension)
    ));
    assert!(matches!(
        encode_still(StillPixels::Rgb16(vec![1, 2, 3]), 1, 1, 80, "jpg"),
        Err(StillError::DeepJpeg)
    ));
    assert!(matches!(
        encode_still(StillPixels::Rgb8(Vec::new()), 0, 0, 80, "jpg"),
        Err(StillError::Jpeg(_))
    ));
    assert!(matches!(
        encode_still(StillPixels::Rgb8(Vec::new()), 0, 0, 80, "png"),
        Err(StillError::Png(_))
    ));
    assert!(matches!(
        encode_still(StillPixels::Rgb16(Vec::new()), 0, 7, 80, "png"),
        Err(StillError::Png(_))
    ));
    assert!(matches!(
        encode_still(StillPixels::Rgb8(Vec::new()), 7, 0, 80, "png"),
        Err(StillError::Png(_))
    ));
    assert_eq!(still_format("JpG"), Some(StillFormat::Jpeg));
    assert_eq!(still_format(""), None);
}

#[test]
fn temporary_names_are_hidden_and_unique() {
    assert_eq!(
        temporary_artifact_name("frame.jpg", 12, 3),
        ".frame.jpg.12.3.partial"
    );
    assert_ne!(
        temporary_artifact_name("frame.jpg", 1, 23),
        temporary_artifact_name("frame.jpg", 12, 3)
    );
}

#[test]
fn qualities_and_gray_pixels_are_converted() {
    assert!(check_jpeg_quality(1) && check_jpeg_quality(100));
    assert!(!check_jpeg_quality(0) && !check_jpeg_quality(101));
    assert_eq!(gray_to_rgb(&vec![1, 2]), vec![1, 1, 1, 2, 2, 2]);
}

#[test]
fn manifest_uses_safe_names_and_real_elapsed_gaps() {
    let manifest = concat_manifest(&vec![0, 30 * SECOND], 90 * SECOND);
    assert!(manifest.contains("duration 30.000000"));
    assert!(manifest.contains("duration 60.000000"));
    assert!(manifest.ends_with("file 'sample-000001.jpg'\n"));
}

#[test]
fn manifests_list_every_sample_and_a_shortest_duration() {
    assert_eq!(concat_manifest(&Vec::new(), 0), "ffconcat version 1.0\n");
    assert_eq!(
        concat_manifest(&vec![5, SECOND / 2], SECOND / 2 + 1),
        "ffconcat version 1.0\n\
         file 'sample-000000.jpg'\nduration 0.500000\n\
         file 'sample-000001.jpg'\nduration 0.040000\n\
         file 'sample-000001.jpg'\n"
    );
    assert_eq!(
        concat_manifest(&vec![0], 2_147_483_647 * SECOND + 999_999_000),
        "ffconcat version 1.0\n\
         file 'sample-000000.jpg'\nduration 2147483647.999999\n\
         file 'sample-000000.jpg'\n"
    );
    assert_eq!(sample_filename(1_199), "sample-001199.jpg");
}

#[test]
fn spool_rejects_oversized_segments_before_writing() {
    let mut segment = Segment::new(0);
    segment.bytes = MAX_SPOOL_BYTES;
    assert!(segment.check_room(0));
    assert!(!segment.check_room(1));
    assert_eq!(segment.push(1, 0), Err(SpoolBound));
    assert!(segment.frames.is_empty());
}

#[test]
fn segments_number_their_samples() {
    let mut segment = Segment::new(SECOND);
    for index in 0..MAX_SAMPLES {
        assert_eq!(segment.push(10, SECOND + 1), Ok(index));
    }
    assert_eq!(segment.push(10, SECOND + 1), Err(SpoolBound));
    assert_eq!(segment.bytes, 12_000);
    assert!(segment.has_elapsed(11 * SECOND, 10));
    assert!(!segment.has_elapsed(11 * SECOND - 1, 10));
    assert_eq!(check_segment(&segment), Ok(()));
    assert_eq!(
        check_segment(&Segment::new(0)),
        Err(EncodeError::EmptySegment)
    );
}

#[test]
fn the_sampler_takes_each_preview_once_and_rotates() {
    let mut sampler = VideoSampler::new();
    assert_eq!(sampler.consider(false, false, None), SampleStep::Skip);
    assert_eq!(
        sampler.consider(true, false, Some((1, 10))),
        SampleStep::Skip
    );
    assert_eq!(
        sampler.consider(false, true, Some((1, 10))),
        SampleStep::Skip
    );
    assert_eq!(
        sampler.consider(false, false, Some((1, 10))),
        SampleStep::Begin
    );
    sampler.segment = Some(Segment::new(0));
    assert_eq!(
        sampler.consider(false, false, Some((1, 10))),
        SampleStep::Skip
    );
    assert_eq!(
        sampler.consider(false, false, Some((2, 10))),
        SampleStep::Append
    );
    assert_eq!(
        sampler.consider(false, false, Some((3, MAX_SPOOL_BYTES as usize + 1))),
        SampleStep::Rotate
    );
    assert_eq!(sampler.take_segment().unwrap().1, 0);
    assert!(sampler.take_segment().is_none());
    assert_eq!(sampler.sequence, 1);
}

#[test]
fn the_encoder_is_bounded_and_checked() {
    assert_eq!(
        encoder_step(EncoderStatus::Running, ENCODER_TIMEOUT - 1),
        EncoderStep::Sleep
    );
    assert_eq!(
        encoder_step(EncoderStatus::Running, ENCODER_TIMEOUT),
        EncoderStep::Kill(EncodeError::DeadlineExceeded)
    );
    assert_eq!(
        encoder_step(EncoderStatus::Exited(false), 0),
        EncoderStep::Collect(false)
    );
    assert_eq!(
        encoder_step(EncoderStatus::Unknown, 0),
        EncoderStep::Kill(EncodeError::StatusUnavailable)
    );
    assert_eq!(check_encoded(true, 1), Ok(()));
    assert_eq!(check_encoded(true, 0), Err(EncodeError::EmptyOutput));
    assert_eq!(check_encoded(false, 1), Err(EncodeError::EncodingFailed));
    let arguments = encoder_arguments();
    assert_eq!(arguments.len(), 32);
    assert_eq!(arguments[0], "-nostdin");
    assert_eq!(arguments[31], "-n");
}
