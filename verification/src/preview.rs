//! Bounded, latest-only preview frames.

use std::sync::Arc;

use image::ImageError;
use vstd::prelude::*;

use crate::camera::BayerPattern;
use crate::still;
use crate::still::write_jpeg;

verus! {

pub const PREVIEW_JPEG_QUALITY: u8 = 75;

/// The shortest time between two previews, in nanoseconds.
pub const PREVIEW_INTERVAL: u128 = 500_000_000;

/// The light that a preview was taken in.
#[derive(Clone, Copy, Debug, PartialEq, Eq, Structural)]
pub enum PreviewMode {
    Unknown,
    Day,
    Night,
}

/// What is known of a preview besides its pixels.
#[derive(Clone, Copy, Debug, PartialEq, Eq, Structural)]
pub struct PreviewMetadata {
    pub version: u32,
    pub session_generation: u64,
    pub sequence: u64,
    pub captured_at_unix_ms: u64,
    pub width: u32,
    pub height: u32,
    pub exposure_us: Option<i64>,
    pub gain: Option<i64>,
    pub mode: PreviewMode,
    pub dropped_frames: u64,
}

/// A published preview.
#[derive(Debug)]
pub struct PreviewFrame {
    pub metadata: PreviewMetadata,
    pub jpeg: Vec<u8>,
}

/// The latest preview, and a number that changes with it.
#[derive(Debug)]
pub struct PreviewSnapshot {
    pub change_generation: u64,
    pub frame: Option<Arc<PreviewFrame>>,
}

/// What the protocol asks of previews.
#[derive(Clone, Copy, Debug, PartialEq, Eq, Structural)]
pub struct PreviewProtocol {
    pub version: u32,
    pub max_jpeg_size: usize,
}

/// Why a preview was not published.
#[derive(Clone, Copy, Debug, PartialEq, Eq, Structural)]
pub enum PreviewError {
    Length(usize),
}

/// The number that follows, round the end of the range.
pub open spec fn wrapped_next(value: u64) -> u64 {
    if value == u64::MAX {
        0
    } else {
        (value + 1) as u64
    }
}

/// The number that follows, without zero.
pub open spec fn nonzero_next(value: u64) -> u64 {
    if value == u64::MAX {
        1
    } else {
        (value + 1) as u64
    }
}

fn next_nonzero(counter: &mut u64) -> (r: u64)
    ensures
        r == nonzero_next(*old(counter)),
        *final(counter) == r,
        r != 0,
{
    *counter = counter.wrapping_add(1);
    if *counter == 0 {
        *counter = 1;
    }
    *counter
}

/// One capture session, which publishes previews under its generation.
#[derive(Clone, Copy, Debug, PartialEq, Eq, Structural)]
pub struct PreviewSession {
    pub generation: u64,
}

impl PreviewSession {
    pub fn generation(&self) -> (r: u64)
        ensures
            r == self.generation,
    {
        self.generation
    }
}

/// The latest preview of the current session.
#[derive(Debug)]
pub struct PreviewHub {
    pub change_generation: u64,
    pub current_session_generation: u64,
    pub frame: Option<Arc<PreviewFrame>>,
    pub last_session_generation: u64,
    pub last_sequence: u64,
}

impl PreviewHub {
    /// A current session is the latest one, and only it has a preview.
    pub open spec fn wf(self) -> bool {
        &&& self.current_session_generation == 0 || self.current_session_generation
            == self.last_session_generation
        &&& self.frame matches Some(frame) ==> self.current_session_generation != 0
            && frame.metadata.session_generation == self.current_session_generation
    }

    pub open spec fn with_session(self) -> Self {
        PreviewHub {
            change_generation: wrapped_next(self.change_generation),
            current_session_generation: nonzero_next(self.last_session_generation),
            frame: None,
            last_session_generation: nonzero_next(self.last_session_generation),
            last_sequence: self.last_sequence,
        }
    }

    pub open spec fn without_session(self, session_generation: u64) -> Self {
        if self.current_session_generation == session_generation {
            PreviewHub {
                change_generation: wrapped_next(self.change_generation),
                current_session_generation: 0,
                frame: None,
                ..self
            }
        } else {
            self
        }
    }

    pub fn new() -> (r: Self)
        ensures
            r.change_generation == 0,
            r.current_session_generation == 0,
            r.frame is None,
            r.last_session_generation == 0,
            r.last_sequence == 0,
            r.wf(),
    {
        PreviewHub {
            change_generation: 0,
            current_session_generation: 0,
            frame: None,
            last_session_generation: 0,
            last_sequence: 0,
        }
    }

    /// Start a session in place of the current one, whose preview is dropped.
    pub fn begin_session(&mut self) -> (session: PreviewSession)
        ensures
            *final(self) == old(self).with_session(),
            session.generation == final(self).current_session_generation,
            session.generation != 0,
            final(self).wf(),
    {
        let generation: u64 = next_nonzero(&mut self.last_session_generation);
        self.change_generation = self.change_generation.wrapping_add(1);
        self.current_session_generation = generation;
        self.frame = None;
        PreviewSession { generation }
    }

    pub fn snapshot(&self) -> (r: PreviewSnapshot)
        ensures
            r.change_generation == self.change_generation,
            r.frame == self.frame,
    {
        PreviewSnapshot {
            change_generation: self.change_generation,
            frame: match &self.frame {
                Some(frame) => Some(frame.clone()),
                None => None,
            },
        }
    }

    /// Stamp a preview of acceptable size with the protocol version, its session
    /// and the next sequence number.
    pub fn stamp(
        &mut self,
        session_generation: u64,
        metadata: PreviewMetadata,
        jpeg_length: usize,
        protocol: PreviewProtocol,
    ) -> (r: Result<PreviewMetadata, PreviewError>)
        ensures
            if jpeg_length == 0 || jpeg_length > protocol.max_jpeg_size {
                r == Err::<PreviewMetadata, PreviewError>(PreviewError::Length(jpeg_length))
                    && *final(self) == *old(self)
            } else {
                r == Ok::<PreviewMetadata, PreviewError>(
                    (PreviewMetadata {
                        version: protocol.version,
                        session_generation,
                        sequence: nonzero_next(old(self).last_sequence),
                        ..metadata
                    }),
                ) && *final(self) == (PreviewHub {
                    last_sequence: nonzero_next(old(self).last_sequence),
                    ..*old(self)
                })
            },
    {
        if jpeg_length == 0 || jpeg_length > protocol.max_jpeg_size {
            return Err(PreviewError::Length(jpeg_length));
        }
        let sequence: u64 = next_nonzero(&mut self.last_sequence);
        let mut stamped = metadata;
        stamped.version = protocol.version;
        stamped.session_generation = session_generation;
        stamped.sequence = sequence;
        Ok(stamped)
    }

    /// Publish a stamped preview, unless its session was replaced or ended.
    pub fn publish(&mut self, metadata: PreviewMetadata, jpeg: Vec<u8>) -> (r: bool)
        ensures
            r == (old(self).current_session_generation == metadata.session_generation),
            r ==> final(self).frame is Some && final(self).frame->0.metadata == metadata
                && final(self).frame->0.jpeg == jpeg && *final(self) == (PreviewHub {
                change_generation: wrapped_next(old(self).change_generation),
                frame: final(self).frame,
                ..*old(self)
            }),
            !r ==> *final(self) == *old(self),
            old(self).wf() && metadata.session_generation != 0 ==> final(self).wf(),
    {
        if self.current_session_generation != metadata.session_generation {
            return false;
        }
        self.change_generation = self.change_generation.wrapping_add(1);
        self.frame = Some(Arc::new(PreviewFrame { metadata, jpeg }));
        true
    }

    /// End a session, where it is still the current one.
    pub fn end_session(&mut self, session_generation: u64)
        ensures
            *final(self) == old(self).without_session(session_generation),
            old(self).wf() ==> final(self).wf(),
    {
        if self.current_session_generation != session_generation {
            return;
        }
        self.change_generation = self.change_generation.wrapping_add(1);
        self.current_session_generation = 0;
        self.frame = None;
    }
}

/// A new session shows no earlier preview and is visible as a change. The session
/// that it replaced can neither publish nor end it.
pub proof fn law_new_session_replaces_the_old(hub: PreviewHub)
    requires
        hub.wf(),
    ensures
        hub.with_session().wf(),
        hub.with_session().frame is None,
        hub.with_session().change_generation != hub.change_generation,
        hub.with_session().current_session_generation != hub.current_session_generation,
        hub.with_session().without_session(hub.current_session_generation) == hub.with_session(),
{
}

/// One preview that waits to be encoded.
#[derive(Debug, PartialEq, Eq)]
pub struct PreviewJob {
    pub width: u32,
    pub height: u32,
    pub bayer: BayerPattern,
    pub data: Vec<u8>,
    pub raw16: bool,
    pub captured_at_unix_ms: u64,
    pub exposure_us: i64,
    pub gain: i64,
    pub mode: PreviewMode,
    pub dropped_frames: u64,
}

/// What the encoder finds in the queue.
#[derive(Debug)]
pub enum PreviewTake {
    Job(PreviewJob),
    Closed,
    Empty,
}

/// A queue of at most one preview: a newer one replaces an older one, and the
/// replaced ones are counted.
#[derive(Debug)]
pub struct LatestPreviewQueue {
    pub pending: Option<PreviewJob>,
    pub closed: bool,
    pub dropped_frames: u64,
}

impl LatestPreviewQueue {
    pub fn new() -> (r: Self)
        ensures
            r.pending is None,
            !r.closed,
            r.dropped_frames == 0,
    {
        LatestPreviewQueue { pending: None, closed: false, dropped_frames: 0 }
    }

    /// How many previews were dropped once another one arrives.
    pub open spec fn dropped_after_arrival(self) -> u64 {
        if self.pending is Some {
            wrapped_next(self.dropped_frames)
        } else {
            self.dropped_frames
        }
    }

    /// Count a preview that met a busy encoder.
    pub fn skip_contended(&mut self)
        ensures
            *final(self) == (LatestPreviewQueue {
                dropped_frames: wrapped_next(old(self).dropped_frames),
                ..*old(self)
            }),
    {
        self.dropped_frames = self.dropped_frames.wrapping_add(1);
    }

    /// Queue a preview in place of the one that waits; it carries the number of
    /// previews that were dropped so far.
    pub fn try_publish(&mut self, job: PreviewJob) -> (r: bool)
        ensures
            r == !old(self).closed,
            old(self).closed ==> *final(self) == *old(self),
            !old(self).closed ==> *final(self) == (LatestPreviewQueue {
                pending: Some(
                    PreviewJob { dropped_frames: old(self).dropped_after_arrival(), ..job },
                ),
                dropped_frames: old(self).dropped_after_arrival(),
                closed: false,
            }),
    {
        if self.closed {
            return false;
        }
        if self.pending.is_some() {
            self.dropped_frames = self.dropped_frames.wrapping_add(1);
        }
        let mut job = job;
        job.dropped_frames = self.dropped_frames;
        self.pending = Some(job);
        true
    }

    /// Take the preview that waits.
    pub fn next(&mut self) -> (r: PreviewTake)
        ensures
            *final(self) == (LatestPreviewQueue { pending: None, ..*old(self) }),
            match old(self).pending {
                Some(job) => r == PreviewTake::Job(job),
                None => if old(self).closed {
                    r == PreviewTake::Closed
                } else {
                    r == PreviewTake::Empty
                },
            },
    {
        match self.pending.take() {
            Some(job) => PreviewTake::Job(job),
            None => if self.closed {
                PreviewTake::Closed
            } else {
                PreviewTake::Empty
            },
        }
    }

    /// Accept nothing more, and drop what waits.
    pub fn close(&mut self)
        ensures
            *final(self) == (LatestPreviewQueue { closed: true, pending: None, ..*old(self) }),
    {
        self.closed = true;
        self.pending = None;
    }
}

/// When the next preview is due.
#[derive(Clone, Copy, Debug, PartialEq, Eq, Structural)]
pub struct PreviewPacer {
    pub next_preview: u128,
}

impl PreviewPacer {
    /// The first preview is due at once.
    pub fn new(now: u128) -> (r: Self)
        ensures
            r.next_preview == now,
    {
        PreviewPacer { next_preview: now }
    }

    /// Whether a frame is previewed; the next one waits out the interval.
    pub fn is_due(&mut self, now: u128) -> (r: bool)
        requires
            now + PREVIEW_INTERVAL <= u128::MAX,
        ensures
            r == (now >= old(self).next_preview),
            final(self).next_preview == if r {
                (now + PREVIEW_INTERVAL) as u128
            } else {
                old(self).next_preview
            },
    {
        if now >= self.next_preview {
            self.next_preview = now + PREVIEW_INTERVAL;
            true
        } else {
            false
        }
    }
}

/// Why a preview was not encoded.
#[derive(Debug)]
pub enum PreviewEncodeError {
    Jpeg(ImageError),
    TooLarge(usize),
}

/// Encode the pixels of a preview, within the size that the protocol allows.
pub fn encode_preview(rgb: &Vec<u8>, width: u32, height: u32, max_jpeg_size: usize) -> (r: Result<
    Vec<u8>,
    PreviewEncodeError,
>)
    requires
        rgb@.len() == still::sample_count(width as int, height as int),
    ensures
        ({
            let jpeg = still::jpeg_bytes(
                rgb@,
                width as int,
                height as int,
                PREVIEW_JPEG_QUALITY as int,
            );
            if !still::jpeg_side(width as int) || !still::jpeg_side(height as int) {
                r matches Err(PreviewEncodeError::Jpeg(_))
            } else if jpeg.len() > max_jpeg_size {
                r matches Err(PreviewEncodeError::TooLarge(length)) && length == jpeg.len()
            } else {
                r matches Ok(bytes) && bytes@ == jpeg
            }
        }),
{
    match write_jpeg(rgb.as_slice(), width, height, PREVIEW_JPEG_QUALITY) {
        Ok(jpeg) => check_preview_size(jpeg, max_jpeg_size),
        Err(error) => Err(PreviewEncodeError::Jpeg(error)),
    }
}

/// Accept an encoded preview that the protocol can carry.
pub fn check_preview_size(jpeg: Vec<u8>, max_jpeg_size: usize) -> (r: Result<
    Vec<u8>,
    PreviewEncodeError,
>)
    ensures
        if jpeg@.len() > max_jpeg_size {
            r matches Err(PreviewEncodeError::TooLarge(length)) && length == jpeg@.len()
        } else {
            r == Ok::<Vec<u8>, PreviewEncodeError>(jpeg)
        },
{
    if jpeg.len() > max_jpeg_size {
        Err(PreviewEncodeError::TooLarge(jpeg.len()))
    } else {
        Ok(jpeg)
    }
}

/// Describe an encoded preview; its sequence number is assigned when it is
/// published.
pub fn preview_metadata(
    job: &PreviewJob,
    width: u32,
    height: u32,
    session_generation: u64,
    version: u32,
) -> (r: PreviewMetadata)
    ensures
        r == (PreviewMetadata {
            version,
            session_generation,
            sequence: 1,
            captured_at_unix_ms: job.captured_at_unix_ms,
            width,
            height,
            exposure_us: Some(job.exposure_us),
            gain: Some(job.gain),
            mode: job.mode,
            dropped_frames: job.dropped_frames,
        }),
{
    PreviewMetadata {
        version,
        session_generation,
        sequence: 1,
        captured_at_unix_ms: job.captured_at_unix_ms,
        width,
        height,
        exposure_us: Some(job.exposure_us),
        gain: Some(job.gain),
        mode: job.mode,
        dropped_frames: job.dropped_frames,
    }
}

/// A new session is another than the one before, shows no preview, and changes what
/// clients see.
pub proof fn law_session_replaces_the_one_before(session: PreviewSession)
    ensures
        forall|hub: &mut PreviewHub|
            #[trigger] call_ensures(PreviewHub::begin_session, (hub,), session) ==> {
                &&& session.generation != 0
                &&& session.generation != hub.last_session_generation
                &&& final(hub).current_session_generation == session.generation
                &&& final(hub).frame is None
                &&& final(hub).change_generation != hub.change_generation
                &&& hub.last_session_generation < u64::MAX ==> session.generation
                    == hub.last_session_generation + 1
                &&& final(hub).last_sequence == hub.last_sequence
            },
{
}

/// A preview is stamped exactly where it has bytes and no more than the protocol
/// carries; it gets a number that no preview had just before.
pub proof fn law_preview_is_stamped_within_the_limit(
    session_generation: u64,
    metadata: PreviewMetadata,
    jpeg_length: usize,
    protocol: PreviewProtocol,
    r: Result<PreviewMetadata, PreviewError>,
)
    ensures
        forall|hub: &mut PreviewHub|
            #[trigger] call_ensures(
                PreviewHub::stamp,
                (hub, session_generation, metadata, jpeg_length, protocol),
                r,
            ) ==> {
                &&& r is Ok <==> 0 < jpeg_length <= protocol.max_jpeg_size
                &&& r matches Err(PreviewError::Length(length)) ==> length == jpeg_length && *final(hub) == *hub
                &&& r matches Ok(stamped) ==> {
                    &&& stamped.sequence != 0
                    &&& stamped.sequence != hub.last_sequence
                    &&& hub.last_sequence < u64::MAX ==> stamped.sequence == hub.last_sequence + 1
                    &&& stamped.sequence == final(hub).last_sequence
                    &&& stamped.version == protocol.version
                    &&& stamped.session_generation == session_generation
                    &&& stamped.captured_at_unix_ms == metadata.captured_at_unix_ms
                    &&& stamped.width == metadata.width
                    &&& stamped.height == metadata.height
                    &&& stamped.exposure_us == metadata.exposure_us
                    &&& stamped.gain == metadata.gain
                    &&& stamped.mode == metadata.mode
                    &&& stamped.dropped_frames == metadata.dropped_frames
                }
                &&& final(hub).frame == hub.frame
                &&& final(hub).current_session_generation == hub.current_session_generation
            },
{
}

/// A preview of a session that was replaced or ended is not published; one of the
/// current session becomes what clients see.
pub proof fn law_only_the_current_session_publishes(
    metadata: PreviewMetadata,
    jpeg: Vec<u8>,
    r: bool,
)
    ensures
        forall|hub: &mut PreviewHub|
            #[trigger] call_ensures(PreviewHub::publish, (hub, metadata, jpeg), r) ==> {
                &&& r <==> metadata.session_generation == hub.current_session_generation
                &&& !r ==> *final(hub) == *hub
                &&& r ==> final(hub).frame is Some && final(hub).frame->0.metadata == metadata
                    && final(hub).frame->0.jpeg == jpeg
                &&& r ==> final(hub).change_generation != hub.change_generation
                &&& final(hub).current_session_generation == hub.current_session_generation
                &&& final(hub).last_sequence == hub.last_sequence
            },
{
}

/// The end of the current session takes its preview away; that of another changes
/// nothing.
pub proof fn law_ended_session_shows_nothing(session_generation: u64)
    ensures
        forall|hub: &mut PreviewHub|
            #[trigger] call_ensures(PreviewHub::end_session, (hub, session_generation), ()) ==> {
                &&& hub.current_session_generation == session_generation ==> final(hub).frame is None
                    && final(hub).current_session_generation == 0 && final(hub).change_generation
                    != hub.change_generation
                &&& hub.current_session_generation != session_generation ==> *final(hub) == *hub
                &&& final(hub).last_session_generation == hub.last_session_generation
                &&& final(hub).last_sequence == hub.last_sequence
            },
{
}

/// Clients see the latest preview.
pub proof fn law_snapshot_is_the_latest(hub: &PreviewHub, r: PreviewSnapshot)
    requires
        call_ensures(PreviewHub::snapshot, (hub,), r),
    ensures
        r.frame == hub.frame,
        r.change_generation == hub.change_generation,
{
}

/// Of several previews that wait, the encoder finds the last one, with the number of
/// those that it replaced.
pub proof fn law_latest_preview_waits(job: PreviewJob, r: bool)
    ensures
        forall|queue: &mut LatestPreviewQueue|
            #[trigger] call_ensures(LatestPreviewQueue::try_publish, (queue, job), r)
                && queue.dropped_frames < u64::MAX ==> {
                let dropped = queue.dropped_frames + (if queue.pending is Some {
                    1int
                } else {
                    0
                });
                &&& r <==> !queue.closed
                &&& !r ==> *final(queue) == *queue
                &&& r ==> final(queue).dropped_frames == dropped
                &&& r ==> final(queue).pending is Some && {
                    let waits = final(queue).pending->0;
                    &&& waits.dropped_frames == dropped
                    &&& waits.data == job.data
                    &&& waits.width == job.width
                    &&& waits.height == job.height
                    &&& waits.bayer == job.bayer
                    &&& waits.raw16 == job.raw16
                    &&& waits.captured_at_unix_ms == job.captured_at_unix_ms
                    &&& waits.exposure_us == job.exposure_us
                    &&& waits.gain == job.gain
                    &&& waits.mode == job.mode
                }
                &&& r ==> !final(queue).closed
            },
{
}

/// A preview is taken once; an encoder that finds none is told whether more can come.
pub proof fn law_waiting_preview_is_taken_once(r: PreviewTake)
    ensures
        forall|queue: &mut LatestPreviewQueue|
            #[trigger] call_ensures(LatestPreviewQueue::next, (queue,), r) ==> {
                &&& r is Job <==> queue.pending is Some
                &&& r matches PreviewTake::Job(job) ==> queue.pending == Some(job)
                &&& r is Closed <==> queue.pending is None && queue.closed
                &&& r is Empty <==> queue.pending is None && !queue.closed
                &&& final(queue).pending is None
                &&& final(queue).closed == queue.closed
                &&& final(queue).dropped_frames == queue.dropped_frames
            },
{
}

/// A closed queue holds nothing and stays closed; a preview that met a busy encoder
/// counts as dropped.
pub proof fn law_closed_queue_is_empty()
    ensures
        forall|queue: &mut LatestPreviewQueue|
            #[trigger] call_ensures(LatestPreviewQueue::close, (queue,), ()) ==> final(queue).closed
                && final(queue).pending is None && final(queue).dropped_frames
                == queue.dropped_frames,
        forall|queue: &mut LatestPreviewQueue|
            #[trigger] call_ensures(LatestPreviewQueue::skip_contended, (queue,), ())
                && queue.dropped_frames < u64::MAX ==> final(queue).dropped_frames
                == queue.dropped_frames + 1 && final(queue).pending == queue.pending && final(queue).closed == queue.closed,
{
}

/// A preview is due at once and then every half second at most.
pub proof fn law_previews_are_half_a_second_apart(
    start: u128,
    pacer: PreviewPacer,
    now: u128,
    r: bool,
)
    requires
        call_ensures(PreviewPacer::new, (start,), pacer),
        now + 500_000_000 <= u128::MAX,
    ensures
        pacer.next_preview <= start,
        forall|p: &mut PreviewPacer|
            #[trigger] call_ensures(PreviewPacer::is_due, (p, now), r) ==> {
                &&& r <==> now >= p.next_preview
                &&& r ==> final(p).next_preview == now + 500_000_000
                &&& !r ==> final(p).next_preview == p.next_preview
            },
{
}

/// A preview goes out exactly where it is no larger than the protocol carries, as it is.
pub proof fn law_large_preview_is_refused(
    jpeg: Vec<u8>,
    max_jpeg_size: usize,
    r: Result<Vec<u8>, PreviewEncodeError>,
)
    requires
        call_ensures(check_preview_size, (jpeg, max_jpeg_size), r),
    ensures
        r is Ok <==> jpeg@.len() <= max_jpeg_size,
        r matches Ok(given) ==> given == jpeg,
        r matches Err(error) ==> (error matches PreviewEncodeError::TooLarge(length) && length
            == jpeg@.len()),
{
}

/// An encoded preview is the picture at three quarters of the best quality.
pub proof fn law_preview_is_the_picture(
    rgb: &Vec<u8>,
    width: u32,
    height: u32,
    max_jpeg_size: usize,
    r: Result<Vec<u8>, PreviewEncodeError>,
)
    requires
        call_ensures(encode_preview, (rgb, width, height, max_jpeg_size), r),
    ensures
        r matches Ok(bytes) ==> bytes@.len() <= max_jpeg_size && bytes@ == still::jpeg_bytes(
            rgb@,
            width as int,
            height as int,
            75,
        ),
        r matches Err(PreviewEncodeError::Jpeg(_)) <==> width == 0 || width > 65_535 || height == 0
            || height > 65_535,
{
}

/// A preview is described by the frame it was made of.
pub proof fn law_preview_tells_of_its_frame(
    job: &PreviewJob,
    width: u32,
    height: u32,
    session_generation: u64,
    version: u32,
    r: PreviewMetadata,
)
    requires
        call_ensures(preview_metadata, (job, width, height, session_generation, version), r),
    ensures
        r.version == version,
        r.session_generation == session_generation,
        r.sequence != 0,
        r.captured_at_unix_ms == job.captured_at_unix_ms,
        r.width == width,
        r.height == height,
        r.exposure_us == Some(job.exposure_us),
        r.gain == Some(job.gain),
        r.mode == job.mode,
        r.dropped_frames == job.dropped_frames,
{
}

/// A new hub shows nothing and has seen no session; a new queue is open and holds
/// nothing; and a new pacer lets the first frame through.
pub proof fn law_previews_start_with_nothing(
    hub: PreviewHub,
    snapshot: PreviewSnapshot,
    queue: LatestPreviewQueue,
    start: u128,
    now: u128,
    due: bool,
    pacer: PreviewPacer,
)
    requires
        call_ensures(PreviewHub::new, (), hub),
        call_ensures(PreviewHub::snapshot, (&hub,), snapshot),
        call_ensures(LatestPreviewQueue::new, (), queue),
        call_ensures(PreviewPacer::new, (start,), pacer),
    ensures
        snapshot.frame is None,
        snapshot.change_generation == 0,
        hub.current_session_generation == 0,
        hub.last_session_generation == 0,
        hub.last_sequence == 0,
        queue.pending is None && !queue.closed && queue.dropped_frames == 0,
        forall|p: &mut PreviewPacer| #[trigger]
            call_ensures(PreviewPacer::is_due, (p, now), due) && *p == pacer ==> (due <==> now
                >= start),
{
}

} // verus!
