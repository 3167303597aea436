//! Bounded sampling of previews into segments, and the encoder that turns a
//! segment into a recording. FFmpeg is an explicitly configured external
//! executable, never a shell command.

use std::time::Duration;

use vstd::prelude::*;

use crate::exposure::NANOS_PER_SECOND;
use crate::number;
use crate::text;
use crate::text::push_padded;

verus! {

broadcast use vstd::string::group_string_axioms;

pub const MAX_SPOOL_BYTES: u64 = 268_435_456;

pub const MAX_SAMPLES: usize = 1_200;

/// How long the encoder may take for one segment, in nanoseconds.
pub const ENCODER_TIMEOUT: u128 = 20_000_000_000;

/// The shortest time that a sample is shown, in nanoseconds.
pub const SHORTEST_SAMPLE: u128 = 40_000_000;

/// The longest duration whose whole seconds fit in 64 bits, in nanoseconds.
pub open spec fn representable(nanos: int) -> bool {
    0 <= nanos < 0x1_0000_0000_0000_0000 * 1_000_000_000
}

/// A duration in seconds, as `{:.6}` prints its double-precision value.
pub uninterp spec fn seconds_text(seconds: int, nanos: int) -> Seq<char>;

/// `Duration::as_secs_f64`, printed with six fractional digits, is a function of
/// the duration. Below two to the thirty-first seconds the double-precision
/// value lies within a quarter of a microsecond of the duration, so that whole
/// microseconds print exactly.
#[verifier::external_body]
fn format_seconds(seconds: u64, nanos: u32) -> (r: String)
    requires
        nanos < 1_000_000_000,
    ensures
        r@ == seconds_text(seconds as int, nanos as int),
        seconds < 0x8000_0000 && nanos % 1_000 == 0 ==> r@ == text::decimal(seconds as nat)
            + seq!['.'] + text::padded((nanos / 1_000) as nat, 6),
{
    format!("{:.6}", Duration::new(seconds, nanos).as_secs_f64())
}

/// How long the sample at a position is shown: until the next one, or the end of
/// the recording, but never shorter than the minimum.
pub open spec fn sample_gap(frames: Seq<u128>, end: u128, i: int) -> int {
    let until = if i + 1 < frames.len() {
        frames[i + 1] as int
    } else {
        end as int
    };
    number::spec_max(number::spec_max(until - frames[i], 0), SHORTEST_SAMPLE as int)
}

/// The name of the sample at a position.
pub open spec fn sample_name(i: nat) -> Seq<char> {
    "sample-"@ + text::padded(i, 6) + ".jpg"@
}

/// The manifest line that names a sample.
pub open spec fn file_line(i: nat) -> Seq<char> {
    "file '"@ + sample_name(i) + "'\n"@
}

/// Whether a duration in nanoseconds prints as it is: whole microseconds, and fewer
/// than two to the thirty-first seconds.
pub open spec fn prints_exactly(gap: int) -> bool {
    0 <= gap < 0x8000_0000 * 1_000_000_000 && gap % 1_000 == 0
}

/// A duration in nanoseconds as the manifest writes it: seconds with six
/// fractional digits.
pub open spec fn duration_text(gap: int) -> Seq<char> {
    let seconds = gap / 1_000_000_000;
    let nanos = gap % 1_000_000_000;
    if prints_exactly(gap) {
        text::decimal(seconds as nat) + seq!['.'] + text::padded((nanos / 1_000) as nat, 6)
    } else {
        seconds_text(seconds, nanos)
    }
}

/// The manifest entry of a sample.
pub open spec fn manifest_entry(frames: Seq<u128>, end: u128, i: int) -> Seq<char> {
    file_line(i as nat) + "duration "@ + duration_text(sample_gap(frames, end, i)) + "\n"@
}

/// The manifest entries of the first samples.
pub open spec fn manifest_entries(frames: Seq<u128>, end: u128, count: nat) -> Seq<char>
    decreases count,
{
    if count == 0 {
        Seq::empty()
    } else {
        manifest_entries(frames, end, (count - 1) as nat) + manifest_entry(frames, end, count - 1)
    }
}

/// The manifest of a recording: every sample with its duration, and the last one
/// once more, so that its duration counts.
pub open spec fn manifest(frames: Seq<u128>, end: u128) -> Seq<char> {
    "ffconcat version 1.0\n"@ + manifest_entries(frames, end, frames.len()) + (if frames.len()
        == 0 {
        Seq::empty()
    } else {
        file_line((frames.len() - 1) as nat)
    })
}

pub fn sample_filename(index: usize) -> (r: String)
    ensures
        r@ == sample_name(index as nat),
{
    let mut name = String::new();
    name.append("sample-");
    push_padded(&mut name, index as u64, 6);
    name.append(".jpg");
    assert(name@ =~= sample_name(index as nat));
    name
}

fn push_file_line(out: &mut String, index: usize)
    ensures
        final(out)@ == old(out)@ + file_line(index as nat),
{
    out.append("file '");
    out.append(sample_filename(index).as_str());
    out.append("'\n");
    assert(out@ =~= old(out)@ + file_line(index as nat));
}

/// The manifest of samples taken at these times since the recording started.
pub fn concat_manifest(frames: &Vec<u128>, end: u128) -> (r: String)
    requires
        representable(end as int),
        forall|i: int| 0 <= i < frames@.len() ==> representable(#[trigger] frames@[i] as int),
    ensures
        r@ == manifest(frames@, end),
{
    let mut out = String::new();
    out.append("ffconcat version 1.0\n");
    let mut i: usize = 0;
    while i < frames.len()
        invariant
            i <= frames.len(),
            representable(end as int),
            forall|j: int| 0 <= j < frames@.len() ==> representable(#[trigger] frames@[j] as int),
            out@ == "ffconcat version 1.0\n"@ + manifest_entries(frames@, end, i as nat),
        decreases frames.len() - i,
    {
        let until: u128 = if i + 1 < frames.len() {
            frames[i + 1]
        } else {
            end
        };
        let elapsed: u128 = if until >= frames[i] {
            until - frames[i]
        } else {
            0
        };
        let gap: u128 = if elapsed >= SHORTEST_SAMPLE {
            elapsed
        } else {
            SHORTEST_SAMPLE
        };
        assert(gap == sample_gap(frames@, end, i as int));
        push_file_line(&mut out, i);
        out.append("duration ");
        let seconds: u128 = gap / NANOS_PER_SECOND;
        assert(seconds < 0x1_0000_0000_0000_0000);
        let duration = format_seconds(seconds as u64, (gap % NANOS_PER_SECOND) as u32);
        assert(duration@ == duration_text(gap as int)) by {
            assert(gap % 1_000 == (gap % NANOS_PER_SECOND) % 1_000);
        }
        out.append(duration.as_str());
        out.append("\n");
        assert(out@ =~= "ffconcat version 1.0\n"@ + manifest_entries(frames@, end, (i + 1) as nat));
        i = i + 1;
    }
    if frames.len() > 0 {
        push_file_line(&mut out, frames.len() - 1);
    }
    assert(out@ =~= manifest(frames@, end));
    out
}

/// The gaps of the first samples together.
pub open spec fn total_gap(frames: Seq<u128>, end: u128, count: nat) -> int
    decreases count,
{
    if count == 0 {
        0
    } else {
        total_gap(frames, end, (count - 1) as nat) + sample_gap(frames, end, count - 1)
    }
}

/// Where samples come at least the minimum apart, the manifest's durations add
/// up to the real time from the first sample to the end.
pub proof fn law_gaps_add_up(frames: Seq<u128>, end: u128)
    requires
        frames.len() > 0,
        forall|i: int|
            0 <= i < frames.len() - 1 ==> frames[i] + SHORTEST_SAMPLE <= #[trigger] frames[i + 1],
        frames.last() + SHORTEST_SAMPLE <= end,
    ensures
        total_gap(frames, end, frames.len()) == end - frames[0],
{
    lemma_partial_gaps(frames, end, (frames.len() - 1) as nat);
}

proof fn lemma_partial_gaps(frames: Seq<u128>, end: u128, count: nat)
    requires
        count < frames.len(),
        forall|i: int|
            0 <= i < frames.len() - 1 ==> frames[i] + SHORTEST_SAMPLE <= #[trigger] frames[i + 1],
    ensures
        total_gap(frames, end, count) == frames[count as int] - frames[0],
    decreases count,
{
    if count > 0 {
        lemma_partial_gaps(frames, end, (count - 1) as nat);
        assert(frames[count - 1] + SHORTEST_SAMPLE <= frames[count - 1 + 1]);
    }
}

/// A segment is full: neither its bytes nor its samples may grow.
#[derive(Clone, Copy, Debug, PartialEq, Eq, Structural)]
pub struct SpoolBound;

/// The samples of one segment, by when they were taken.
#[derive(Debug)]
pub struct Segment {
    pub started: u128,
    pub frames: Vec<u128>,
    pub bytes: u64,
}

impl Segment {
    pub open spec fn wf(self) -> bool {
        self.bytes <= MAX_SPOOL_BYTES && self.frames@.len() <= MAX_SAMPLES
    }

    /// Whether a sample of so many bytes still fits.
    pub open spec fn has_room(self, length: int) -> bool {
        self.bytes + length <= MAX_SPOOL_BYTES && self.frames@.len() < MAX_SAMPLES
    }

    pub fn new(now: u128) -> (r: Self)
        ensures
            r.started == now,
            r.frames@.len() == 0,
            r.bytes == 0,
            r.wf(),
    {
        Segment { started: now, frames: Vec::new(), bytes: 0 }
    }

    /// Whether a sample of so many bytes may be written.
    pub fn check_room(&self, length: usize) -> (r: bool)
        ensures
            r == self.has_room(length as int),
    {
        self.bytes <= MAX_SPOOL_BYTES && length as u64 <= MAX_SPOOL_BYTES - self.bytes
            && self.frames.len() < MAX_SAMPLES
    }

    /// Account for a sample that was written; the position that names its file.
    pub fn push(&mut self, length: usize, now: u128) -> (r: Result<usize, SpoolBound>)
        requires
            old(self).started <= now,
        ensures
            if old(self).has_room(length as int) {
                &&& r == Ok::<usize, SpoolBound>(old(self).frames@.len() as usize)
                &&& final(self).started == old(self).started
                &&& final(self).frames@ == old(self).frames@.push((now - old(self).started) as u128)
                &&& final(self).bytes == old(self).bytes + length
                &&& final(self).wf()
            } else {
                r == Err::<usize, SpoolBound>(SpoolBound) && *final(self) == *old(self)
            },
    {
        if !self.check_room(length) {
            return Err(SpoolBound);
        }
        let index: usize = self.frames.len();
        self.frames.push(now - self.started);
        self.bytes = self.bytes + length as u64;
        Ok(index)
    }

    /// Whether the segment has lasted its time.
    pub fn has_elapsed(&self, now: u128, segment_seconds: u32) -> (r: bool)
        requires
            self.started <= now,
        ensures
            r == (now - self.started >= segment_seconds * 1_000_000_000),
    {
        now - self.started >= segment_seconds as u128 * NANOS_PER_SECOND
    }
}

/// What to do with the preview that is there.
#[derive(Clone, Copy, Debug, PartialEq, Eq, Structural)]
pub enum SampleStep {
    Skip,
    /// Add it to a segment that is begun for it.
    Begin,
    /// Add it to the segment.
    Append,
    /// Finish the segment, and add it to a new one.
    Rotate,
}

/// The sequence number of a preview that is there.
pub open spec fn sampled(frame: Option<(u64, usize)>) -> u64 {
    match frame {
        Some((sequence, _)) => sequence,
        None => 0,
    }
}

/// The sampler of one attempt.
#[derive(Debug)]
pub struct VideoSampler {
    pub segment: Option<Segment>,
    pub last_sequence: u64,
    pub sequence: u64,
}

impl VideoSampler {
    pub open spec fn wf(self) -> bool {
        self.segment matches Some(segment) ==> segment.wf()
    }

    pub fn new() -> (r: Self)
        ensures
            r.segment is None,
            r.last_sequence == 0,
            r.sequence == 0,
            r.wf(),
    {
        VideoSampler { segment: None, last_sequence: 0, sequence: 0 }
    }

    pub open spec fn sample_step(
        self,
        paused: bool,
        suspended: bool,
        frame: Option<(u64, usize)>,
    ) -> SampleStep {
        match frame {
            Some((sequence, length)) => if paused || suspended || sequence == self.last_sequence {
                SampleStep::Skip
            } else {
                match self.segment {
                    None => SampleStep::Begin,
                    Some(segment) => if segment.has_room(length as int) {
                        SampleStep::Append
                    } else {
                        SampleStep::Rotate
                    },
                }
            },
            None => SampleStep::Skip,
        }
    }

    /// Decide on the latest preview, given by its sequence number and its length.
    /// A preview is taken once, and rotation comes before a sample would exceed
    /// a bound.
    pub fn consider(&mut self, paused: bool, suspended: bool, frame: Option<(u64, usize)>) -> (r:
        SampleStep)
        ensures
            r == old(self).sample_step(paused, suspended, frame),
            *final(self) == (VideoSampler {
                last_sequence: if r == SampleStep::Skip {
                    old(self).last_sequence
                } else {
                    sampled(frame)
                },
                ..*old(self)
            }),
    {
        let (sequence, length): (u64, usize) = match frame {
            Some(frame) => frame,
            None => {
                return SampleStep::Skip;
            },
        };
        if paused || suspended || sequence == self.last_sequence {
            return SampleStep::Skip;
        }
        self.last_sequence = sequence;
        match &self.segment {
            None => SampleStep::Begin,
            Some(segment) => if segment.check_room(length) {
                SampleStep::Append
            } else {
                SampleStep::Rotate
            },
        }
    }

    /// Hand out the segment to be finished, and the number that names it.
    pub fn take_segment(&mut self) -> (r: Option<(Segment, u64)>)
        requires
            old(self).sequence < u64::MAX,
        ensures
            final(self).segment is None,
            final(self).last_sequence == old(self).last_sequence,
            match old(self).segment {
                Some(segment) => r == Some((segment, old(self).sequence)) && final(self).sequence
                    == old(self).sequence + 1,
                None => r is None && final(self).sequence == old(self).sequence,
            },
    {
        match self.segment.take() {
            Some(segment) => {
                let sequence: u64 = self.sequence;
                self.sequence = sequence + 1;
                Some((segment, sequence))
            },
            None => None,
        }
    }
}

/// A preview whose sequence number was seen is not sampled again, and nothing is
/// sampled while capture is paused or suspended.
pub proof fn law_previews_are_sampled_once(
    sampler: VideoSampler,
    paused: bool,
    suspended: bool,
    sequence: u64,
    length: usize,
)
    ensures
        (VideoSampler { last_sequence: sequence, ..sampler }).sample_step(
            paused,
            suspended,
            Some((sequence, length)),
        ) == SampleStep::Skip,
        paused || suspended ==> sampler.sample_step(paused, suspended, Some((sequence, length)))
            == SampleStep::Skip,
{
}

/// The arguments of the encoder, before its output.
pub open spec fn encoder_options() -> Seq<Seq<char>> {
    seq![
        "-nostdin"@,
        "-hide_banner"@,
        "-loglevel"@,
        "error"@,
        "-protocol_whitelist"@,
        "file"@,
        "-f"@,
        "concat"@,
        "-safe"@,
        "1"@,
        "-i"@,
        "frames.ffconcat"@,
        "-an"@,
        "-c:v"@,
        "libx264"@,
        "-preset"@,
        "veryfast"@,
        "-crf"@,
        "28"@,
        "-threads"@,
        "2"@,
        "-vf"@,
        "pad=ceil(iw/2)*2:ceil(ih/2)*2"@,
        "-pix_fmt"@,
        "yuv420p"@,
        "-fps_mode"@,
        "vfr"@,
        "-movflags"@,
        "+faststart"@,
        "-f"@,
        "mp4"@,
        "-n"@,
    ]
}

/// The characters of each text of a list.
pub open spec fn text_views(texts: Seq<&'static str>) -> Seq<Seq<char>> {
    texts.map_values(|text: &'static str| text@)
}

pub fn encoder_arguments() -> (r: Vec<&'static str>)
    ensures
        text_views(r@) == encoder_options(),
{
    let arguments: Vec<&'static str> = vec![
        "-nostdin",
        "-hide_banner",
        "-loglevel",
        "error",
        "-protocol_whitelist",
        "file",
        "-f",
        "concat",
        "-safe",
        "1",
        "-i",
        "frames.ffconcat",
        "-an",
        "-c:v",
        "libx264",
        "-preset",
        "veryfast",
        "-crf",
        "28",
        "-threads",
        "2",
        "-vf",
        "pad=ceil(iw/2)*2:ceil(ih/2)*2",
        "-pix_fmt",
        "yuv420p",
        "-fps_mode",
        "vfr",
        "-movflags",
        "+faststart",
        "-f",
        "mp4",
        "-n",
    ];
    assert(text_views(arguments@) =~= encoder_options());
    arguments
}

/// How an encoder process stands.
#[derive(Clone, Copy, Debug, PartialEq, Eq, Structural)]
pub enum EncoderStatus {
    Running,
    Exited(bool),
    Unknown,
}

/// What to do about an encoder process.
#[derive(Clone, Copy, Debug, PartialEq, Eq, Structural)]
pub enum EncoderStep {
    Sleep,
    Collect(bool),
    Kill(EncodeError),
}

/// Why a segment was not encoded.
#[derive(Clone, Copy, Debug, PartialEq, Eq, Structural)]
pub enum EncodeError {
    EmptySegment,
    DeadlineExceeded,
    StatusUnavailable,
    EncodingFailed,
    EmptyOutput,
}

/// An encoder that runs past its deadline, or whose status cannot be read, is
/// killed.
pub fn encoder_step(status: EncoderStatus, elapsed: u128) -> (r: EncoderStep)
    ensures
        r == (match status {
            EncoderStatus::Exited(success) => EncoderStep::Collect(success),
            EncoderStatus::Running => if elapsed < ENCODER_TIMEOUT {
                EncoderStep::Sleep
            } else {
                EncoderStep::Kill(EncodeError::DeadlineExceeded)
            },
            EncoderStatus::Unknown => EncoderStep::Kill(EncodeError::StatusUnavailable),
        }),
{
    match status {
        EncoderStatus::Exited(success) => EncoderStep::Collect(success),
        EncoderStatus::Running => {
            if elapsed < ENCODER_TIMEOUT {
                EncoderStep::Sleep
            } else {
                EncoderStep::Kill(EncodeError::DeadlineExceeded)
            }
        },
        EncoderStatus::Unknown => EncoderStep::Kill(EncodeError::StatusUnavailable),
    }
}

/// Whether a segment can be encoded at all.
pub fn check_segment(segment: &Segment) -> (r: Result<(), EncodeError>)
    ensures
        r == (if segment.frames@.len() == 0 {
            Err::<(), EncodeError>(EncodeError::EmptySegment)
        } else {
            Ok::<(), EncodeError>(())
        }),
{
    if segment.frames.len() == 0 {
        Err(EncodeError::EmptySegment)
    } else {
        Ok(())
    }
}

/// A recording is published only where the encoder succeeded and wrote something.
pub fn check_encoded(success: bool, output_length: u64) -> (r: Result<(), EncodeError>)
    ensures
        r == (if !success {
            Err::<(), EncodeError>(EncodeError::EncodingFailed)
        } else if output_length == 0 {
            Err::<(), EncodeError>(EncodeError::EmptyOutput)
        } else {
            Ok::<(), EncodeError>(())
        }),
{
    if !success {
        Err(EncodeError::EncodingFailed)
    } else if output_length == 0 {
        Err(EncodeError::EmptyOutput)
    } else {
        Ok(())
    }
}

/// A sample fits where the segment stays within its bytes and its number of samples.
pub proof fn law_segment_stays_within_its_bounds(segment: &Segment, length: usize, r: bool)
    requires
        call_ensures(Segment::check_room, (segment, length), r),
    ensures
        r <==> segment.bytes + length <= 268_435_456 && segment.frames@.len() < 1_200,
{
}

/// A sample is counted with its bytes and the time since the segment began, under the
/// next position; one that does not fit changes nothing.
pub proof fn law_sample_is_counted(length: usize, now: u128, r: Result<usize, SpoolBound>)
    ensures
        forall|s: &mut Segment|
            #[trigger] call_ensures(Segment::push, (s, length, now), r) && s.started <= now ==> {
                let fits = s.bytes + length <= 268_435_456 && s.frames@.len() < 1_200;
                &&& r is Ok <==> fits
                &&& r matches Ok(position) ==> {
                    &&& position == s.frames@.len()
                    &&& final(s).frames@.len() == s.frames@.len() + 1
                    &&& final(s).frames@.drop_last() == s.frames@
                    &&& s.started + final(s).frames@.last() == now
                    &&& final(s).bytes == s.bytes + length
                    &&& final(s).started == s.started
                }
                &&& r is Err ==> *final(s) == *s
            },
{
    assert forall|s: &mut Segment|
        #[trigger] call_ensures(Segment::push, (s, length, now), r) && s.started <= now
            && r is Ok implies final(s).frames@.drop_last() == s.frames@ by {
        assert(final(s).frames@.drop_last() =~= s.frames@);
    }
}

/// A segment has lasted its time where so many seconds went by since it began.
pub proof fn law_segment_lasts_its_seconds(
    segment: &Segment,
    now: u128,
    segment_seconds: u32,
    r: bool,
)
    requires
        call_ensures(Segment::has_elapsed, (segment, now, segment_seconds), r),
        segment.started <= now,
    ensures
        r <==> now >= segment.started + segment_seconds * 1_000_000_000,
{
}

/// A preview is sampled exactly where one is there that was not seen yet and recording
/// is neither paused nor suspended. It begins a segment where there is none, and begins
/// another before one would grow too large.
pub proof fn law_new_preview_is_sampled_once(
    paused: bool,
    suspended: bool,
    frame: Option<(u64, usize)>,
    r: SampleStep,
)
    ensures
        forall|s: &mut VideoSampler|
            #[trigger] call_ensures(VideoSampler::consider, (s, paused, suspended, frame), r) ==> {
                let (sequence, length) = frame->0;
                let taken = !paused && !suspended && frame is Some && sequence != s.last_sequence;
                let fits = s.segment is Some && s.segment->0.bytes + length <= 268_435_456
                    && s.segment->0.frames@.len() < 1_200;
                &&& r is Skip <==> !taken
                &&& r is Begin <==> taken && s.segment is None
                &&& r is Append <==> taken && s.segment is Some && fits
                &&& r is Rotate <==> taken && s.segment is Some && !fits
                &&& taken ==> final(s).last_sequence == sequence
                &&& !taken ==> final(s).last_sequence == s.last_sequence
                &&& final(s).segment == s.segment
                &&& final(s).sequence == s.sequence
            },
{
}

/// A segment is handed out once, under a number of its own.
pub proof fn law_segment_is_handed_out_once(r: Option<(Segment, u64)>)
    ensures
        forall|s: &mut VideoSampler|
            #[trigger] call_ensures(VideoSampler::take_segment, (s,), r) && s.sequence < u64::MAX
                ==> {
                &&& r is Some <==> s.segment is Some
                &&& r matches Some((segment, number)) ==> s.segment == Some(segment) && number
                    == s.sequence && final(s).sequence == number + 1
                &&& r is None ==> final(s).sequence == s.sequence
                &&& final(s).segment is None
                &&& final(s).last_sequence == s.last_sequence
            },
{
}

/// An encoder is left alone for twenty seconds, collected when it exits, and killed
/// otherwise.
pub proof fn law_encoder_has_twenty_seconds(status: EncoderStatus, elapsed: u128, r: EncoderStep)
    requires
        call_ensures(encoder_step, (status, elapsed), r),
    ensures
        r is Sleep <==> status is Running && elapsed < 20_000_000_000,
        r is Collect <==> status is Exited,
        r matches EncoderStep::Collect(success) ==> status == EncoderStatus::Exited(success),
        r == EncoderStep::Kill(EncodeError::DeadlineExceeded) <==> status is Running && elapsed
            >= 20_000_000_000,
        r == EncoderStep::Kill(EncodeError::StatusUnavailable) <==> status is Unknown,
{
}

/// A recording needs samples, an encoder that succeeded, and an output that is not empty.
pub proof fn law_recording_needs_an_output(
    segment: &Segment,
    encodable: Result<(), EncodeError>,
    success: bool,
    output_length: u64,
    encoded: Result<(), EncodeError>,
)
    requires
        call_ensures(check_segment, (segment,), encodable),
        call_ensures(check_encoded, (success, output_length), encoded),
    ensures
        encodable is Ok <==> segment.frames@.len() > 0,
        encodable matches Err(error) ==> error is EmptySegment,
        encoded is Ok <==> success && output_length > 0,
        encoded == Err::<(), EncodeError>(EncodeError::EncodingFailed) <==> !success,
        encoded == Err::<(), EncodeError>(EncodeError::EmptyOutput) <==> success && output_length
            == 0,
{
}

/// A sample's file is named by its position in six digits.
pub proof fn law_sample_is_named_by_its_position(index: usize, r: String)
    requires
        call_ensures(sample_filename, (index,), r),
    ensures
        r@ == "sample-"@ + text::padded(index as nat, 6) + ".jpg"@,
{
}

/// The manifest of no samples is its heading; a sample that is shown for whole
/// microseconds adds its name and that duration; and the last sample is named again.
pub proof fn law_manifest_shows_each_sample_until_the_next(
    frames: &Vec<u128>,
    end: u128,
    r: String,
)
    requires
        call_ensures(concat_manifest, (frames, end), r),
    ensures
        frames@.len() == 0 ==> r@ == "ffconcat version 1.0\n"@,
        frames@.len() == 1 && frames@[0] + 40_000_000 <= end && (end - frames@[0]) % 1_000 == 0
            && end < 1_000_000_000_000_000_000 ==> {
            let shown = end - frames@[0];
            r@ == "ffconcat version 1.0\n"@ + ("file '"@ + ("sample-"@ + text::padded(0, 6)
                + ".jpg"@) + "'\n"@ + "duration "@ + (text::decimal(
                (shown / 1_000_000_000) as nat,
            ) + seq!['.'] + text::padded(((shown % 1_000_000_000) / 1_000) as nat, 6)) + "\n"@) + (
            "file '"@ + ("sample-"@ + text::padded(0, 6) + ".jpg"@) + "'\n"@)
        },
{
    reveal_with_fuel(manifest_entries, 2);
    if frames@.len() == 0 {
        assert(r@ =~= "ffconcat version 1.0\n"@);
    } else if frames@.len() == 1 {
        assert(manifest_entries(frames@, end, 1) =~= manifest_entry(frames@, end, 0));
    }
}

/// One more sample adds one more entry to the manifest before it, shown from its moment
/// to the next, and no shorter than a twenty-fifth of a second.
pub proof fn law_samples_follow_one_another(frames: Seq<u128>, end: u128, i: int)
    requires
        0 <= i < frames.len(),
    ensures
        sample_gap(frames, end, i) >= 40_000_000,
        i + 1 < frames.len() && frames[i] + 40_000_000 <= frames[i + 1] ==> sample_gap(
            frames,
            end,
            i,
        ) == frames[i + 1] - frames[i],
        i + 1 == frames.len() && frames[i] + 40_000_000 <= end ==> sample_gap(frames, end, i) == end
            - frames[i],
{
}

/// The encoder reads no input but the manifest, writes nothing over, keeps the times of
/// the samples, and makes an even-sided film that any player shows.
pub proof fn law_encoder_is_told_what_to_do(r: Vec<&'static str>)
    requires
        call_ensures(encoder_arguments, (), r),
    ensures
        r@.len() == 32,
        r@[0]@ == "-nostdin"@,
        r@[4]@ == "-protocol_whitelist"@ && r@[5]@ == "file"@,
        r@[6]@ == "-f"@ && r@[7]@ == "concat"@ && r@[8]@ == "-safe"@ && r@[9]@ == "1"@,
        r@[10]@ == "-i"@ && r@[11]@ == "frames.ffconcat"@,
        r@[12]@ == "-an"@ && r@[13]@ == "-c:v"@ && r@[14]@ == "libx264"@,
        r@[15]@ == "-preset"@ && r@[16]@ == "veryfast"@ && r@[17]@ == "-crf"@ && r@[18]@ == "28"@,
        r@[19]@ == "-threads"@ && r@[20]@ == "2"@,
        r@[21]@ == "-vf"@ && r@[22]@ == "pad=ceil(iw/2)*2:ceil(ih/2)*2"@,
        r@[23]@ == "-pix_fmt"@ && r@[24]@ == "yuv420p"@,
        r@[25]@ == "-fps_mode"@ && r@[26]@ == "vfr"@,
        r@[27]@ == "-movflags"@ && r@[28]@ == "+faststart"@,
        r@[29]@ == "-f"@ && r@[30]@ == "mp4"@ && r@[31]@ == "-n"@,
{
    let views = text_views(r@);
    assert(views.len() == 32);
    assert forall|i: int| 0 <= i < 32 implies (#[trigger] r@[i])@ == encoder_options()[i] by {
        assert(views[i] == r@[i]@);
    }
}

/// A new segment begins when it is made and holds nothing, and a new sampler has no
/// segment and has seen no preview.
pub proof fn law_recording_starts_with_nothing(
    now: u128,
    length: usize,
    later: u128,
    segment: Segment,
    sampler: VideoSampler,
    r: Result<usize, SpoolBound>,
)
    requires
        call_ensures(Segment::new, (now,), segment),
        call_ensures(VideoSampler::new, (), sampler),
    ensures
        segment.started == now,
        segment.frames@.len() == 0,
        segment.bytes == 0,
        sampler.segment is None,
        sampler.last_sequence == 0,
        sampler.sequence == 0,
        forall|s: &mut Segment| #[trigger]
            call_ensures(Segment::push, (s, length, later), r) && *s == segment && now <= later
                ==> (r matches Ok(index) ==> index == 0 && final(s).frames@ == seq![
                (later - now) as u128,
            ] && final(s).bytes == length),
{
    assert forall|s: &mut Segment| #[trigger]
        call_ensures(Segment::push, (s, length, later), r) && *s == segment && now
            <= later implies (r matches Ok(index) ==> index == 0 && final(s).frames@ == seq![
        (later - now) as u128,
    ] && final(s).bytes == length) by {
        if r is Ok {
            assert(final(s).frames@ =~= seq![(later - now) as u128]);
        }
    }
}

} // verus!
