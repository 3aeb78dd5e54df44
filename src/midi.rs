//! Song data on the host side: the events of a MIDI track as plain values,
//! their conversion to absolute time, the merge of all tracks into one
//! stream, and the metadata at the head of the first track.
use crate::proto::LimitedMidiMessage;
use vstd::prelude::*;

verus! {

/// A channel message of a MIDI track.
#[derive(Clone, Copy, Debug, PartialEq, Eq, Structural)]
pub enum MidiMessage {
    NoteOn { key: u8, vel: u8 },
    NoteOff { key: u8, vel: u8 },
    /// Any other channel message.
    Other,
}

/// A meta message of a MIDI track.
#[derive(Clone, Debug, PartialEq, Eq)]
pub enum MetaMessage {
    TrackName(Vec<u8>),
    Text(Vec<u8>),
    Copyright(Vec<u8>),
    /// Microseconds per beat.
    Tempo(u32),
    /// Numerator, denominator exponent, clocks per tick, 32nd notes per beat.
    TimeSignature(u8, u8, u8, u8),
    /// Sharps (positive) or flats (negative), and whether the key is minor.
    KeySignature(i8, bool),
    EndOfTrack,
    SequencerSpecific,
    SmpteOffset,
    MidiChannel,
    MidiPort,
    /// Any other meta message.
    Other,
}

/// What a track event carries.
#[derive(Clone, Debug, PartialEq, Eq)]
pub enum TrackEventKind {
    /// A channel message; channels count from 0 to 15.
    Midi { channel: u8, message: MidiMessage },
    Meta(MetaMessage),
    /// A system-exclusive or escape event.
    Other,
}

/// An event of a track, `delta` ticks after the previous one.
#[derive(Clone, Debug, PartialEq, Eq)]
pub struct TrackEvent {
    pub delta: u32,
    pub kind: TrackEventKind,
}

/// A note event at an absolute time of its track.
#[derive(Clone, Copy, Debug, PartialEq, Eq, Structural)]
pub struct AbsoluteMidiEvent {
    /// Ticks since the start of the track.
    pub time_offset: u32,
    /// Number of the track, counted from 1.
    pub track: u16,
    /// Channel, counted from 1.
    pub channel: u8,
    pub message: LimitedMidiMessage,
}

/// Ticks from the start of the track to the end of its first `n` events.
pub open spec fn delta_sum(track: Seq<TrackEvent>, n: nat) -> nat
    decreases n,
{
    if n == 0 || n > track.len() {
        0
    } else {
        delta_sum(track, (n - 1) as nat) + track[n - 1].delta as nat
    }
}

/// Whether every channel message of the track names a channel below 16.
pub open spec fn channels_valid(track: Seq<TrackEvent>) -> bool {
    forall|i: int|
        0 <= i < track.len() ==> (#[trigger] track[i].kind matches TrackEventKind::Midi {
            channel,
            ..
        } ==> channel < 16)
}

/// The note message that an event carries, if it carries one.
pub open spec fn note_message(kind: TrackEventKind) -> Option<(u8, LimitedMidiMessage)> {
    match kind {
        TrackEventKind::Midi { channel, message } => match message {
            MidiMessage::NoteOn { key, vel } => Some(
                (channel, LimitedMidiMessage::NoteOn { note: key, velocity: vel }),
            ),
            MidiMessage::NoteOff { key, vel } => Some(
                (channel, LimitedMidiMessage::NoteOff { note: key, velocity: vel }),
            ),
            MidiMessage::Other => None,
        },
        _ => None,
    }
}

/// The note events among the first `n` events of a track, at their absolute
/// times, with channels counted from 1.
pub open spec fn absolutized(track: Seq<TrackEvent>, n: nat, track_number: u16) -> Seq<
    AbsoluteMidiEvent,
>
    decreases n,
{
    if n == 0 || n > track.len() {
        Seq::empty()
    } else {
        let prev = absolutized(track, (n - 1) as nat, track_number);
        match note_message(track[n - 1].kind) {
            Some((channel, message)) => prev.push(
                AbsoluteMidiEvent {
                    time_offset: delta_sum(track, n) as u32,
                    track: track_number,
                    channel: (channel + 1) as u8,
                    message,
                },
            ),
            None => prev,
        }
    }
}

proof fn lemma_delta_sum_monotonic(track: Seq<TrackEvent>, m: nat, n: nat)
    requires
        m <= n <= track.len(),
    ensures
        delta_sum(track, m) <= delta_sum(track, n),
    decreases n - m,
{
    if m < n {
        lemma_delta_sum_monotonic(track, m, (n - 1) as nat);
    }
}

/// Converts the note events of a track to absolute time; other events are
/// left out.
pub fn absolutize_track(track: &Vec<TrackEvent>, track_number: u16) -> (r: Vec<AbsoluteMidiEvent>)
    requires
        channels_valid(track@),
        delta_sum(track@, track@.len()) <= u32::MAX,
    ensures
        r@ == absolutized(track@, track@.len(), track_number),
{
    proof {
        assert(track@.subrange(0, track@.len() as int) =~= track@);
    }
    absolutize_from(track, 0, track_number)
}

fn absolutize_from(track: &Vec<TrackEvent>, first: usize, track_number: u16) -> (r: Vec<
    AbsoluteMidiEvent,
>)
    requires
        first <= track@.len(),
        channels_valid(track@.subrange(first as int, track@.len() as int)),
        delta_sum(track@.subrange(first as int, track@.len() as int), (track@.len() - first) as nat)
            <= u32::MAX,
    ensures
        r@ == absolutized(
            track@.subrange(first as int, track@.len() as int),
            (track@.len() - first) as nat,
            track_number,
        ),
{
    let ghost rest = track@.subrange(first as int, track@.len() as int);
    let mut absolute_time: u32 = 0;
    let mut events: Vec<AbsoluteMidiEvent> = Vec::new();
    let mut i: usize = first;
    while i < track.len()
        invariant
            first <= i <= track@.len(),
            rest == track@.subrange(first as int, track@.len() as int),
            channels_valid(rest),
            delta_sum(rest, rest.len()) <= u32::MAX,
            absolute_time == delta_sum(rest, (i - first) as nat),
            events@ == absolutized(rest, (i - first) as nat, track_number),
        decreases track@.len() - i,
    {
        proof {
            lemma_delta_sum_monotonic(rest, (i + 1 - first) as nat, rest.len());
            assert(rest[i - first] == track@[i as int]);
        }
        let event = &track[i];
        absolute_time = absolute_time + event.delta;
        match &event.kind {
            TrackEventKind::Midi { channel, message } => {
                let converted = match message {
                    MidiMessage::NoteOn { key, vel } => Some(
                        LimitedMidiMessage::NoteOn { note: *key, velocity: *vel },
                    ),
                    MidiMessage::NoteOff { key, vel } => Some(
                        LimitedMidiMessage::NoteOff { note: *key, velocity: *vel },
                    ),
                    MidiMessage::Other => None,
                };
                match converted {
                    Some(message) => {
                        assert(rest[i - first].kind matches TrackEventKind::Midi { .. });
                        events.push(
                            AbsoluteMidiEvent {
                                time_offset: absolute_time,
                                track: track_number,
                                channel: *channel + 1,
                                message,
                            },
                        );
                    },
                    None => {},
                }
            },
            _ => {},
        }
        i = i + 1;
    }
    events
}

/// Whether `sorted` holds the events of `events` ordered by time, with the
/// events of equal time in the order they had before.
pub open spec fn stable_sorted_by_time(
    events: Seq<AbsoluteMidiEvent>,
    sorted: Seq<AbsoluteMidiEvent>,
) -> bool {
    &&& sorted.len() == events.len()
    &&& forall|i: int, j: int|
        0 <= i < j < sorted.len() ==> sorted[i].time_offset <= sorted[j].time_offset
    &&& exists|p: Seq<int>|
        {
            &&& p.len() == events.len()
            &&& forall|i: int|
                0 <= i < p.len() ==> 0 <= #[trigger] p[i] < events.len() && sorted[i]
                    == events[p[i]]
            &&& forall|i: int, j: int| 0 <= i < j < p.len() ==> #[trigger] p[i] != #[trigger] p[j]
            &&& forall|i: int, j: int|
                0 <= i < j < p.len() && sorted[i].time_offset == sorted[j].time_offset
                    ==> #[trigger] p[i] < #[trigger] p[j]
        }
}

/// Relies on slice::sort_by_key, a stable sort: the events end up ordered by
/// time offset, and events with equal offsets keep their order.
#[verifier::external_body]
fn sort_by_time(events: &mut Vec<AbsoluteMidiEvent>)
    ensures
        stable_sorted_by_time(old(events)@, final(events)@),
{
    events.sort_by_key(|e| e.time_offset);
}

/// The events of each merged track.
pub open spec fn event_views(tracks: Seq<Vec<AbsoluteMidiEvent>>) -> Seq<Seq<AbsoluteMidiEvent>> {
    tracks.map_values(|t: Vec<AbsoluteMidiEvent>| t@)
}

/// The tracks' events one after another, in track order.
pub open spec fn concatenated(tracks: Seq<Seq<AbsoluteMidiEvent>>) -> Seq<AbsoluteMidiEvent>
    decreases tracks.len(),
{
    if tracks.len() == 0 {
        Seq::empty()
    } else {
        concatenated(tracks.drop_last()) + tracks.last()
    }
}

/// Merges the events of all tracks into one stream ordered by time; events
/// at the same time keep the order of their tracks, and within a track their
/// own order.
pub fn merge_tracks(tracks: Vec<Vec<AbsoluteMidiEvent>>) -> (r: Vec<AbsoluteMidiEvent>)
    ensures
        stable_sorted_by_time(concatenated(event_views(tracks@)), r@),
{
    let ghost views = event_views(tracks@);
    let mut events: Vec<AbsoluteMidiEvent> = Vec::new();
    let mut t: usize = 0;
    while t < tracks.len()
        invariant
            t <= tracks@.len(),
            views == event_views(tracks@),
            events@ == concatenated(views.take(t as int)),
        decreases tracks@.len() - t,
    {
        let track = &tracks[t];
        let ghost start = events@;
        let mut i: usize = 0;
        while i < track.len()
            invariant
                i <= track@.len(),
                events@ == start + track@.take(i as int),
            decreases track@.len() - i,
        {
            events.push(track[i]);
            i = i + 1;
            proof {
                assert(events@ =~= start + track@.take(i as int));
            }
        }
        proof {
            assert(track@.take(track@.len() as int) =~= track@);
            assert(views.take(t + 1).drop_last() =~= views.take(t as int));
            assert(views[t as int] == track@);
        }
        t = t + 1;
    }
    proof {
        assert(views.take(tracks@.len() as int) =~= views);
    }
    sort_by_time(&mut events);
    events
}

/// Why the metadata at the head of a track could not be read.
#[derive(Clone, Copy, Debug, PartialEq, Eq, Structural)]
pub enum MetadataError {
    /// The track holds no event.
    EmptyTrack,
    /// A metadata event comes after a delay.
    NonzeroDelta,
    DuplicateTrackName,
    DuplicateTempo,
    DuplicateTimeSignature,
    DuplicateKeySignature,
    /// A meta message that the metadata does not support.
    UnsupportedMeta,
    /// The track gives no time signature.
    MissingTimeSignature,
}

/// The text of bytes read as UTF-8, with each invalid sequence replaced by
/// U+FFFD.
pub uninterp spec fn lossy_text(bytes: Seq<u8>) -> Seq<char>;

/// Relies on String::from_utf8_lossy: the text depends on the bytes alone.
#[verifier::external_body]
fn text_of(bytes: &Vec<u8>) -> (r: String)
    ensures
        r@ == lossy_text(bytes@),
{
    String::from_utf8_lossy(bytes).into_owned()
}

/// Metadata of a song, read from the head of its first track.
#[derive(Debug)]
pub struct MidiMetadata {
    pub track_name: Option<String>,
    pub text: Vec<String>,
    pub copyright: Vec<String>,
    /// Microseconds per beat.
    pub tempo: u32,
    pub time_signature: (u8, u8, u8, u8),
    pub key_signature: (i8, bool),
}

/// Tempo of a song that gives none: 120 beats per minute.
pub const DEFAULT_TEMPO: u32 = 500_000;

/// What the scan of a track's metadata has gathered: the fields so far, and
/// once it has met the first event that is not a meta event, its index.
pub struct MetaScan {
    pub track_name: Option<Seq<char>>,
    pub text: Seq<Seq<char>>,
    pub copyright: Seq<Seq<char>>,
    pub tempo: Option<u32>,
    pub time_signature: Option<(u8, u8, u8, u8)>,
    pub key_signature: Option<(i8, bool)>,
    pub next_index: nat,
    pub done: bool,
}

/// The scan before any event.
pub open spec fn scan_start() -> MetaScan {
    MetaScan {
        track_name: None,
        text: Seq::empty(),
        copyright: Seq::empty(),
        tempo: None,
        time_signature: None,
        key_signature: None,
        next_index: 0,
        done: false,
    }
}

/// The scan after event `i`.
pub open spec fn scan_step(s: MetaScan, i: nat, e: TrackEvent) -> Result<MetaScan, MetadataError> {
    if e.delta != 0 {
        Err(MetadataError::NonzeroDelta)
    } else {
        match e.kind {
            TrackEventKind::Meta(m) => match m {
                MetaMessage::TrackName(b) => if s.track_name is Some {
                    Err(MetadataError::DuplicateTrackName)
                } else {
                    Ok(MetaScan { track_name: Some(lossy_text(b@)), ..s })
                },
                MetaMessage::Text(b) => Ok(MetaScan { text: s.text.push(lossy_text(b@)), ..s }),
                MetaMessage::Copyright(b) => Ok(
                    MetaScan { copyright: s.copyright.push(lossy_text(b@)), ..s },
                ),
                MetaMessage::Tempo(t) => if s.tempo is Some {
                    Err(MetadataError::DuplicateTempo)
                } else {
                    Ok(MetaScan { tempo: Some(t), ..s })
                },
                MetaMessage::TimeSignature(a, b, c, d) => if s.time_signature is Some {
                    Err(MetadataError::DuplicateTimeSignature)
                } else {
                    Ok(MetaScan { time_signature: Some((a, b, c, d)), ..s })
                },
                MetaMessage::KeySignature(k, minor) => if s.key_signature is Some {
                    Err(MetadataError::DuplicateKeySignature)
                } else {
                    Ok(MetaScan { key_signature: Some((k, minor)), ..s })
                },
                MetaMessage::Other => Err(MetadataError::UnsupportedMeta),
                _ => Ok(s),
            },
            _ => Ok(MetaScan { next_index: i, done: true, ..s }),
        }
    }
}

/// The scan after the first `n` events; it stops at the first event that is
/// not a meta event.
pub open spec fn scan(track: Seq<TrackEvent>, n: nat) -> Result<MetaScan, MetadataError>
    decreases n,
{
    if n == 0 || n > track.len() {
        Ok(scan_start())
    } else {
        match scan(track, (n - 1) as nat) {
            Err(e) => Err(e),
            Ok(s) => if s.done {
                Ok(s)
            } else {
                scan_step(s, (n - 1) as nat, track[n - 1])
            },
        }
    }
}

/// Whether metadata holds what a finished scan gathered, with the defaults
/// for a missing tempo (120 beats per minute) and key (C major).
pub open spec fn metadata_of_scan(m: MidiMetadata, s: MetaScan) -> bool {
    &&& (match m.track_name {
        Some(n) => s.track_name == Some(n@),
        None => s.track_name is None,
    })
    &&& m.text@.map_values(|t: String| t@) == s.text
    &&& m.copyright@.map_values(|t: String| t@) == s.copyright
    &&& m.tempo == (match s.tempo {
        Some(t) => t,
        None => DEFAULT_TEMPO,
    })
    &&& s.time_signature == Some(m.time_signature)
    &&& m.key_signature == (match s.key_signature {
        Some(k) => k,
        None => (0i8, false),
    })
}

proof fn lemma_scan_settles(track: Seq<TrackEvent>, n: nat, m: nat)
    requires
        n <= m <= track.len(),
    ensures
        (scan(track, n) is Err || (scan(track, n) matches Ok(s) && s.done)) ==> scan(track, m)
            == scan(track, n),
    decreases m - n,
{
    if n < m {
        lemma_scan_settles(track, n, (m - 1) as nat);
    }
}

/// Reads the metadata at the head of a track: the meta events up to the
/// first event of another kind, whose index comes back with the metadata
/// (0 when every event is a meta event). Each of them must come without
/// delay, and the track name, tempo, time signature and key signature may
/// each appear once; the time signature must appear.
pub fn parse_track_metadata(track: &Vec<TrackEvent>) -> (r: Result<(usize, MidiMetadata), MetadataError>)
    ensures
        track@.len() == 0 ==> r == Err::<(usize, MidiMetadata), MetadataError>(
            MetadataError::EmptyTrack,
        ),
        track@.len() > 0 ==> match scan(track@, track@.len()) {
            Err(e) => r == Err::<(usize, MidiMetadata), MetadataError>(e),
            Ok(s) => match s.time_signature {
                None => r == Err::<(usize, MidiMetadata), MetadataError>(
                    MetadataError::MissingTimeSignature,
                ),
                Some(_) => r matches Ok((i, m)) && i == s.next_index && metadata_of_scan(m, s),
            },
        },
{
    if track.len() == 0 {
        return Err(MetadataError::EmptyTrack);
    }
    let mut track_name: Option<String> = None;
    let mut text: Vec<String> = Vec::new();
    let mut copyright: Vec<String> = Vec::new();
    let mut tempo: Option<u32> = None;
    let mut time_signature: Option<(u8, u8, u8, u8)> = None;
    let mut key_signature: Option<(i8, bool)> = None;
    let mut next_index: usize = 0;
    let mut stopped = false;
    let mut i: usize = 0;
    proof {
        assert(text@.map_values(|t: String| t@) =~= Seq::<Seq<char>>::empty());
        assert(copyright@.map_values(|t: String| t@) =~= Seq::<Seq<char>>::empty());
    }
    while i < track.len() && !stopped
        invariant
            i <= track@.len(),
            scan(track@, i as nat) == Ok::<MetaScan, MetadataError>(
                MetaScan {
                    track_name: match track_name {
                        Some(n) => Some(n@),
                        None => None,
                    },
                    text: text@.map_values(|t: String| t@),
                    copyright: copyright@.map_values(|t: String| t@),
                    tempo,
                    time_signature,
                    key_signature,
                    next_index: next_index as nat,
                    done: stopped,
                },
            ),
        decreases track@.len() - i,
    {
        proof {
            lemma_scan_settles(track@, (i + 1) as nat, track@.len());
        }
        let event = &track[i];
        if event.delta != 0 {
            return Err(MetadataError::NonzeroDelta);
        }
        match &event.kind {
            TrackEventKind::Meta(message) => {
                match message {
                    MetaMessage::TrackName(name) => {
                        if track_name.is_some() {
                            return Err(MetadataError::DuplicateTrackName);
                        }
                        track_name = Some(text_of(name));
                    },
                    MetaMessage::Text(t) => {
                        let ghost before = text@;
                        text.push(text_of(t));
                        proof {
                            assert(text@.map_values(|t: String| t@) =~= before.map_values(
                                |t: String| t@,
                            ).push(text@.last()@));
                        }
                    },
                    MetaMessage::Copyright(t) => {
                        let ghost before = copyright@;
                        copyright.push(text_of(t));
                        proof {
                            assert(copyright@.map_values(|t: String| t@) =~= before.map_values(
                                |t: String| t@,
                            ).push(copyright@.last()@));
                        }
                    },
                    MetaMessage::Tempo(t) => {
                        if tempo.is_some() {
                            return Err(MetadataError::DuplicateTempo);
                        }
                        tempo = Some(*t);
                    },
                    MetaMessage::TimeSignature(a, b, c, d) => {
                        if time_signature.is_some() {
                            return Err(MetadataError::DuplicateTimeSignature);
                        }
                        time_signature = Some((*a, *b, *c, *d));
                    },
                    MetaMessage::KeySignature(k, minor) => {
                        if key_signature.is_some() {
                            return Err(MetadataError::DuplicateKeySignature);
                        }
                        key_signature = Some((*k, *minor));
                    },
                    MetaMessage::Other => {
                        return Err(MetadataError::UnsupportedMeta);
                    },
                    _ => {},
                }
            },
            _ => {
                next_index = i;
                stopped = true;
            },
        }
        i = i + 1;
    }
    proof {
        lemma_scan_settles(track@, i as nat, track@.len());
    }
    let time_signature = match time_signature {
        Some(ts) => ts,
        None => {
            return Err(MetadataError::MissingTimeSignature);
        },
    };
    let tempo = match tempo {
        Some(t) => t,
        None => DEFAULT_TEMPO,
    };
    let key_signature = match key_signature {
        Some(k) => k,
        None => (0i8, false),
    };
    Ok(
        (
            next_index,
            MidiMetadata { track_name, text, copyright, tempo, time_signature, key_signature },
        ),
    )
}

/// How the tracks of a standard MIDI file relate.
#[derive(Clone, Copy, Debug, PartialEq, Eq, Structural)]
pub enum SmfFormat {
    /// One track with metadata and notes.
    SingleTrack,
    /// A metadata track, then data tracks that play together.
    Parallel,
    /// Independent sequences.
    Sequential,
}

/// Why a song could not be assembled from a MIDI file.
#[derive(Clone, Copy, Debug, PartialEq, Eq, Structural)]
pub enum SongError {
    /// Only single-track and parallel files are supported.
    UnsupportedFormat,
    /// Only metrical timing (ticks per beat) is supported.
    UnsupportedTiming,
    /// The file holds no track.
    NoTracks,
    /// The metadata track could not be read.
    Metadata(MetadataError),
    /// The file holds no data track.
    NoDataTracks,
}

/// A song ready to stream: its metadata, timing and merged note events.
#[derive(Debug)]
pub struct Song {
    pub metadata: MidiMetadata,
    pub ticks_per_beat: u16,
    pub num_tracks: u16,
    pub events: Vec<AbsoluteMidiEvent>,
}

/// The note events of each data track, at absolute times: for a single-track
/// file the events after its metadata, as track 1; for a parallel file each
/// track after the first, numbered from 1.
pub open spec fn data_tracks(format: SmfFormat, tracks: Seq<Seq<TrackEvent>>, first: nat) -> Seq<
    Seq<AbsoluteMidiEvent>,
> {
    if format == SmfFormat::SingleTrack {
        let rest = tracks[0].subrange(first as int, tracks[0].len() as int);
        seq![absolutized(rest, rest.len(), 1)]
    } else {
        Seq::new(
            (tracks.len() - 1) as nat,
            |i: int| absolutized(tracks[i + 1], tracks[i + 1].len(), (i + 1) as u16),
        )
    }
}

/// Whether every track can be converted to absolute time: its channels are
/// valid and its total time fits 32 bits.
pub open spec fn tracks_valid(tracks: Seq<Seq<TrackEvent>>) -> bool {
    forall|i: int|
        0 <= i < tracks.len() ==> channels_valid(#[trigger] tracks[i]) && delta_sum(
            tracks[i],
            tracks[i].len(),
        ) <= u32::MAX
}

proof fn lemma_delta_sum_suffix(track: Seq<TrackEvent>, k: nat, n: nat)
    requires
        k <= n <= track.len(),
    ensures
        delta_sum(track.subrange(k as int, n as int), (n - k) as nat) + delta_sum(track, k)
            == delta_sum(track, n),
    decreases n - k,
{
    let rest = track.subrange(k as int, n as int);
    if k < n {
        lemma_delta_sum_suffix(track, k, (n - 1) as nat);
        assert(track.subrange(k as int, (n - 1) as int) =~= rest.subrange(0, (n - 1 - k) as int));
        lemma_delta_sum_prefix(rest, (n - 1 - k) as nat);
    } else {
        assert(rest.len() == 0);
    }
}

proof fn lemma_delta_sum_prefix(track: Seq<TrackEvent>, m: nat)
    requires
        m <= track.len(),
    ensures
        delta_sum(track.subrange(0, m as int), m) == delta_sum(track, m),
    decreases m,
{
    if m > 0 {
        lemma_delta_sum_prefix(track, (m - 1) as nat);
        assert(track.subrange(0, m as int).subrange(0, (m - 1) as int) =~= track.subrange(
            0,
            (m - 1) as int,
        ));
        lemma_delta_sum_prefix(track.subrange(0, m as int), (m - 1) as nat);
    }
}

/// The events of each track.
pub open spec fn track_views(tracks: Seq<Vec<TrackEvent>>) -> Seq<Seq<TrackEvent>> {
    tracks.map_values(|t: Vec<TrackEvent>| t@)
}

proof fn lemma_scan_next_index(track: Seq<TrackEvent>, n: nat)
    ensures
        scan(track, n) matches Ok(s) ==> s.next_index <= n && (n > 0 ==> s.next_index < n)
            || s.next_index == 0,
    decreases n,
{
    if n > 0 && n <= track.len() {
        lemma_scan_next_index(track, (n - 1) as nat);
    }
}

/// Assembles a song from the tracks of a MIDI file: checks the format and
/// timing, reads the metadata from the first track, converts each data track
/// to absolute time and merges them into one stream ordered by time.
pub fn assemble_song(format: SmfFormat, ticks_per_beat: Option<u16>, tracks: &Vec<Vec<TrackEvent>>) -> (r: Result<Song, SongError>)
    requires
        tracks@.len() <= u16::MAX,
        tracks_valid(track_views(tracks@)),
    ensures
        format == SmfFormat::Sequential ==> r == Err::<Song, SongError>(
            SongError::UnsupportedFormat,
        ),
        format != SmfFormat::Sequential && ticks_per_beat is None ==> r == Err::<Song, SongError>(
            SongError::UnsupportedTiming,
        ),
        format != SmfFormat::Sequential && ticks_per_beat is Some && tracks@.len() == 0 ==> r
            == Err::<Song, SongError>(SongError::NoTracks),
        format != SmfFormat::Sequential && ticks_per_beat is Some && tracks@.len() > 0
            && tracks@[0]@.len() == 0 ==> r == Err::<Song, SongError>(
            SongError::Metadata(MetadataError::EmptyTrack),
        ),
        format != SmfFormat::Sequential && ticks_per_beat is Some && tracks@.len() > 0
            && tracks@[0]@.len() > 0 ==> match scan(
            tracks@[0]@,
            tracks@[0]@.len(),
        ) {
            Err(e) => r == Err::<Song, SongError>(SongError::Metadata(e)),
            Ok(s) => match s.time_signature {
                None => r == Err::<Song, SongError>(
                    SongError::Metadata(MetadataError::MissingTimeSignature),
                ),
                Some(_) => {
                    let data = data_tracks(format, track_views(tracks@), s.next_index);
                    if data.len() == 0 {
                        r == Err::<Song, SongError>(SongError::NoDataTracks)
                    } else {
                        r matches Ok(song) && song.ticks_per_beat == ticks_per_beat.unwrap()
                            && song.num_tracks == data.len() && metadata_of_scan(
                            song.metadata,
                            s,
                        ) && stable_sorted_by_time(concatenated(data), song.events@)
                    }
                },
            },
        },
{
    if format == SmfFormat::Sequential {
        return Err(SongError::UnsupportedFormat);
    }
    let ticks_per_beat = match ticks_per_beat {
        Some(t) => t,
        None => {
            return Err(SongError::UnsupportedTiming);
        },
    };
    if tracks.len() == 0 {
        return Err(SongError::NoTracks);
    }
    let ghost views = track_views(tracks@);
    let meta_track = &tracks[0];
    assert(views[0] == meta_track@);
    let (first, metadata) = match parse_track_metadata(meta_track) {
        Ok(parsed) => parsed,
        Err(e) => {
            return Err(SongError::Metadata(e));
        },
    };
    proof {
        lemma_scan_next_index(meta_track@, meta_track@.len());
    }
    let mut data: Vec<Vec<AbsoluteMidiEvent>> = Vec::new();
    if format == SmfFormat::SingleTrack {
        proof {
            assert(channels_valid(views[0]));
            let rest = meta_track@.subrange(first as int, meta_track@.len() as int);
            assert forall|i: int| 0 <= i < rest.len() implies (#[trigger] rest[i].kind matches TrackEventKind::Midi { channel, .. } ==> channel < 16) by {
                assert(rest[i] == meta_track@[i + first]);
            }
            lemma_delta_sum_suffix(meta_track@, first as nat, meta_track@.len());
        }
        let events = absolutize_from(meta_track, first, 1);
        data.push(events);
        proof {
            assert(event_views(data@) =~= data_tracks(
                format,
                views,
                first as nat,
            ));
        }
    } else {
        let mut i: usize = 1;
        while i < tracks.len()
            invariant
                1 <= i <= tracks@.len() <= u16::MAX,
                views == track_views(tracks@),
                tracks_valid(views),
                format == SmfFormat::Parallel,
                event_views(data@) == data_tracks(
                    format,
                    views,
                    first as nat,
                ).take(i - 1),
            decreases tracks@.len() - i,
        {
            assert(views[i as int] == tracks@[i as int]@);
            let events = absolutize_track(&tracks[i], i as u16);
            let ghost before = data@;
            data.push(events);
            proof {
                let dt = data_tracks(format, views, first as nat);
                assert(dt[i - 1] == events@);
                assert(event_views(before).len() == i - 1);
                assert forall|k: int| 0 <= k < i - 1 implies data@[k]@ == dt[k] by {
                    assert(event_views(before)[k] == dt.take(i - 1)[k]);
                    assert(data@[k] == before[k]);
                }
                assert(event_views(data@) =~= data_tracks(
                    format,
                    views,
                    first as nat,
                ).take(i as int));
            }
            i = i + 1;
        }
        proof {
            assert(data_tracks(format, views, first as nat).take(tracks@.len() - 1) =~= data_tracks(
                format,
                views,
                first as nat,
            ));
        }
    }
    if data.len() == 0 {
        return Err(SongError::NoDataTracks);
    }
    let num_tracks = data.len() as u16;
    let events = merge_tracks(data);
    Ok(Song { metadata, ticks_per_beat, num_tracks, events })
}

} // verus!
