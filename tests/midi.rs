use floppier::midi::{
    absolutize_track, assemble_song, merge_tracks, parse_track_metadata, AbsoluteMidiEvent,
    MetaMessage, MetadataError, MidiMessage, SmfFormat, SongError, TrackEvent, TrackEventKind,
    DEFAULT_TEMPO,
};
use floppier::proto::LimitedMidiMessage;

fn meta(m: MetaMessage) -> TrackEvent {
    TrackEvent { delta: 0, kind: TrackEventKind::Meta(m) }
}

fn note_on(delta: u32, channel: u8, key: u8) -> TrackEvent {
    TrackEvent {
        delta,
        kind: TrackEventKind::Midi { channel, message: MidiMessage::NoteOn { key, vel: 90 } },
    }
}

fn note_off(delta: u32, channel: u8, key: u8) -> TrackEvent {
    TrackEvent {
        delta,
        kind: TrackEventKind::Midi { channel, message: MidiMessage::NoteOff { key, vel: 0 } },
    }
}

fn header() -> Vec<TrackEvent> {
    vec![
        meta(MetaMessage::TrackName(b"Song".to_vec())),
        meta(MetaMessage::TimeSignature(4, 2, 24, 8)),
        meta(MetaMessage::EndOfTrack),
    ]
}

#[test]
fn absolute_times_accumulate() {
    let track = vec![
        note_on(0, 0, 60),
        TrackEvent { delta: 5, kind: TrackEventKind::Other },
        note_off(10, 0, 60),
        TrackEvent { delta: 1, kind: TrackEventKind::Midi { channel: 3, message: MidiMessage::Other } },
        note_on(4, 15, 62),
        meta(MetaMessage::EndOfTrack),
    ];
    let events = absolutize_track(&track, 2);
    assert_eq!(
        events,
        vec![
            AbsoluteMidiEvent {
                time_offset: 0,
                track: 2,
                channel: 1,
                message: LimitedMidiMessage::NoteOn { note: 60, velocity: 90 },
            },
            AbsoluteMidiEvent {
                time_offset: 15,
                track: 2,
                channel: 1,
                message: LimitedMidiMessage::NoteOff { note: 60, velocity: 0 },
            },
            AbsoluteMidiEvent {
                time_offset: 20,
                track: 2,
                channel: 16,
                message: LimitedMidiMessage::NoteOn { note: 62, velocity: 90 },
            },
        ]
    );
}

#[test]
fn merge_orders_by_time_and_keeps_ties() {
    let a = absolutize_track(&vec![note_on(0, 0, 60), note_on(10, 0, 61)], 1);
    let b = absolutize_track(&vec![note_on(5, 1, 70), note_on(5, 1, 71)], 2);
    let merged = merge_tracks(vec![a, b]);
    let keys: Vec<(u32, u16)> = merged.iter().map(|e| (e.time_offset, e.track)).collect();
    assert_eq!(keys, vec![(0, 1), (5, 2), (10, 1), (10, 2)]);
}

#[test]
fn metadata_is_read() {
    let mut track = header();
    track.push(meta(MetaMessage::Tempo(400_000)));
    track.push(meta(MetaMessage::Text(b"hi".to_vec())));
    track.push(meta(MetaMessage::Copyright(vec![0xff, b'a'])));
    track.push(meta(MetaMessage::KeySignature(-3, true)));
    track.push(note_on(0, 0, 60));
    let (index, m) = parse_track_metadata(&track).unwrap();
    assert_eq!(index, 7);
    assert_eq!(m.track_name, Some("Song".to_string()));
    assert_eq!(m.text, vec!["hi".to_string()]);
    assert_eq!(m.copyright, vec!["\u{fffd}a".to_string()]);
    assert_eq!(m.tempo, 400_000);
    assert_eq!(m.time_signature, (4, 2, 24, 8));
    assert_eq!(m.key_signature, (-3, true));
}

#[test]
fn metadata_defaults() {
    let (index, m) = parse_track_metadata(&header()).unwrap();
    assert_eq!(index, 0);
    assert_eq!(m.tempo, DEFAULT_TEMPO);
    assert_eq!(m.key_signature, (0, false));
    assert!(m.text.is_empty());
}

#[test]
fn metadata_errors() {
    assert_eq!(parse_track_metadata(&vec![]).unwrap_err(), MetadataError::EmptyTrack);
    let no_ts = vec![meta(MetaMessage::Tempo(1))];
    assert_eq!(parse_track_metadata(&no_ts).unwrap_err(), MetadataError::MissingTimeSignature);
    let mut dup = header();
    dup.insert(0, meta(MetaMessage::TrackName(b"x".to_vec())));
    assert_eq!(parse_track_metadata(&dup).unwrap_err(), MetadataError::DuplicateTrackName);
    let mut dup_tempo = header();
    dup_tempo.push(meta(MetaMessage::Tempo(1)));
    dup_tempo.push(meta(MetaMessage::Tempo(2)));
    assert_eq!(parse_track_metadata(&dup_tempo).unwrap_err(), MetadataError::DuplicateTempo);
    let mut delayed = header();
    delayed.push(TrackEvent { delta: 3, kind: TrackEventKind::Meta(MetaMessage::Tempo(1)) });
    assert_eq!(parse_track_metadata(&delayed).unwrap_err(), MetadataError::NonzeroDelta);
    let mut other = header();
    other.push(meta(MetaMessage::Other));
    assert_eq!(parse_track_metadata(&other).unwrap_err(), MetadataError::UnsupportedMeta);
}

#[test]
fn parallel_song_is_assembled() {
    let tracks = vec![
        header(),
        vec![note_on(0, 0, 60), note_off(96, 0, 60)],
        vec![note_on(48, 1, 64)],
    ];
    let song = assemble_song(SmfFormat::Parallel, Some(96), &tracks).unwrap();
    assert_eq!(song.num_tracks, 2);
    assert_eq!(song.ticks_per_beat, 96);
    let keys: Vec<(u32, u16, u8)> =
        song.events.iter().map(|e| (e.time_offset, e.track, e.channel)).collect();
    assert_eq!(keys, vec![(0, 1, 1), (48, 2, 2), (96, 1, 1)]);
}

#[test]
fn single_track_song_uses_events_after_metadata() {
    let mut track = header();
    track.push(note_on(0, 0, 60));
    track.push(note_off(10, 0, 60));
    let song = assemble_song(SmfFormat::SingleTrack, Some(480), &vec![track]).unwrap();
    assert_eq!(song.num_tracks, 1);
    assert_eq!(song.events.len(), 2);
    assert_eq!(song.events[1].time_offset, 10);
    assert_eq!(song.events[1].track, 1);
}

#[test]
fn song_errors() {
    let tracks = vec![header(), vec![note_on(0, 0, 60)]];
    assert_eq!(
        assemble_song(SmfFormat::Sequential, Some(96), &tracks).unwrap_err(),
        SongError::UnsupportedFormat
    );
    assert_eq!(
        assemble_song(SmfFormat::Parallel, None, &tracks).unwrap_err(),
        SongError::UnsupportedTiming
    );
    assert_eq!(
        assemble_song(SmfFormat::Parallel, Some(96), &vec![]).unwrap_err(),
        SongError::NoTracks
    );
    assert_eq!(
        assemble_song(SmfFormat::Parallel, Some(96), &vec![header()]).unwrap_err(),
        SongError::NoDataTracks
    );
    assert_eq!(
        assemble_song(SmfFormat::Parallel, Some(96), &vec![vec![], vec![]]).unwrap_err(),
        SongError::Metadata(MetadataError::EmptyTrack)
    );
}
