//! The checkpoint log: framing, restore, corruption, the full round trip.

use mol_job::track::{Track, TrackError};

#[test]
fn sync_appends_one_line() {
    let mut track = Track::new();
    let line = track.sync(&b"0.005".to_vec(), &b"{\"pos\":[[1.5,-2.25]]}".to_vec());
    assert_eq!(b"0.005. {\"pos\":[[1.5,-2.25]]}\n".to_vec(), line);
    assert_eq!(&line, track.log_bytes());
    let second = track.sync(&b"0.01".to_vec(), &b"{\"pos\":[[0.5,0.25]]}".to_vec());
    let mut expected = line.clone();
    expected.extend_from_slice(&second);
    assert_eq!(&expected, track.log_bytes());
}

#[test]
fn restore_returns_latest_payload() {
    let mut track = Track::new();
    track.sync(&b"0.005".to_vec(), &b"{\"pos\":[[1.5,-2.25]]}".to_vec());
    track.sync(&b"0.01".to_vec(), &b"{\"pos\":[[0.5,0.25]]}".to_vec());
    let restored = Track::restore_from(track.log_bytes()).unwrap();
    assert_eq!(b"{\"pos\":[[0.5,0.25]]}".to_vec(), restored);
}

#[test]
fn restore_round_trip_single_record() {
    let mut track = Track::new();
    let payload = b"{\"pos\":[[1.0,2.0],[3.0,4.0]],\"vel\":[[0.1,0.2],[0.3,0.4]]}".to_vec();
    track.sync(&b"12.5".to_vec(), &payload);
    assert_eq!(payload, Track::restore_from(track.log_bytes()).unwrap());
}

#[test]
fn restore_of_empty_log_is_corrupt() {
    assert_eq!(Err(TrackError::Corrupt), Track::restore_from(&Vec::new()));
}

#[test]
fn restore_without_separator_is_corrupt() {
    assert_eq!(Err(TrackError::Corrupt), Track::restore_from(&b"no record here\n".to_vec()));
    assert_eq!(Err(TrackError::Corrupt), Track::restore_from(&b"0.005\n".to_vec()));
}

#[test]
fn restore_takes_suffix_after_last_separator() {
    let log = b"1. a. b\n".to_vec();
    assert_eq!(Ok(b"b".to_vec()), Track::restore_from(&log));
}

#[test]
fn error_kinds_are_distinct() {
    assert_ne!(TrackError::NotFound, TrackError::Corrupt);
}

#[test]
fn serialized_state_round_trips() {
    let state: Vec<Vec<f32>> = vec![vec![1.5, -2.25, 1e-6], vec![0.1, 0.2, 0.3]];
    let json = serde_json::to_string(&state).unwrap();
    let payload = json.into_bytes();
    let mut track = Track::new();
    track.sync(&b"0.25".to_vec(), &payload);
    let restored_payload = Track::restore_from(track.log_bytes()).unwrap();
    assert_eq!(payload, restored_payload);
    let restored: Vec<Vec<f32>> = serde_json::from_slice(&restored_payload).unwrap();
    assert_eq!(state, restored);
}
