use web_radio::track::{Narration, Track};
use web_radio::track_iterator::TrackIterator;

fn mock_track() -> Track {
    Track::new(
        "Mocked Title".to_string(),
        "Mocked Artist".to_string(),
        "Mocked Album".to_string(),
        300,
        "mp3".to_string(),
        "mocked_source.mp3".to_string(),
        vec![Narration {
            title: "Mocked After Narration".to_string(),
            duration: 30,
            file_format: "mp3".to_string(),
            source: "mocked_after_narration.mp3".to_string(),
        }],
        vec![Narration {
            title: "Mocked Before Narration".to_string(),
            duration: 20,
            file_format: "mp3".to_string(),
            source: "mocked_before_narration.mp3".to_string(),
        }],
    )
}

fn station_tracks() -> Vec<Track> {
    vec![
        mock_track(),
        Track::new(
            "Second Title".to_string(),
            "Second Artist".to_string(),
            "Second Album".to_string(),
            180,
            "wav".to_string(),
            "second_source.wav".to_string(),
            vec![],
            vec![],
        ),
    ]
}

#[test]
fn test_track_iterator_initialization() {
    let tracks = station_tracks();

    let iterator = TrackIterator::new(tracks.clone(), 42);

    assert_ne!(iterator.get_current().title, "");
    assert_ne!(iterator.get_current().file_format, "");
    assert_ne!(iterator.get_current().source, "");
}

#[test]
fn test_track_iterator_has_more() {
    let tracks = vec![mock_track()];

    let iterator = TrackIterator::new(tracks.clone(), 42);

    assert!(!iterator.has_more());
}

#[test]
fn go_next_walks_every_track_once() {
    let tracks = station_tracks();
    let mut titles: Vec<String> = tracks.iter().map(|t| t.title.clone()).collect();
    titles.sort();

    let mut iterator = TrackIterator::new(tracks, 7);
    let mut seen = vec![iterator.get_current().title.clone()];
    while iterator.has_more() {
        iterator.go_next().unwrap();
        seen.push(iterator.get_current().title.clone());
    }
    seen.sort();

    // A permutation: every track comes up exactly once.
    assert_eq!(seen, titles);
    assert_eq!(iterator.go_next(), Err("No more tracks to play"));
}

#[test]
fn shuffle_vec_permutes_in_place() {
    let tracks = station_tracks();
    let mut shuffled = tracks.clone();
    TrackIterator::shuffle_vec(&mut shuffled, 42);

    assert_eq!(shuffled.len(), tracks.len());
    let mut a: Vec<String> = shuffled.iter().map(|t| t.title.clone()).collect();
    let mut b: Vec<String> = tracks.iter().map(|t| t.title.clone()).collect();
    a.sort();
    b.sort();
    assert_eq!(a, b);
}
