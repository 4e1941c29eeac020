use audio_player::playlist::arrange_tracks;

#[test]
fn arranging_without_shuffle_keeps_the_order() {
    let mut tracks = vec!["a.mp3".to_string(), "b.mp3".to_string(), "c.mp3".to_string()];
    let before = tracks.clone();
    arrange_tracks(&mut tracks, false);
    assert_eq!(tracks, before);
}

#[test]
fn shuffling_keeps_exactly_the_same_tracks() {
    let mut tracks: Vec<String> = (0..32).map(|i| format!("track-{i}.mp3")).collect();
    let mut expected = tracks.clone();
    arrange_tracks(&mut tracks, true);
    let mut got = tracks.clone();
    got.sort();
    expected.sort();
    assert_eq!(got, expected);
}
