use vstutils::notetracker::NoteTracker;

#[test]
fn test_initialise() {
    let tracker = NoteTracker::new(4, 4);
    assert_eq!(tracker.get_playing_notes().len(), 0);
    assert_eq!(tracker.get_extra_notes().len(), 0);
}

#[test]
fn test_11_fifo() {
    let mut tracker = NoteTracker::new(1, 1);

    tracker.note_on(60);
    assert_eq!(tracker.get_playing_notes(), [60]);
    assert_eq!(tracker.get_extra_notes(), []);

    tracker.note_on(67);
    assert_eq!(tracker.get_playing_notes(), [67]);
    assert_eq!(tracker.get_extra_notes(), [60]);

    tracker.note_on(72);
    assert_eq!(tracker.get_playing_notes(), [67]);
    assert_eq!(tracker.get_extra_notes(), [60]);

    tracker.note_off(72);
    assert_eq!(tracker.get_playing_notes(), [67]);
    assert_eq!(tracker.get_extra_notes(), [60]);

    tracker.note_off(67);
    assert_eq!(tracker.get_playing_notes(), [60]);
    assert_eq!(tracker.get_extra_notes(), []);

    tracker.note_off(60);
    assert_eq!(tracker.get_playing_notes(), []);
    assert_eq!(tracker.get_extra_notes(), []);
}

#[test]
fn test_11_lifo() {
    let mut tracker = NoteTracker::new(1, 1);

    tracker.note_on(60);
    assert_eq!(tracker.get_playing_notes(), [60]);
    assert_eq!(tracker.get_extra_notes(), []);

    tracker.note_on(67);
    assert_eq!(tracker.get_playing_notes(), [67]);
    assert_eq!(tracker.get_extra_notes(), [60]);

    tracker.note_on(72);
    assert_eq!(tracker.get_playing_notes(), [67]);
    assert_eq!(tracker.get_extra_notes(), [60]);

    tracker.note_off(60);
    assert_eq!(tracker.get_playing_notes(), [67]);
    assert_eq!(tracker.get_extra_notes(), []);

    tracker.note_off(67);
    assert_eq!(tracker.get_playing_notes(), []);
    assert_eq!(tracker.get_extra_notes(), []);

    tracker.note_off(72);
    assert_eq!(tracker.get_playing_notes(), []);
    assert_eq!(tracker.get_extra_notes(), []);
}

#[test]
fn deep_overflow_restores_in_reverse_order() {
    let mut tracker = NoteTracker::new(1, 3);

    tracker.note_on(60);
    tracker.note_on(62);
    tracker.note_on(64);
    tracker.note_on(65);
    assert_eq!(tracker.get_playing_notes(), [65]);
    assert_eq!(tracker.get_extra_notes(), [60, 62, 64]);

    tracker.note_off(65);
    assert_eq!(tracker.get_playing_notes(), [64]);
    assert_eq!(tracker.get_extra_notes(), [60, 62]);

    tracker.note_off(64);
    assert_eq!(tracker.get_playing_notes(), [62]);
    assert_eq!(tracker.get_extra_notes(), [60]);
}

#[test]
fn zero_polyphony_tracks_nothing() {
    let mut tracker = NoteTracker::new(0, 2);

    tracker.note_on(60);
    assert_eq!(tracker.get_playing_notes(), []);
    assert_eq!(tracker.get_extra_notes(), []);

    tracker.note_off(60);
    assert_eq!(tracker.get_playing_notes(), []);
    assert_eq!(tracker.get_extra_notes(), []);
}

#[test]
fn note_off_removes_every_occurrence() {
    let mut tracker = NoteTracker::new(3, 0);

    tracker.note_on(60);
    tracker.note_on(60);
    tracker.note_on(64);
    assert_eq!(tracker.get_playing_notes(), [60, 60, 64]);

    tracker.note_off(60);
    assert_eq!(tracker.get_playing_notes(), [64]);
    assert_eq!(tracker.get_extra_notes(), []);
}

#[test]
fn polyphonic_overflow_displaces_oldest() {
    let mut tracker = NoteTracker::new(2, 2);

    tracker.note_on(60);
    tracker.note_on(64);
    tracker.note_on(67);
    assert_eq!(tracker.get_playing_notes(), [64, 67]);
    assert_eq!(tracker.get_extra_notes(), [60]);

    tracker.note_off(64);
    assert_eq!(tracker.get_playing_notes(), [60, 67]);
    assert_eq!(tracker.get_extra_notes(), []);
}
