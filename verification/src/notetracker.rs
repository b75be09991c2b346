//! Bounded-polyphony note-on/note-off tracking with an overflow stack.
//!
//! Up to `polyphony` notes are "playing" at once, kept in first-in
//! first-out order. When a new note arrives while all playing slots
//! are taken, the oldest playing note is displaced onto an overflow
//! stack of capacity `extra_notes_count`; when a note is released, the
//! most recently displaced note (last-in first-out) is restored to the
//! oldest playing position. A note arriving while both collections are
//! full is dropped silently.

use vstd::prelude::*;

verus! {

use std::collections::VecDeque;

/// The sequence `notes` with every occurrence of `note` removed,
/// keeping the order of the remaining elements.
pub open spec fn remove_note(notes: Seq<u8>, note: u8) -> Seq<u8>
    decreases notes.len(),
{
    if notes.len() == 0 {
        Seq::empty()
    } else if notes[0] == note {
        remove_note(notes.drop_first(), note)
    } else {
        seq![notes[0]] + remove_note(notes.drop_first(), note)
    }
}

/// Removing a note never lengthens a sequence.
pub proof fn lemma_remove_note_len(notes: Seq<u8>, note: u8)
    ensures
        remove_note(notes, note).len() <= notes.len(),
    decreases notes.len(),
{
    if notes.len() > 0 {
        lemma_remove_note_len(notes.drop_first(), note);
    }
}

/// Removing a note removes it completely, and invents nothing: the
/// result never contains the removed note, and every note it does
/// contain was in the sequence before.
pub proof fn lemma_remove_note_keeps_others(notes: Seq<u8>, note: u8)
    ensures
        !remove_note(notes, note).contains(note),
        forall|v: u8| #[trigger] remove_note(notes, note).contains(v) ==> notes.contains(v),
    decreases notes.len(),
{
    let removed = remove_note(notes, note);
    if notes.len() == 0 {
    } else {
        let rest = notes.drop_first();
        lemma_remove_note_keeps_others(rest, note);
        assert forall|v: u8| rest.contains(v) implies notes.contains(v) by {
            let k = choose|k: int| 0 <= k < rest.len() && rest[k] == v;
            assert(notes[k + 1] == v);
        }
        if notes[0] == note {
            assert(removed == remove_note(rest, note));
        } else {
            assert(removed == seq![notes[0]] + remove_note(rest, note));
            if removed.contains(note) {
                let k = choose|k: int| 0 <= k < removed.len() && removed[k] == note;
                assert(k > 0 && remove_note(rest, note)[k - 1] == note);
                assert(remove_note(rest, note).contains(note));
            }
            assert forall|v: u8| removed.contains(v) implies notes.contains(v) by {
                let k = choose|k: int| 0 <= k < removed.len() && removed[k] == v;
                if k == 0 {
                    assert(notes[0] == v);
                } else {
                    assert(remove_note(rest, note)[k - 1] == v);
                    assert(remove_note(rest, note).contains(v));
                }
            }
        }
    }
}

/// Removing a note from a sequence of pairwise distinct notes leaves
/// them pairwise distinct.
pub proof fn lemma_remove_note_keeps_distinct(notes: Seq<u8>, note: u8)
    requires
        forall|i: int, j: int| 0 <= i < j < notes.len() ==> notes[i] != notes[j],
    ensures
        forall|i: int, j: int|
            0 <= i < j < remove_note(notes, note).len() ==> remove_note(notes, note)[i]
                != remove_note(notes, note)[j],
    decreases notes.len(),
{
    let removed = remove_note(notes, note);
    if notes.len() == 0 {
    } else {
        let rest = notes.drop_first();
        assert forall|i: int, j: int| 0 <= i < j < rest.len() implies rest[i] != rest[j] by {
            assert(notes[i + 1] != notes[j + 1]);
        }
        lemma_remove_note_keeps_distinct(rest, note);
        if notes[0] == note {
            let kept = remove_note(rest, note);
            assert forall|i: int, j: int| 0 <= i < j < removed.len() implies removed[i]
                != removed[j] by {
                assert(removed[i] == kept[i] && removed[j] == kept[j]);
            }
        }
        if notes[0] != note {
            lemma_remove_note_keeps_others(rest, note);
            let kept = remove_note(rest, note);
            assert(!rest.contains(notes[0])) by {
                if rest.contains(notes[0]) {
                    let k = choose|k: int| 0 <= k < rest.len() && rest[k] == notes[0];
                    assert(notes[k + 1] == notes[0]);
                }
            }
            assert forall|i: int, j: int| 0 <= i < j < removed.len() implies removed[i]
                != removed[j] by {
                if i == 0 {
                    assert(removed[j] == kept[j - 1]);
                    if kept[j - 1] == notes[0] {
                        assert(kept.contains(notes[0]));
                    }
                } else {
                    assert(removed[i] == kept[i - 1] && removed[j] == kept[j - 1]);
                }
            }
        }
    }
}

/// No note is tracked twice: the playing queue and the overflow
/// stack each hold pairwise distinct notes, and no note stands in
/// both at once.
pub open spec fn tracks_each_note_once(t: NoteTracker) -> bool {
    &&& forall|i: int, j: int| 0 <= i < j < t.playing().len() ==> t.playing()[i] != t.playing()[j]
    &&& forall|i: int, j: int| 0 <= i < j < t.extras().len() ==> t.extras()[i] != t.extras()[j]
    &&& forall|i: int, j: int|
        0 <= i < t.playing().len() && 0 <= j < t.extras().len() ==> t.playing()[i]
            != t.extras()[j]
}

/// Starting a note that is not yet tracked keeps every tracked note
/// unique. (Re-sending a note-on for a note that is already tracked
/// can duplicate it; callers avoid that by pairing note-ons with
/// note-offs, as MIDI sources do.)
pub proof fn lemma_note_on_keeps_notes_unique(pre: NoteTracker, post: NoteTracker, note: u8)
    requires
        note_on_spec(pre, post, note),
        tracks_each_note_once(pre),
        !pre.playing().contains(note),
        !pre.extras().contains(note),
    ensures
        tracks_each_note_once(post),
{
    let playing = pre.playing();
    let extras = pre.extras();
    assert forall|v: u8| playing.contains(v) || extras.contains(v) implies v != note by {}
    if playing.len() < pre.polyphony {
        assert forall|i: int, j: int| 0 <= i < j < post.playing().len() implies post.playing()[i]
            != post.playing()[j] by {
            if j == playing.len() {
                assert(post.playing()[i] == playing[i]);
                assert(playing.contains(playing[i]));
            }
        }
        assert forall|i: int, j: int|
            0 <= i < post.playing().len() && 0 <= j < post.extras().len() implies post.playing()[i]
            != post.extras()[j] by {
            if i == playing.len() {
                assert(extras.contains(extras[j]));
            } else {
                assert(post.playing()[i] == playing[i]);
            }
        }
    } else if extras.len() < pre.extra_notes_count && playing.len() > 0 {
        let shifted = playing.drop_first();
        assert forall|i: int, j: int| 0 <= i < j < post.playing().len() implies post.playing()[i]
            != post.playing()[j] by {
            if j < shifted.len() {
                assert(playing[i + 1] != playing[j + 1]);
            } else {
                assert(post.playing()[i] == playing[i + 1]);
                assert(playing.contains(playing[i + 1]));
            }
        }
        assert forall|i: int, j: int| 0 <= i < j < post.extras().len() implies post.extras()[i]
            != post.extras()[j] by {
            if j == extras.len() {
                assert(post.extras()[i] == extras[i] && post.extras()[j] == playing[0]);
            }
        }
        assert forall|i: int, j: int|
            0 <= i < post.playing().len() && 0 <= j < post.extras().len() implies post.playing()[i]
            != post.extras()[j] by {
            if i < shifted.len() {
                assert(post.playing()[i] == playing[i + 1]);
                if j < extras.len() {
                    assert(playing[i + 1] != extras[j]);
                } else {
                    assert(post.extras()[j] == playing[0]);
                    assert(playing[0] != playing[i + 1]);
                }
            } else {
                assert(post.playing()[i] == note);
                if j < extras.len() {
                    assert(extras.contains(extras[j]));
                } else {
                    assert(playing.contains(playing[0]));
                }
            }
        }
    }
}

/// Ending a note keeps every tracked note unique, and afterwards the
/// released note is tracked nowhere.
pub proof fn lemma_note_off_keeps_notes_unique(pre: NoteTracker, post: NoteTracker, note: u8)
    requires
        note_off_spec(pre, post, note),
        tracks_each_note_once(pre),
    ensures
        tracks_each_note_once(post),
        !post.playing().contains(note),
        !post.extras().contains(note),
{
    let playing_left = remove_note(pre.playing(), note);
    let extras_left = remove_note(pre.extras(), note);
    lemma_remove_note_keeps_others(pre.playing(), note);
    lemma_remove_note_keeps_others(pre.extras(), note);
    lemma_remove_note_keeps_distinct(pre.playing(), note);
    lemma_remove_note_keeps_distinct(pre.extras(), note);
    assert forall|v: u8| playing_left.contains(v) && extras_left.contains(v) implies false by {
        let i = choose|i: int| 0 <= i < pre.playing().len() && pre.playing()[i] == v;
        let j = choose|j: int| 0 <= j < pre.extras().len() && pre.extras()[j] == v;
        assert(pre.playing()[i] != pre.extras()[j]);
    }
    if playing_left.len() < pre.polyphony && extras_left.len() > 0 {
        let last = extras_left.last();
        assert(extras_left.contains(last));
        assert(!playing_left.contains(last));
        assert forall|i: int, j: int| 0 <= i < j < post.playing().len() implies post.playing()[i]
            != post.playing()[j] by {
            if i == 0 {
                if post.playing()[j] == last {
                    assert(playing_left.contains(playing_left[j - 1]));
                }
            } else {
                assert(post.playing()[i] == playing_left[i - 1]);
                assert(post.playing()[j] == playing_left[j - 1]);
            }
        }
        assert forall|i: int, j: int| 0 <= i < j < post.extras().len() implies post.extras()[i]
            != post.extras()[j] by {
            assert(extras_left[i] != extras_left[j]);
        }
        assert forall|i: int, j: int|
            0 <= i < post.playing().len() && 0 <= j < post.extras().len() implies post.playing()[i]
            != post.extras()[j] by {
            assert(post.extras()[j] == extras_left[j]);
            if i == 0 {
                assert(extras_left[j] != extras_left[extras_left.len() - 1]);
            } else {
                assert(post.playing()[i] == playing_left[i - 1]);
                if playing_left[i - 1] == extras_left[j] {
                    assert(playing_left.contains(playing_left[i - 1]));
                    assert(extras_left.contains(extras_left[j]));
                }
            }
        }
        assert(!post.playing().contains(note)) by {
            if post.playing().contains(note) {
                let k = choose|k: int| 0 <= k < post.playing().len() && post.playing()[k] == note;
                if k > 0 {
                    assert(playing_left.contains(playing_left[k - 1]));
                }
            }
        }
        assert(!post.extras().contains(note)) by {
            if post.extras().contains(note) {
                let k = choose|k: int| 0 <= k < post.extras().len() && post.extras()[k] == note;
                assert(extras_left.contains(extras_left[k]));
            }
        }
    } else {
        assert forall|i: int, j: int|
            0 <= i < post.playing().len() && 0 <= j < post.extras().len() implies post.playing()[i]
            != post.extras()[j] by {
            if playing_left[i] == extras_left[j] {
                assert(playing_left.contains(playing_left[i]));
                assert(extras_left.contains(extras_left[j]));
            }
        }
    }
}

/// How one `note_on` call changes a tracker: the new note is
/// appended if a playing slot is free; otherwise the oldest playing
/// note moves to the overflow stack if that has room; otherwise
/// nothing changes and the note is dropped.
pub open spec fn note_on_spec(pre: NoteTracker, post: NoteTracker, note: u8) -> bool {
    &&& post.polyphony == pre.polyphony
    &&& post.extra_notes_count == pre.extra_notes_count
    &&& if pre.playing().len() < pre.polyphony {
        post.playing() == pre.playing().push(note) && post.extras() == pre.extras()
    } else if pre.extras().len() < pre.extra_notes_count && pre.playing().len() > 0 {
        post.playing() == pre.playing().drop_first().push(note) && post.extras()
            == pre.extras().push(pre.playing()[0])
    } else {
        post.playing() == pre.playing() && post.extras() == pre.extras()
    }
}

/// How one `note_off` call changes a tracker: the note disappears
/// from both collections, and if a playing slot is then free the most
/// recently displaced note is restored at the front.
pub open spec fn note_off_spec(pre: NoteTracker, post: NoteTracker, note: u8) -> bool {
    let playing_left = remove_note(pre.playing(), note);
    let extras_left = remove_note(pre.extras(), note);
    &&& post.polyphony == pre.polyphony
    &&& post.extra_notes_count == pre.extra_notes_count
    &&& if playing_left.len() < pre.polyphony && extras_left.len() > 0 {
        post.playing() == seq![extras_left.last()] + playing_left && post.extras()
            == extras_left.drop_last()
    } else {
        post.playing() == playing_left && post.extras() == extras_left
    }
}

/// Tracks which notes are sounding, with bounded polyphony and a
/// bounded overflow stack for displaced notes.
pub struct NoteTracker {
    pub polyphony: usize,
    pub playing_notes: VecDeque<u8>,
    pub extra_notes_count: usize,
    pub extra_notes: Vec<u8>,
}

impl NoteTracker {
    /// The notes currently playing, oldest first.
    pub open spec fn playing(self) -> Seq<u8> {
        self.playing_notes@
    }

    /// The displaced notes, most recently displaced last.
    pub open spec fn extras(self) -> Seq<u8> {
        self.extra_notes@
    }

    pub open spec fn wf(self) -> bool {
        &&& self.playing().len() <= self.polyphony
        &&& self.extras().len() <= self.extra_notes_count
    }

    pub fn new(polyphony: usize, extra_notes_count: usize) -> (r: NoteTracker)
        ensures
            r.wf(),
            r.polyphony == polyphony,
            r.extra_notes_count == extra_notes_count,
            r.playing() == Seq::<u8>::empty(),
            r.extras() == Seq::<u8>::empty(),
    {
        NoteTracker {
            polyphony,
            playing_notes: VecDeque::with_capacity(polyphony),
            extra_notes_count,
            extra_notes: Vec::with_capacity(extra_notes_count),
        }
    }

    pub fn space_for_playing_note(&self) -> (r: bool)
        ensures
            r == (self.playing().len() < self.polyphony),
    {
        self.playing_notes.len() < self.polyphony
    }

    pub fn space_for_extra_note(&self) -> (r: bool)
        ensures
            r == (self.extras().len() < self.extra_notes_count),
    {
        self.extra_notes.len() < self.extra_notes_count
    }

    /// Starts a note: appends it to the playing queue if there is
    /// room; otherwise displaces the oldest playing note onto the
    /// overflow stack if that has room; otherwise drops the note.
    pub fn note_on(&mut self, note: u8)
        requires
            old(self).wf(),
        ensures
            final(self).wf(),
            note_on_spec(*old(self), *final(self), note),
    {
        if self.space_for_playing_note() {
            self.playing_notes.push_back(note);
        } else if self.space_for_extra_note() {
            match self.playing_notes.pop_front() {
                Some(popped_note) => {
                    self.extra_notes.push(popped_note);
                    self.playing_notes.push_back(note);
                },
                None => (),
            }
        }
    }

    /// Ends a note: removes every occurrence of it from both
    /// collections (a no-op for untracked notes), then restores the
    /// most recently displaced note, if any, to the oldest playing
    /// position when a playing slot is free.
    pub fn note_off(&mut self, note: u8)
        requires
            old(self).wf(),
        ensures
            final(self).wf(),
            note_off_spec(*old(self), *final(self), note),
    {
        proof {
            lemma_remove_note_len(self.playing(), note);
            lemma_remove_note_len(self.extras(), note);
        }
        self.remove_from_extras(note);
        self.remove_from_playing(note);

        if self.space_for_playing_note() {
            match self.extra_notes.pop() {
                Some(popped_note) => {
                    self.playing_notes.push_front(popped_note);
                },
                None => (),
            }
        }
    }

    /// The playing notes as a vector, oldest first.
    pub fn get_playing_notes(&self) -> (r: Vec<u8>)
        ensures
            r@ == self.playing(),
    {
        let mut notes: Vec<u8> = Vec::new();
        let mut i: usize = 0;
        while i < self.playing_notes.len()
            invariant
                0 <= i <= self.playing().len(),
                notes@ == self.playing().take(i as int),
            decreases self.playing().len() - i,
        {
            notes.push(self.playing_notes[i]);
            proof {
                assert(notes@ =~= self.playing().take(i as int + 1));
            }
            i = i + 1;
        }
        proof {
            assert(notes@ =~= self.playing());
        }
        notes
    }

    /// The displaced notes as a vector, most recently displaced last.
    pub fn get_extra_notes(&self) -> (r: Vec<u8>)
        ensures
            r@ == self.extras(),
    {
        let mut notes: Vec<u8> = Vec::new();
        let mut i: usize = 0;
        while i < self.extra_notes.len()
            invariant
                0 <= i <= self.extras().len(),
                notes@ == self.extras().take(i as int),
            decreases self.extras().len() - i,
        {
            notes.push(self.extra_notes[i]);
            proof {
                assert(notes@ =~= self.extras().take(i as int + 1));
            }
            i = i + 1;
        }
        proof {
            assert(notes@ =~= self.extras());
        }
        notes
    }

    fn remove_from_playing(&mut self, note: u8)
        ensures
            final(self).playing() == remove_note(old(self).playing(), note),
            final(self).extras() == old(self).extras(),
            final(self).polyphony == old(self).polyphony,
            final(self).extra_notes_count == old(self).extra_notes_count,
    {
        let original = Ghost(self.playing());
        let mut kept: VecDeque<u8> = VecDeque::new();
        proof {
            assert(kept@ + remove_note(original@, note) =~= remove_note(original@, note));
        }
        while self.playing_notes.len() > 0
            invariant
                kept@ + remove_note(self.playing(), note) == remove_note(original@, note),
                self.extras() == old(self).extras(),
                self.polyphony == old(self).polyphony,
                self.extra_notes_count == old(self).extra_notes_count,
            decreases self.playing().len(),
        {
            let previous = Ghost(self.playing());
            match self.playing_notes.pop_front() {
                Some(next) => {
                    proof {
                        assert(previous@.subrange(1, previous@.len() as int) =~= previous@
                            .drop_first());
                    }
                    if next != note {
                        kept.push_back(next);
                        proof {
                            assert(kept@ + remove_note(self.playing(), note) =~= remove_note(
                                original@,
                                note,
                            ));
                        }
                    }
                },
                None => (),
            }
        }
        proof {
            assert(remove_note(self.playing(), note) =~= Seq::<u8>::empty());
            assert(kept@ =~= kept@ + remove_note(self.playing(), note));
        }
        self.playing_notes = kept;
    }

    fn remove_from_extras(&mut self, note: u8)
        ensures
            final(self).extras() == remove_note(old(self).extras(), note),
            final(self).playing() == old(self).playing(),
            final(self).polyphony == old(self).polyphony,
            final(self).extra_notes_count == old(self).extra_notes_count,
    {
        let original = Ghost(self.extras());
        let mut kept: Vec<u8> = Vec::new();
        let mut i: usize = 0;
        proof {
            assert(original@.skip(0) =~= original@);
            assert(kept@ + remove_note(original@, note) =~= remove_note(original@, note));
        }
        while i < self.extra_notes.len()
            invariant
                0 <= i <= self.extras().len(),
                self.extras() == original@,
                kept@ + remove_note(original@.skip(i as int), note) == remove_note(
                    original@,
                    note,
                ),
                self.playing() == old(self).playing(),
                self.polyphony == old(self).polyphony,
                self.extra_notes_count == old(self).extra_notes_count,
            decreases self.extras().len() - i,
        {
            let next: u8 = self.extra_notes[i];
            proof {
                assert(original@.skip(i as int)[0] == next);
                assert(original@.skip(i as int).drop_first() =~= original@.skip(i as int + 1));
            }
            if next != note {
                kept.push(next);
                proof {
                    assert(kept@ + remove_note(original@.skip(i as int + 1), note) =~= remove_note(
                        original@,
                        note,
                    ));
                }
            }
            i = i + 1;
        }
        proof {
            assert(original@.skip(i as int) =~= Seq::<u8>::empty());
            assert(kept@ =~= remove_note(original@, note));
        }
        self.extra_notes = kept;
    }
}

} // verus!
