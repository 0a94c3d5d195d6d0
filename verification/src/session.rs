//! Notes shared across sessions: a bounded ring of the latest summaries, and
//! the rules that distill a message into a summary and a mood tag.
use vstd::prelude::*;
use crate::datetime::now_secs;
use crate::text::{push_char, push_range, spec_contains, str_contains, to_chars, from_chars};

verus! {

/// How many notes the ring keeps.
pub const RING_CAPACITY: usize = 20;

/// A note about another session.
#[derive(Debug, Clone)]
pub struct RingNote {
    pub source_session: String,
    pub summary: String,
    pub mood_tag: String,
    /// When the note was taken, in Unix seconds.
    pub timestamp: u64,
}

/// The latest notes about other sessions, oldest first, at most
/// [`RING_CAPACITY`] of them.
#[derive(Debug)]
pub struct CrossSessionRing {
    notes: Vec<RingNote>,
}

/// The last `k` elements of `s` (all of them when there are fewer).
pub open spec fn keep_last<A>(s: Seq<A>, k: nat) -> Seq<A> {
    if s.len() <= k {
        s
    } else {
        s.skip(s.len() - k)
    }
}

/// The ring after a note is added: the oldest note leaves when it is full.
pub open spec fn ring_push(notes: Seq<RingNote>, note: RingNote) -> Seq<RingNote> {
    if notes.len() >= RING_CAPACITY {
        notes.skip(1).push(note)
    } else {
        notes.push(note)
    }
}

/// The notes that `peek(n)` returns: the newest `min(n, len)`, newest first.
pub open spec fn newest_first(notes: Seq<RingNote>, n: nat) -> Seq<RingNote> {
    let k = if n < notes.len() {
        n
    } else {
        notes.len()
    };
    Seq::new(k, |i: int| notes[notes.len() - 1 - i])
}

impl View for CrossSessionRing {
    type V = Seq<RingNote>;

    closed spec fn view(&self) -> Seq<RingNote> {
        self.notes@
    }
}

impl CrossSessionRing {
    /// The ring's invariant: it holds at most [`RING_CAPACITY`] notes.
    pub open spec fn wf(&self) -> bool {
        self@.len() <= RING_CAPACITY
    }

    /// An empty ring.
    pub fn new() -> (r: Self)
        ensures
            r@ == Seq::<RingNote>::empty(),
            r.wf(),
    {
        CrossSessionRing { notes: Vec::new() }
    }

    /// Adds a note taken at `now`; when the ring is full the oldest note
    /// leaves.
    pub fn push_at(&mut self, source_session: String, summary: String, mood_tag: String, now: u64)
        requires
            old(self).wf(),
        ensures
            final(self)@ == ring_push(
                old(self)@,
                RingNote { source_session, summary, mood_tag, timestamp: now },
            ),
            final(self).wf(),
    {
        let note = RingNote { source_session, summary, mood_tag, timestamp: now };
        if self.notes.len() >= RING_CAPACITY {
            let ghost before = self.notes@;
            let _oldest = self.notes.remove(0);
            assert(self.notes@ =~= before.skip(1));
        }
        self.notes.push(note);
    }

    /// Adds a note taken now (see [`CrossSessionRing::push_at`]).
    pub fn push(&mut self, source_session: String, summary: String, mood_tag: String)
        requires
            old(self).wf(),
        ensures
            exists|now: u64|
                final(self)@ == ring_push(
                    old(self)@,
                    RingNote { source_session, summary, mood_tag, timestamp: now },
                ),
            final(self).wf(),
    {
        let now = now_secs();
        self.push_at(source_session, summary, mood_tag, now);
    }

    /// The newest `n` notes (all when there are fewer), newest first.
    pub fn peek(&self, n: usize) -> (r: Vec<&RingNote>)
        ensures
            r@.len() == newest_first(self@, n as nat).len(),
            forall|i: int| 0 <= i < r@.len() ==> *r@[i] == #[trigger] newest_first(self@, n as nat)[i],
    {
        let len = self.notes.len();
        let k = if n < len {
            n
        } else {
            len
        };
        let mut out: Vec<&RingNote> = Vec::new();
        let mut i: usize = 0;
        while i < k
            invariant
                i <= k,
                k <= len,
                len == self.notes@.len(),
                k == newest_first(self@, n as nat).len(),
                out@.len() == i,
                forall|j: int| 0 <= j < i ==> *out@[j] == #[trigger] self.notes@[len - 1 - j],
            decreases k - i,
        {
            out.push(&self.notes[len - 1 - i]);
            i += 1;
        }
        out
    }

    /// Removes every note.
    pub fn clear(&mut self)
        ensures
            final(self)@ == Seq::<RingNote>::empty(),
            final(self).wf(),
    {
        self.notes.clear();
    }

    /// The number of notes.
    pub fn len(&self) -> (r: usize)
        ensures
            r == self@.len(),
    {
        self.notes.len()
    }
}

/// The ring always holds the latest [`RING_CAPACITY`] notes of everything
/// pushed: pushing onto the latest notes of a history gives the latest notes
/// of the history with the new note.
pub proof fn law_ring_keeps_latest(history: Seq<RingNote>, note: RingNote)
    ensures
        ring_push(keep_last(history, RING_CAPACITY as nat), note) == keep_last(
            history.push(note),
            RING_CAPACITY as nat,
        ),
{
    let h = history.push(note);
    if history.len() < RING_CAPACITY {
    } else if history.len() == RING_CAPACITY {
        assert(history.skip(1).push(note) =~= h.skip(h.len() - RING_CAPACITY));
    } else {
        let kept = history.skip(history.len() - RING_CAPACITY);
        assert(kept.skip(1).push(note) =~= h.skip(h.len() - RING_CAPACITY));
    }
}

// ─── Note distilling ─────────────────────────────

/// Distills a message into a short summary and a mood tag, by fixed rules.
#[derive(Debug)]
pub struct NoteDistiller;

/// The summary of a message: its first 30 characters, with `…` when it is
/// longer.
pub open spec fn summary_of(text: Seq<char>) -> Seq<char> {
    if text.len() > 30 {
        text.take(30).push('…')
    } else {
        text
    }
}

/// The mood tag of a message, by its punctuation and words.
pub open spec fn mood_of(text: Seq<char>) -> Seq<char> {
    if spec_contains(text, "!"@) || spec_contains(text, "！"@) {
        "激动"@
    } else if spec_contains(text, "?"@) || spec_contains(text, "？"@) {
        "疑问"@
    } else if spec_contains(text, "哈哈"@) || spec_contains(text, "笑"@) {
        "开心"@
    } else if spec_contains(text, "烦"@) || spec_contains(text, "气"@) {
        "不满"@
    } else {
        "中性"@
    }
}

impl NoteDistiller {
    /// The summary and the mood tag of `text`.
    pub fn distill(text: &str) -> (r: (String, String))
        ensures
            r.0@ == summary_of(text@),
            r.1@ == mood_of(text@),
    {
        let c = to_chars(text);
        let summary = if c.len() > 30 {
            let mut head = Vec::new();
            push_range(&mut head, c.as_slice(), 0, 30);
            let mut s = from_chars(head.as_slice());
            push_char(&mut s, '…');
            assert(c@.subrange(0, 30) == c@.take(30));
            s
        } else {
            from_chars(c.as_slice())
        };
        let mood = if str_contains(text, "!") || str_contains(text, "！") {
            "激动"
        } else if str_contains(text, "?") || str_contains(text, "？") {
            "疑问"
        } else if str_contains(text, "哈哈") || str_contains(text, "笑") {
            "开心"
        } else if str_contains(text, "烦") || str_contains(text, "气") {
            "不满"
        } else {
            "中性"
        };
        (summary, mood.to_string())
    }
}

} // verus!
