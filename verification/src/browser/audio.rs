//! The session's sound on its way into the page's player.
//!
//! Appending to a media source is asynchronous and fails if it is tried again
//! before it finishes, so chunks queue here and drain one at a time.

use std::collections::VecDeque;
use vstd::prelude::*;

verus! {

/// What the server sends, and the only thing this asks the browser to play.
pub const MIME: &'static str = "audio/webm; codecs=opus";

/// Chunks that arrived while the source buffer was busy with the last one.
pub struct Player {
    pending: VecDeque<Vec<u8>>,
}

impl View for Player {
    type V = Seq<Seq<u8>>;

    closed spec fn view(&self) -> Seq<Seq<u8>> {
        self.pending@.map_values(|chunk: Vec<u8>| chunk@)
    }
}

impl Player {
    /// Nothing arrived yet.
    pub fn new() -> (player: Self)
        ensures
            player@ == Seq::<Seq<u8>>::empty(),
    {
        let player = Player { pending: VecDeque::new() };
        assert(player@ =~= Seq::<Seq<u8>>::empty());
        player
    }

    /// Take one chunk of the stream.
    pub fn push(&mut self, chunk: Vec<u8>)
        ensures
            final(self)@ == old(self)@.push(chunk@),
    {
        self.pending.push_back(chunk);
        assert(self@ =~= old(self)@.push(chunk@));
    }

    /// The next chunk to append, if the source buffer is open and is not busy.
    pub fn append_next(&mut self, open: bool, updating: bool) -> (chunk: Option<Vec<u8>>)
        ensures
            match chunk {
                Some(next) => open && !updating && old(self)@.len() > 0 && next@ == old(self)@[0]
                    && final(self)@ == old(self)@.drop_first(),
                None => (!open || updating || old(self)@.len() == 0) && final(self)@
                    == old(self)@,
            },
            (chunk.deep_view(), final(self)@) == appended(old(self)@, open, updating),
    {
        if !open || updating {
            return None;
        }
        let chunk = self.pending.pop_front();
        match chunk {
            Some(next) => {
                assert(self@ =~= old(self)@.drop_first());
                assert(next.deep_view() =~= next@);
                Some(next)
            },
            None => None,
        }
    }
}

/// Something that happens to a player.
pub enum PlayerEvent {
    /// A chunk arrives.
    Push(Seq<u8>),
    /// The source buffer may take one.
    Ready(bool, bool),
}

/// What goes to the source buffer next, and what is left to wait.
pub open spec fn appended(waiting: Seq<Seq<u8>>, open: bool, updating: bool) -> (
    Option<Seq<u8>>,
    Seq<Seq<u8>>,
) {
    if open && !updating && waiting.len() > 0 {
        (Some(waiting[0]), waiting.drop_first())
    } else {
        (None, waiting)
    }
}

/// What is appended to the source buffer, and what still waits, after these
/// events.
pub open spec fn played(events: Seq<PlayerEvent>) -> (Seq<Seq<u8>>, Seq<Seq<u8>>)
    decreases events.len(),
{
    if events.len() == 0 {
        (Seq::empty(), Seq::empty())
    } else {
        let (done, waiting) = played(events.drop_last());
        match events.last() {
            PlayerEvent::Push(chunk) => (done, waiting.push(chunk)),
            PlayerEvent::Ready(open, updating) => match appended(waiting, open, updating) {
                (Some(chunk), left) => (done.push(chunk), left),
                (None, left) => (done, left),
            },
        }
    }
}

/// The chunks that arrived, in order.
pub open spec fn arrived(events: Seq<PlayerEvent>) -> Seq<Seq<u8>>
    decreases events.len(),
{
    if events.len() == 0 {
        Seq::empty()
    } else {
        match events.last() {
            PlayerEvent::Push(chunk) => arrived(events.drop_last()).push(chunk),
            PlayerEvent::Ready(_, _) => arrived(events.drop_last()),
        }
    }
}

/// The stream reaches the player whole and in order: what was appended, followed
/// by what still waits, is what arrived.
pub proof fn no_chunk_is_lost(events: Seq<PlayerEvent>)
    ensures
        played(events).0 + played(events).1 == arrived(events),
    decreases events.len(),
{
    if events.len() > 0 {
        no_chunk_is_lost(events.drop_last());
        let (done, waiting) = played(events.drop_last());
        match events.last() {
            PlayerEvent::Push(chunk) => {
                assert(done + waiting.push(chunk) =~= (done + waiting).push(chunk));
            },
            PlayerEvent::Ready(open, updating) => {
                if waiting.len() > 0 {
                    assert(done.push(waiting[0]) + waiting.drop_first() =~= done + waiting);
                }
            },
        }
    }
}

/// A chunk is appended exactly where the source buffer is open, idle and there is
/// one, and it is the one that waited longest.
pub proof fn the_oldest_chunk_is_appended(
    waiting: Seq<Seq<u8>>,
    open: bool,
    updating: bool,
)
    ensures
        ({
            let (chunk, left) = appended(waiting, open, updating);
            &&& chunk is Some <==> open && !updating && waiting.len() > 0
            &&& chunk is Some ==> seq![chunk->0] + left == waiting
            &&& chunk is None ==> left == waiting
        }),
{
    if waiting.len() > 0 {
        assert(seq![waiting[0]] + waiting.drop_first() =~= waiting);
    }
}

} // verus!
