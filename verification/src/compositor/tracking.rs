//! What the browser has been told about each surface.

use crate::compositor::clock::{ClockView, FrameClock};
use crate::geometry::{Size, SurfaceId};
use crate::protocol::messages::Anchor;
use vstd::prelude::*;

verus! {

/// Where the encoder takes its frames from.
#[derive(Debug, Clone, Copy, PartialEq, Eq, Structural)]
pub enum Input {
    /// The client's own GPU buffer, imported rather than copied.
    Dmabuf,
    /// Pixels in memory, uploaded.
    Cpu,
}

/// What the browser has been told about one surface.
pub struct Streamed {
    /// The Wayland object behind the surface.
    pub object: u32,
    pub id: SurfaceId,
    pub size: Option<Size>,
    /// The commits the browser's pixels came from, one per surface in the tree,
    /// so an untouched window costs nothing to skip.
    pub commits: Vec<u64>,
    /// The pixels the browser is holding, to diff the next capture against.
    /// Only the deflate path needs these; H.264 keeps its own reference frames.
    pub pixels: Vec<u8>,
    /// The kind of encoder there is. Built on first use and thrown away on
    /// resize, since the encoder bakes the dimensions in.
    pub encoder: Option<Input>,
    /// This surface's own pacing. One clock for the whole desktop would let a
    /// busy window spend the frame callbacks owed to the quiet ones.
    pub clock: FrameClock,
    /// The title the browser has been told, so an unchanged one costs nothing.
    pub title: Option<String>,
    /// The application id the browser has been told, likewise.
    pub app_id: Option<String>,
    /// Where a popup was last said to hang. A menu the client repositions keeps
    /// its size, so a size change alone would not notice one moving.
    pub anchor: Option<Anchor>,
    /// Whether the surface has an active pointer lock constraint.
    pub locked: bool,
}

/// What a [`Streamed`] holds.
#[verifier::ext_equal]
pub struct StreamedView {
    pub object: u32,
    pub id: SurfaceId,
    pub size: Option<Size>,
    pub commits: Seq<u64>,
    pub pixels: Seq<u8>,
    pub encoder: Option<Input>,
    pub clock: ClockView,
    pub title: Option<Seq<char>>,
    pub app_id: Option<Seq<char>>,
    pub anchor: Option<Anchor>,
    pub locked: bool,
}

impl DeepView for Streamed {
    type V = StreamedView;

    open spec fn deep_view(&self) -> StreamedView {
        StreamedView {
            object: self.object,
            id: self.id,
            size: self.size,
            commits: self.commits@,
            pixels: self.pixels@,
            encoder: self.encoder,
            clock: self.clock@,
            title: self.title.deep_view(),
            app_id: self.app_id.deep_view(),
            anchor: self.anchor,
            locked: self.locked,
        }
    }
}

impl StreamedView {
    /// A surface nobody has been told anything about yet.
    pub open spec fn fresh(object: u32, id: SurfaceId, now: u64) -> StreamedView {
        StreamedView {
            object,
            id,
            size: None,
            commits: Seq::empty(),
            pixels: Seq::empty(),
            encoder: None,
            clock: ClockView::started(now),
            title: None,
            app_id: None,
            anchor: None,
            locked: false,
        }
    }
}

impl Streamed {
    /// A surface nobody has been told anything about yet.
    pub fn new(object: u32, id: SurfaceId, now: u64) -> (entry: Self)
        ensures
            entry.deep_view() == StreamedView::fresh(object, id, now),
    {
        let entry = Streamed {
            object,
            id,
            size: None,
            commits: Vec::new(),
            pixels: Vec::new(),
            encoder: None,
            clock: FrameClock::new(now),
            title: None,
            app_id: None,
            anchor: None,
            locked: false,
        };
        assert(entry.deep_view() =~= StreamedView::fresh(object, id, now));
        entry
    }
}

/// Every surface the browser has been told about.
///
/// Objects are distinct, ids are distinct, and an id is given out once: the
/// next one is beyond all of them.
pub struct Known {
    pub entries: Vec<Streamed>,
    pub next: u64,
}

/// The entry of an object, where there is one.
pub open spec fn holds_object(entries: Seq<StreamedView>, object: u32, i: int) -> bool {
    0 <= i < entries.len() && entries[i].object == object
}

/// The entry of an id, where there is one.
pub open spec fn holds_id(entries: Seq<StreamedView>, id: SurfaceId, i: int) -> bool {
    0 <= i < entries.len() && entries[i].id == id
}

/// No object and no id occurs twice, and every id was given out before `next`.
pub open spec fn distinct(entries: Seq<StreamedView>, next: u64) -> bool {
    &&& forall|i: int, j: int|
        0 <= i < j < entries.len() ==> (#[trigger] entries[i]).object != (
        #[trigger] entries[j]).object && entries[i].id != entries[j].id
    &&& forall|i: int| 0 <= i < entries.len() ==> (#[trigger] entries[i]).id.0 < next
}

/// The object that a surface id names among the entries.
pub open spec fn named_object(entries: Seq<StreamedView>, id: SurfaceId) -> Option<u32> {
    if exists|i: int| holds_id(entries, id, i) {
        Some(entries[choose|i: int| holds_id(entries, id, i)].object)
    } else {
        None
    }
}

/// The id that the browser knows an object by.
pub open spec fn known_id(entries: Seq<StreamedView>, object: u32) -> Option<SurfaceId> {
    if exists|i: int| holds_object(entries, object, i) {
        Some(entries[choose|i: int| holds_object(entries, object, i)].id)
    } else {
        None
    }
}

/// The entries whose objects are among the living, in the same order.
pub open spec fn living(entries: Seq<StreamedView>, live: Seq<u32>) -> Seq<StreamedView>
    decreases entries.len(),
{
    if entries.len() == 0 {
        seq![]
    } else {
        let rest = living(entries.drop_last(), live);
        if live.contains(entries.last().object) {
            rest.push(entries.last())
        } else {
            rest
        }
    }
}

/// The ids of the entries whose objects are gone, in the same order.
pub open spec fn departed(entries: Seq<StreamedView>, live: Seq<u32>) -> Seq<SurfaceId>
    decreases entries.len(),
{
    if entries.len() == 0 {
        seq![]
    } else {
        let rest = departed(entries.drop_last(), live);
        if live.contains(entries.last().object) {
            rest
        } else {
            rest.push(entries.last().id)
        }
    }
}

/// A list and whether it holds an object.
pub fn contains(list: &Vec<u32>, object: u32) -> (found: bool)
    ensures
        found == list@.contains(object),
{
    let mut i: usize = 0;
    while i < list.len()
        invariant
            i <= list@.len(),
            forall|j: int| 0 <= j < i ==> list@[j] != object,
        decreases list@.len() - i,
    {
        if list[i] == object {
            assert(list@[i as int] == object);
            return true;
        }
        i = i + 1;
    }
    false
}

proof fn living_is_distinct(entries: Seq<StreamedView>, live: Seq<u32>, next: u64)
    requires
        distinct(entries, next),
    ensures
        distinct(living(entries, live), next),
        forall|i: int|
            0 <= i < living(entries, live).len() ==> entries.contains(
                #[trigger] living(entries, live)[i],
            ) && live.contains(living(entries, live)[i].object),
    decreases entries.len(),
{
    if entries.len() > 0 {
        let front = entries.drop_last();
        assert(distinct(front, next)) by {
            assert forall|i: int, j: int| 0 <= i < j < front.len() implies (
            #[trigger] front[i]).object != (#[trigger] front[j]).object && front[i].id
                != front[j].id by {
                assert(entries[i].object != entries[j].object);
            }
            assert forall|i: int| 0 <= i < front.len() implies (#[trigger] front[i]).id.0
                < next by {
                assert(entries[i].id.0 < next);
            }
        }
        living_is_distinct(front, live, next);
        let rest = living(front, live);
        assert forall|i: int| 0 <= i < rest.len() implies entries.contains(#[trigger] rest[i])
            && rest[i].object != entries.last().object && rest[i].id != entries.last().id by {
            assert(front.contains(rest[i]));
            let j = choose|j: int| 0 <= j < front.len() && front[j] == rest[i];
            assert(entries[j] == rest[i]);
            assert(entries[j].object != entries[entries.len() - 1].object);
        }
        assert(entries.contains(entries.last()));
        let kept = living(entries, live);
        assert forall|i: int, j: int| 0 <= i < j < kept.len() implies (
        #[trigger] kept[i]).object != (#[trigger] kept[j]).object && kept[i].id != kept[j].id by {
            assert(kept[i] == rest[i]);
        }
    }
}

impl Known {
    pub open spec fn view(&self) -> Seq<StreamedView> {
        self.entries.deep_view()
    }

    pub open spec fn valid(&self) -> bool {
        distinct(self@, self.next)
    }

    /// Nobody has been told about anything; the first id is `first`.
    pub fn new(first: u64) -> (known: Self)
        ensures
            known.valid(),
            known@.len() == 0,
            known.next == first,
    {
        Known { entries: Vec::new(), next: first }
    }

    /// Where the entry of an object stands.
    pub fn position(&self, object: u32) -> (found: Option<usize>)
        ensures
            match found {
                Some(i) => holds_object(self@, object, i as int),
                None => forall|i: int| !holds_object(self@, object, i),
            },
    {
        let mut i: usize = 0;
        while i < self.entries.len()
            invariant
                i <= self.entries@.len(),
                forall|j: int| 0 <= j < i ==> self.entries@[j].object != object,
            decreases self.entries@.len() - i,
        {
            if self.entries[i].object == object {
                assert(self@[i as int].object == object);
                return Some(i);
            }
            i = i + 1;
        }
        assert forall|j: int| !holds_object(self@, object, j) by {
            if 0 <= j < self@.len() {
                assert(self@[j].object == self.entries@[j].object);
            }
        }
        None
    }

    /// Where the entry of an id stands.
    pub fn position_of(&self, id: SurfaceId) -> (found: Option<usize>)
        ensures
            match found {
                Some(i) => holds_id(self@, id, i as int),
                None => forall|i: int| !holds_id(self@, id, i),
            },
    {
        let mut i: usize = 0;
        while i < self.entries.len()
            invariant
                i <= self.entries@.len(),
                forall|j: int| 0 <= j < i ==> self.entries@[j].id != id,
            decreases self.entries@.len() - i,
        {
            if self.entries[i].id == id {
                assert(self@[i as int].id == id);
                return Some(i);
            }
            i = i + 1;
        }
        assert forall|j: int| !holds_id(self@, id, j) by {
            if 0 <= j < self@.len() {
                assert(self@[j].id == self.entries@[j].id);
            }
        }
        None
    }

    /// The Wayland object behind a surface id the browser named.
    ///
    /// The browser only ever knows surface ids, so every message naming a window
    /// arrives needing this translation.
    pub fn object_for(&self, id: SurfaceId) -> (object: Option<u32>)
        requires
            self.valid(),
        ensures
            object == named_object(self@, id),
    {
        match self.position_of(id) {
            Some(i) => {
                proof {
                    let j = choose|j: int| holds_id(self@, id, j);
                    assert(holds_id(self@, id, i as int));
                    assert(self@[j].id == self@[i as int].id);
                }
                Some(self.entries[i].object)
            },
            None => None,
        }
    }

    /// The id the browser knows an object by.
    pub fn id_of(&self, object: u32) -> (id: Option<SurfaceId>)
        requires
            self.valid(),
        ensures
            id == known_id(self@, object),
    {
        match self.position(object) {
            Some(i) => {
                proof {
                    let j = choose|j: int| holds_object(self@, object, j);
                    assert(holds_object(self@, object, i as int));
                    assert(self@[j].object == self@[i as int].object);
                }
                Some(self.entries[i].id)
            },
            None => None,
        }
    }

    /// The entry of an object, made on the spot with the next id where the
    /// object has none. Returns where it stands and whether it is new.
    pub fn track(&mut self, object: u32, now: u64) -> (entry: (usize, bool))
        requires
            old(self).valid(),
            old(self).next < u64::MAX,
        ensures
            final(self).valid(),
            holds_object(final(self)@, object, entry.0 as int),
            match known_id(old(self)@, object) {
                Some(_) => !entry.1 && final(self)@ == old(self)@ && final(self).next == old(
                    self,
                ).next,
                None => {
                    &&& entry.1
                    &&& entry.0 == old(self)@.len()
                    &&& final(self)@ == old(self)@.push(
                        StreamedView::fresh(object, SurfaceId(old(self).next), now),
                    )
                    &&& final(self).next == old(self).next + 1
                },
            },
    {
        if let Some(i) = self.position(object) {
            assert(holds_object(self@, object, i as int));
            return (i, false);
        }
        let at: usize = self.entries.len();
        let ghost before = self@;
        let entry = Streamed::new(object, SurfaceId(self.next), now);
        let ghost fresh = entry.deep_view();
        self.entries.push(entry);
        self.next = self.next + 1;
        proof {
            assert(self@ =~= before.push(fresh));
            assert forall|i: int, j: int| 0 <= i < j < self@.len() implies (
            #[trigger] self@[i]).object != (#[trigger] self@[j]).object && self@[i].id
                != self@[j].id by {
                assert(self@[i] == before[i]);
                assert(!holds_object(before, object, i));
            }
        }
        (at, true)
    }

    /// Forget every surface whose object is not among the living, and say which
    /// ids those were.
    pub fn retain_live(&mut self, live: &Vec<u32>) -> (gone: Vec<SurfaceId>)
        requires
            old(self).valid(),
        ensures
            final(self).valid(),
            final(self).next == old(self).next,
            final(self)@ == living(old(self)@, live@),
            gone@ == departed(old(self)@, live@),
    {
        let ghost all = self@;
        let ghost mut seen: int = 0;
        let mut gone: Vec<SurfaceId> = Vec::new();
        let mut i: usize = 0;
        proof {
            living_is_distinct(all, live@, self.next);
            assert(self@ =~= living(all.take(0), live@) + all.skip(0));
        }
        while i < self.entries.len()
            invariant
                distinct(living(all, live@), self.next),
                self.next == old(self).next,
                0 <= seen <= all.len(),
                self@ == living(all.take(seen), live@) + all.skip(seen),
                i == living(all.take(seen), live@).len(),
                gone@ == departed(all.take(seen), live@),
            decreases self.entries@.len() - i,
        {
            let ghost next = all.take(seen + 1);
            proof {
                assert(next.drop_last() =~= all.take(seen));
                assert(next.last() == all[seen]);
                assert(self@[i as int] == all.skip(seen)[0]);
                assert(self@[i as int].object == self.entries@[i as int].object);
            }
            if contains(live, self.entries[i].object) {
                proof {
                    assert(living(next, live@) + all.skip(seen + 1) =~= self@);
                }
                i = i + 1;
            } else {
                let ghost before = self@;
                let entry = self.entries.remove(i);
                gone.push(entry.id);
                proof {
                    assert(self@ =~= before.remove(i as int));
                    assert(self@ =~= living(next, live@) + all.skip(seen + 1));
                }
            }
            proof {
                seen = seen + 1;
            }
        }
        proof {
            assert(seen == all.len());
            assert(all.take(seen) =~= all);
            assert(self@ =~= living(all, live@));
        }
        gone
    }
}

/// Ids and objects name each other: an id leads to an object exactly where that
/// object leads back to the id.
pub proof fn ids_and_objects_name_each_other(
    entries: Seq<StreamedView>,
    next: u64,
    id: SurfaceId,
    object: u32,
)
    requires
        distinct(entries, next),
    ensures
        named_object(entries, id) == Some(object) <==> known_id(entries, object) == Some(id),
{
    if named_object(entries, id) == Some(object) {
        let i = choose|i: int| holds_id(entries, id, i);
        assert(holds_object(entries, object, i));
        let j = choose|j: int| holds_object(entries, object, j);
        assert(entries[i].object == entries[j].object);
    }
    if known_id(entries, object) == Some(id) {
        let j = choose|j: int| holds_object(entries, object, j);
        assert(holds_id(entries, id, j));
        let i = choose|i: int| holds_id(entries, id, i);
        assert(entries[i].id == entries[j].id);
    }
}

} // verus!
