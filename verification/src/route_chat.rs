//! The route chat: every note is filed under its location, and the answer
//! to a note is every note filed at that location so far, oldest first.

use std::collections::HashMap;
use vstd::prelude::*;
use crate::route_guide::{Point, RouteNote};

verus! {

broadcast use vstd::std_specs::hash::group_hash_axioms;

/// The key under which the notes at `p` are filed. Every `i64` is the key of
/// exactly one point.
pub open spec fn location_key(p: Point) -> int {
    p.latitude * 4294967296 + (p.longitude + 2147483648)
}

/// Distinct points are filed under distinct keys.
pub proof fn lemma_location_key_injective(p: Point, q: Point)
    ensures
        location_key(p) == location_key(q) <==> p == q,
{
}

/// The key of `p`, computed.
fn key_of(p: &Point) -> (key: i64)
    ensures
        key == location_key(*p),
{
    (p.latitude as i64) * 4294967296i64 + (p.longitude as i64 + 2147483648i64)
}

/// A copy of the notes, element by element.
fn copy_notes(notes: &Vec<RouteNote>) -> (copy: Vec<RouteNote>)
    ensures
        copy@ == notes@,
{
    let mut copy: Vec<RouteNote> = Vec::new();
    let n = notes.len();
    for i in 0..n
        invariant
            n == notes@.len(),
            copy@ == notes@.take(i as int),
    {
        copy.push(notes[i].clone());
        assert(notes@.take(i + 1) =~= notes@.take(i as int).push(notes@[i as int]));
    }
    assert(notes@.take(n as int) =~= notes@);
    copy
}

/// The notes received so far, filed by location.
pub struct RouteChat {
    notes: HashMap<i64, Vec<RouteNote>>,
}

impl View for RouteChat {
    /// For each location that has notes, those notes in the order received.
    type V = Map<Point, Seq<RouteNote>>;

    closed spec fn view(&self) -> Map<Point, Seq<RouteNote>> {
        Map::new(
            |p: Point| self.notes@.contains_key(location_key(p) as i64),
            |p: Point| self.notes@[location_key(p) as i64]@,
        )
    }
}

/// The notes filed at `p` in `chat`: none when nothing was said there.
pub open spec fn notes_at(chat: Map<Point, Seq<RouteNote>>, p: Point) -> Seq<RouteNote> {
    if chat.contains_key(p) { chat[p] } else { Seq::empty() }
}

/// Every note filed at a location was sent from that location.
pub open spec fn filed_where_sent(chat: Map<Point, Seq<RouteNote>>) -> bool {
    forall|p: Point, i: int|
        chat.contains_key(p) && 0 <= i < chat[p].len() ==> (#[trigger] chat[p][i]).location == Some(p)
}

impl RouteChat {
    /// A chat with no note yet.
    pub fn new() -> (chat: Self)
        ensures
            chat@ == Map::<Point, Seq<RouteNote>>::empty(),
    {
        let chat = RouteChat { notes: HashMap::new() };
        assert(chat@ =~= Map::<Point, Seq<RouteNote>>::empty());
        chat
    }

    /// Files `note` under its location and answers with every note filed
    /// there, the new one last. The note must carry a location.
    pub fn post(&mut self, note: RouteNote) -> (replies: Vec<RouteNote>)
        requires
            note.location is Some,
        ensures
            replies@ == notes_at(old(self)@, note.location.unwrap()).push(note),
            final(self)@ == old(self)@.insert(note.location.unwrap(), replies@),
    {
        let ghost before = self@;
        let location = match note.location {
            Some(l) => l,
            None => { return Vec::new(); },
        };
        let key = key_of(&location);
        proof {
            assert(vstd::std_specs::hash::obeys_key_model::<i64>());
            assert forall|q: Point| #[trigger] location_key(q) == location_key(location) implies q == location by {
                lemma_location_key_injective(q, location);
            }
        }
        let mut filed = match self.notes.remove(&key) {
            Some(v) => v,
            None => Vec::new(),
        };
        assert(filed@ == notes_at(before, location));
        filed.push(note);
        let replies = copy_notes(&filed);
        self.notes.insert(key, filed);
        proof {
            assert forall|q: Point| q != location implies location_key(q) as i64 != key by {
                lemma_location_key_injective(q, location);
            }
            assert(self@ =~= before.insert(location, replies@));
        }
        replies
    }
}

/// Posting a note keeps every note filed where it was sent.
pub proof fn law_post_files_where_sent(
    before: Map<Point, Seq<RouteNote>>,
    note: RouteNote,
    replies: Seq<RouteNote>,
    after: Map<Point, Seq<RouteNote>>,
)
    requires
        filed_where_sent(before),
        note.location is Some,
        replies == notes_at(before, note.location.unwrap()).push(note),
        after == before.insert(note.location.unwrap(), replies),
    ensures
        filed_where_sent(after),
        forall|i: int| 0 <= i < replies.len() ==> (#[trigger] replies[i]).location == note.location,
{
    let p = note.location.unwrap();
    assert forall|q: Point, i: int| after.contains_key(q) && 0 <= i < after[q].len() implies (
    #[trigger] after[q][i]).location == Some(q) by {
        if q == p {
            if i < replies.len() - 1 {
                assert(before.contains_key(p));
                assert(before[p][i] == replies[i]);
            }
        }
    }
    assert forall|i: int| 0 <= i < replies.len() implies (#[trigger] replies[i]).location == note.location by {
        if i < replies.len() - 1 {
            assert(before.contains_key(p));
            assert(before[p][i] == replies[i]);
        }
    }
}

} // verus!
