use vstd::prelude::*;

use crate::connection::Connection;
use crate::math::Rectangle;

verus! {

/// A placed room: a fixed rectangle with a stable id (its position in the
/// dungeon's room list) and the ids of the connections it takes part in.
pub struct Room {
    pub id: usize,
    pub rect: Rectangle,
    pub connections: Vec<usize>,
}

/// Connection `c` has room `other` as one of its endpoints.
pub open spec fn edge_touches(c: Connection, other: usize) -> bool {
    c.from == other || c.to == other
}

/// Some connection recorded on `room` has `other` as an endpoint.
pub open spec fn room_connected_spec(room: Room, other: usize, conns: Seq<Connection>) -> bool {
    exists|k: int|
        0 <= k < room.connections@.len() && edge_touches(
            conns[room.connections@[k] as int],
            other,
        )
}

/// Every connection id recorded on any room points into the connection list.
pub open spec fn conn_ids_ok(rooms: Seq<Room>, n_conns: int) -> bool {
    forall|i: int, k: int|
        0 <= i < rooms.len() && 0 <= k < rooms[i].connections@.len()
            ==> #[trigger] rooms[i].connections@[k] < n_conns
}

impl Room {
    /// Linear scan of this room's connections for one whose other endpoint is
    /// `room`.
    pub fn is_connected_to(&self, room: usize, connections: &Vec<Connection>) -> (r: bool)
        requires
            forall|k: int|
                0 <= k < self.connections@.len() ==> #[trigger] self.connections@[k]
                    < connections@.len(),
        ensures
            r == room_connected_spec(*self, room, connections@),
    {
        let n = self.connections.len();
        let mut i: usize = 0;
        while i < n
            invariant
                n == self.connections@.len(),
                0 <= i <= n,
                forall|k: int|
                    0 <= k < n ==> #[trigger] self.connections@[k] < connections@.len(),
                forall|k: int|
                    0 <= k < i ==> !edge_touches(
                        connections@[#[trigger] self.connections@[k] as int],
                        room,
                    ),
            decreases n - i,
        {
            let cid = self.connections[i];
            let c = &connections[cid];
            if c.from == room || c.to == room {
                return true;
            }
            i += 1;
        }
        false
    }

    /// Records one shared edge between the distinct rooms `a` and `b`, unless
    /// either already reports a connection to the other, in which case
    /// nothing changes. After a successful call both rooms report the
    /// connection to each other, so a second call in either order is a no-op.
    pub fn connect(
        rooms: &mut Vec<Room>,
        connections: &mut Vec<Connection>,
        a: usize,
        b: usize,
    ) -> (r: bool)
        requires
            a < old(rooms)@.len(),
            b < old(rooms)@.len(),
            a != b,
            conn_ids_ok(old(rooms)@, old(connections)@.len() as int),
        ensures
            r == !(room_connected_spec(old(rooms)@[a as int], b, old(connections)@)
                || room_connected_spec(old(rooms)@[b as int], a, old(connections)@)),
            !r ==> final(rooms)@ == old(rooms)@ && final(connections)@ == old(connections)@,
            r ==> final(connections)@.len() == old(connections)@.len() + 1,
            r ==> final(connections)@.subrange(0, old(connections)@.len() as int)
                == old(connections)@,
            r ==> final(connections)@.last().from == a && final(connections)@.last().to == b
                && final(connections)@.last().path.waypoints@.len() == 0,
            final(rooms)@.len() == old(rooms)@.len(),
            forall|i: int|
                0 <= i < old(rooms)@.len() && i != a && i != b
                    ==> final(rooms)@[i] == old(rooms)@[i],
            r ==> final(rooms)@[a as int].id == old(rooms)@[a as int].id
                && final(rooms)@[a as int].rect == old(rooms)@[a as int].rect
                && final(rooms)@[a as int].connections@
                    == old(rooms)@[a as int].connections@.push(old(connections)@.len() as usize),
            r ==> final(rooms)@[b as int].id == old(rooms)@[b as int].id
                && final(rooms)@[b as int].rect == old(rooms)@[b as int].rect
                && final(rooms)@[b as int].connections@
                    == old(rooms)@[b as int].connections@.push(old(connections)@.len() as usize),
            r ==> room_connected_spec(final(rooms)@[a as int], b, final(connections)@),
            r ==> room_connected_spec(final(rooms)@[b as int], a, final(connections)@),
    {
        let already = rooms[a].is_connected_to(b, connections) || rooms[b].is_connected_to(
            a,
            connections,
        );
        if already {
            return false;
        }

        let cid = connections.len();
        connections.push(Connection::new(a, b));
        rooms[a].connections.push(cid);
        rooms[b].connections.push(cid);

        proof {
            assert(final(rooms)@[a as int].connections@.last() == cid);
            assert(edge_touches(final(connections)@[cid as int], b));
            assert(room_connected_spec(final(rooms)@[a as int], b, final(connections)@)) by {
                let k = final(rooms)@[a as int].connections@.len() - 1;
                assert(final(rooms)@[a as int].connections@[k] == cid);
            }
            assert(room_connected_spec(final(rooms)@[b as int], a, final(connections)@)) by {
                let k = final(rooms)@[b as int].connections@.len() - 1;
                assert(final(rooms)@[b as int].connections@[k] == cid);
            }
        }
        true
    }
}

} // verus!
