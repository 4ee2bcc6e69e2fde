//! The server's registry of live connections.
//!
//! The registry is the one authority on which connections exist. It names
//! each by a handle that it issues once and never again, keeps them in the
//! order in which they were accepted, and is changed by its owner alone.

use vstd::prelude::*;

verus! {

/// Handle of one accepted connection.
pub type ConnId = u64;

/// The connections of `live` that are not in `gone`, in their order.
pub open spec fn without(live: Seq<ConnId>, gone: Seq<ConnId>) -> Seq<ConnId> {
    live.filter(|conn: ConnId| !gone.contains(conn))
}

/// No connection is listed twice, and every listed handle was issued before.
pub open spec fn well_formed(live: Seq<ConnId>, issued: nat) -> bool {
    &&& live.no_duplicates()
    &&& forall|i: int| 0 <= i < live.len() ==> live[i] < issued
    &&& issued <= u64::MAX
}

/// Removing connections keeps the rest in order: nothing is added, nothing
/// else is lost, and a well-formed list stays well formed.
pub proof fn lemma_without(live: Seq<ConnId>, gone: Seq<ConnId>)
    ensures
        without(live, gone).len() <= live.len(),
        forall|conn: ConnId|
            without(live, gone).contains(conn) <==> live.contains(conn) && !gone.contains(conn),
        forall|issued: nat| well_formed(live, issued) ==> well_formed(without(live, gone), issued),
        forall|i: int, j: int|
            0 <= i < j < without(live, gone).len() && live.no_duplicates() ==> live.index_of(
                without(live, gone)[i],
            ) < live.index_of(without(live, gone)[j]),
    decreases live.len(),
{
    let keep = |conn: ConnId| !gone.contains(conn);
    let kept = without(live, gone);
    if live.len() == 0 {
        reveal(Seq::filter);
    } else {
        let front = live.drop_last();
        let last = live.last();
        lemma_without(front, gone);
        front.lemma_filter_push(last, keep);
        assert(front.push(last) =~= live);
        let kept_front = without(front, gone);
        assert(kept == if keep(last) {
            kept_front.push(last)
        } else {
            kept_front
        });
        assert forall|conn: ConnId|
            kept.contains(conn) <==> live.contains(conn) && !gone.contains(conn) by {
            if kept.contains(conn) {
                let i = choose|i: int| 0 <= i < kept.len() && kept[i] == conn;
                if i < kept_front.len() {
                    assert(kept_front.contains(conn));
                    let j = choose|j: int| 0 <= j < front.len() && front[j] == conn;
                    assert(live[j] == conn);
                } else {
                    assert(live[live.len() - 1] == conn);
                }
            }
            if live.contains(conn) && !gone.contains(conn) {
                let j = choose|j: int| 0 <= j < live.len() && live[j] == conn;
                if j < front.len() {
                    assert(front[j] == conn);
                    assert(kept_front.contains(conn));
                    let i = choose|i: int| 0 <= i < kept_front.len() && kept_front[i] == conn;
                    assert(kept[i] == conn);
                } else {
                    assert(kept[kept.len() - 1] == conn);
                }
            }
        }
        assert forall|issued: nat| well_formed(live, issued) implies well_formed(
            kept,
            issued,
        ) by {
            assert forall|i: int| 0 <= i < front.len() implies front[i] < issued by {
                assert(front[i] == live[i]);
            }
            assert(front.no_duplicates()) by {
                assert forall|i: int, j: int|
                    0 <= i < front.len() && 0 <= j < front.len() && i != j implies front[i]
                    != front[j] by {
                    assert(front[i] == live[i] && front[j] == live[j]);
                }
            }
            assert(well_formed(front, issued));
            if keep(last) {
                assert(!kept_front.contains(last)) by {
                    if kept_front.contains(last) {
                        let j = choose|j: int| 0 <= j < front.len() && front[j] == last;
                        assert(live[j] == live[live.len() - 1]);
                    }
                }
            }
        }
        assert forall|i: int, j: int|
            0 <= i < j < kept.len() && live.no_duplicates() implies live.index_of(kept[i])
            < live.index_of(kept[j]) by {
            assert(front.no_duplicates()) by {
                assert forall|a: int, b: int|
                    0 <= a < front.len() && 0 <= b < front.len() && a != b implies front[a]
                    != front[b] by {
                    assert(front[a] == live[a] && front[b] == live[b]);
                }
            }
            assert(kept.contains(kept[i]) && kept.contains(kept[j]));
            assert(live.contains(kept[i]) && live.contains(kept[j]));
            let a = live.index_of(kept[i]);
            let b = live.index_of(kept[j]);
            if j < kept_front.len() {
                assert(kept_front.contains(kept_front[i]) && kept_front.contains(kept_front[j]));
                assert(front.contains(kept_front[i]) && front.contains(kept_front[j]));
                let fa = front.index_of(kept_front[i]);
                let fb = front.index_of(kept_front[j]);
                assert(live[fa] == front[fa] && live[fb] == front[fb]);
                assert(fa == a && fb == b);
            } else {
                assert(kept[j] == last);
                assert(b == live.len() - 1);
                assert(kept_front.contains(kept_front[i]));
                assert(front.contains(kept_front[i]));
                let fa = front.index_of(kept_front[i]);
                assert(live[fa] == front[fa]);
                assert(fa == a);
            }
        }
    }
}

/// Whether `list` holds `conn`.
fn holds(list: &Vec<ConnId>, conn: ConnId) -> (found: bool)
    ensures
        found == list@.contains(conn),
{
    let mut i: usize = 0;
    while i < list.len()
        invariant
            i <= list@.len(),
            forall|j: int| 0 <= j < i ==> list@[j] != conn,
        decreases list@.len() - i,
    {
        if list[i] == conn {
            return true;
        }
        i += 1;
    }
    false
}

/// The elements of `live` that `gone` does not hold, in their order.
fn filtered(live: &Vec<ConnId>, gone: &Vec<ConnId>) -> (kept: Vec<ConnId>)
    ensures
        kept@ == without(live@, gone@),
{
    let ghost keep = |conn: ConnId| !gone@.contains(conn);
    let mut kept: Vec<ConnId> = Vec::new();
    let mut i: usize = 0;
    proof {
        reveal(Seq::filter);
        assert(live@.take(0) =~= Seq::<ConnId>::empty());
    }
    while i < live.len()
        invariant
            i <= live@.len(),
            keep == |conn: ConnId| !gone@.contains(conn),
            kept@ == live@.take(i as int).filter(keep),
        decreases live@.len() - i,
    {
        let conn = live[i];
        proof {
            live@.take(i as int).lemma_filter_push(conn, keep);
            assert(live@.take(i as int).push(conn) =~= live@.take(i + 1));
        }
        if !holds(gone, conn) {
            kept.push(conn);
        }
        i += 1;
    }
    assert(live@.take(i as int) =~= live@);
    kept
}

/// The authoritative, ordered list of live connections.
pub struct ConnectionRegistry {
    live: Vec<ConnId>,
    next: u64,
}

impl View for ConnectionRegistry {
    type V = Seq<ConnId>;

    /// The live connections, oldest first.
    closed spec fn view(&self) -> Seq<ConnId> {
        self.live@
    }
}

impl ConnectionRegistry {
    /// How many handles the registry has issued so far.
    pub closed spec fn issued(&self) -> nat {
        self.next as nat
    }

    /// The invariant of every registry: no connection is listed twice, and
    /// every listed handle was issued before.
    pub open spec fn wf(&self) -> bool {
        well_formed(self@, self.issued())
    }

    /// A registry without connections.
    pub fn new() -> (registry: ConnectionRegistry)
        ensures
            registry.wf(),
            registry@ == Seq::<ConnId>::empty(),
            registry.issued() == 0,
    {
        ConnectionRegistry { live: Vec::new(), next: 0 }
    }

    /// Registers a newly accepted connection under a handle never used
    /// before and returns the handle; `None`, with nothing changed, once
    /// every handle has been issued.
    pub fn register(&mut self) -> (conn: Option<ConnId>)
        requires
            old(self).wf(),
        ensures
            final(self).wf(),
            match conn {
                Some(id) => {
                    &&& id == old(self).issued()
                    &&& !old(self)@.contains(id)
                    &&& final(self)@ == old(self)@.push(id)
                    &&& final(self).issued() == old(self).issued() + 1
                },
                None => {
                    &&& old(self).issued() == u64::MAX
                    &&& final(self)@ == old(self)@
                    &&& final(self).issued() == old(self).issued()
                },
            },
    {
        if self.next == u64::MAX {
            return None;
        }
        let id = self.next;
        self.next = id + 1;
        self.live.push(id);
        Some(id)
    }

    /// Drops every connection listed in `gone`; the others stay, in order.
    pub fn remove_all(&mut self, gone: &Vec<ConnId>)
        requires
            old(self).wf(),
        ensures
            final(self).wf(),
            final(self)@ == without(old(self)@, gone@),
            final(self).issued() == old(self).issued(),
    {
        proof {
            lemma_without(self.live@, gone@);
        }
        self.live = filtered(&self.live, gone);
    }

    /// Drops `conn` and says whether it was registered.
    pub fn remove(&mut self, conn: ConnId) -> (was_live: bool)
        requires
            old(self).wf(),
        ensures
            final(self).wf(),
            was_live == old(self)@.contains(conn),
            final(self)@ == without(old(self)@, seq![conn]),
            final(self).issued() == old(self).issued(),
    {
        let was_live = holds(&self.live, conn);
        let mut gone: Vec<ConnId> = Vec::new();
        gone.push(conn);
        assert(gone@ =~= seq![conn]);
        self.remove_all(&gone);
        was_live
    }

    /// Whether `conn` is registered.
    pub fn contains(&self, conn: ConnId) -> (found: bool)
        ensures
            found == self@.contains(conn),
    {
        holds(&self.live, conn)
    }

    /// The number of live connections.
    pub fn len(&self) -> (count: usize)
        ensures
            count == self@.len(),
    {
        self.live.len()
    }

    /// Whether no connection is registered.
    pub fn is_empty(&self) -> (empty: bool)
        ensures
            empty == (self@.len() == 0),
    {
        self.live.len() == 0
    }

    /// The live connections, oldest first.
    pub fn connections(&self) -> (live: Vec<ConnId>)
        ensures
            live@ == self@,
    {
        let none: Vec<ConnId> = Vec::new();
        proof {
            lemma_without_strangers(self.live@, none@);
        }
        filtered(&self.live, &none)
    }

    /// The live connections but `conn`, oldest first.
    pub fn connections_except(&self, conn: ConnId) -> (others: Vec<ConnId>)
        ensures
            others@ == without(self@, seq![conn]),
    {
        let mut gone: Vec<ConnId> = Vec::new();
        gone.push(conn);
        assert(gone@ =~= seq![conn]);
        filtered(&self.live, &gone)
    }
}

/// Removing connections that are not listed changes nothing.
pub proof fn lemma_without_strangers(live: Seq<ConnId>, gone: Seq<ConnId>)
    requires
        forall|i: int| 0 <= i < live.len() ==> !gone.contains(live[i]),
    ensures
        without(live, gone) == live,
    decreases live.len(),
{
    let keep = |conn: ConnId| !gone.contains(conn);
    if live.len() == 0 {
        reveal(Seq::filter);
    } else {
        let front = live.drop_last();
        assert forall|i: int| 0 <= i < front.len() implies !gone.contains(front[i]) by {
            assert(front[i] == live[i]);
        }
        lemma_without_strangers(front, gone);
        front.lemma_filter_push(live.last(), keep);
        assert(front.push(live.last()) =~= live);
    }
}

/// Removing one listed connection from a list without duplicates shortens
/// the list by one.
pub proof fn lemma_without_one(live: Seq<ConnId>, conn: ConnId)
    requires
        live.no_duplicates(),
        live.contains(conn),
    ensures
        without(live, seq![conn]).len() == live.len() - 1,
    decreases live.len(),
{
    let gone = seq![conn];
    let keep = |other: ConnId| !gone.contains(other);
    let front = live.drop_last();
    let last = live.last();
    front.lemma_filter_push(last, keep);
    assert(front.push(last) =~= live);
    assert(gone[0] == conn);
    assert forall|i: int, j: int|
        0 <= i < front.len() && 0 <= j < front.len() && i != j implies front[i] != front[j] by {
        assert(front[i] == live[i] && front[j] == live[j]);
    }
    if last == conn {
        assert forall|i: int| 0 <= i < front.len() implies !gone.contains(front[i]) by {
            assert(front[i] == live[i]);
        }
        lemma_without_strangers(front, gone);
    } else {
        let k = choose|k: int| 0 <= k < live.len() && live[k] == conn;
        assert(front[k] == conn);
        lemma_without_one(front, conn);
    }
}

} // verus!
