//! The quiz server's shared state: every player's points, in the order in
//! which players first scored, and the connected clients by user name.
//! A client is whatever handle the server sends messages through; this
//! module only keeps it.

use vstd::prelude::*;

use crate::text::str_eq;

verus! {

/// A player's name and points.
pub type UserPoints = (String, u16);

/// Whether no two entries carry the same name.
pub open spec fn names_distinct<V>(entries: Seq<(Seq<char>, V)>) -> bool {
    forall|i: int, j: int|
        0 <= i < entries.len() && 0 <= j < entries.len() && i != j ==> #[trigger] entries[i].0
            != #[trigger] entries[j].0
}

/// Whether some entry carries the name.
pub open spec fn has_name<V>(entries: Seq<(Seq<char>, V)>, name: Seq<char>) -> bool {
    exists|i: int| 0 <= i < entries.len() && #[trigger] entries[i].0 == name
}

/// The position of the entry that carries the name (meaningful when
/// `has_name` holds).
pub open spec fn index_of_name<V>(entries: Seq<(Seq<char>, V)>, name: Seq<char>) -> int {
    choose|i: int| 0 <= i < entries.len() && #[trigger] entries[i].0 == name
}

/// The value kept under a name, if any.
pub open spec fn lookup<V>(entries: Seq<(Seq<char>, V)>, name: Seq<char>) -> Option<V> {
    if has_name(entries, name) {
        Some(entries[index_of_name(entries, name)].1)
    } else {
        None
    }
}

/// `u16::saturating_add`.
pub open spec fn saturating_add_u16(a: u16, b: u16) -> u16 {
    if a + b > u16::MAX {
        u16::MAX
    } else {
        (a + b) as u16
    }
}

/// The points table after crediting `add` points to `name`: an existing
/// entry grows (saturating at `u16::MAX`) in place, a new name is appended.
pub open spec fn with_points_added(entries: Seq<(Seq<char>, u16)>, name: Seq<char>, add: u16) -> Seq<
    (Seq<char>, u16),
> {
    if has_name(entries, name) {
        let i = index_of_name(entries, name);
        entries.update(i, (name, saturating_add_u16(entries[i].1, add)))
    } else {
        entries.push((name, add))
    }
}

/// The entries after putting `value` under `name`: it replaces the value of
/// an existing entry in place, or is appended under a new name.
pub open spec fn with_entry<V>(entries: Seq<(Seq<char>, V)>, name: Seq<char>, value: V) -> Seq<
    (Seq<char>, V),
> {
    if has_name(entries, name) {
        entries.update(index_of_name(entries, name), (name, value))
    } else {
        entries.push((name, value))
    }
}

/// The entries after dropping the one under `name`, if there is one.
pub open spec fn without_entry<V>(entries: Seq<(Seq<char>, V)>, name: Seq<char>) -> Seq<
    (Seq<char>, V),
> {
    if has_name(entries, name) {
        entries.remove(index_of_name(entries, name))
    } else {
        entries
    }
}

/// The abstract view of a list of points.
pub open spec fn points_seq(points: Seq<UserPoints>) -> Seq<(Seq<char>, u16)> {
    points.map_values(|e: UserPoints| (e.0@, e.1))
}

/// The names of a list of entries.
pub open spec fn names_of<V>(entries: Seq<(Seq<char>, V)>) -> Seq<Seq<char>> {
    entries.map_values(|e: (Seq<char>, V)| e.0)
}

/// With distinct names, the entry found at `i` is the one `index_of_name`
/// designates.
proof fn lemma_index_of_name<V>(entries: Seq<(Seq<char>, V)>, i: int)
    requires
        names_distinct(entries),
        0 <= i < entries.len(),
    ensures
        has_name(entries, entries[i].0),
        index_of_name(entries, entries[i].0) == i,
{
    let name = entries[i].0;
    assert(entries[i].0 == name);
    let j = index_of_name(entries, name);
    assert(entries[j].0 == name);
}

/// Replacing an entry by one under the same name keeps names distinct.
proof fn lemma_distinct_update<V>(entries: Seq<(Seq<char>, V)>, i: int, entry: (Seq<char>, V))
    requires
        names_distinct(entries),
        0 <= i < entries.len(),
        entry.0 == entries[i].0,
    ensures
        names_distinct(entries.update(i, entry)),
{
    let updated = entries.update(i, entry);
    assert forall|a: int, b: int|
        0 <= a < updated.len() && 0 <= b < updated.len() && a != b implies #[trigger] updated[a].0
        != #[trigger] updated[b].0 by {
        assert(updated[a].0 == entries[a].0);
        assert(updated[b].0 == entries[b].0);
    }
}

/// Dropping an entry keeps names distinct.
proof fn lemma_distinct_remove<V>(entries: Seq<(Seq<char>, V)>, i: int)
    requires
        names_distinct(entries),
        0 <= i < entries.len(),
    ensures
        names_distinct(entries.remove(i)),
{
    let removed = entries.remove(i);
    assert forall|a: int, b: int|
        0 <= a < removed.len() && 0 <= b < removed.len() && a != b implies #[trigger] removed[a].0
        != #[trigger] removed[b].0 by {
        let a0 = if a < i { a } else { a + 1 };
        let b0 = if b < i { b } else { b + 1 };
        assert(removed[a] == entries[a0]);
        assert(removed[b] == entries[b0]);
    }
}

/// Appending an entry under a new name keeps names distinct.
proof fn lemma_distinct_push<V>(entries: Seq<(Seq<char>, V)>, entry: (Seq<char>, V))
    requires
        names_distinct(entries),
        !has_name(entries, entry.0),
    ensures
        names_distinct(entries.push(entry)),
{
    let pushed = entries.push(entry);
    assert forall|a: int, b: int|
        0 <= a < pushed.len() && 0 <= b < pushed.len() && a != b implies #[trigger] pushed[a].0
        != #[trigger] pushed[b].0 by {
        if a < entries.len() && b < entries.len() {
            assert(pushed[a] == entries[a]);
            assert(pushed[b] == entries[b]);
        } else if a < entries.len() {
            assert(pushed[a] == entries[a]);
            assert(entries[a].0 != entry.0);
        } else {
            assert(pushed[b] == entries[b]);
            assert(entries[b].0 != entry.0);
        }
    }
}

/// After an entry is replaced in place by one under the same name, every
/// name is found as before except that one, which now has the new value.
proof fn lemma_lookup_update<V>(entries: Seq<(Seq<char>, V)>, i: int, value: V, other: Seq<char>)
    requires
        names_distinct(entries),
        0 <= i < entries.len(),
    ensures
        lookup(entries.update(i, (entries[i].0, value)), entries[i].0) == Some(value),
        other != entries[i].0 ==> lookup(entries.update(i, (entries[i].0, value)), other) == lookup(
            entries,
            other,
        ),
{
    let updated = entries.update(i, (entries[i].0, value));
    lemma_distinct_update(entries, i, (entries[i].0, value));
    lemma_index_of_name(updated, i);
    if other != entries[i].0 {
        if has_name(entries, other) {
            let k = index_of_name(entries, other);
            lemma_index_of_name(entries, k);
            assert(updated[k] == entries[k]);
            lemma_index_of_name(updated, k);
        }
        if has_name(updated, other) {
            let k = index_of_name(updated, other);
            assert(updated[k] == entries[k]);
        }
    }
}

/// After an entry is appended under a new name, that name has the new
/// value and every other name is found as before.
proof fn lemma_lookup_push<V>(entries: Seq<(Seq<char>, V)>, name: Seq<char>, value: V, other: Seq<char>)
    requires
        names_distinct(entries),
        !has_name(entries, name),
    ensures
        lookup(entries.push((name, value)), name) == Some(value),
        other != name ==> lookup(entries.push((name, value)), other) == lookup(entries, other),
{
    let pushed = entries.push((name, value));
    lemma_distinct_push(entries, (name, value));
    lemma_index_of_name(pushed, entries.len() as int);
    if other != name {
        if has_name(entries, other) {
            let k = index_of_name(entries, other);
            lemma_index_of_name(entries, k);
            assert(pushed[k] == entries[k]);
            lemma_index_of_name(pushed, k);
        }
        if has_name(pushed, other) {
            let k = index_of_name(pushed, other);
            assert(pushed[k] == entries[k]);
        }
    }
}

/// Law of the points table: crediting points to a player leaves the names
/// distinct, gives that player their previous points (0 if new) plus the
/// credit, saturating at `u16::MAX`, and changes nobody else's points.
pub proof fn lemma_points_credit(entries: Seq<(Seq<char>, u16)>, name: Seq<char>, add: u16, other: Seq<char>)
    requires
        names_distinct(entries),
    ensures
        names_distinct(with_points_added(entries, name, add)),
        lookup(with_points_added(entries, name, add), name) == Some(
            saturating_add_u16(
                match lookup(entries, name) {
                    Some(p) => p,
                    None => 0u16,
                },
                add,
            ),
        ),
        other != name ==> lookup(with_points_added(entries, name, add), other) == lookup(entries, other),
{
    if has_name(entries, name) {
        let i = index_of_name(entries, name);
        assert(entries[i].0 == name);
        lemma_distinct_update(entries, i, (name, saturating_add_u16(entries[i].1, add)));
        lemma_lookup_update(entries, i, saturating_add_u16(entries[i].1, add), other);
    } else {
        lemma_distinct_push(entries, (name, add));
        lemma_lookup_push(entries, name, add, other);
    }
}

/// Law of the points table: a player's points never go down when anyone
/// is credited.
pub proof fn lemma_points_never_decrease(entries: Seq<(Seq<char>, u16)>, name: Seq<char>, add: u16, other: Seq<char>)
    requires
        names_distinct(entries),
        lookup(entries, other) is Some,
    ensures
        lookup(with_points_added(entries, name, add), other) is Some,
        lookup(entries, other)->0 <= lookup(with_points_added(entries, name, add), other)->0,
{
    lemma_points_credit(entries, name, add, other);
}

/// Law of the clients table: registering a client under a name makes it
/// the one found under that name, leaves the names distinct, and changes
/// what is found under any other name not at all.
pub proof fn lemma_client_added<V>(entries: Seq<(Seq<char>, V)>, name: Seq<char>, value: V, other: Seq<char>)
    requires
        names_distinct(entries),
    ensures
        names_distinct(with_entry(entries, name, value)),
        lookup(with_entry(entries, name, value), name) == Some(value),
        other != name ==> lookup(with_entry(entries, name, value), other) == lookup(entries, other),
{
    if has_name(entries, name) {
        let i = index_of_name(entries, name);
        assert(entries[i].0 == name);
        lemma_distinct_update(entries, i, (name, value));
        lemma_lookup_update(entries, i, value, other);
    } else {
        lemma_distinct_push(entries, (name, value));
        lemma_lookup_push(entries, name, value, other);
    }
}

/// Law of the clients table: after a name is removed no client is found
/// under it, the names stay distinct, and every other name is found as
/// before.
pub proof fn lemma_client_removed<V>(entries: Seq<(Seq<char>, V)>, name: Seq<char>, other: Seq<char>)
    requires
        names_distinct(entries),
    ensures
        names_distinct(without_entry(entries, name)),
        lookup(without_entry(entries, name), name) is None,
        other != name ==> lookup(without_entry(entries, name), other) == lookup(entries, other),
{
    if has_name(entries, name) {
        let i = index_of_name(entries, name);
        assert(entries[i].0 == name);
        let removed = entries.remove(i);
        lemma_distinct_remove(entries, i);
        if has_name(removed, name) {
            let k = index_of_name(removed, name);
            let k0 = if k < i { k } else { k + 1 };
            assert(removed[k] == entries[k0]);
        }
        if other != name {
            if has_name(entries, other) {
                let k = index_of_name(entries, other);
                lemma_index_of_name(entries, k);
                let k1 = if k < i { k } else { k - 1 };
                assert(removed[k1] == entries[k]);
                lemma_index_of_name(removed, k1);
            }
            if has_name(removed, other) {
                let k = index_of_name(removed, other);
                let k0 = if k < i { k } else { k + 1 };
                assert(removed[k] == entries[k0]);
            }
        }
    }
}

/// A snapshot of the points table, sent to a player on connection.
pub struct PointsSnapshot {
    pub points: Vec<UserPoints>,
}

/// The quiz server's state.
pub struct AppState<S> {
    points: Vec<UserPoints>,
    clients: Vec<(String, S)>,
}

impl<S> AppState<S> {
    /// The points table, in the order in which players first scored.
    pub closed spec fn points_view(&self) -> Seq<(Seq<char>, u16)> {
        points_seq(self.points@)
    }

    /// The connected clients with their names.
    pub closed spec fn clients_view(&self) -> Seq<(Seq<char>, S)> {
        self.clients@.map_values(|e: (String, S)| (e.0@, e.1))
    }

    /// The state's invariant: no name occurs twice in either table.
    pub open spec fn wf(&self) -> bool {
        &&& names_distinct(self.points_view())
        &&& names_distinct(self.clients_view())
    }

    /// An empty state: no points, no clients.
    pub fn new() -> (state: Self)
        ensures
            state.wf(),
            state.points_view() == Seq::<(Seq<char>, u16)>::empty(),
            state.clients_view() == Seq::<(Seq<char>, S)>::empty(),
    {
        let state = AppState { points: Vec::new(), clients: Vec::new() };
        assert(state.points_view() =~= Seq::<(Seq<char>, u16)>::empty());
        assert(state.clients_view() =~= Seq::<(Seq<char>, S)>::empty());
        state
    }

    /// Credits `points` to `username`: an existing entry grows, saturating at
    /// `u16::MAX`; a new player is appended with `points`.
    pub fn add_or_update_points(&mut self, username: &str, points: u16)
        requires
            old(self).wf(),
        ensures
            final(self).wf(),
            final(self).points_view() == with_points_added(old(self).points_view(), username@, points),
            final(self).clients_view() == old(self).clients_view(),
    {
        let ghost before = self.points_view();
        let mut i: usize = 0;
        while i < self.points.len()
            invariant
                i <= self.points@.len(),
                before == self.points_view(),
                before == old(self).points_view(),
                self.clients@ == old(self).clients@,
                names_distinct(before),
                old(self).wf(),
                forall|k: int| 0 <= k < i ==> #[trigger] before[k].0 != username@,
            decreases self.points@.len() - i,
        {
            if str_eq(self.points[i].0.as_str(), username) {
                let current = self.points[i].1;
                let name = self.points[i].0.clone();
                let updated = current.saturating_add(points);
                self.points.set(i, (name, updated));
                proof {
                    lemma_index_of_name(before, i as int);
                    assert(self.points_view() =~= with_points_added(before, username@, points));
                    lemma_distinct_update(before, i as int, (username@, updated));
                }
                return;
            }
            i = i + 1;
        }
        self.points.push((username.to_owned(), points));
        proof {
            assert(!has_name(before, username@));
            assert(self.points_view() =~= with_points_added(before, username@, points));
            lemma_distinct_push(before, (username@, points));
        }
    }

    /// Registers a connected client under its user name, replacing the one
    /// already registered under that name.
    pub fn add_client(&mut self, username: String, socket: S)
        requires
            old(self).wf(),
        ensures
            final(self).wf(),
            final(self).clients_view() == with_entry(old(self).clients_view(), username@, socket),
            final(self).points_view() == old(self).points_view(),
    {
        let ghost before = self.clients_view();
        let mut i: usize = 0;
        while i < self.clients.len()
            invariant
                i <= self.clients@.len(),
                before == self.clients_view(),
                before == old(self).clients_view(),
                self.points@ == old(self).points@,
                names_distinct(before),
                old(self).wf(),
                forall|k: int| 0 <= k < i ==> #[trigger] before[k].0 != username@,
            decreases self.clients@.len() - i,
        {
            if str_eq(self.clients[i].0.as_str(), username.as_str()) {
                self.clients.set(i, (username, socket));
                proof {
                    lemma_index_of_name(before, i as int);
                    assert(self.clients_view() =~= with_entry(before, username@, socket));
                    lemma_distinct_update(before, i as int, (username@, socket));
                }
                return;
            }
            i = i + 1;
        }
        let ghost name = username@;
        self.clients.push((username, socket));
        proof {
            assert(!has_name(before, name));
            assert(self.clients_view() =~= with_entry(before, name, socket));
            lemma_distinct_push(before, (name, socket));
        }
    }

    /// Drops the client registered under a user name, if there is one.
    pub fn remove_client(&mut self, username: &str)
        requires
            old(self).wf(),
        ensures
            final(self).wf(),
            final(self).clients_view() == without_entry(old(self).clients_view(), username@),
            final(self).points_view() == old(self).points_view(),
    {
        let ghost before = self.clients_view();
        let mut i: usize = 0;
        while i < self.clients.len()
            invariant
                i <= self.clients@.len(),
                before == self.clients_view(),
                before == old(self).clients_view(),
                self.points@ == old(self).points@,
                names_distinct(before),
                old(self).wf(),
                forall|k: int| 0 <= k < i ==> #[trigger] before[k].0 != username@,
            decreases self.clients@.len() - i,
        {
            if str_eq(self.clients[i].0.as_str(), username) {
                let _ = self.clients.remove(i);
                proof {
                    lemma_index_of_name(before, i as int);
                    assert(self.clients_view() =~= without_entry(before, username@));
                    lemma_distinct_remove(before, i as int);
                }
                return;
            }
            i = i + 1;
        }
        proof {
            assert(!has_name(before, username@));
        }
    }

    /// The client registered under a user name, if any.
    pub fn client(&self, username: &str) -> (found: Option<&S>)
        requires
            self.wf(),
        ensures
            match found {
                Some(s) => lookup(self.clients_view(), username@) == Some(*s),
                None => lookup(self.clients_view(), username@) is None,
            },
    {
        let ghost entries = self.clients_view();
        let mut i: usize = 0;
        while i < self.clients.len()
            invariant
                i <= self.clients@.len(),
                entries == self.clients_view(),
                names_distinct(entries),
                forall|k: int| 0 <= k < i ==> #[trigger] entries[k].0 != username@,
            decreases self.clients@.len() - i,
        {
            if str_eq(self.clients[i].0.as_str(), username) {
                proof {
                    lemma_index_of_name(entries, i as int);
                }
                return Some(&self.clients[i].1);
            }
            i = i + 1;
        }
        proof {
            assert(!has_name(entries, username@));
        }
        None
    }

    /// Every connected client, in the order of the clients table.
    pub fn client_sockets(&self) -> (sockets: Vec<&S>)
        ensures
            sockets@.len() == self.clients_view().len(),
            forall|i: int| 0 <= i < sockets@.len() ==> *#[trigger] sockets@[i] == self.clients_view()[i].1,
    {
        let mut sockets: Vec<&S> = Vec::new();
        let mut i: usize = 0;
        while i < self.clients.len()
            invariant
                i <= self.clients@.len(),
                sockets@.len() == i,
                forall|k: int| 0 <= k < i ==> *#[trigger] sockets@[k] == self.clients_view()[k].1,
            decreases self.clients@.len() - i,
        {
            sockets.push(&self.clients[i].1);
            i = i + 1;
        }
        sockets
    }

    /// A copy of the points table.
    pub fn get_points_snapshot(&self) -> (snapshot: Vec<UserPoints>)
        ensures
            points_seq(snapshot@) == self.points_view(),
    {
        let mut snapshot: Vec<UserPoints> = Vec::new();
        let mut i: usize = 0;
        while i < self.points.len()
            invariant
                i <= self.points@.len(),
                points_seq(snapshot@) == self.points_view().take(i as int),
            decreases self.points@.len() - i,
        {
            let name = self.points[i].0.clone();
            let ghost prev = snapshot@;
            snapshot.push((name, self.points[i].1));
            assert(snapshot@ == prev.push((name, self.points@[i as int].1)));
            assert(points_seq(snapshot@) =~= points_seq(prev).push((name@, self.points@[i as int].1)));
            assert(self.points_view().take(i + 1) =~= self.points_view().take(i as int).push(self.points_view()[i as int]));
            i = i + 1;
            assert(points_seq(snapshot@) =~= self.points_view().take(i as int));
        }
        assert(self.points_view().take(i as int) =~= self.points_view());
        snapshot
    }

    /// The points of a player, 0 for one who has not scored.
    pub fn points_of(&self, username: &str) -> (points: u16)
        requires
            self.wf(),
        ensures
            points == match lookup(self.points_view(), username@) {
                Some(p) => p,
                None => 0u16,
            },
    {
        let ghost entries = self.points_view();
        let mut i: usize = 0;
        while i < self.points.len()
            invariant
                i <= self.points@.len(),
                entries == self.points_view(),
                names_distinct(entries),
                forall|k: int| 0 <= k < i ==> #[trigger] entries[k].0 != username@,
            decreases self.points@.len() - i,
        {
            if str_eq(self.points[i].0.as_str(), username) {
                proof {
                    lemma_index_of_name(entries, i as int);
                }
                return self.points[i].1;
            }
            i = i + 1;
        }
        proof {
            assert(!has_name(entries, username@));
        }
        0
    }

    /// The names of the connected clients.
    pub fn list_connected_users(&self) -> (names: Vec<String>)
        ensures
            names@.map_values(|n: String| n@) == names_of(self.clients_view()),
    {
        let mut names: Vec<String> = Vec::new();
        let mut i: usize = 0;
        while i < self.clients.len()
            invariant
                i <= self.clients@.len(),
                names@.map_values(|n: String| n@) == names_of(self.clients_view()).take(i as int),
            decreases self.clients@.len() - i,
        {
            let name = self.clients[i].0.clone();
            let ghost prev = names@;
            names.push(name);
            assert(names@ == prev.push(name));
            assert(names@.map_values(|n: String| n@) =~= prev.map_values(|n: String| n@).push(name@));
            assert(names_of(self.clients_view()).take(i + 1) =~= names_of(self.clients_view()).take(i as int).push(self.clients_view()[i as int].0));
            i = i + 1;
            assert(names@.map_values(|n: String| n@) =~= names_of(self.clients_view()).take(i as int));
        }
        assert(names_of(self.clients_view()).take(i as int) =~= names_of(self.clients_view()));
        names
    }

    /// The points table packed for sending.
    pub fn to_points_snapshot(&self) -> (snapshot: PointsSnapshot)
        ensures
            points_seq(snapshot.points@) == self.points_view(),
    {
        PointsSnapshot { points: self.get_points_snapshot() }
    }
}

} // verus!
