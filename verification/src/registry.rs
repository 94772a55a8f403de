//! The registry of the sessions that are open, one for each board.

use vstd::prelude::*;
use vstd::string::*;

verus! {

/// The open sessions by the id of their board. No board occurs twice.
pub struct ApiRegistry<T> {
    entries: Vec<(String, T)>,
}

/// The map that lists `entries`.
spec fn entries_map<T>(entries: Seq<(String, T)>) -> Map<Seq<char>, T>
    decreases entries.len(),
{
    if entries.len() == 0 {
        Map::empty()
    } else {
        entries_map(entries.drop_last()).insert(entries.last().0@, entries.last().1)
    }
}

/// Whether no key occurs twice in `entries`.
spec fn keys_differ<T>(entries: Seq<(String, T)>) -> bool {
    forall|i: int, j: int|
        0 <= i < j < entries.len() ==> (#[trigger] entries[i]).0@ != (#[trigger] entries[j]).0@
}

proof fn entries_map_lists<T>(entries: Seq<(String, T)>)
    requires
        keys_differ(entries),
    ensures
        forall|i: int|
            0 <= i < entries.len() ==> entries_map(entries).contains_key(
                (#[trigger] entries[i]).0@,
            ) && entries_map(entries)[entries[i].0@] == entries[i].1,
        forall|k: Seq<char>| #[trigger]
            entries_map(entries).contains_key(k) ==> exists|i: int|
                0 <= i < entries.len() && (#[trigger] entries[i]).0@ == k,
    decreases entries.len(),
{
    if entries.len() > 0 {
        let front = entries.drop_last();
        entries_map_lists(front);
        assert forall|i: int| 0 <= i < entries.len() implies entries_map(entries).contains_key(
            (#[trigger] entries[i]).0@,
        ) && entries_map(entries)[entries[i].0@] == entries[i].1 by {
            if i < front.len() {
                assert(front[i] == entries[i]);
                assert(entries[i].0@ != entries[entries.len() - 1].0@);
            }
        }
        assert forall|k: Seq<char>| #[trigger] entries_map(entries).contains_key(k) implies exists|
            i: int,
        | 0 <= i < entries.len() && (#[trigger] entries[i]).0@ == k by {
            if k == entries.last().0@ {
                assert(entries[entries.len() - 1].0@ == k);
            } else {
                assert(entries_map(front).contains_key(k));
                let i = choose|i: int| 0 <= i < front.len() && (#[trigger] front[i]).0@ == k;
                assert(entries[i].0@ == k);
            }
        }
    }
}

impl<T> View for ApiRegistry<T> {
    type V = Map<Seq<char>, T>;

    closed spec fn view(&self) -> Map<Seq<char>, T> {
        entries_map(self.entries@)
    }
}

impl<T> ApiRegistry<T> {
    #[verifier::type_invariant]
    spec fn well_formed(self) -> bool {
        keys_differ(self.entries@)
    }

    /// A registry without sessions.
    pub fn new() -> (r: ApiRegistry<T>)
        ensures
            r@ == Map::<Seq<char>, T>::empty(),
    {
        ApiRegistry { entries: Vec::new() }
    }

    /// Where `board_id` stands among the entries.
    fn position(&self, board_id: &str) -> (r: Option<usize>)
        ensures
            r matches Some(i) ==> i < self.entries@.len() && self.entries@[i as int].0@
                == board_id@,
            r is None ==> forall|i: int|
                0 <= i < self.entries@.len() ==> (#[trigger] self.entries@[i]).0@ != board_id@,
    {
        let wanted = board_id.to_owned();
        let mut i: usize = 0;
        while i < self.entries.len()
            invariant
                i <= self.entries@.len(),
                wanted@ == board_id@,
                forall|k: int|
                    0 <= k < i ==> (#[trigger] self.entries@[k]).0@ != board_id@,
            decreases self.entries@.len() - i,
        {
            if self.entries[i].0 == wanted {
                return Some(i);
            }
            i = i + 1;
        }
        None
    }

    /// The session of the board `board_id`.
    pub fn get(&self, board_id: &str) -> (r: Option<&T>)
        ensures
            match r {
                Some(session) => self@.contains_key(board_id@) && *session == self@[board_id@],
                None => !self@.contains_key(board_id@),
            },
    {
        proof {
            use_type_invariant(self);
            entries_map_lists(self.entries@);
        }
        match self.position(board_id) {
            Some(i) => Some(&self.entries[i].1),
            None => None,
        }
    }

    /// The session of the board `board_id`, which must be open.
    pub fn open_session(&self, board_id: &str) -> (r: Result<&T, String>)
        ensures
            match r {
                Ok(session) => self@.contains_key(board_id@) && *session == self@[board_id@],
                Err(e) => !self@.contains_key(board_id@) && e@ == "session not started"@,
            },
    {
        match self.get(board_id) {
            Some(session) => Ok(session),
            None => Err("session not started".to_owned()),
        }
    }

    /// Takes the session of the board `board_id` out of the registry.
    pub fn remove(&mut self, board_id: &str) -> (r: Option<T>)
        ensures
            final(self)@ == old(self)@.remove(board_id@),
            match r {
                Some(session) => old(self)@.contains_key(board_id@) && session
                    == old(self)@[board_id@],
                None => !old(self)@.contains_key(board_id@),
            },
    {
        proof {
            use_type_invariant(&*self);
            entries_map_lists(self.entries@);
        }
        match self.position(board_id) {
            None => {
                assert(self@.remove(board_id@) =~= self@);
                None
            },
            Some(i) => {
                let ghost before = self.entries@;
                let mut entries: Vec<(String, T)> = Vec::new();
                std::mem::swap(&mut entries, &mut self.entries);
                let (_key, session) = entries.remove(i);
                proof {
                    let after = before.remove(i as int);
                    assert forall|j: int, k: int| 0 <= j < k < after.len() implies (
                    #[trigger] after[j]).0@ != (#[trigger] after[k]).0@ by {
                        let j0 = if j < i { j } else { j + 1 };
                        let k0 = if k < i { k } else { k + 1 };
                        assert(after[j] == before[j0] && after[k] == before[k0]);
                    }
                    entries_map_lists(after);
                    let old_map = entries_map(before);
                    let new_map = entries_map(after);
                    assert forall|b: Seq<char>| new_map.contains_key(b) <==> old_map.remove(
                        board_id@,
                    ).contains_key(b) by {
                        if new_map.contains_key(b) {
                            let j = choose|j: int|
                                0 <= j < after.len() && (#[trigger] after[j]).0@ == b;
                            let j0 = if j < i { j } else { j + 1 };
                            assert(after[j] == before[j0]);
                            assert(before[j0].0@ != before[i as int].0@);
                        }
                        if old_map.remove(board_id@).contains_key(b) {
                            let j0 = choose|j: int|
                                0 <= j < before.len() && (#[trigger] before[j]).0@ == b;
                            let j = if j0 < i { j0 } else { j0 - 1 };
                            assert(after[j] == before[j0]);
                        }
                    }
                    assert forall|b: Seq<char>| new_map.contains_key(b) implies #[trigger] new_map[b]
                        == old_map.remove(board_id@)[b] by {
                        let j = choose|j: int|
                            0 <= j < after.len() && (#[trigger] after[j]).0@ == b;
                        let j0 = if j < i { j } else { j + 1 };
                        assert(after[j] == before[j0]);
                    }
                    assert(new_map =~= old_map.remove(board_id@));
                }
                self.entries = entries;
                Some(session)
            },
        }
    }

    /// Registers `session` for the board `board_id`, in place of the one that
    /// is there.
    pub fn insert(&mut self, board_id: String, session: T)
        ensures
            final(self)@ == old(self)@.insert(board_id@, session),
    {
        let ghost all = self@;
        let _replaced = self.remove(board_id.as_str());
        proof {
            use_type_invariant(&*self);
            entries_map_lists(self.entries@);
        }
        let ghost before = self.entries@;
        let mut entries: Vec<(String, T)> = Vec::new();
        std::mem::swap(&mut entries, &mut self.entries);
        entries.push((board_id, session));
        proof {
            let after = before.push((board_id, session));
            assert(after.drop_last() =~= before);
            assert forall|j: int, k: int| 0 <= j < k < after.len() implies (#[trigger] after[j]).0@
                != (#[trigger] after[k]).0@ by {
                assert(after[j] == before[j]);
                if k == before.len() {
                    assert(entries_map(before).contains_key(before[j].0@));
                }
            }
            assert(entries_map(after) =~= all.insert(board_id@, session));
        }
        self.entries = entries;
    }
}

impl<T> Default for ApiRegistry<T> {
    /// A registry without sessions.
    fn default() -> (r: ApiRegistry<T>)
        ensures
            r@ == Map::<Seq<char>, T>::empty(),
    {
        ApiRegistry::new()
    }
}

}
