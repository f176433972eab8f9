//! The session registry: at most one live sandbox handle per user.
//!
//! The registry is generic in the handle. It only keeps the association; the
//! handle's own exclusivity (a lock around the sandbox's two streams) is the
//! business of whoever supplies it, so that a lookup never has to wait for
//! another user's exchange with a sandbox.

use vstd::prelude::*;
use vstd::string::*;
use crate::error::ServiceError;
use crate::text::same_text;

verus! {

/// The registry of live sessions. Its view is the map from user to handle.
pub struct SessionRegistry<H> {
    entries: Vec<(String, H)>,
}

/// The map that a list of entries stands for; on a repeated user the later
/// entry counts.
spec fn entries_map<H>(entries: Seq<(String, H)>) -> Map<Seq<char>, H>
    decreases entries.len(),
{
    if entries.len() == 0 {
        Map::empty()
    } else {
        entries_map(entries.drop_last()).insert(entries.last().0@, entries.last().1)
    }
}

/// No user occurs in two entries.
spec fn distinct_users<H>(entries: Seq<(String, H)>) -> bool {
    forall|i: int, j: int|
        0 <= i < j < entries.len() ==> (#[trigger] entries[i]).0@ != (#[trigger] entries[j]).0@
}

/// What `create` does to the sessions: the new map, and whether the handle
/// was taken in or handed back.
pub open spec fn create_spec<H>(sessions: Map<Seq<char>, H>, user: Seq<char>, handle: H) -> (
    Map<Seq<char>, H>,
    Result<(), (ServiceError, H)>,
) {
    if sessions.contains_key(user) {
        (sessions, Err((ServiceError::SessionExists, handle)))
    } else {
        (sessions.insert(user, handle), Ok(()))
    }
}

/// `handle` is the handle of some user's session.
pub open spec fn is_handle_of<H>(sessions: Map<Seq<char>, H>, handle: H) -> bool {
    exists|user: Seq<char>| #[trigger] sessions.contains_key(user) && sessions[user] == handle
}

/// What a lookup finds among the sessions.
pub open spec fn session_spec<H>(sessions: Map<Seq<char>, H>, user: Seq<char>) -> Result<
    H,
    ServiceError,
> {
    if sessions.contains_key(user) {
        Ok(sessions[user])
    } else {
        Err(ServiceError::NoSession)
    }
}

/// What `remove` does to the sessions: the new map and the handle that left.
pub open spec fn remove_spec<H>(sessions: Map<Seq<char>, H>, user: Seq<char>) -> (
    Map<Seq<char>, H>,
    Option<H>,
) {
    if sessions.contains_key(user) {
        (sessions.remove(user), Some(sessions[user]))
    } else {
        (sessions, None)
    }
}

/// What `replace` does to the sessions: the new map and the handle that the
/// new one displaced.
pub open spec fn replace_spec<H>(sessions: Map<Seq<char>, H>, user: Seq<char>, handle: H) -> (
    Map<Seq<char>, H>,
    Option<H>,
) {
    (
        sessions.insert(user, handle),
        if sessions.contains_key(user) {
            Some(sessions[user])
        } else {
            None
        },
    )
}

/// A user is in the map exactly when some entry names them.
proof fn lemma_entries_map_contains<H>(entries: Seq<(String, H)>, user: Seq<char>)
    ensures
        entries_map(entries).contains_key(user) <==> exists|i: int|
            0 <= i < entries.len() && (#[trigger] entries[i]).0@ == user,
    decreases entries.len(),
{
    if entries.len() > 0 {
        let init = entries.drop_last();
        lemma_entries_map_contains(init, user);
        if entries_map(entries).contains_key(user) {
            if entries.last().0@ == user {
                assert(entries[entries.len() - 1].0@ == user);
            } else {
                let i = choose|i: int| 0 <= i < init.len() && (#[trigger] init[i]).0@ == user;
                assert(entries[i].0@ == user);
            }
        }
        if exists|i: int| 0 <= i < entries.len() && (#[trigger] entries[i]).0@ == user {
            let i = choose|i: int| 0 <= i < entries.len() && (#[trigger] entries[i]).0@ == user;
            if i < init.len() {
                assert(init[i].0@ == user);
            }
        }
    }
}

/// With distinct users, the map gives each entry's user that entry's handle.
proof fn lemma_entries_map_index<H>(entries: Seq<(String, H)>, i: int)
    requires
        distinct_users(entries),
        0 <= i < entries.len(),
    ensures
        entries_map(entries).contains_key(entries[i].0@),
        entries_map(entries)[entries[i].0@] == entries[i].1,
    decreases entries.len(),
{
    let init = entries.drop_last();
    if i < entries.len() - 1 {
        assert(forall|a: int| 0 <= a < init.len() ==> init[a] == entries[a]);
        assert(entries[i].0@ != entries[entries.len() - 1].0@);
        lemma_entries_map_index(init, i);
    }
}

/// With distinct users, taking an entry out takes its user out of the map.
proof fn lemma_entries_map_remove<H>(entries: Seq<(String, H)>, i: int)
    requires
        distinct_users(entries),
        0 <= i < entries.len(),
    ensures
        distinct_users(entries.remove(i)),
        entries_map(entries.remove(i)) == entries_map(entries).remove(entries[i].0@),
    decreases entries.len(),
{
    let init = entries.drop_last();
    let rest = entries.remove(i);
    let user = entries[i].0@;
    assert(forall|a: int| 0 <= a < init.len() ==> init[a] == entries[a]);
    assert forall|a: int, b: int| 0 <= a < b < rest.len() implies (#[trigger] rest[a]).0@ != (
    #[trigger] rest[b]).0@ by {
        let a0 = if a < i { a } else { a + 1 };
        let b0 = if b < i { b } else { b + 1 };
        assert(rest[a] == entries[a0]);
        assert(rest[b] == entries[b0]);
    }
    if i == entries.len() - 1 {
        assert(rest =~= init);
        lemma_entries_map_contains(init, user);
        if entries_map(init).contains_key(user) {
            let a = choose|a: int| 0 <= a < init.len() && (#[trigger] init[a]).0@ == user;
            assert(entries[a].0@ != entries[i].0@);
        }
        assert(entries_map(init) =~= entries_map(entries).remove(user));
    } else {
        lemma_entries_map_remove(init, i);
        assert(rest.drop_last() =~= init.remove(i));
        assert(rest.last() == entries.last());
        assert(entries[i].0@ != entries[entries.len() - 1].0@);
        assert(entries_map(rest) =~= entries_map(entries).remove(user));
    }
}

/// Appending an entry for a user that no entry names keeps users distinct.
proof fn lemma_push_distinct<H>(entries: Seq<(String, H)>, entry: (String, H))
    requires
        distinct_users(entries),
        !entries_map(entries).contains_key(entry.0@),
    ensures
        distinct_users(entries.push(entry)),
        entries_map(entries.push(entry)) == entries_map(entries).insert(entry.0@, entry.1),
{
    let longer = entries.push(entry);
    lemma_entries_map_contains(entries, entry.0@);
    assert(longer.drop_last() =~= entries);
    assert forall|a: int, b: int| 0 <= a < b < longer.len() implies (#[trigger] longer[a]).0@ != (
    #[trigger] longer[b]).0@ by {
        assert(longer[a] == entries[a]);
        if b < entries.len() {
            assert(longer[b] == entries[b]);
        }
    }
}

/// With distinct users, the map has as many users as there are entries.
proof fn lemma_entries_map_len<H>(entries: Seq<(String, H)>)
    requires
        distinct_users(entries),
    ensures
        entries_map(entries).dom().finite(),
        entries_map(entries).dom().len() == entries.len(),
    decreases entries.len(),
{
    if entries.len() > 0 {
        let init = entries.drop_last();
        assert(forall|a: int| 0 <= a < init.len() ==> init[a] == entries[a]);
        lemma_entries_map_len(init);
        lemma_entries_map_contains(init, entries.last().0@);
        if entries_map(init).contains_key(entries.last().0@) {
            let a = choose|a: int| 0 <= a < init.len() && (#[trigger] init[a]).0@ == entries.last().0@;
            assert(entries[a].0@ != entries[entries.len() - 1].0@);
        }
        assert(entries_map(entries).dom() =~= entries_map(init).dom().insert(entries.last().0@));
    }
}

impl<H> View for SessionRegistry<H> {
    type V = Map<Seq<char>, H>;

    closed spec fn view(&self) -> Map<Seq<char>, H> {
        entries_map(self.entries@)
    }
}

impl<H> SessionRegistry<H> {
    /// The registry's invariant: no user has two sessions.
    pub closed spec fn wf(&self) -> bool {
        distinct_users(self.entries@)
    }

    /// The registry without sessions.
    pub fn new() -> (registry: SessionRegistry<H>)
        ensures
            registry.wf(),
            registry@ == Map::<Seq<char>, H>::empty(),
    {
        SessionRegistry { entries: Vec::new() }
    }

    /// The number of live sessions.
    pub fn len(&self) -> (count: usize)
        requires
            self.wf(),
        ensures
            self@.dom().finite(),
            count == self@.dom().len(),
    {
        proof {
            lemma_entries_map_len(self.entries@);
        }
        self.entries.len()
    }

    /// Ends every session and hands out all the handles, each once, so that
    /// no sandbox outlives the registry unnoticed.
    pub fn drain(&mut self) -> (handles: Vec<H>)
        requires
            old(self).wf(),
        ensures
            final(self).wf(),
            final(self)@ == Map::<Seq<char>, H>::empty(),
            handles.len() == old(self)@.dom().len(),
            forall|user: Seq<char>| #[trigger]
                old(self)@.contains_key(user) ==> handles@.contains(old(self)@[user]),
            forall|i: int|
                0 <= i < handles.len() ==> is_handle_of(old(self)@, #[trigger] handles@[i]),
    {
        let ghost before = self.entries@;
        let mut handles: Vec<H> = Vec::new();
        while self.entries.len() > 0
            invariant
                self.entries@.len() + handles@.len() == before.len(),
                self.entries@ == before.take(self.entries@.len() as int),
                forall|i: int|
                    0 <= i < handles@.len() ==> handles@[i] == before[before.len() - 1 - i].1,
            decreases self.entries.len(),
        {
            let entry = self.entries.pop();
            match entry {
                Some(entry) => {
                    handles.push(entry.1);
                },
                None => {},
            }
        }
        proof {
            let total = before.len() as int;
            lemma_entries_map_len(before);
            assert(self.entries@ =~= Seq::<(String, H)>::empty());
            assert forall|user: Seq<char>| #[trigger]
                entries_map(before).contains_key(user) implies handles@.contains(
                entries_map(before)[user],
            ) by {
                lemma_entries_map_contains(before, user);
                let i = choose|i: int| 0 <= i < before.len() && (#[trigger] before[i]).0@ == user;
                lemma_entries_map_index(before, i);
                assert(handles@[total - 1 - i] == before[i].1);
            }
            assert forall|i: int| 0 <= i < handles.len() implies is_handle_of(
                entries_map(before),
                #[trigger] handles@[i],
            ) by {
                lemma_entries_map_index(before, total - 1 - i);
                let user = before[total - 1 - i].0@;
                assert(entries_map(before).contains_key(user) && entries_map(before)[user]
                    == handles@[i]);
            }
        }
        handles
    }

    /// Where the entry of `user` stands, if there is one.
    fn position(&self, user: &str) -> (found: Option<usize>)
        requires
            self.wf(),
        ensures
            match found {
                Some(i) => i < self.entries.len() && self.entries[i as int].0@ == user@
                    && self@.contains_key(user@) && self@[user@] == self.entries[i as int].1,
                None => !self@.contains_key(user@),
            },
    {
        let mut i: usize = 0;
        while i < self.entries.len()
            invariant
                i <= self.entries.len(),
                self.wf(),
                forall|j: int| 0 <= j < i ==> (#[trigger] self.entries[j]).0@ != user@,
            decreases self.entries.len() - i,
        {
            if same_text(self.entries[i].0.as_str(), user) {
                proof {
                    lemma_entries_map_index(self.entries@, i as int);
                }
                return Some(i);
            }
            i += 1;
        }
        proof {
            lemma_entries_map_contains(self.entries@, user@);
        }
        None
    }

    /// Whether `user` has a session.
    pub fn contains(&self, user: &str) -> (present: bool)
        requires
            self.wf(),
        ensures
            present == self@.contains_key(user@),
    {
        self.position(user).is_some()
    }

    /// Takes in the handle of a new session for `user`. Where the user has a
    /// session already, nothing changes and the handle comes back with the
    /// refusal, so that its owner can shut the sandbox behind it down.
    pub fn create(&mut self, user: String, handle: H) -> (outcome: Result<(), (ServiceError, H)>)
        requires
            old(self).wf(),
        ensures
            final(self).wf(),
            (final(self)@, outcome) == create_spec(old(self)@, user@, handle),
    {
        if self.position(user.as_str()).is_some() {
            Err((ServiceError::SessionExists, handle))
        } else {
            proof {
                lemma_push_distinct(self.entries@, (user, handle));
            }
            self.entries.push((user, handle));
            Ok(())
        }
    }

    /// Puts `handle` in as the session of `user` whether or not there was
    /// one, and hands out the handle that it displaced.
    pub fn replace(&mut self, user: String, handle: H) -> (displaced: Option<H>)
        requires
            old(self).wf(),
        ensures
            final(self).wf(),
            (final(self)@, displaced) == replace_spec(old(self)@, user@, handle),
    {
        let displaced = self.remove(user.as_str());
        proof {
            lemma_push_distinct(self.entries@, (user, handle));
            assert(old(self)@.remove(user@).insert(user@, handle) =~= old(self)@.insert(
                user@,
                handle,
            ));
        }
        self.entries.push((user, handle));
        displaced
    }

    /// The handle of the session of `user`.
    pub fn session(&self, user: &str) -> (found: Result<&H, ServiceError>)
        requires
            self.wf(),
        ensures
            match found {
                Ok(handle) => session_spec(self@, user@) == Ok::<H, ServiceError>(*handle),
                Err(error) => session_spec(self@, user@) == Err::<H, ServiceError>(error),
            },
    {
        match self.position(user) {
            Some(i) => Ok(&self.entries[i].1),
            None => Err(ServiceError::NoSession),
        }
    }

    /// Runs `operation` on the handle of the session of `user` and hands out
    /// what it returns. Without a session the operation is not run.
    pub fn with_session<T, F: FnOnce(&H) -> T>(&self, user: &str, operation: F) -> (outcome:
        Result<T, ServiceError>)
        requires
            self.wf(),
            self@.contains_key(user@) ==> operation.requires((&self@[user@],)),
        ensures
            match outcome {
                Ok(value) => self@.contains_key(user@) && operation.ensures(
                    (&self@[user@],),
                    value,
                ),
                Err(error) => !self@.contains_key(user@) && error == ServiceError::NoSession,
            },
    {
        match self.position(user) {
            Some(i) => Ok(operation(&self.entries[i].1)),
            None => Err(ServiceError::NoSession),
        }
    }

    /// Ends the session of `user`, if there is one, and hands out its handle.
    pub fn remove(&mut self, user: &str) -> (removed: Option<H>)
        requires
            old(self).wf(),
        ensures
            final(self).wf(),
            (final(self)@, removed) == remove_spec(old(self)@, user@),
    {
        match self.position(user) {
            Some(i) => {
                proof {
                    lemma_entries_map_remove(self.entries@, i as int);
                }
                let entry = self.entries.remove(i);
                Some(entry.1)
            },
            None => None,
        }
    }
}

/// A user without a session gets one by `create`, and a lookup then finds
/// the very handle that was given.
pub proof fn lemma_create_then_session<H>(sessions: Map<Seq<char>, H>, user: Seq<char>, handle: H)
    requires
        !sessions.contains_key(user),
    ensures
        create_spec(sessions, user, handle).1 is Ok,
        session_spec(create_spec(sessions, user, handle).0, user) == Ok::<H, ServiceError>(handle),
{
}

/// A user with a session is refused a second one: the refusal names the
/// session that exists, hands the new handle back, and leaves every session,
/// the user's own included, as it was.
pub proof fn lemma_second_create_rejected<H>(
    sessions: Map<Seq<char>, H>,
    user: Seq<char>,
    handle: H,
)
    requires
        sessions.contains_key(user),
    ensures
        create_spec(sessions, user, handle).1 == Err::<(), (ServiceError, H)>(
            (ServiceError::SessionExists, handle),
        ),
        create_spec(sessions, user, handle).0 == sessions,
{
}

/// Two creations in a row for one user: whatever held before, the second is
/// refused and the lookup finds what the first left.
pub proof fn lemma_create_twice<H>(
    sessions: Map<Seq<char>, H>,
    user: Seq<char>,
    first: H,
    second: H,
)
    ensures
        ({
            let after = create_spec(sessions, user, first).0;
            &&& create_spec(after, user, second).1 is Err
            &&& create_spec(after, user, second).0 == after
            &&& session_spec(after, user) is Ok
        }),
{
}

/// Creating, replacing or removing one user's session leaves what a lookup
/// finds for every other user unchanged.
pub proof fn lemma_other_users_untouched<H>(
    sessions: Map<Seq<char>, H>,
    user: Seq<char>,
    other: Seq<char>,
    handle: H,
)
    requires
        user != other,
    ensures
        session_spec(create_spec(sessions, user, handle).0, other) == session_spec(sessions, other),
        session_spec(replace_spec(sessions, user, handle).0, other) == session_spec(
            sessions,
            other,
        ),
        session_spec(remove_spec(sessions, user).0, other) == session_spec(sessions, other),
{
}

/// After a removal the user has no session, and may create one anew.
pub proof fn lemma_remove_then_absent<H>(sessions: Map<Seq<char>, H>, user: Seq<char>, handle: H)
    ensures
        session_spec(remove_spec(sessions, user).0, user) == Err::<H, ServiceError>(
            ServiceError::NoSession,
        ),
        create_spec(remove_spec(sessions, user).0, user, handle).1 is Ok,
{
}

} // verus!
