use crate::text::{joined, owned};
use vstd::prelude::*;

verus! {

/// The registry as values: one entry per workspace identity, in the order
/// they were added.
pub ghost struct RegistryModel<S> {
    pub entries: Seq<(Seq<char>, S)>,
}

impl<S> RegistryModel<S> {
    /// No workspace identity has two entries.
    pub open spec fn wf(self) -> bool {
        forall|i: int, j: int|
            0 <= i < self.entries.len() && 0 <= j < self.entries.len() && i != j
                ==> #[trigger] self.entries[i].0 != #[trigger] self.entries[j].0
    }

    /// Whether workspace `key` has an entry.
    pub open spec fn contains(self, key: Seq<char>) -> bool {
        exists|i: int| 0 <= i < self.entries.len() && #[trigger] self.entries[i].0 == key
    }

    /// The session registered for workspace `key`, if any.
    pub open spec fn session_of(self, key: Seq<char>) -> Option<S> {
        if self.contains(key) {
            let i = choose|i: int| 0 <= i < self.entries.len() && #[trigger] self.entries[i].0 == key;
            Some(self.entries[i].1)
        } else {
            None
        }
    }

    /// The registry after `session` is offered for workspace `key`: kept
    /// only when the workspace has no session yet.
    pub open spec fn adopted(self, key: Seq<char>, session: S) -> RegistryModel<S> {
        if self.contains(key) {
            self
        } else {
            RegistryModel { entries: self.entries.push((key, session)) }
        }
    }
}

/// The registry after each session of `candidates` is offered, in order,
/// for workspace `key`.
pub open spec fn adopt_all<S>(m: RegistryModel<S>, key: Seq<char>, candidates: Seq<S>) -> RegistryModel<S>
    decreases candidates.len(),
{
    if candidates.len() == 0 {
        m
    } else {
        adopt_all(m.adopted(key, candidates[0]), key, candidates.drop_first())
    }
}

/// The sessions of a process, by workspace identity.
pub struct Registry<S> {
    entries: Vec<(String, S)>,
}

impl<S> View for Registry<S> {
    type V = RegistryModel<S>;

    closed spec fn view(&self) -> RegistryModel<S> {
        RegistryModel { entries: self.entries@.map_values(|e: (String, S)| (e.0@, e.1)) }
    }
}

impl<S> Registry<S> {
    /// A registry with no session.
    pub fn new() -> (r: Self)
        ensures
            r@.wf(),
            r@.entries.len() == 0,
    {
        Registry { entries: Vec::new() }
    }

    /// The position of workspace `key`'s entry, if it has one.
    fn position(&self, key: &str) -> (r: Option<usize>)
        requires
            self@.wf(),
        ensures
            match r {
                Some(i) => i < self@.entries.len() && self@.entries[i as int].0 == key@,
                None => !self@.contains(key@),
            },
    {
        let wanted = owned(key);
        let mut i: usize = 0;
        while i < self.entries.len()
            invariant
                i <= self.entries.len(),
                self@.entries.len() == self.entries.len(),
                wanted@ == key@,
                forall|j: int| 0 <= j < i ==> #[trigger] self@.entries[j].0 != key@,
            decreases self.entries.len() - i,
        {
            assert(self@.entries[i as int].0 == self.entries@[i as int].0@);
            if self.entries[i].0 == wanted {
                return Some(i);
            }
            i = i + 1;
        }
        None
    }

    /// The session of workspace `key`, shared, if it has one.
    pub fn get(&self, key: &str) -> (r: Option<&S>)
        requires
            self@.wf(),
        ensures
            match r {
                Some(s) => self@.session_of(key@) == Some(*s),
                None => self@.session_of(key@) is None,
            },
    {
        match self.position(key) {
            Some(i) => {
                let ghost k = choose|j: int|
                    0 <= j < self@.entries.len() && #[trigger] self@.entries[j].0 == key@;
                assert(k == i);
                Some(&self.entries[i].1)
            },
            None => None,
        }
    }

    /// Offers `session` for workspace `key`: it is kept when the workspace
    /// has none yet; otherwise the registered one stays and `session` is
    /// handed back.
    pub fn adopt(&mut self, key: String, session: S) -> (r: Result<(), S>)
        requires
            old(self)@.wf(),
        ensures
            final(self)@.wf(),
            final(self)@ == old(self)@.adopted(key@, session),
            old(self)@.contains(key@) ==> r == Err::<(), S>(session),
            !old(self)@.contains(key@) ==> r is Ok,
    {
        match self.position(key.as_str()) {
            Some(_) => Err(session),
            None => {
                let ghost k = key@;
                self.entries.push((key, session));
                assert(final(self)@.entries =~= old(self)@.entries.push((k, session)));
                Ok(())
            },
        }
    }

    /// Takes workspace `key`'s session out of the registry, if it has one.
    pub fn remove(&mut self, key: &str) -> (r: Option<S>)
        requires
            old(self)@.wf(),
        ensures
            final(self)@.wf(),
            r == old(self)@.session_of(key@),
            !final(self)@.contains(key@),
            forall|k: Seq<char>| k != key@ ==> final(self)@.session_of(k) == old(self)@.session_of(k),
    {
        match self.position(key) {
            Some(i) => {
                let ghost m = self@;
                let ghost k = choose|j: int| 0 <= j < m.entries.len() && #[trigger] m.entries[j].0 == key@;
                assert(k == i);
                let (_, s) = self.entries.remove(i);
                assert(final(self)@.entries =~= m.entries.remove(i as int));
                proof {
                    lemma_removed(m, i as int);
                }
                Some(s)
            },
            None => None,
        }
    }

    /// Empties the registry, handing out every session in the order they
    /// were registered.
    pub fn take_all(&mut self) -> (r: Vec<S>)
        requires
            old(self)@.wf(),
        ensures
            final(self)@.wf(),
            final(self)@.entries.len() == 0,
            r@ == old(self)@.entries.map_values(|e: (Seq<char>, S)| e.1),
    {
        let mut out: Vec<S> = Vec::new();
        let ghost m = self@;
        while self.entries.len() > 0
            invariant
                self@.entries.len() + out@.len() == m.entries.len(),
                self@.entries == m.entries.subrange(out@.len() as int, m.entries.len() as int),
                out@ == m.entries.subrange(0, out@.len() as int).map_values(|e: (Seq<char>, S)| e.1),
            decreases self.entries.len(),
        {
            let ghost before = self@.entries;
            let ghost n = out@.len() as int;
            assert(before[0] == m.entries[n]);
            assert(before[0].1 == self.entries@[0].1);
            let (_, s) = self.entries.remove(0);
            assert(self@.entries =~= before.drop_first());
            assert(s == m.entries[n].1);
            out.push(s);
            assert(out@ =~= m.entries.subrange(0, out@.len() as int).map_values(|e: (Seq<char>, S)| e.1));
            assert(self@.entries =~= m.entries.subrange(out@.len() as int, m.entries.len() as int));
        }
        assert(m.entries.subrange(0, m.entries.len() as int) =~= m.entries);
        out
    }

    /// How many workspaces have a session.
    pub fn len(&self) -> (n: usize)
        ensures
            n == self@.entries.len(),
    {
        self.entries.len()
    }
}

/// Removing entry `i` keeps the registry well formed, drops its workspace,
/// and leaves every other workspace's session as it was.
proof fn lemma_removed<S>(m: RegistryModel<S>, i: int)
    requires
        m.wf(),
        0 <= i < m.entries.len(),
    ensures
        ({
            let m1 = RegistryModel { entries: m.entries.remove(i) };
            &&& m1.wf()
            &&& !m1.contains(m.entries[i].0)
            &&& forall|k: Seq<char>| k != m.entries[i].0 ==> m1.session_of(k) == m.session_of(k)
        }),
{
    let m1 = RegistryModel { entries: m.entries.remove(i) };
    let key = m.entries[i].0;
    assert forall|a: int, b: int|
        0 <= a < m1.entries.len() && 0 <= b < m1.entries.len() && a != b implies #[trigger] m1.entries[a].0
        != #[trigger] m1.entries[b].0 by {
        let a0 = if a < i { a } else { a + 1 };
        let b0 = if b < i { b } else { b + 1 };
        assert(m1.entries[a] == m.entries[a0]);
        assert(m1.entries[b] == m.entries[b0]);
    }
    if m1.contains(key) {
        let j = choose|j: int| 0 <= j < m1.entries.len() && #[trigger] m1.entries[j].0 == key;
        let j0 = if j < i { j } else { j + 1 };
        assert(m.entries[j0].0 == key);
    }
    assert forall|k: Seq<char>| k != key implies m1.session_of(k) == m.session_of(k) by {
        if m.contains(k) {
            let j = choose|j: int| 0 <= j < m.entries.len() && #[trigger] m.entries[j].0 == k;
            assert(j != i);
            let j1 = if j < i { j } else { j - 1 };
            assert(m1.entries[j1].0 == k);
            let c = choose|c: int| 0 <= c < m1.entries.len() && #[trigger] m1.entries[c].0 == k;
            let c0 = if c < i { c } else { c + 1 };
            assert(m.entries[c0].0 == k);
        } else if m1.contains(k) {
            let c = choose|c: int| 0 <= c < m1.entries.len() && #[trigger] m1.entries[c].0 == k;
            let c0 = if c < i { c } else { c + 1 };
            assert(m.entries[c0].0 == k);
        }
    }
}

/// How a freshly spawned session ends up once its handshake is over.
pub enum Settled<S> {
    /// The session is now the workspace's session.
    Registered,
    /// Another session won the race; this one is handed back.
    AlreadyPresent { loser: S },
    /// The handshake failed: the session, to be terminated, and the error.
    Failed { session: S, message: String },
}

/// Settles a spawned session after its handshake: a failed handshake leaves
/// the registry untouched and hands the session back for termination; a
/// successful one registers it unless another session got there first.
pub fn settle_handshake<S>(
    registry: &mut Registry<S>,
    key: String,
    session: S,
    handshake: Result<(), String>,
) -> (r: Settled<S>)
    requires
        old(registry)@.wf(),
    ensures
        final(registry)@.wf(),
        match handshake {
            Err(e) => {
                &&& final(registry)@ == old(registry)@
                &&& r is Failed
                &&& r->Failed_session == session
                &&& r->Failed_message@ == "Failed to initialize OpenCode ACP: "@ + e@
            },
            Ok(_) => {
                &&& final(registry)@ == old(registry)@.adopted(key@, session)
                &&& old(registry)@.contains(key@) ==> r == Settled::AlreadyPresent { loser: session }
                &&& !old(registry)@.contains(key@) ==> r is Registered
                &&& final(registry)@.session_of(key@) == if old(registry)@.contains(key@) {
                    old(registry)@.session_of(key@)
                } else {
                    Some(session)
                }
            },
        },
{
    match handshake {
        Err(e) => Settled::Failed {
            session,
            message: joined("Failed to initialize OpenCode ACP: ", e.as_str()),
        },
        Ok(()) => {
            proof {
                lemma_adopted(registry@, key@, session);
            }
            match registry.adopt(key, session) {
                Ok(()) => Settled::Registered,
                Err(loser) => Settled::AlreadyPresent { loser },
            }
        },
    }
}

/// However many sessions are offered for one workspace, and in whatever
/// order they finish, the registry keeps exactly one entry for it: the one
/// already there, or else the first offered.
pub proof fn lemma_one_session_per_workspace<S>(
    m: RegistryModel<S>,
    key: Seq<char>,
    candidates: Seq<S>,
)
    requires
        m.wf(),
        candidates.len() > 0,
    ensures
        adopt_all(m, key, candidates).wf(),
        adopt_all(m, key, candidates).contains(key),
        adopt_all(m, key, candidates).session_of(key) == if m.contains(key) {
            m.session_of(key)
        } else {
            Some(candidates[0])
        },
    decreases candidates.len(),
{
    let m1 = m.adopted(key, candidates[0]);
    lemma_adopted(m, key, candidates[0]);
    let rest = candidates.drop_first();
    if rest.len() == 0 {
        assert(adopt_all(m1, key, rest) == m1);
    } else {
        lemma_one_session_per_workspace(m1, key, rest);
    }
}

/// Offering a session keeps the registry well formed and leaves the
/// workspace with the session it had, or else the one offered.
pub proof fn lemma_adopted<S>(m: RegistryModel<S>, key: Seq<char>, session: S)
    requires
        m.wf(),
    ensures
        m.adopted(key, session).wf(),
        m.adopted(key, session).contains(key),
        m.adopted(key, session).session_of(key) == if m.contains(key) {
            m.session_of(key)
        } else {
            Some(session)
        },
        forall|k: Seq<char>| k != key ==> m.adopted(key, session).session_of(k) == m.session_of(k),
{
    let m1 = m.adopted(key, session);
    if !m.contains(key) {
        let n = m.entries.len() as int;
        assert(m1.entries[n].0 == key);
        assert(m1.contains(key));
        let i = choose|i: int| 0 <= i < m1.entries.len() && #[trigger] m1.entries[i].0 == key;
        assert(i == n);
        assert forall|k: Seq<char>| k != key implies m1.session_of(k) == m.session_of(k) by {
            if m.contains(k) {
                let j = choose|j: int| 0 <= j < m.entries.len() && #[trigger] m.entries[j].0 == k;
                assert(m1.entries[j].0 == k);
                let j1 = choose|j: int| 0 <= j < m1.entries.len() && #[trigger] m1.entries[j].0 == k;
                assert(j1 != n);
                assert(m.entries[j1].0 == k);
            } else {
                if m1.contains(k) {
                    let j1 = choose|j: int| 0 <= j < m1.entries.len() && #[trigger] m1.entries[j].0 == k;
                    assert(m.entries[j1].0 == k);
                }
            }
        }
    }
}

} // verus!
