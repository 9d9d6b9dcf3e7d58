//! Connection identities: which connection, if any, is the live one.

use vstd::prelude::*;

verus! {

/// The identity reserved for "no active connection".
pub const NO_CONNECTION: u64 = 0;

/// What a `ClientState` stands for: the last identity that was issued, and
/// the identity that is authorised to stream right now (0 for none).
pub struct Identities {
    pub last_issued: nat,
    pub active: nat,
}

/// One call on the registry, as far as identities go.
pub enum RegistryCall {
    /// A connection begins and takes the next identity.
    Connect,
    /// Whatever is active is invalidated.
    Disconnect,
}

impl Identities {
    /// The active identity is either none or the one issued last.
    pub open spec fn wf(self) -> bool {
        self.active == 0 || self.active == self.last_issued
    }

    /// Whether `id` is the active identity.
    pub open spec fn current(self, id: nat) -> bool {
        id == self.active
    }

    /// The state after the next identity was issued and made active.
    pub open spec fn begun(self) -> Identities {
        Identities { last_issued: self.last_issued + 1, active: self.last_issued + 1 }
    }

    /// The state after the active identity was withdrawn.
    pub open spec fn invalidated(self) -> Identities {
        Identities { last_issued: self.last_issued, active: 0 }
    }

    /// The state after one call.
    pub open spec fn after(self, call: RegistryCall) -> Identities {
        match call {
            RegistryCall::Connect => self.begun(),
            RegistryCall::Disconnect => self.invalidated(),
        }
    }

    /// The state after `calls`, made in order.
    pub open spec fn after_all(self, calls: Seq<RegistryCall>) -> Identities
        decreases calls.len(),
    {
        if calls.len() == 0 {
            self
        } else {
            self.after_all(calls.drop_last()).after(calls.last())
        }
    }

    /// The identities that the `Connect` calls among `calls` were given, in
    /// the order of the calls.
    pub open spec fn issued_by(self, calls: Seq<RegistryCall>) -> Seq<nat>
        decreases calls.len(),
    {
        if calls.len() == 0 {
            Seq::empty()
        } else {
            let earlier = self.issued_by(calls.drop_last());
            match calls.last() {
                RegistryCall::Connect => earlier.push(self.after_all(calls).active),
                RegistryCall::Disconnect => earlier,
            }
        }
    }
}

/// Identities are unique and come in strictly increasing order: whatever
/// the calls, each connection is given an identity above every identity
/// issued before it, and the state stays well formed. The identities start
/// above the last one issued before the calls, so the first one ever is 1.
pub proof fn lemma_identities_strictly_increase(start: Identities, calls: Seq<RegistryCall>)
    ensures
        start.after_all(calls).last_issued == start.last_issued + start.issued_by(calls).len(),
        forall|i: int|
            0 <= i < start.issued_by(calls).len() ==> #[trigger] start.issued_by(calls)[i]
                == start.last_issued + 1 + i,
        forall|i: int, j: int|
            0 <= i < j < start.issued_by(calls).len() ==> start.issued_by(calls)[i]
                < start.issued_by(calls)[j],
        start.wf() ==> start.after_all(calls).wf(),
    decreases calls.len(),
{
    if calls.len() > 0 {
        lemma_identities_strictly_increase(start, calls.drop_last());
    }
}

/// At most one identity is active at a time: two identities that are both
/// current are the same one.
pub proof fn lemma_one_active(state: Identities, a: nat, b: nat)
    requires
        state.current(a),
        state.current(b),
    ensures
        a == b,
{
}

/// A new connection supersedes every earlier one: once it has begun, its
/// identity is current and no identity issued before it is, whether or
/// not the earlier connection was invalidated first.
pub proof fn lemma_begin_supersedes(state: Identities, earlier: nat)
    requires
        earlier <= state.last_issued,
    ensures
        state.begun().current(state.begun().last_issued),
        !state.begun().current(earlier),
        !state.invalidated().begun().current(earlier),
        state.invalidated().begun() == state.begun(),
{
}

/// After an invalidation no connection is current: no identity that a
/// connection can hold is the active one.
pub proof fn lemma_invalidated_none_current(state: Identities, id: nat)
    requires
        id != NO_CONNECTION,
    ensures
        !state.invalidated().current(id),
{
}

/// The identity state of one client instance: the last identity that was
/// issued and the one that is authorised to stream right now.
///
/// The host shares one value of this type between the task that runs a
/// connection and whoever may ask to disconnect, behind whatever makes each
/// access atomic with respect to the others.
pub struct ClientState {
    next_id: u64,
    active_id: u64,
}

impl View for ClientState {
    type V = Identities;

    closed spec fn view(&self) -> Identities {
        Identities { last_issued: self.next_id as nat, active: self.active_id as nat }
    }
}

impl ClientState {
    /// A fresh client: nothing issued, nothing active.
    pub fn new() -> (state: Self)
        ensures
            state@ == (Identities { last_issued: 0, active: 0 }),
    {
        ClientState { next_id: 0, active_id: NO_CONNECTION }
    }

    /// Whether another identity can still be issued.
    pub fn can_issue(&self) -> (ok: bool)
        ensures
            ok == (self@.last_issued < u64::MAX),
    {
        self.next_id < u64::MAX
    }

    /// The last identity that was issued; 0 before the first one.
    pub fn last_issued(&self) -> (id: u64)
        ensures
            id == self@.last_issued,
    {
        self.next_id
    }

    /// The active identity; 0 when there is none.
    pub fn active(&self) -> (id: u64)
        ensures
            id == self@.active,
    {
        self.active_id
    }

    /// Issues the next identity and makes it the active one in the same
    /// step, superseding whatever was active before. An identity must be
    /// left to issue; `can_issue` tells.
    pub fn begin_connection(&mut self) -> (id: u64)
        requires
            old(self)@.last_issued < u64::MAX,
        ensures
            final(self)@ == old(self)@.begun(),
            id == old(self)@.last_issued + 1,
    {
        let id: u64 = self.next_id + 1;
        self.next_id = id;
        self.active_id = id;
        id
    }

    /// Withdraws the authorisation of whichever connection is active. It
    /// always succeeds, and doing it again changes nothing.
    pub fn invalidate(&mut self)
        ensures
            final(self)@ == old(self)@.invalidated(),
    {
        self.active_id = NO_CONNECTION;
    }

    /// Whether `id` is still the active identity.
    pub fn is_current(&self, id: u64) -> (live: bool)
        ensures
            live == self@.current(id as nat),
    {
        self.active_id == id
    }
}

impl Default for ClientState {
    /// A fresh client, as `new` gives it.
    fn default() -> (state: Self)
        ensures
            state@ == (Identities { last_issued: 0, active: 0 }),
    {
        ClientState::new()
    }
}

/// Asks the active connection to end. The request always succeeds and
/// returns at once; the connection observes it at its next liveness
/// check.
pub fn disconnect(registry: &mut ClientState) -> (done: Result<(), String>)
    ensures
        done is Ok,
        final(registry)@ == old(registry)@.invalidated(),
{
    registry.invalidate();
    Ok(())
}

} // verus!
