use vstd::prelude::*;

use crate::driver::{Driver, DriverState};
use crate::error::{spec_completion_result, Error};

verus! {

/// A completion as the ring reports it: the token the request was
/// submitted with, and the operation's result code.
#[derive(Debug, Clone, Copy, PartialEq, Eq, Structural)]
pub struct Cqe {
    pub user_data: u64,
    pub result: i32,
}

/// The state of one token's slot.
enum Slot {
    /// No request holds the slot.
    Free,
    /// A request was submitted and its completion has not arrived.
    Waiting,
    /// The completion arrived with this result code and waits to be taken.
    Done(i32),
    /// The request was given up before its completion arrived; the slot is
    /// freed when the completion comes.
    Abandoned,
}

/// The requests in flight, each under a token (the `user_data` of its
/// submission): a request whose completion has not arrived maps to `None`,
/// one whose completion arrived maps to its result code.
pub type Pending = Map<u64, Option<i32>>;

/// What a completion does to the requests in flight: the request that owns
/// its token gets its result code; a completion whose token belongs to no
/// request in flight (among them the token `0`, which the library never
/// hands out) changes nothing.
pub open spec fn spec_deliver(pending: Pending, cqe: Cqe) -> Pending {
    if cqe.user_data != 0 && pending.contains_key(cqe.user_data) {
        pending.insert(cqe.user_data, Some(cqe.result))
    } else {
        pending
    }
}

/// What a batch of completions does, one after another in order.
pub open spec fn spec_deliver_all(pending: Pending, cqes: Seq<Cqe>) -> Pending
    decreases cqes.len(),
{
    if cqes.len() == 0 {
        pending
    } else {
        spec_deliver(spec_deliver_all(pending, cqes.drop_last()), cqes.last())
    }
}

/// The result code of the last completion in `cqes` that carries token
/// `t`, if any does.
pub open spec fn last_result_for(cqes: Seq<Cqe>, t: u64) -> Option<i32>
    decreases cqes.len(),
{
    if cqes.len() == 0 {
        None
    } else if cqes.last().user_data == t {
        Some(cqes.last().result)
    } else {
        last_result_for(cqes.drop_last(), t)
    }
}

/// Completions never open or close a request: the requests in flight are
/// the same before and after a batch is delivered.
pub proof fn law_deliver_keeps_requests(pending: Pending, cqes: Seq<Cqe>)
    ensures
        spec_deliver_all(pending, cqes).dom() == pending.dom(),
    decreases cqes.len(),
{
    if cqes.len() > 0 {
        law_deliver_keeps_requests(pending, cqes.drop_last());
        let before = spec_deliver_all(pending, cqes.drop_last());
        if cqes.last().user_data != 0 && before.contains_key(cqes.last().user_data) {
            assert(before.insert(cqes.last().user_data, Some(cqes.last().result)).dom() =~= before.dom());
        }
    }
}

/// A request in flight ends up with the result code of the last completion
/// that carries its token; with no such completion it keeps what it had.
pub proof fn law_request_gets_its_completion(pending: Pending, cqes: Seq<Cqe>, t: u64)
    requires
        t != 0,
        pending.contains_key(t),
    ensures
        spec_deliver_all(pending, cqes).contains_key(t),
        spec_deliver_all(pending, cqes)[t] == (match last_result_for(cqes, t) {
            Some(r) => Some(r),
            None => pending[t],
        }),
    decreases cqes.len(),
{
    if cqes.len() > 0 {
        law_request_gets_its_completion(pending, cqes.drop_last(), t);
        law_deliver_keeps_requests(pending, cqes.drop_last());
    }
}

/// A completion with token `0`, such as the wake-up the background runner
/// submits, is answered to no request.
pub proof fn law_token_zero_is_ignored(pending: Pending, result: i32)
    ensures
        spec_deliver(pending, Cqe { user_data: 0, result }) == pending,
{
}

/// A completion whose token is not in flight changes nothing.
pub proof fn law_unknown_token_is_ignored(pending: Pending, cqe: Cqe)
    requires
        !pending.contains_key(cqe.user_data),
    ensures
        spec_deliver(pending, cqe) == pending,
{
}

/// What a completion does to the tokens of requests given up: the token
/// it carries is free again.
pub open spec fn spec_release(abandoned: Set<u64>, cqe: Cqe) -> Set<u64> {
    abandoned.remove(cqe.user_data)
}

/// What a batch of completions does to the tokens of requests given up.
pub open spec fn spec_release_all(abandoned: Set<u64>, cqes: Seq<Cqe>) -> Set<u64>
    decreases cqes.len(),
{
    if cqes.len() == 0 {
        abandoned
    } else {
        spec_release(spec_release_all(abandoned, cqes.drop_last()), cqes.last())
    }
}

/// The token of a request given up is freed exactly when a completion
/// carrying it comes; the other tokens of requests given up stay in use.
pub proof fn law_release_frees_carried_tokens(abandoned: Set<u64>, cqes: Seq<Cqe>, t: u64)
    ensures
        spec_release_all(abandoned, cqes).contains(t) <==> (abandoned.contains(t) && last_result_for(cqes, t) is None),
    decreases cqes.len(),
{
    if cqes.len() > 0 {
        law_release_frees_carried_tokens(abandoned, cqes.drop_last(), t);
    }
}

/// The tokens in use: the requests in flight, with their results once
/// arrived, and the requests given up whose completion has not arrived.
#[verifier::ext_equal]
pub struct Table {
    pub pending: Pending,
    pub abandoned: Set<u64>,
}

impl Table {
    /// Whether a token is in use.
    pub open spec fn in_use(self, t: u64) -> bool {
        self.pending.contains_key(t) || self.abandoned.contains(t)
    }
}

/// The table of tokens in use. Tokens are slot numbers plus one, so that
/// `0` is never a token; the numbers of free slots wait in a stack to be
/// handed out again.
pub struct Completions {
    slots: Vec<Slot>,
    free: Vec<usize>,
}

spec fn slots_pending(s: Seq<Slot>) -> Pending {
    Map::new(
        |t: u64| 1 <= t <= s.len() && (s[t - 1] is Waiting || s[t - 1] is Done),
        |t: u64|
            match s[t - 1] {
                Slot::Done(r) => Some(r),
                _ => None,
            },
    )
}

spec fn slots_abandoned(s: Seq<Slot>) -> Set<u64> {
    Set::new(|t: u64| 1 <= t <= s.len() && s[t - 1] is Abandoned)
}

impl View for Completions {
    type V = Table;

    closed spec fn view(&self) -> Table {
        Table { pending: slots_pending(self.slots@), abandoned: slots_abandoned(self.slots@) }
    }
}

impl Completions {
    /// The table's invariant: the stack holds each free slot number once and
    /// nothing else, and no held result code is `i32::MIN`.
    pub closed spec fn wf(&self) -> bool {
        &&& self.free@.no_duplicates()
        &&& forall|k: int| 0 <= k < self.free@.len() ==> {
                &&& (#[trigger] self.free@[k]) < self.slots@.len()
                &&& self.slots@[self.free@[k] as int] is Free
            }
        &&& forall|i: int| 0 <= i < self.slots@.len() && (#[trigger] self.slots@[i]) is Free ==>
                self.free@.contains(i as usize)
        &&& forall|i: int| 0 <= i < self.slots@.len() ==>
                (#[trigger] self.slots@[i] matches Slot::Done(r) ==> r != i32::MIN)
    }

    /// An empty table.
    pub fn new() -> (r: Self)
        ensures
            r.wf(),
            r@.pending == Pending::empty(),
            r@.abandoned == Set::<u64>::empty(),
    {
        let r = Completions { slots: Vec::new(), free: Vec::new() };
        assert(r@.pending =~= Pending::empty());
        assert(r@.abandoned =~= Set::<u64>::empty());
        r
    }

    /// What a well-formed table gives its view: the token `0` is never in
    /// use, and no token is both in flight and given up.
    pub proof fn lemma_wf(&self)
        requires
            self.wf(),
        ensures
            !self@.in_use(0),
            forall|t: u64| !(#[trigger] self@.pending.contains_key(t) && self@.abandoned.contains(t)),
    {
    }

    /// Whether the request with this token is in flight.
    pub fn contains(&self, token: u64) -> (r: bool)
        requires
            self.wf(),
        ensures
            r == self@.pending.contains_key(token),
    {
        if token == 0 || !(((token - 1) as u128) < (self.slots.len() as u128)) {
            return false;
        }
        match self.slots[(token - 1) as usize] {
            Slot::Waiting => true,
            Slot::Done(_) => true,
            _ => false,
        }
    }

    /// Opens a slot for a new request and returns its token: never `0`,
    /// never a token in use.
    pub fn register(&mut self) -> (token: u64)
        requires
            old(self).wf(),
        ensures
            final(self).wf(),
            token != 0,
            !old(self)@.in_use(token),
            final(self)@.pending == old(self)@.pending.insert(token, None),
            final(self)@.abandoned == old(self)@.abandoned,
    {
        let index: usize;
        if self.free.len() > 0 {
            let i = self.free.pop().unwrap();
            let len = self.slots.len();
            proof {
                assert(self.free@ =~= old(self).free@.drop_last());
                assert(old(self).free@[old(self).free@.len() - 1] == i);
            }
            self.slots.set(i, Slot::Waiting);
            index = i;
            proof {
                assert forall|k: int| 0 <= k < self.free@.len() implies (#[trigger] self.free@[k]) != i by {
                    assert(old(self).free@[k] != old(self).free@[old(self).free@.len() - 1]);
                }
                assert forall|j: int| 0 <= j < self.slots@.len() && (#[trigger] self.slots@[j]) is Free implies
                    self.free@.contains(j as usize) by {
                    assert(old(self).free@.contains(j as usize));
                    let k = choose|k: int| 0 <= k < old(self).free@.len() && old(self).free@[k] == j as usize;
                    assert(k != old(self).free@.len() - 1);
                    assert(self.free@[k] == j as usize);
                }
            }
        } else {
            index = self.slots.len();
            self.slots.push(Slot::Waiting);
            let grown = self.slots.len();
            assert(index < grown);
            proof {
                assert forall|j: int| 0 <= j < self.slots@.len() && (#[trigger] self.slots@[j]) is Free implies
                    self.free@.contains(j as usize) by {
                    assert(old(self).slots@[j] is Free);
                }
            }
        }
        let token = index as u64 + 1;
        proof {
            assert(self@.pending =~= old(self)@.pending.insert(token, None));
            assert(self@.abandoned =~= old(self)@.abandoned);
        }
        token
    }

    /// Frees the slot `index`, which some token holds.
    fn free_slot(&mut self, index: usize)
        requires
            old(self).wf(),
            index < old(self).slots@.len(),
            !(old(self).slots@[index as int] is Free),
        ensures
            final(self).wf(),
            final(self).slots@ == old(self).slots@.update(index as int, Slot::Free),
    {
        let ghost before = self.slots@;
        self.slots.set(index, Slot::Free);
        self.free.push(index);
        proof {
            assert(!old(self).free@.contains(index)) by {
                if old(self).free@.contains(index) {
                    let k = choose|k: int| 0 <= k < old(self).free@.len() && old(self).free@[k] == index;
                    assert(before[old(self).free@[k] as int] is Free);
                }
            }
            assert forall|a: int, b: int| 0 <= a < b < self.free@.len() implies self.free@[a] != self.free@[b] by {
                if b == old(self).free@.len() {
                    assert(old(self).free@[a] == self.free@[a]);
                }
            }
            assert forall|i: int| 0 <= i < self.slots@.len() && (#[trigger] self.slots@[i]) is Free implies
                self.free@.contains(i as usize) by {
                if i == index {
                    assert(self.free@[self.free@.len() - 1] == index);
                } else {
                    assert(old(self).free@.contains(i as usize));
                    let k = choose|k: int| 0 <= k < old(self).free@.len() && old(self).free@[k] == i as usize;
                    assert(self.free@[k] == i as usize);
                }
            }
        }
    }

    /// Records a completion: the request that owns its token gets the
    /// result code; the token of a request given up is freed; any other
    /// completion is ignored. A request in flight cannot be answered with
    /// `i32::MIN`, which has no error code.
    pub fn deliver(&mut self, cqe: Cqe)
        requires
            old(self).wf(),
            cqe.result == i32::MIN ==> !old(self)@.pending.contains_key(cqe.user_data),
        ensures
            final(self).wf(),
            final(self)@.pending == spec_deliver(old(self)@.pending, cqe),
            final(self)@.abandoned == spec_release(old(self)@.abandoned, cqe),
    {
        let token = cqe.user_data;
        if token == 0 {
            assert(self@.abandoned =~= old(self)@.abandoned.remove(0));
            return;
        }
        let index = (token - 1) as usize;
        if ((token - 1) as u128) < (self.slots.len() as u128) {
            match self.slots[index] {
                Slot::Free => {
                    assert(self@.abandoned =~= old(self)@.abandoned.remove(token));
                },
                Slot::Abandoned => {
                    self.free_slot(index);
                    assert(self@.pending =~= old(self)@.pending);
                    assert(self@.abandoned =~= old(self)@.abandoned.remove(token));
                },
                _ => {
                    self.slots.set(index, Slot::Done(cqe.result));
                    proof {
                        assert(self@.pending =~= old(self)@.pending.insert(token, Some(cqe.result)));
                        assert(self@.abandoned =~= old(self)@.abandoned.remove(token));
                    }
                },
            }
        } else {
            assert(self@.abandoned =~= old(self)@.abandoned.remove(token));
        }
    }

    /// Takes the result of a request whose completion has arrived, freeing
    /// its token; a request still waiting, or a token of no request, gives
    /// `None` and changes nothing.
    pub fn take(&mut self, token: u64) -> (r: Option<i32>)
        requires
            old(self).wf(),
        ensures
            final(self).wf(),
            final(self)@.abandoned == old(self)@.abandoned,
            old(self)@.pending.contains_key(token) && old(self)@.pending[token] is Some ==> {
                &&& r == old(self)@.pending[token]
                &&& final(self)@.pending == old(self)@.pending.remove(token)
            },
            !(old(self)@.pending.contains_key(token) && old(self)@.pending[token] is Some) ==> {
                &&& r is None
                &&& final(self)@ == old(self)@
            },
            r matches Some(v) ==> v != i32::MIN,
    {
        if token == 0 || !(((token - 1) as u128) < (self.slots.len() as u128)) {
            return None;
        }
        let index = (token - 1) as usize;
        match self.slots[index] {
            Slot::Done(res) => {
                self.free_slot(index);
                assert(self@.pending =~= old(self)@.pending.remove(token));
                assert(self@.abandoned =~= old(self)@.abandoned);
                Some(res)
            },
            _ => None,
        }
    }

    /// Gives up a request: one whose completion has arrived frees its token
    /// at once; one still waiting keeps its token until its completion
    /// comes, and is no longer in flight; a token of no request changes
    /// nothing.
    pub fn abandon(&mut self, token: u64)
        requires
            old(self).wf(),
        ensures
            final(self).wf(),
            old(self)@.pending.contains_key(token) ==> {
                &&& final(self)@.pending == old(self)@.pending.remove(token)
                &&& old(self)@.pending[token] is Some ==> final(self)@.abandoned == old(self)@.abandoned
                &&& old(self)@.pending[token] is None ==> final(self)@.abandoned == old(self)@.abandoned.insert(token)
            },
            !old(self)@.pending.contains_key(token) ==> final(self)@ == old(self)@,
    {
        if token == 0 || !(((token - 1) as u128) < (self.slots.len() as u128)) {
            return;
        }
        let index = (token - 1) as usize;
        match self.slots[index] {
            Slot::Done(_) => {
                self.free_slot(index);
                assert(self@.pending =~= old(self)@.pending.remove(token));
                assert(self@.abandoned =~= old(self)@.abandoned);
            },
            Slot::Waiting => {
                self.slots.set(index, Slot::Abandoned);
                assert(self@.pending =~= old(self)@.pending.remove(token));
                assert(self@.abandoned =~= old(self)@.abandoned.insert(token));
            },
            _ => {},
        }
    }
}

/// Where one request stands.
#[derive(Debug, Clone, Copy, PartialEq, Eq, Structural)]
pub enum CompleteState {
    /// Not submitted yet.
    Unsubmitted,
    /// Submitted under this token; its result has not been taken.
    Waiting(u64),
    /// Its result was handed out.
    Finished,
}

/// What a poll of a request tells the caller to do.
#[derive(Debug, Clone, Copy, PartialEq, Eq)]
pub enum PollStep {
    /// Submit the request with this token as its `user_data`, then wait.
    Submit(u64),
    /// Wait: the completion has not arrived.
    Pending,
    /// The request is done, with this result.
    Ready(Result<i32, Error>),
}

/// What a poll does once the request has been submitted: a request whose
/// completion has arrived is done, with the result the completion carried,
/// and its token is freed; any other poll waits and changes nothing.
pub open spec fn spec_poll_submitted(state: CompleteState, d: DriverState) -> (CompleteState, DriverState, PollStep) {
    match state {
        CompleteState::Waiting(t) => {
            if d.pending.contains_key(t) && d.pending[t] is Some {
                (
                    CompleteState::Finished,
                    DriverState { pending: d.pending.remove(t), ..d },
                    PollStep::Ready(spec_completion_result(d.pending[t]->Some_0)),
                )
            } else {
                (state, d, PollStep::Pending)
            }
        },
        _ => (state, d, PollStep::Pending),
    }
}

/// When the completion of a submitted request has arrived with code `c`,
/// the poll hands out exactly the completion's result (the value `c` when
/// it is not negative, the OS error `-c` otherwise), finishes the request
/// and frees its token, touching nothing else.
pub proof fn law_poll_hands_out_the_completion(t: u64, d: DriverState, c: i32)
    requires
        d.pending.contains_key(t),
        d.pending[t] == Some(c),
        c != i32::MIN,
    ensures
        ({
            let (s2, d2, step) = spec_poll_submitted(CompleteState::Waiting(t), d);
            &&& s2 == CompleteState::Finished
            &&& c >= 0 ==> step == PollStep::Ready(Ok(c))
            &&& c < 0 ==> step == PollStep::Ready(Err(Error::Os(-c as i32)))
            &&& !d2.pending.contains_key(t)
            &&& forall|u: u64| u != t ==> (d2.pending.contains_key(u) == d.pending.contains_key(u)
                && d2.pending[u] == d.pending[u])
            &&& d2.abandoned == d.abandoned
            &&& d2.buffers_registered == d.buffers_registered
        }),
{
}

/// `k` polls in a row of a request that has been submitted, with no
/// completion delivered in between: the request's state and the driver's
/// after them, and what each poll answered.
pub open spec fn spec_polls(state: CompleteState, d: DriverState, k: nat) -> (CompleteState, DriverState, Seq<PollStep>)
    decreases k,
{
    if k == 0 {
        (state, d, Seq::empty())
    } else {
        let (s1, d1, steps) = spec_polls(state, d, (k - 1) as nat);
        let (s2, d2, step) = spec_poll_submitted(s1, d1);
        (s2, d2, steps.push(step))
    }
}

/// A request is submitted once: after the first poll, no poll asks for a
/// submission again, whatever has arrived.
pub proof fn law_submitted_once(state: CompleteState, d: DriverState, k: nat)
    requires
        !(state is Unsubmitted),
    ensures
        !(spec_polls(state, d, k).0 is Unsubmitted),
        forall|i: int| 0 <= i < k ==> !(#[trigger] spec_polls(state, d, k).2[i] is Submit),
        spec_polls(state, d, k).2.len() == k,
    decreases k,
{
    if k > 0 {
        law_submitted_once(state, d, (k - 1) as nat);
        let (s1, d1, steps) = spec_polls(state, d, (k - 1) as nat);
        assert forall|i: int| 0 <= i < k implies !(#[trigger] spec_polls(state, d, k).2[i] is Submit) by {
            if i < k - 1 {
                assert(spec_polls(state, d, k).2[i] == steps[i]);
            }
        }
    }
}

/// Until its completion arrives, a submitted request answers every poll
/// with `Pending` and changes nothing; a finished request does the same
/// for ever.
pub proof fn law_waits_until_completion(state: CompleteState, d: DriverState, k: nat)
    requires
        !(state is Unsubmitted),
        state matches CompleteState::Waiting(t) ==> !(d.pending.contains_key(t) && d.pending[t] is Some),
    ensures
        spec_polls(state, d, k) == (state, d, Seq::new(k, |i: int| PollStep::Pending)),
    decreases k,
{
    if k > 0 {
        law_waits_until_completion(state, d, (k - 1) as nat);
        assert(Seq::new((k - 1) as nat, |i: int| PollStep::Pending).push(PollStep::Pending)
            =~= Seq::new(k, |i: int| PollStep::Pending));
    } else {
        assert(Seq::<PollStep>::empty() =~= Seq::new(0, |i: int| PollStep::Pending));
    }
}

/// One request, from its submission to its result: the first poll opens
/// the request with the driver and asks for it to be submitted; a later
/// poll hands out the result once the completion has arrived.
pub struct Complete {
    state: CompleteState,
}

impl Complete {
    pub closed spec fn state(&self) -> CompleteState {
        self.state
    }

    /// A request that has not been submitted.
    pub fn new() -> (r: Self)
        ensures
            r.state() == CompleteState::Unsubmitted,
    {
        Complete { state: CompleteState::Unsubmitted }
    }

    /// Where the request stands.
    pub fn current_state(&self) -> (r: CompleteState)
        ensures
            r == self.state(),
    {
        self.state
    }

    /// One poll of the request.
    pub fn poll(&mut self, driver: &mut Driver) -> (r: PollStep)
        requires
            old(driver).wf(),
        ensures
            final(driver).wf(),
            old(self).state() is Unsubmitted ==> {
                &&& r matches PollStep::Submit(t)
                &&& t != 0
                &&& !old(driver)@.in_use(t)
                &&& final(driver)@ == (DriverState { pending: old(driver)@.pending.insert(t, None), ..old(driver)@ })
                &&& final(self).state() == CompleteState::Waiting(t)
            },
            !(old(self).state() is Unsubmitted) ==>
                (final(self).state(), final(driver)@, r) == spec_poll_submitted(old(self).state(), old(driver)@),
            ({
                let t = old(self).state()->Waiting_0;
                old(self).state() is Waiting && old(driver)@.pending.contains_key(t)
                    && old(driver)@.pending[t] is Some ==> {
                    let c = old(driver)@.pending[t]->Some_0;
                    &&& c >= 0 ==> r == PollStep::Ready(Ok(c))
                    &&& c < 0 ==> r == PollStep::Ready(Err(Error::Os(-c as i32)))
                    &&& final(self).state() == CompleteState::Finished
                    &&& !final(driver)@.pending.contains_key(t)
                }
            }),
    {
        match self.state {
            CompleteState::Unsubmitted => {
                let token = driver.register_request();
                self.state = CompleteState::Waiting(token);
                PollStep::Submit(token)
            },
            CompleteState::Waiting(token) => {
                match driver.take_completion(token) {
                    Some(res) => {
                        self.state = CompleteState::Finished;
                        PollStep::Ready(res)
                    },
                    None => PollStep::Pending,
                }
            },
            CompleteState::Finished => PollStep::Pending,
        }
    }

    /// Gives up the request, as when it is dropped before its result was
    /// handed out: a request waiting on the ring is abandoned with the
    /// driver, so that its token stays in use until its completion comes.
    pub fn cancel(&mut self, driver: &mut Driver)
        requires
            old(driver).wf(),
        ensures
            final(driver).wf(),
            final(self).state() is Finished,
            old(self).state() matches CompleteState::Waiting(t) ==> {
                &&& old(driver)@.pending.contains_key(t) ==> {
                    &&& final(driver)@.pending == old(driver)@.pending.remove(t)
                    &&& old(driver)@.pending[t] is None ==> final(driver)@.abandoned
                        == old(driver)@.abandoned.insert(t)
                    &&& old(driver)@.pending[t] is Some ==> final(driver)@.abandoned == old(driver)@.abandoned
                }
                &&& !old(driver)@.pending.contains_key(t) ==> final(driver)@ == old(driver)@
                &&& final(driver)@.buffers_registered == old(driver)@.buffers_registered
            },
            !(old(self).state() is Waiting) ==> final(driver)@ == old(driver)@,
    {
        match self.state {
            CompleteState::Waiting(token) => driver.abandon(token),
            _ => {},
        }
        self.state = CompleteState::Finished;
    }
}

} // verus!
