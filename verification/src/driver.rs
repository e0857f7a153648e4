use vstd::prelude::*;

use crate::complete::{law_deliver_keeps_requests, spec_deliver_all, spec_release_all, Completions, Cqe, Pending};
use crate::error::{completion_result, spec_completion_result, Error};

verus! {

/// What a driver knows: the requests in flight, the tokens of requests
/// given up whose completion has not arrived, and whether buffers are
/// registered with its ring.
#[verifier::ext_equal]
pub struct DriverState {
    pub pending: Pending,
    pub abandoned: Set<u64>,
    pub buffers_registered: bool,
}

impl DriverState {
    /// Whether a token is in use.
    pub open spec fn in_use(self, t: u64) -> bool {
        self.pending.contains_key(t) || self.abandoned.contains(t)
    }
}

/// What `register_buffers` does: refused while buffers are registered,
/// otherwise it marks them registered.
pub open spec fn spec_register_buffers(s: DriverState) -> (DriverState, Result<(), Error>) {
    if s.buffers_registered {
        (s, Err(Error::BufferRegistered))
    } else {
        (DriverState { buffers_registered: true, ..s }, Ok(()))
    }
}

/// What `unregister_buffers` does: it marks no buffers as registered.
pub open spec fn spec_unregister_buffers(s: DriverState) -> DriverState {
    DriverState { buffers_registered: false, ..s }
}

/// Buffers cannot be registered twice: a second registration is refused
/// until the first is undone, and after that it succeeds.
pub proof fn law_register_buffers_once(s: DriverState)
    ensures
        spec_register_buffers(spec_register_buffers(s).0).1 == Err::<(), Error>(Error::BufferRegistered),
        spec_register_buffers(spec_unregister_buffers(s)).1 is Ok,
        spec_register_buffers(s).0.pending == s.pending,
        spec_unregister_buffers(s).pending == s.pending,
{
}

/// The bookkeeping of one ring: the requests in flight, each under the
/// token it was submitted with, and whether buffers are registered. The
/// ring itself, and the calls into the kernel, stay with the caller.
pub struct Driver {
    completions: Completions,
    buffer_registered: bool,
}

impl View for Driver {
    type V = DriverState;

    closed spec fn view(&self) -> DriverState {
        DriverState {
            pending: self.completions@.pending,
            abandoned: self.completions@.abandoned,
            buffers_registered: self.buffer_registered,
        }
    }
}

impl Driver {
    /// The driver's invariant: its table of tokens is well formed.
    pub closed spec fn wf(&self) -> bool {
        self.completions.wf()
    }

    /// A driver with no token in use and no buffers registered.
    pub fn new() -> (r: Self)
        ensures
            r.wf(),
            r@.pending == Pending::empty(),
            r@.abandoned == Set::<u64>::empty(),
            !r@.buffers_registered,
    {
        Driver { completions: Completions::new(), buffer_registered: false }
    }

    /// What a well-formed driver gives its state: the token `0` is never in
    /// use, and no token is both in flight and given up.
    pub proof fn lemma_wf(&self)
        requires
            self.wf(),
        ensures
            !self@.in_use(0),
            forall|t: u64| !(#[trigger] self@.pending.contains_key(t) && self@.abandoned.contains(t)),
    {
        self.completions.lemma_wf();
    }

    /// Whether the request with this token is in flight.
    pub fn in_flight(&self, token: u64) -> (r: bool)
        requires
            self.wf(),
        ensures
            r == self@.pending.contains_key(token),
    {
        self.completions.contains(token)
    }

    /// Opens a request and returns the token to submit it with: never `0`,
    /// never a token in use.
    pub fn register_request(&mut self) -> (token: u64)
        requires
            old(self).wf(),
        ensures
            final(self).wf(),
            token != 0,
            !old(self)@.in_use(token),
            final(self)@ == (DriverState { pending: old(self)@.pending.insert(token, None), ..old(self)@ }),
    {
        self.completions.register()
    }

    /// The result of a request whose completion has arrived, which closes
    /// the request; `None`, changing nothing, while it is still waiting or
    /// when the token is not in flight.
    pub fn take_completion(&mut self, token: u64) -> (r: Option<Result<i32, Error>>)
        requires
            old(self).wf(),
        ensures
            final(self).wf(),
            old(self)@.pending.contains_key(token) && old(self)@.pending[token] is Some ==> {
                &&& r == Some(spec_completion_result(old(self)@.pending[token]->Some_0))
                &&& final(self)@ == (DriverState {
                    pending: old(self)@.pending.remove(token),
                    ..old(self)@
                })
            },
            !(old(self)@.pending.contains_key(token) && old(self)@.pending[token] is Some) ==> {
                &&& r is None
                &&& final(self)@ == old(self)@
            },
    {
        match self.completions.take(token) {
            Some(res) => Some(completion_result(res)),
            None => None,
        }
    }

    /// Gives up a request in flight: its result, if it arrived, is dropped
    /// and its token freed; if it has not arrived, the token stays in use
    /// until it does.
    pub fn abandon(&mut self, token: u64)
        requires
            old(self).wf(),
        ensures
            final(self).wf(),
            final(self)@.buffers_registered == old(self)@.buffers_registered,
            old(self)@.pending.contains_key(token) ==> {
                &&& final(self)@.pending == old(self)@.pending.remove(token)
                &&& old(self)@.pending[token] is Some ==> final(self)@.abandoned == old(self)@.abandoned
                &&& old(self)@.pending[token] is None ==> final(self)@.abandoned
                    == old(self)@.abandoned.insert(token)
            },
            !old(self)@.pending.contains_key(token) ==> final(self)@ == old(self)@,
    {
        self.completions.abandon(token)
    }

    /// The decisions of one turn of the ring, once the caller has submitted
    /// and waited for at least one completion: when the wait failed, the
    /// turn fails with `SubmitErr` and nothing is delivered; otherwise every
    /// completion reaped is delivered, in order, to the request that owns
    /// its token. A request in flight cannot be answered with `i32::MIN`,
    /// which has no error code.
    pub fn enter(&mut self, waited: bool, cqes: &Vec<Cqe>) -> (r: Result<(), Error>)
        requires
            old(self).wf(),
            forall|k: int| 0 <= k < cqes@.len() && (#[trigger] cqes@[k]).result == i32::MIN ==>
                !old(self)@.pending.contains_key(cqes@[k].user_data),
        ensures
            final(self).wf(),
            final(self)@.buffers_registered == old(self)@.buffers_registered,
            !waited ==> r == Err::<(), Error>(Error::SubmitErr) && final(self)@ == old(self)@,
            waited ==> {
                &&& r is Ok
                &&& final(self)@.pending == spec_deliver_all(old(self)@.pending, cqes@)
                &&& final(self)@.abandoned == spec_release_all(old(self)@.abandoned, cqes@)
            },
    {
        if !waited {
            return Err(Error::SubmitErr);
        }
        let mut i: usize = 0;
        while i < cqes.len()
            invariant
                self.wf(),
                self.buffer_registered == old(self).buffer_registered,
                i <= cqes@.len(),
                forall|k: int| 0 <= k < cqes@.len() && (#[trigger] cqes@[k]).result == i32::MIN ==>
                    !old(self)@.pending.contains_key(cqes@[k].user_data),
                self@.pending.dom() == old(self)@.pending.dom(),
                self@.pending == spec_deliver_all(old(self)@.pending, cqes@.subrange(0, i as int)),
                self@.abandoned == spec_release_all(old(self)@.abandoned, cqes@.subrange(0, i as int)),
            decreases cqes@.len() - i,
        {
            let cqe = cqes[i];
            self.completions.deliver(cqe);
            proof {
                law_deliver_keeps_requests(old(self)@.pending, cqes@.subrange(0, i as int + 1));
                let done = cqes@.subrange(0, i as int + 1);
                assert(done.drop_last() =~= cqes@.subrange(0, i as int));
                assert(done.last() == cqe);
            }
            i = i + 1;
        }
        assert(cqes@.subrange(0, cqes@.len() as int) =~= cqes@);
        Ok(())
    }

    /// Marks buffers as registered before the caller registers them with the
    /// ring; refused with `BufferRegistered` while others are registered.
    pub fn register_buffers(&mut self) -> (r: Result<(), Error>)
        requires
            old(self).wf(),
        ensures
            final(self).wf(),
            (final(self)@, r) == spec_register_buffers(old(self)@),
    {
        if self.buffer_registered {
            return Err(Error::BufferRegistered);
        }
        self.buffer_registered = true;
        Ok(())
    }

    /// Marks buffers as no longer registered, before the caller unregisters
    /// them with the ring.
    pub fn unregister_buffers(&mut self)
        requires
            old(self).wf(),
        ensures
            final(self).wf(),
            final(self)@ == spec_unregister_buffers(old(self)@),
    {
        self.buffer_registered = false;
    }
}

} // verus!
