//! The communication-endpoint handle that owns the loaned buffers and
//! services the return-loan calls.
//!
//! The endpoint is the one shared resource behind all loaned-message views.
//! Exclusive access to it (`&mut Endpoint`) stands for holding its internal
//! lock: return-loan calls against the same endpoint are thereby serialized,
//! and the middleware never observes two concurrent returns.

use vstd::prelude::*;
use vstd::seq_lib::seq_to_set_is_finite;

verus! {

/// Error from the middleware's loan-return primitive. A failed return means
/// the loan accounting has been violated by something outside the endpoint's
/// control; callers must treat it as unrecoverable rather than retry.
#[derive(Clone, Copy, Debug, PartialEq, Eq, Structural)]
pub enum MiddlewareError {
    /// The address handed back is not an outstanding loan on this endpoint.
    UnknownLoan,
}

/// Mathematical state of an endpoint handle.
pub struct EndpointView {
    /// Identity of the endpoint; a loan is only ever returned to the endpoint
    /// that issued it.
    pub id: u64,
    /// Addresses of the loans currently outstanding.
    pub outstanding: Set<u64>,
    /// How many loans this endpoint has issued in total.
    pub loans_issued: u64,
    /// How many loans have been returned to it in total.
    pub returns_issued: u64,
}

/// The endpoint handle: issues loans on middleware-owned buffers and takes
/// them back. Shared by potentially many loaned-message views; its loan
/// accounting is the ground truth for the single-release guarantee.
pub struct Endpoint {
    id: u64,
    loans: Vec<u64>,
    loans_issued: u64,
    returns_issued: u64,
}

impl View for Endpoint {
    type V = EndpointView;

    closed spec fn view(&self) -> EndpointView {
        EndpointView {
            id: self.id,
            outstanding: self.loans@.to_set(),
            loans_issued: self.loans_issued,
            returns_issued: self.returns_issued,
        }
    }
}

impl Endpoint {
    /// Loan accounting is balanced: no address is loaned out twice at once,
    /// and outstanding loans plus returns issued equals loans issued.
    pub closed spec fn wf(self) -> bool {
        &&& self.loans@.no_duplicates()
        &&& self.loans@.len() + self.returns_issued == self.loans_issued
    }

    /// A fresh endpoint with no outstanding loans and zeroed counters.
    pub fn new(id: u64) -> (e: Endpoint)
        ensures
            e.wf(),
            e@.id == id,
            e@.outstanding == Set::<u64>::empty(),
            e@.loans_issued == 0,
            e@.returns_issued == 0,
    {
        let e = Endpoint { id, loans: Vec::new(), loans_issued: 0, returns_issued: 0 };
        proof {
            assert(e.loans@.to_set() =~= Set::<u64>::empty());
        }
        e
    }

    /// Identity of this endpoint.
    pub fn id(&self) -> (i: u64)
        ensures
            i == self@.id,
    {
        self.id
    }

    /// How many loans this endpoint has issued in total.
    pub fn loans_issued(&self) -> (n: u64)
        ensures
            n == self@.loans_issued,
    {
        self.loans_issued
    }

    /// How many loans have been returned to this endpoint in total.
    pub fn returns_issued(&self) -> (n: u64)
        ensures
            n == self@.returns_issued,
    {
        self.returns_issued
    }

    /// Whether the loan at `address` is currently outstanding.
    pub fn is_outstanding(&self, address: u64) -> (r: bool)
        ensures
            r == self@.outstanding.contains(address),
    {
        let n: usize = self.loans.len();
        let mut i: usize = 0;
        while i < n
            invariant
                i <= n,
                n == self.loans@.len(),
                forall|j: int| 0 <= j < i ==> self.loans@[j] != address,
            decreases n - i,
        {
            if self.loans[i] == address {
                return true;
            }
            i = i + 1;
        }
        proof {
            assert(!self.loans@.contains(address));
        }
        false
    }

    /// Record a freshly issued loan at `address`. Acquisition itself — how
    /// the middleware picks the buffer — is the producer's business; the
    /// endpoint only accounts for the loan being outstanding from now on.
    pub(crate) fn record_loan(&mut self, address: u64)
        requires
            old(self).wf(),
            !old(self)@.outstanding.contains(address),
            old(self)@.loans_issued < u64::MAX,
        ensures
            final(self).wf(),
            final(self)@.id == old(self)@.id,
            final(self)@.outstanding == old(self)@.outstanding.insert(address),
            final(self)@.loans_issued == old(self)@.loans_issued + 1,
            final(self)@.returns_issued == old(self)@.returns_issued,
    {
        proof {
            let s = self.loans@;
            assert(!s.contains(address));
            assert forall|k1: int, k2: int|
                0 <= k1 < s.push(address).len() && 0 <= k2 < s.push(address).len() && k1 != k2
                implies s.push(address)[k1] != s.push(address)[k2] by {
                if k1 < s.len() && k2 < s.len() {
                    assert(s[k1] != s[k2]);
                } else if k1 == s.len() {
                    assert(s.contains(s[k2]) && s.push(address)[k1] == address);
                } else {
                    assert(s.contains(s[k1]) && s.push(address)[k2] == address);
                }
            }
            s.lemma_push_to_set_commute(address);
        }
        self.loans.push(address);
        self.loans_issued = self.loans_issued + 1;
    }

    /// The middleware's loan-return primitive. Returns `Ok` and strikes the
    /// loan from the outstanding set exactly when `address` is an outstanding
    /// loan on this endpoint; any other address is refused unchanged, which
    /// callers must treat as an unrecoverable accounting violation.
    ///
    /// Taking the endpoint `&mut` stands for holding its internal lock, so
    /// returns against one endpoint are serialized.
    pub fn return_loan(&mut self, address: u64) -> (r: Result<(), MiddlewareError>)
        requires
            old(self).wf(),
        ensures
            final(self).wf(),
            final(self)@.id == old(self)@.id,
            final(self)@.loans_issued == old(self)@.loans_issued,
            r is Ok <==> old(self)@.outstanding.contains(address),
            r is Ok ==> final(self)@.outstanding == old(self)@.outstanding.remove(address),
            r is Ok ==> final(self)@.returns_issued == old(self)@.returns_issued + 1,
            r is Err ==> *final(self) == *old(self),
            r is Err ==> r == Err::<(), MiddlewareError>(MiddlewareError::UnknownLoan),
    {
        let n: usize = self.loans.len();
        let mut i: usize = 0;
        while i < n
            invariant
                i <= n,
                old(self).wf(),
                *self == *old(self),
                n == self.loans@.len(),
                forall|j: int| 0 <= j < i ==> self.loans@[j] != address,
            decreases n - i,
        {
            if self.loans[i] == address {
                proof {
                    let s = self.loans@;
                    let idx = i as int;
                    let t = s.remove(idx);
                    assert(s.no_duplicates());
                    assert(s[idx] == address);
                    assert(s.to_set().contains(address));
                    s.remove_ensures(idx);
                    assert forall|x: u64|
                        t.to_set().contains(x) <==> s.to_set().remove(address).contains(x) by {
                        if t.contains(x) {
                            let k = choose|k: int| 0 <= k < t.len() && t[k] == x;
                            if k < idx {
                                assert(s[k] == x);
                                assert(s[k] != s[idx]);
                            } else {
                                assert(s[k + 1] == x);
                                assert(s[k + 1] != s[idx]);
                            }
                            assert(s.contains(x));
                            assert(x != address);
                        }
                        if s.contains(x) && x != address {
                            let j = choose|j: int| 0 <= j < s.len() && s[j] == x;
                            assert(j != idx);
                            if j < idx {
                                assert(t[j] == x);
                            } else {
                                assert(t[j - 1] == x);
                            }
                            assert(t.contains(x));
                        }
                    }
                    assert(t.to_set() =~= s.to_set().remove(address));
                    assert forall|k1: int, k2: int|
                        0 <= k1 < t.len() && 0 <= k2 < t.len() && k1 != k2
                        implies t[k1] != t[k2] by {
                        let o1: int = if k1 < idx { k1 } else { k1 + 1 };
                        let o2: int = if k2 < idx { k2 } else { k2 + 1 };
                        assert(t[k1] == s[o1]);
                        assert(t[k2] == s[o2]);
                        assert(o1 != o2);
                    }
                    assert(t.no_duplicates());
                }
                self.loans.remove(i);
                self.returns_issued = self.returns_issued + 1;
                return Ok(());
            }
            i = i + 1;
        }
        proof {
            assert(!self.loans@.contains(address));
        }
        Err(MiddlewareError::UnknownLoan)
    }

    /// Loan accounting, the heart of the single-release guarantee: on a
    /// well-formed endpoint the loans issued split exactly into those still
    /// outstanding and those returned — never more returns than issues, and
    /// once no loan is outstanding, returns equal issues. Since constructing
    /// a view issues one loan and releasing a view returns one, a run that
    /// drops every view has issued exactly one return per view constructed.
    pub proof fn lemma_loan_accounting(self)
        requires
            self.wf(),
        ensures
            self@.outstanding.finite(),
            self@.outstanding.len() + self@.returns_issued == self@.loans_issued,
            self@.returns_issued <= self@.loans_issued,
            self@.outstanding.is_empty() ==> self@.returns_issued == self@.loans_issued,
    {
        broadcast use seq_to_set_is_finite;

        self.loans@.unique_seq_to_set();
    }
}

} // verus!
