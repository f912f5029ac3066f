//! The loaned-message view: a typed, read-only projection over a
//! middleware-owned buffer, returned to its endpoint exactly once.

use vstd::prelude::*;
use crate::endpoint::Endpoint;

verus! {

/// Mathematical view of a loaned-message view: the endpoint the loan belongs
/// to, the loaned address, and the wire-native message readable there.
pub struct LoanedMessageView<T> {
    pub endpoint_id: u64,
    pub address: u64,
    pub msg: T,
}

/// A message that is owned by the middleware, loaned out for reading.
///
/// `T` is the wire-native representation of the message: its in-memory layout
/// exactly as the middleware produces it. The view exposes `T` read-only for
/// its whole lifetime and returns the loan when it is released; release
/// consumes the view, so a released view can no longer be read — that a loan
/// is returned at most once is enforced by the type, not checked at run time.
pub struct ReadOnlyLoanedMessage<T> {
    endpoint_id: u64,
    address: u64,
    msg: T,
}

impl<T> View for ReadOnlyLoanedMessage<T> {
    type V = LoanedMessageView<T>;

    closed spec fn view(&self) -> LoanedMessageView<T> {
        LoanedMessageView { endpoint_id: self.endpoint_id, address: self.address, msg: self.msg }
    }
}

impl Endpoint {
    /// Acquisition, the producer side of a loan: the middleware hands over a
    /// freshly issued address together with the wire-native message readable
    /// there, and the endpoint accounts for one more outstanding loan. The
    /// view returned uniquely represents that loan until it is released: no
    /// aliasing view is ever created for the same outstanding loan, which the
    /// precondition that `address` not already be outstanding enforces.
    pub fn issue_loan<T>(&mut self, address: u64, msg: T) -> (v: ReadOnlyLoanedMessage<T>)
        requires
            old(self).wf(),
            !old(self)@.outstanding.contains(address),
            old(self)@.loans_issued < u64::MAX,
        ensures
            final(self).wf(),
            final(self)@.id == old(self)@.id,
            final(self)@.outstanding == old(self)@.outstanding.insert(address),
            final(self)@.loans_issued == old(self)@.loans_issued + 1,
            final(self)@.returns_issued == old(self)@.returns_issued,
            v@.endpoint_id == old(self)@.id,
            v@.address == address,
            v@.msg == msg,
    {
        let endpoint_id = self.id();
        self.record_loan(address);
        ReadOnlyLoanedMessage { endpoint_id, address, msg }
    }
}

impl<T> ReadOnlyLoanedMessage<T> {
    /// Read access to the wire-native message. Cannot fail, and cannot
    /// mutate anything: repeated reads of one view see the same value.
    pub fn message(&self) -> (m: &T)
        ensures
            *m == self@.msg,
    {
        &self.msg
    }

    /// The loaned address this view reads.
    pub fn address(&self) -> (a: u64)
        ensures
            a == self@.address,
    {
        self.address
    }

    /// Identity of the endpoint the loan belongs to.
    pub fn endpoint_id(&self) -> (i: u64)
        ensures
            i == self@.endpoint_id,
    {
        self.endpoint_id
    }

    /// Return the loan to the endpoint it was issued by. Consuming the view
    /// here is what runs at the end of the view's scope, on every exit path:
    /// afterwards the view no longer exists, so the address can no longer be
    /// read and the loan cannot be returned a second time.
    ///
    /// A view only ever holds a loan that is outstanding on its own endpoint
    /// — the precondition restates the acquisition postcondition — so the
    /// middleware's return primitive cannot refuse it; a refusal would mean
    /// the accounting invariant was broken outside this library, and is
    /// verified unreachable here rather than handled.
    pub fn release(self, endpoint: &mut Endpoint)
        requires
            old(endpoint).wf(),
            old(endpoint)@.id == self@.endpoint_id,
            old(endpoint)@.outstanding.contains(self@.address),
        ensures
            final(endpoint).wf(),
            final(endpoint)@.id == old(endpoint)@.id,
            final(endpoint)@.outstanding == old(endpoint)@.outstanding.remove(self@.address),
            final(endpoint)@.loans_issued == old(endpoint)@.loans_issued,
            final(endpoint)@.returns_issued == old(endpoint)@.returns_issued + 1,
    {
        match endpoint.return_loan(self.address) {
            Ok(()) => { }
            Err(_) => vstd::pervasive::unreached(),
        }
    }
}

/// Read-only law: a read returns exactly the message the view projects
/// (`message` ensures this) and mutates nothing, so any two reads of one view
/// return identical values, however often and in whatever order they happen.
pub proof fn lemma_repeated_reads_identical<T>(v: ReadOnlyLoanedMessage<T>, first: T, second: T)
    requires
        first == v@.msg,
        second == v@.msg,
    ensures
        first == second,
{
}

} // verus!
