use vstd::prelude::*;

verus! {

/// Hands out connection identifiers: 0, 1, 2, ... in order of acceptance.
pub struct ConnectionIds {
    next: u64,
    issued: Ghost<Seq<u64>>,
}

impl ConnectionIds {
    /// The identifiers handed out so far, in order.
    pub closed spec fn handed_out(&self) -> Seq<u64> {
        self.issued@
    }

    pub closed spec fn wf(&self) -> bool {
        &&& self.next == self.issued@.len()
        &&& forall|i: int| 0 <= i < self.issued@.len() ==> self.issued@[i] == i
    }

    /// A source that has handed out nothing.
    pub fn new() -> (r: ConnectionIds)
        ensures
            r.wf(),
            r.handed_out() == Seq::<u64>::empty(),
    {
        ConnectionIds { next: 0, issued: Ghost(Seq::empty()) }
    }

    /// The next identifier; `None` once every `u64` has been handed out.
    pub fn next_id(&mut self) -> (r: Option<u64>)
        requires
            old(self).wf(),
        ensures
            final(self).wf(),
            old(self).handed_out().len() < u64::MAX ==> r == Some(old(self).handed_out().len() as u64)
                && final(self).handed_out() == old(self).handed_out().push(r->Some_0),
            old(self).handed_out().len() >= u64::MAX ==> r is None && final(self).handed_out()
                == old(self).handed_out(),
    {
        if self.next == u64::MAX {
            return None;
        }
        let id = self.next;
        self.issued = Ghost(self.issued@.push(id));
        self.next = self.next + 1;
        Some(id)
    }
}

/// The identifiers handed out form the sequence 0, 1, 2, ...: strictly increasing from 0.
pub proof fn lemma_ids_increase(ids: ConnectionIds)
    requires
        ids.wf(),
    ensures
        forall|i: int| 0 <= i < ids.handed_out().len() ==> ids.handed_out()[i] == i,
        forall|i: int, j: int|
            0 <= i < j < ids.handed_out().len() ==> ids.handed_out()[i] < ids.handed_out()[j],
{
}

} // verus!
