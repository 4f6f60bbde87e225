//! What becomes of an event that a grid passes on to its children.
//!
//! The children are paired with the placements of a layout, first with
//! first, and every child that has a placement receives the event, whatever
//! the children before it made of it. The event is captured if one of them
//! captured it.

use vstd::prelude::*;

verus! {

/// What became of an event.
#[derive(Clone, Copy, Debug, PartialEq, Eq, Structural)]
pub enum Status {
    /// Nobody handled the event.
    Ignored,
    /// Somebody handled the event.
    Captured,
}

impl Status {
    /// Two statuses as one: captured as soon as one of them is.
    pub open spec fn merge_spec(self, b: Status) -> Status {
        match self {
            Status::Ignored => b,
            Status::Captured => Status::Captured,
        }
    }

    /// Two statuses as one: captured as soon as one of them is.
    pub fn merge(self, b: Status) -> (merged: Status)
        ensures
            merged == self.merge_spec(b),
    {
        match self {
            Status::Ignored => b,
            Status::Captured => Status::Captured,
        }
    }
}

/// The first `count` statuses merged one after the other, beginning with
/// [`Status::Ignored`].
pub open spec fn merged_first(statuses: Seq<Status>, count: nat) -> Status
    decreases count,
{
    if count == 0 {
        Status::Ignored
    } else {
        merged_first(statuses, (count - 1) as nat).merge_spec(statuses[count - 1])
    }
}

/// All the statuses merged one after the other, beginning with
/// [`Status::Ignored`].
pub open spec fn merged(statuses: Seq<Status>) -> Status {
    merged_first(statuses, statuses.len())
}

/// Whether one of the statuses is [`Status::Captured`].
pub open spec fn any_captured(statuses: Seq<Status>) -> bool {
    exists|i: int| 0 <= i < statuses.len() && statuses[i] == Status::Captured
}

/// Merging the first `count` statuses gives captured exactly if one of
/// them is.
pub proof fn lemma_merged_first(statuses: Seq<Status>, count: nat)
    requires
        count <= statuses.len(),
    ensures
        merged_first(statuses, count) == Status::Captured <==> exists|i: int|
            0 <= i < count && statuses[i] == Status::Captured,
    decreases count,
{
    if count > 0 {
        lemma_merged_first(statuses, (count - 1) as nat);
        if merged_first(statuses, count) == Status::Captured {
            if statuses[count - 1] == Status::Captured {
                assert(0 <= count - 1 < count && statuses[count - 1] == Status::Captured);
            } else {
                let i = choose|i: int| 0 <= i < count - 1 && statuses[i] == Status::Captured;
                assert(0 <= i < count && statuses[i] == Status::Captured);
            }
        }
    }
}

/// The status of an event that was passed on to several children, from the
/// status that each of them reported: captured exactly if one of them
/// captured it, wherever in the order it stands.
pub fn merge_all(statuses: &Vec<Status>) -> (status: Status)
    ensures
        status == merged(statuses@),
        status == Status::Captured <==> any_captured(statuses@),
{
    let mut status = Status::Ignored;
    let mut i: usize = 0;
    while i < statuses.len()
        invariant
            i <= statuses.len(),
            status == merged_first(statuses@, i as nat),
        decreases statuses.len() - i,
    {
        status = status.merge(statuses[i]);
        i += 1;
    }
    proof {
        lemma_merged_first(statuses@, statuses@.len());
    }
    status
}

/// How many children receive an event, of `children` children that are
/// paired with `layouts` placements: as many as the shorter of the two.
pub open spec fn pairs(children: nat, layouts: nat) -> nat {
    if children <= layouts {
        children
    } else {
        layouts
    }
}

/// Whether `statuses` holds, for each of the first `count` children in turn,
/// a status that `handle` may report for it.
pub open spec fn reported<F: FnMut(usize) -> Status>(handle: F, count: nat, statuses: Seq<Status>) -> bool {
    &&& statuses.len() == count
    &&& forall|i: int|
        0 <= i < count ==> call_ensures(handle, (i as usize,), #[trigger] statuses[i])
}

/// Passes an event on to children that are paired with placements, and says
/// what became of it.
///
/// `handle` is called with the index of every child that has a placement,
/// from the first on and each in turn, also after a child has captured the
/// event, and reports what that child made of it. The event is captured
/// exactly if one of these children captured it.
pub fn forward<F: FnMut(usize) -> Status>(children: usize, layouts: usize, handle: F) -> (status:
    Status)
    requires
        forall|index: usize|
            index < pairs(children as nat, layouts as nat) ==> call_requires(handle, (index,)),
    ensures
        exists|statuses: Seq<Status>|
            {
                &&& #[trigger] reported(handle, pairs(children as nat, layouts as nat), statuses)
                &&& status == merged(statuses)
                &&& status == Status::Captured <==> any_captured(statuses)
            },
{
    let count: usize = if children <= layouts {
        children
    } else {
        layouts
    };
    let mut handler = handle;
    let mut statuses: Vec<Status> = Vec::new();
    let mut index: usize = 0;
    while index < count
        invariant
            index <= count,
            handler == handle,
            forall|index: usize| index < count ==> call_requires(handle, (index,)),
            reported(handle, index as nat, statuses@),
        decreases count - index,
    {
        let status = handler(index);
        statuses.push(status);
        index += 1;
    }
    let status = merge_all(&statuses);
    assert(reported(handle, pairs(children as nat, layouts as nat), statuses@));
    status
}

/// Merging is associative.
pub proof fn lemma_merge_associative(a: Status, b: Status, c: Status)
    ensures
        a.merge_spec(b).merge_spec(c) == a.merge_spec(b.merge_spec(c)),
{
}

/// Merging does not depend on the order of the two.
pub proof fn lemma_merge_commutative(a: Status, b: Status)
    ensures
        a.merge_spec(b) == b.merge_spec(a),
{
}

/// Merging with [`Status::Ignored`] changes nothing.
pub proof fn lemma_merge_ignored(a: Status)
    ensures
        a.merge_spec(Status::Ignored) == a,
        Status::Ignored.merge_spec(a) == a,
{
}

/// Statuses in another order merge to the same: whatever holds the same
/// statuses, each as often, is captured or ignored alike.
pub proof fn lemma_merged_any_order(a: Seq<Status>, b: Seq<Status>)
    requires
        a.to_multiset() == b.to_multiset(),
    ensures
        merged(a) == merged(b),
{
    lemma_merged_first(a, a.len());
    lemma_merged_first(b, b.len());
    broadcast use vstd::seq_lib::group_to_multiset_ensures;

    if any_captured(a) {
        let i = choose|i: int| 0 <= i < a.len() && a[i] == Status::Captured;
        assert(a.to_multiset().count(a[i]) > 0);
        assert(b.contains(Status::Captured));
    }
    if any_captured(b) {
        let i = choose|i: int| 0 <= i < b.len() && b[i] == Status::Captured;
        assert(b.to_multiset().count(b[i]) > 0);
        assert(a.contains(Status::Captured));
    }
}

} // verus!
