//! Going back and forward between the sessions that were looked at.
//!
//! The two lists, and that a visit drops what lies ahead, are this library's own model.
use vstd::prelude::*;

use crate::ids::Uuid;
use crate::preparations::{drop_id, without_id};

verus! {

/// The sessions behind and ahead of the one on screen, the nearest last.
pub struct Navigation {
    pub back: Vec<Uuid>,
    pub forward: Vec<Uuid>,
}

/// What a [`Navigation`] holds.
#[verifier::ext_equal]
pub ghost struct NavigationView {
    pub back: Seq<Uuid>,
    pub forward: Seq<Uuid>,
}

impl View for Navigation {
    type V = NavigationView;

    open spec fn view(&self) -> NavigationView {
        NavigationView { back: self.back@, forward: self.forward@ }
    }
}

impl NavigationView {
    /// A session is visited from another: that one lies behind, and nothing ahead.
    pub open spec fn visited(self, current: Option<Uuid>, target: Uuid) -> NavigationView {
        match current {
            Some(id) if id != target => NavigationView { back: self.back.push(id), forward: Seq::empty() },
            _ => self,
        }
    }

    /// Back by one.
    pub open spec fn gone_back(self, current: Uuid) -> NavigationView {
        if self.back.len() > 0 {
            NavigationView { back: self.back.drop_last(), forward: self.forward.push(current) }
        } else {
            self
        }
    }

    /// Forward by one.
    pub open spec fn gone_forward(self, current: Uuid) -> NavigationView {
        if self.forward.len() > 0 {
            NavigationView { back: self.back.push(current), forward: self.forward.drop_last() }
        } else {
            self
        }
    }

    /// A session is gone.
    pub open spec fn removed(self, id: Uuid) -> NavigationView {
        NavigationView { back: without_id(self.back, id), forward: without_id(self.forward, id) }
    }
}

impl Navigation {
    /// Records that a session is visited from another.
    pub fn visit(&mut self, current: Option<Uuid>, target: Uuid)
        ensures
            final(self)@ == old(self)@.visited(current, target),
    {
        if let Some(id) = current {
            if id != target {
                self.back.push(id);
                self.forward.clear();
            }
        }
    }

    /// Goes back by one; the session to show.
    pub fn go_back(&mut self, current: Uuid) -> (r: Option<Uuid>)
        ensures
            final(self)@ == old(self)@.gone_back(current),
            r == (if old(self)@.back.len() > 0 {
                Some(old(self)@.back.last())
            } else {
                None
            }),
    {
        match self.back.pop() {
            Some(target) => {
                self.forward.push(current);
                assert(self.back@ =~= old(self).back@.drop_last());
                Some(target)
            },
            None => None,
        }
    }

    /// Goes forward by one; the session to show.
    pub fn go_forward(&mut self, current: Uuid) -> (r: Option<Uuid>)
        ensures
            final(self)@ == old(self)@.gone_forward(current),
            r == (if old(self)@.forward.len() > 0 {
                Some(old(self)@.forward.last())
            } else {
                None
            }),
    {
        match self.forward.pop() {
            Some(target) => {
                self.back.push(current);
                assert(self.forward@ =~= old(self).forward@.drop_last());
                Some(target)
            },
            None => None,
        }
    }

    /// Forgets a session that is gone.
    pub fn remove(&mut self, id: Uuid)
        ensures
            final(self)@ == old(self)@.removed(id),
    {
        self.back = drop_id(&self.back, id);
        self.forward = drop_id(&self.forward, id);
    }
}

/// Going back and then forward leads to the same session, with the same sessions
/// behind and ahead.
pub proof fn back_then_forward(navigation: NavigationView, current: Uuid)
    requires
        navigation.back.len() > 0,
    ensures
        ({
            let target = navigation.back.last();
            let back = navigation.gone_back(current);
            back.forward.last() == current && back.gone_forward(target) == navigation
        }),
{
    let target = navigation.back.last();
    assert(navigation.back.drop_last().push(target) =~= navigation.back);
    assert(navigation.forward.push(current).drop_last() =~= navigation.forward);
}

/// Going forward and then back leads to the same session, with the same sessions
/// behind and ahead.
pub proof fn forward_then_back(navigation: NavigationView, current: Uuid)
    requires
        navigation.forward.len() > 0,
    ensures
        ({
            let target = navigation.forward.last();
            let ahead = navigation.gone_forward(current);
            ahead.back.last() == current && ahead.gone_back(target) == navigation
        }),
{
    let target = navigation.forward.last();
    assert(navigation.forward.drop_last().push(target) =~= navigation.forward);
    assert(navigation.back.push(current).drop_last() =~= navigation.back);
}

/// A session that was forgotten is never gone back or forward to.
pub proof fn removed_is_never_reached(navigation: NavigationView, id: Uuid)
    ensures
        !navigation.removed(id).back.contains(id),
        !navigation.removed(id).forward.contains(id),
{
    lemma_without_id(navigation.back, id);
    lemma_without_id(navigation.forward, id);
}

proof fn lemma_without_id(ids: Seq<Uuid>, id: Uuid)
    ensures
        !without_id(ids, id).contains(id),
    decreases ids.len(),
{
    if ids.len() > 0 {
        let rest = without_id(ids.drop_last(), id);
        lemma_without_id(ids.drop_last(), id);
        if ids.last() != id {
            assert forall|i: int| 0 <= i < rest.push(ids.last()).len() implies rest.push(ids.last())[i] != id by {
                if i < rest.len() {
                    assert(rest.contains(rest[i]));
                }
            }
        }
    }
}

} // verus!
