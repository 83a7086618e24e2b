//! Control of other applications: who allowed it, and the windows that are shown of it.
use vstd::prelude::*;

use crate::keyed::StrSet;
use crate::text::same;

verus! {

/// An application that may be controlled in every session.
#[derive(Debug)]
pub struct ComputerAppGrant {
    pub bundle_id: String,
    pub app_name: String,
    /// What it is known by.
    pub key: String,
}

/// A request to control an application.
#[derive(Debug)]
pub struct PendingComputerApproval {
    /// What the application is known by in the session.
    pub grant_key: String,
    /// Whether the answer can be kept.
    pub persistable: bool,
    /// What would be kept.
    pub grant: ComputerAppGrant,
}

/// A window that is shown as it is controlled.
#[derive(Clone, Copy, Debug, PartialEq, Eq, Structural)]
pub struct ComputerUsePreview {
    /// The window, once it is known.
    pub window_id: Option<u32>,
    /// What the picture is told apart by.
    pub image: u64,
}

/// What an answer asks of the host.
#[derive(Clone, Copy, Debug, PartialEq, Eq, Structural)]
pub enum ComputerReply {
    /// Tell the agent that the user denied it.
    Reject,
    /// Let the agent go on.
    Run,
}

/// What a session knows of the control of other applications.
#[derive(Debug)]
pub struct ComputerUse {
    pub pending: Option<PendingComputerApproval>,
    /// The applications that may be controlled in this session.
    pub session_grants: StrSet,
    pub previews: Vec<ComputerUsePreview>,
}

/// The names of the applications that are always allowed.
pub open spec fn grant_keys(apps: Seq<ComputerAppGrant>) -> Seq<Seq<char>> {
    apps.map_values(|a: ComputerAppGrant| a.key@)
}

/// Where a window is first shown.
pub open spec fn preview_pos(previews: Seq<ComputerUsePreview>, window_id: u32) -> Option<int>
    decreases previews.len(),
{
    if previews.len() == 0 {
        None
    } else if previews[0].window_id == Some(window_id) {
        Some(0)
    } else {
        match preview_pos(previews.drop_first(), window_id) {
            Some(i) => Some(i + 1),
            None => None,
        }
    }
}

/// A window is shown before all others, which come first in the list.
pub open spec fn brought_forward(previews: Seq<ComputerUsePreview>, window_id: u32) -> Seq<ComputerUsePreview> {
    match preview_pos(previews, window_id) {
        Some(i) => previews.remove(i).push(previews[i]),
        None => previews,
    }
}

/// What is shown without one window.
pub open spec fn without_window(previews: Seq<ComputerUsePreview>, window_id: u32) -> Seq<ComputerUsePreview>
    decreases previews.len(),
{
    if previews.len() == 0 {
        previews
    } else {
        let before = without_window(previews.drop_last(), window_id);
        if previews.last().window_id == Some(window_id) {
            before
        } else {
            before.push(previews.last())
        }
    }
}

fn allowed(apps: &Vec<ComputerAppGrant>, key: &str) -> (r: bool)
    ensures
        r == grant_keys(apps@).contains(key@),
{
    let mut i: usize = 0;
    while i < apps.len()
        invariant
            i <= apps@.len(),
            forall|j: int| 0 <= j < i ==> (#[trigger] apps@[j]).key@ != key@,
        decreases apps@.len() - i,
    {
        if same(apps[i].key.as_str(), key) {
            assert(grant_keys(apps@)[i as int] == key@);
            return true;
        }
        i = i + 1;
    }
    proof {
        if grant_keys(apps@).contains(key@) {
            let k = grant_keys(apps@).index_of(key@);
            assert(apps@[k].key@ == key@);
        }
    }
    false
}

impl ComputerUse {
    /// Answers the request: `deny`, `once`, or `always`. Returns what is to be told to the
    /// agent, if there was a request. An application that is allowed once may be controlled
    /// for the rest of the session; one that is allowed always is kept where that is
    /// possible, and `apps` grows by it. The second part says whether it did.
    pub fn respond_computer_permission(&mut self, decision: &str, apps: &mut Vec<ComputerAppGrant>) -> (r: Option<
        (ComputerReply, bool),
    >)
        ensures
            final(self).previews == old(self).previews,
            match old(self).pending {
                None => r is None && *final(self) == *old(self) && *final(apps) == *old(apps),
                Some(request) => {
                    let keeps = decision@ == "always"@ && request.persistable && !grant_keys(old(apps)@).contains(
                        request.grant.key@,
                    );
                    &&& final(self).pending is None
                    &&& if decision@ == "deny"@ {
                        r == Some((ComputerReply::Reject, false)) && final(self).session_grants@ == old(
                            self,
                        ).session_grants@ && *final(apps) == *old(apps)
                    } else {
                        &&& r == Some((ComputerReply::Run, keeps))
                        &&& final(self).session_grants@ == old(self).session_grants@.insert(request.grant_key@)
                        &&& final(apps)@ == (if keeps {
                            old(apps)@.push(request.grant)
                        } else {
                            old(apps)@
                        })
                    }
                },
            },
    {
        proof {
            reveal_strlit("deny");
            reveal_strlit("always");
            assert("deny"@.len() != "always"@.len());
        }
        let mut taken: Option<PendingComputerApproval> = None;
        std::mem::swap(&mut taken, &mut self.pending);
        let pending = match taken {
            Some(pending) => pending,
            None => return None,
        };
        if same(decision, "deny") {
            return Some((ComputerReply::Reject, false));
        }
        let _ = self.session_grants.insert(pending.grant_key);
        let keeps = same(decision, "always") && pending.persistable && !allowed(apps, pending.grant.key.as_str());
        if keeps {
            apps.push(pending.grant);
        }
        Some((ComputerReply::Run, keeps))
    }

    /// Shows a window before all others.
    pub fn bring_computer_use_to_front(&mut self, window_id: u32)
        ensures
            final(self).previews@ == brought_forward(old(self).previews@, window_id),
            final(self).pending == old(self).pending,
            final(self).session_grants == old(self).session_grants,
    {
        let ghost all = self.previews@;
        let mut i: usize = 0;
        assert(all.skip(0) =~= all);
        while i < self.previews.len()
            invariant
                i <= self.previews@.len(),
                *self == *old(self),
                all == self.previews@,
                preview_pos(all, window_id) == (match preview_pos(all.skip(i as int), window_id) {
                    Some(k) => Some(k + i),
                    None => None,
                }),
            decreases self.previews@.len() - i,
        {
            assert(all.skip(i as int)[0] == all[i as int]);
            assert(all.skip(i as int).drop_first() =~= all.skip(i + 1));
            let hit = match self.previews[i].window_id {
                Some(id) => id == window_id,
                None => false,
            };
            if hit {
                let preview = self.previews.remove(i);
                self.previews.push(preview);
                assert(self.previews@ =~= all.remove(i as int).push(all[i as int]));
                return;
            }
            i = i + 1;
        }
        assert(all.skip(i as int).len() == 0);
    }

    /// Shows a window no longer.
    pub fn dismiss_computer_use(&mut self, window_id: u32)
        ensures
            final(self).previews@ == without_window(old(self).previews@, window_id),
            final(self).pending == old(self).pending,
            final(self).session_grants == old(self).session_grants,
    {
        let mut rest: Vec<ComputerUsePreview> = Vec::new();
        let mut i: usize = 0;
        assert(self.previews@.take(0) =~= Seq::empty());
        while i < self.previews.len()
            invariant
                i <= self.previews@.len(),
                *self == *old(self),
                rest@ == without_window(self.previews@.take(i as int), window_id),
            decreases self.previews@.len() - i,
        {
            assert(self.previews@.take(i + 1).drop_last() =~= self.previews@.take(i as int));
            let hit = match self.previews[i].window_id {
                Some(id) => id == window_id,
                None => false,
            };
            if !hit {
                rest.push(self.previews[i]);
            }
            i = i + 1;
        }
        assert(self.previews@.take(i as int) =~= self.previews@);
        self.previews = rest;
    }
}

/// Bringing a window forward loses none and shows no other.
pub proof fn bringing_forward_keeps_all(previews: Seq<ComputerUsePreview>, window_id: u32)
    ensures
        brought_forward(previews, window_id).to_multiset() == previews.to_multiset(),
        preview_pos(previews, window_id) is Some ==> brought_forward(previews, window_id).last().window_id == Some(window_id),
{
    lemma_preview_pos(previews, window_id);
    if let Some(i) = preview_pos(previews, window_id) {
        broadcast use vstd::seq_lib::group_to_multiset_ensures;

        assert(previews.to_multiset().remove(previews[i]).insert(previews[i]) =~= previews.to_multiset());
    }
}

proof fn lemma_preview_pos(previews: Seq<ComputerUsePreview>, window_id: u32)
    ensures
        preview_pos(previews, window_id) matches Some(i) ==> 0 <= i < previews.len() && previews[i].window_id == Some(
            window_id,
        ),
    decreases previews.len(),
{
    if previews.len() > 0 {
        lemma_preview_pos(previews.drop_first(), window_id);
    }
}

/// A window that is dismissed is shown nowhere.
pub proof fn dismissed_windows_are_gone(previews: Seq<ComputerUsePreview>, window_id: u32)
    ensures
        forall|i: int|
            0 <= i < without_window(previews, window_id).len() ==> (#[trigger] without_window(previews, window_id)[i]).window_id
                != Some(window_id),
    decreases previews.len(),
{
    if previews.len() > 0 {
        dismissed_windows_are_gone(previews.drop_last(), window_id);
    }
}

} // verus!
