//! What is on screen of a session and goes with it: what is unfolded, what is selected, and
//! where the view is held; and what is known of the workspace on disk.
use vstd::prelude::*;

use crate::file_editors::Query;
use crate::ids::Uuid;
use crate::keyed::{IdMap, IdSet};
use crate::text::{opt, opt_str, same};

verus! {

/// What is on screen of a session.
#[derive(Debug)]
pub struct VisibleState {
    pub reasoning_expanded: IdSet,
    pub activities_expanded: IdSet,
    pub expanded_activity_items: IdSet,
    pub expanded_turns: IdSet,
    /// Something in the transcript is selected.
    pub selecting: bool,
    /// The messages that were laid out, with how long their texts are in bytes.
    pub message_markdown: IdMap<usize>,
    /// The blocks that were laid out, by their place.
    pub block_markdown: Vec<usize>,
    pub open_menus: Vec<u64>,
    /// A note that goes away by itself.
    pub toast: Option<String>,
    pub rail_scale_enabled: bool,
    /// Counts the times that the rail started over.
    pub rail_reset_generation: u64,
    /// The turn that is held at the top.
    pub anchor: Option<Uuid>,
    pub anchor_end_space: i32,
    pub anchor_following: bool,
}

/// The lengths of the texts of messages together.
pub open spec fn total_bytes(sizes: Seq<usize>) -> nat
    decreases sizes.len(),
{
    if sizes.len() == 0 {
        0
    } else {
        total_bytes(sizes.drop_last()) + sizes.last() as nat
    }
}

/// The sizes of messages, in the order of a list of them.
pub open spec fn sizes_of(keys: Seq<Uuid>, cache: Map<Uuid, usize>) -> Seq<usize> {
    keys.map_values(|id: Uuid| cache[id])
}

/// The sizes in a cache are more than `limit` together.
pub open spec fn over(cache: Map<Uuid, usize>, limit: usize) -> bool {
    exists|keys: Seq<Uuid>|
        #![trigger sizes_of(keys, cache)]
        keys.no_duplicates() && (forall|id: Uuid| keys.contains(id) ==> cache.dom().contains(id)) && total_bytes(
            sizes_of(keys, cache),
        ) > limit
}

proof fn lemma_part_of(part: Seq<Uuid>, keys: Seq<Uuid>, cache: Map<Uuid, usize>)
    requires
        part.no_duplicates(),
        forall|id: Uuid| part.contains(id) ==> keys.contains(id),
    ensures
        total_bytes(sizes_of(part, cache)) <= total_bytes(sizes_of(keys, cache)),
    decreases keys.len(),
{
    if keys.len() > 0 {
        let last = keys.last();
        let head = keys.drop_last();
        assert(sizes_of(keys, cache).drop_last() =~= sizes_of(head, cache));
        if part.contains(last) {
            let k = part.index_of(last);
            let rest = part.remove(k);
            assert forall|id: Uuid| rest.contains(id) implies head.contains(id) by {
                let m = rest.index_of(id);
                let at = if m < k {
                    m
                } else {
                    m + 1
                };
                assert(rest[m] == part[at]);
                assert(part.contains(id));
                assert(id != last);
                let n = keys.index_of(id);
                assert(head[n] == id);
            }
            assert(rest.no_duplicates()) by {
                assert forall|a: int, b: int| 0 <= a < rest.len() && 0 <= b < rest.len() && a != b implies rest[a] != rest[b] by {
                    let x = if a < k {
                        a
                    } else {
                        a + 1
                    };
                    let y = if b < k {
                        b
                    } else {
                        b + 1
                    };
                    assert(rest[a] == part[x] && rest[b] == part[y]);
                }
            }
            lemma_part_of(rest, head, cache);
            lemma_removed(sizes_of(part, cache), k);
            assert(sizes_of(rest, cache) =~= sizes_of(part, cache).remove(k));
        } else {
            assert forall|id: Uuid| part.contains(id) implies head.contains(id) by {
                let n = keys.index_of(id);
                assert(keys[n] == id && n < head.len());
                assert(head[n] == id);
            }
            lemma_part_of(part, head, cache);
        }
    } else {
        if part.len() > 0 {
            assert(part.contains(part[0]));
            assert(keys.contains(part[0]));
        }
        assert(sizes_of(part, cache) =~= Seq::empty());
    }
}

proof fn lemma_removed(sizes: Seq<usize>, k: int)
    requires
        0 <= k < sizes.len(),
    ensures
        total_bytes(sizes) == total_bytes(sizes.remove(k)) + sizes[k],
    decreases sizes.len(),
{
    if k == sizes.len() - 1 {
        assert(sizes.remove(k) =~= sizes.drop_last());
    } else {
        assert(sizes.remove(k).drop_last() =~= sizes.drop_last().remove(k));
        lemma_removed(sizes.drop_last(), k);
    }
}

impl VisibleState {
    fn is_over(&self, limit: usize) -> (r: bool)
        ensures
            r == over(self.message_markdown@, limit),
    {
        let ghost cache = self.message_markdown@;
        let keys = self.message_markdown.keys();
        let mut left: usize = limit;
        let mut i: usize = 0;
        assert(keys@.take(0) =~= Seq::empty());
        assert(sizes_of(keys@.take(0), cache) =~= Seq::empty());
        while i < keys.len()
            invariant
                i <= keys@.len(),
                cache == self.message_markdown@,
                keys@.no_duplicates(),
                forall|id: Uuid| keys@.contains(id) <==> #[trigger] cache.dom().contains(id),
                total_bytes(sizes_of(keys@.take(i as int), cache)) + left == limit,
            decreases keys@.len() - i,
        {
            proof {
                let before = sizes_of(keys@.take(i as int), cache);
                let now = sizes_of(keys@.take(i + 1), cache);
                assert(now.drop_last() =~= before);
                assert(now.last() == cache[keys@[i as int]]);
                assert(keys@.contains(keys@[i as int]));
            }
            let size = match self.message_markdown.get(keys[i]) {
                Some(size) => *size,
                None => 0,
            };
            if size > left {
                proof {
                    let part = keys@.take(i + 1);
                    assert forall|id: Uuid| part.contains(id) implies cache.dom().contains(id) by {
                        let k = part.index_of(id);
                        assert(keys@[k] == id);
                        assert(keys@.contains(id));
                    }
                    assert(part.no_duplicates());
                    assert(total_bytes(sizes_of(part, cache)) > limit);
                }
                return true;
            }
            left = left - size;
            i = i + 1;
        }
        proof {
            assert(keys@.take(i as int) =~= keys@);
            assert forall|part: Seq<Uuid>|
                #![trigger sizes_of(part, cache)]
                part.no_duplicates() && (forall|id: Uuid| part.contains(id) ==> cache.dom().contains(id)) implies total_bytes(
                sizes_of(part, cache),
            ) <= limit by {
                lemma_part_of(part, keys@, cache);
            }
        }
        false
    }

    /// Forgets what was on screen of a session as another takes its place. Messages that
    /// were laid out are kept for the way back, unless their texts are more than `limit`
    /// bytes together; blocks are known by their place only and are not kept.
    pub fn reset_visible_state(&mut self, limit: usize)
        ensures
            final(self).reasoning_expanded@ == Set::<Uuid>::empty(),
            final(self).activities_expanded@ == Set::<Uuid>::empty(),
            final(self).expanded_activity_items@ == Set::<Uuid>::empty(),
            final(self).expanded_turns@ == Set::<Uuid>::empty(),
            !final(self).selecting,
            final(self).message_markdown@ == (if over(old(self).message_markdown@, limit) {
                Map::<Uuid, usize>::empty()
            } else {
                old(self).message_markdown@
            }),
            final(self).block_markdown@.len() == 0,
            final(self).open_menus@.len() == 0,
            final(self).toast is None,
            !final(self).rail_scale_enabled,
            final(self).rail_reset_generation == (if old(self).rail_reset_generation == u64::MAX {
                0
            } else {
                old(self).rail_reset_generation + 1
            }),
            final(self).anchor is None,
            final(self).anchor_end_space == 0,
            !final(self).anchor_following,
    {
        self.reasoning_expanded.clear();
        self.activities_expanded.clear();
        self.expanded_activity_items.clear();
        self.expanded_turns.clear();
        self.selecting = false;
        if self.is_over(limit) {
            self.message_markdown.clear();
        }
        self.block_markdown = Vec::new();
        self.open_menus = Vec::new();
        self.toast = None;
        self.rail_scale_enabled = false;
        self.rail_reset_generation = crate::providers_page::count_on(self.rail_reset_generation);
        self.anchor = None;
        self.anchor_end_space = 0;
        self.anchor_following = false;
    }
}

/// What a change of the workspace asks of the host.
#[derive(Clone, Copy, Debug, PartialEq, Eq, Structural)]
pub enum WorkspaceEffect {
    Notify,
    /// Forget the branch that was read.
    ForgetBranch,
    /// Show the branch, as far as the cache has it.
    RefreshBranch,
    /// Run `git` for the branch that a token stands for.
    LookUpBranch(u64),
    /// Read what the right panel shows of the workspace again.
    RefreshSurfaces,
    /// Forget what the composer offers of the workspace.
    InvalidateComposerSources,
}

/// What is known of the workspace on disk.
#[derive(Debug)]
pub struct WorkspaceQueries {
    /// The branch that is checked out.
    pub branch: Option<String>,
    pub effects: Vec<WorkspaceEffect>,
}

impl WorkspaceQueries {
    /// Shows the branch, as far as the cache has it. The branch before stays on screen while
    /// it is looked up.
    pub fn refresh_branch(&mut self, project: bool, cached: Query<Option<String>>)
        ensures
            opt(final(self).branch) == (if !project {
                None
            } else {
                match cached {
                    Query::Ready(branch) => opt(branch),
                    _ => opt(old(self).branch),
                }
            }),
            final(self).effects@ == (match cached {
                Query::Missing(token) if project => old(self).effects@.push(WorkspaceEffect::LookUpBranch(token)),
                _ => old(self).effects@,
            }),
    {
        if !project {
            self.branch = None;
            return;
        }
        match cached {
            Query::Ready(branch) => {
                self.branch = branch;
            },
            Query::Pending => {},
            Query::Missing(token) => {
                self.effects.push(WorkspaceEffect::LookUpBranch(token));
            },
        }
    }

    /// Takes in the branch of a project. It is shown where the cache still wanted it and the
    /// project is still on screen.
    pub fn finish_branch(&mut self, wanted: bool, looked_up: &str, project: Option<&str>, branch: Option<String>)
        ensures
            if wanted && opt_str(project) == Some(looked_up@) {
                opt(final(self).branch) == opt(branch) && final(self).effects@ == old(self).effects@.push(
                    WorkspaceEffect::Notify,
                )
            } else {
                *final(self) == *old(self)
            },
    {
        let selected = match project {
            Some(path) => same(path, looked_up),
            None => false,
        };
        if wanted && selected {
            self.branch = branch;
            self.effects.push(WorkspaceEffect::Notify);
        }
    }

    /// Drops what is known of the workspace on disk, at a moment at which it plausibly
    /// changed.
    pub fn invalidate_workspace_queries(&mut self, project: bool)
        ensures
            final(self).branch == old(self).branch,
            final(self).effects@ == (if project {
                old(self).effects@.push(WorkspaceEffect::ForgetBranch).push(WorkspaceEffect::RefreshBranch).push(
                    WorkspaceEffect::RefreshSurfaces,
                ).push(WorkspaceEffect::InvalidateComposerSources)
            } else {
                old(self).effects@
            }),
    {
        if !project {
            return;
        }
        self.effects.push(WorkspaceEffect::ForgetBranch);
        self.effects.push(WorkspaceEffect::RefreshBranch);
        self.effects.push(WorkspaceEffect::RefreshSurfaces);
        self.effects.push(WorkspaceEffect::InvalidateComposerSources);
    }
}

/// What is kept of messages that were laid out stays within bounds: whatever `keys` are
/// picked of it, they are not more than the limit together.
pub proof fn kept_layouts_stay_bounded(cache: Map<Uuid, usize>, limit: usize, keys: Seq<Uuid>)
    requires
        keys.no_duplicates(),
        forall|id: Uuid| keys.contains(id) ==> cache.dom().contains(id),
        !over(cache, limit),
    ensures
        total_bytes(sizes_of(keys, cache)) <= limit,
{
}

} // verus!
