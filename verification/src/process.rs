//! Keeping track of the processes that the launcher has started.
//!
//! The manager hands out handles and remembers which of them are live. The
//! processes themselves are started, probed and killed by the application.

use crate::config::CoreConfig;
use crate::error::{CoreError, CoreResult};
use std::path::PathBuf;
use vstd::prelude::*;
use vstd::string::*;

verus! {

/// The manager's name for one started process.
#[derive(Clone, Copy, Debug, PartialEq, Eq, Structural)]
pub struct ProcessHandle {
    pub id: u64,
}

/// The table of started processes: which ids are live, and which id comes
/// next.
#[derive(Debug)]
pub struct ProcessManager {
    next_id: u64,
    children: Vec<u64>,
}

/// What is needed to start the projector: the executable and the URL that
/// is its single argument.
#[derive(Debug)]
pub struct LaunchRequest {
    pub projector_path: PathBuf,
    pub url: String,
}

/// `ids` without every occurrence of `id`.
pub open spec fn without(ids: Seq<u64>, id: u64) -> Seq<u64>
    decreases ids.len(),
{
    if ids.len() == 0 {
        ids
    } else if ids.last() == id {
        without(ids.drop_last(), id)
    } else {
        without(ids.drop_last(), id).push(ids.last())
    }
}

/// No id occurs twice.
pub open spec fn distinct(ids: Seq<u64>) -> bool {
    forall|i: int, j: int| 0 <= i < j < ids.len() ==> ids[i] != ids[j]
}

/// Every id lies below `bound`.
pub open spec fn all_below(ids: Seq<u64>, bound: u64) -> bool {
    forall|i: int| 0 <= i < ids.len() ==> ids[i] < bound
}

/// What is left when an id is taken out are ids that were there, none of
/// them the one taken out; ids that occurred once still do, and a bound on
/// all of them still holds.
proof fn lemma_without_keeps(ids: Seq<u64>, id: u64, bound: u64)
    ensures
        forall|k: int|
            0 <= k < without(ids, id).len() ==> ids.contains(#[trigger] without(ids, id)[k])
                && without(ids, id)[k] != id,
        distinct(ids) ==> distinct(without(ids, id)),
        all_below(ids, bound) ==> all_below(without(ids, id), bound),
    decreases ids.len(),
{
    if ids.len() > 0 {
        let head = ids.drop_last();
        lemma_without_keeps(head, id, bound);
        let kept = without(head, id);
        assert forall|k: int| 0 <= k < kept.len() implies ids.contains(#[trigger] kept[k]) by {
            assert(head.contains(kept[k]));
            let at = head.index_of(kept[k]);
            assert(ids[at] == kept[k]);
        }
        if ids.last() != id {
            let out = kept.push(ids.last());
            assert(ids[ids.len() - 1] == ids.last());
            assert forall|k: int| 0 <= k < out.len() implies ids.contains(#[trigger] out[k])
                && out[k] != id by {
                if k < kept.len() {
                    assert(out[k] == kept[k]);
                }
            }
            if distinct(ids) {
                assert forall|i: int, j: int| 0 <= i < j < head.len() implies head[i]
                    != head[j] by {
                    assert(ids[i] != ids[j]);
                }
                assert forall|i: int, j: int| 0 <= i < j < out.len() implies out[i] != out[j] by {
                    if j < kept.len() {
                        assert(kept[i] != kept[j]);
                    } else {
                        assert(head.contains(kept[i]));
                        let at = head.index_of(kept[i]);
                        assert(ids[at] != ids[ids.len() - 1]);
                    }
                }
            }
            if all_below(ids, bound) {
                assert forall|i: int| 0 <= i < head.len() implies head[i] < bound by {
                    assert(ids[i] < bound);
                }
                assert forall|i: int| 0 <= i < out.len() implies out[i] < bound by {
                    if i < kept.len() {
                        assert(kept[i] < bound);
                    }
                }
            }
        } else {
            if distinct(ids) {
                assert forall|i: int, j: int| 0 <= i < j < head.len() implies head[i]
                    != head[j] by {
                    assert(ids[i] != ids[j]);
                }
            }
            if all_below(ids, bound) {
                assert forall|i: int| 0 <= i < head.len() implies head[i] < bound by {
                    assert(ids[i] < bound);
                }
            }
        }
    }
}

/// What a launch from a configuration answers: the request made of the
/// configured projector and URL, or the error that names what is missing,
/// the projector first.
pub open spec fn is_launch_answer(cfg: &CoreConfig, r: CoreResult<LaunchRequest>) -> bool {
    match r {
        Ok(request) => {
            &&& cfg.launcher.projector_path == Some(request.projector_path)
            &&& cfg.launcher.main_swf_url matches Some(url) && url@ == request.url@
        },
        Err(e) => if cfg.launcher.projector_path is None {
            e matches CoreError::Config(m) && m@ == "projector_path is required"@
        } else {
            &&& cfg.launcher.main_swf_url is None
            &&& e matches CoreError::Config(m) && m@ == "main_swf_url is required"@
        },
    }
}

proof fn lemma_contains_push(ids: Seq<u64>, last: u64, id: u64)
    ensures
        ids.push(last).contains(id) <==> ids.contains(id) || last == id,
{
    if ids.contains(id) {
        let k = ids.index_of(id);
        assert(ids.push(last)[k] == id);
    }
    if last == id {
        assert(ids.push(last)[ids.len() as int] == id);
    }
    if ids.push(last).contains(id) {
        let k = ids.push(last).index_of(id);
        if k < ids.len() {
            assert(ids[k] == id);
        }
    }
}

impl ProcessManager {
    /// The id of the next handle.
    pub closed spec fn next_id(&self) -> u64 {
        self.next_id
    }

    /// The ids of the live children, in the order in which they started.
    pub closed spec fn children(&self) -> Seq<u64> {
        self.children@
    }

    /// The table is in order: every live id was handed out once, so it
    /// lies below the next id and occurs once.
    pub open spec fn wf(&self) -> bool {
        distinct(self.children()) && all_below(self.children(), self.next_id())
    }

    /// An empty table whose first id is 0.
    pub fn new() -> (r: Self)
        ensures
            r.next_id() == 0,
            r.children().len() == 0,
            r.wf(),
    {
        ProcessManager { next_id: 0, children: Vec::new() }
    }

    /// What a launch from the configuration needs. The configuration must
    /// name the projector and the URL; the projector is asked for first.
    pub fn launch_projector(&self, cfg: &CoreConfig) -> (r: CoreResult<LaunchRequest>)
        ensures
            is_launch_answer(cfg, r),
            r is Ok <==> cfg.launcher.projector_path is Some && cfg.launcher.main_swf_url is Some,
    {
        let projector_path = match &cfg.launcher.projector_path {
            Some(path) => path.clone(),
            None => {
                return Err(CoreError::Config("projector_path is required".to_owned()));
            },
        };
        let url = match &cfg.launcher.main_swf_url {
            Some(url) => url.clone(),
            None => {
                return Err(CoreError::Config("main_swf_url is required".to_owned()));
            },
        };
        Ok(LaunchRequest { projector_path, url })
    }

    /// Whether another child can be registered: whether an id is left.
    pub fn has_free_id(&self) -> (r: bool)
        ensures
            r == (self.next_id() < u64::MAX),
    {
        self.next_id < u64::MAX
    }

    /// Registers a child that has just been started and hands out its
    /// handle. Ids count up from 0.
    pub fn launch_projector_with_url(&mut self) -> (r: ProcessHandle)
        requires
            old(self).next_id() < u64::MAX,
        ensures
            r.id == old(self).next_id(),
            final(self).next_id() == old(self).next_id() + 1,
            final(self).children() == old(self).children().push(r.id),
            old(self).wf() ==> final(self).wf() && !old(self).children().contains(r.id),
    {
        let id = self.next_id;
        self.next_id = id + 1;
        self.children.push(id);
        proof {
            if old(self).wf() {
                let before = old(self).children();
                let after = self.children();
                assert forall|i: int, j: int| 0 <= i < j < after.len() implies after[i]
                    != after[j] by {
                    assert(after[i] == before[i]);
                    assert(before[i] < id);
                    if j < before.len() {
                        assert(after[j] == before[j]);
                    }
                }
                assert forall|i: int| 0 <= i < after.len() implies after[i] < self.next_id() by {
                    if i < before.len() {
                        assert(after[i] == before[i]);
                    }
                }
                if before.contains(id) {
                    let at = before.index_of(id);
                    assert(before[at] < id);
                }
            }
        }
        ProcessHandle { id }
    }

    /// Forgets the child of `handle`. Returns whether there was one: if so,
    /// it is to be killed. The other children stay, in their order.
    pub fn stop(&mut self, handle: &ProcessHandle) -> (r: bool)
        ensures
            r == old(self).children().contains(handle.id),
            final(self).children() == without(old(self).children(), handle.id),
            final(self).next_id() == old(self).next_id(),
            !final(self).children().contains(handle.id),
            old(self).wf() ==> final(self).wf(),
    {
        let mut kept: Vec<u64> = Vec::new();
        let mut found = false;
        let mut i: usize = 0;
        assert(self.children@.take(0) =~= Seq::<u64>::empty());
        while i < self.children.len()
            invariant
                i <= self.children.len(),
                self.children == old(self).children,
                self.next_id == old(self).next_id,
                kept@ == without(self.children@.take(i as int), handle.id),
                found == self.children@.take(i as int).contains(handle.id),
            decreases self.children.len() - i,
        {
            let id = self.children[i];
            proof {
                let all = self.children@;
                assert(all.take(i + 1) =~= all.take(i as int).push(id));
                assert(all.take(i + 1).drop_last() =~= all.take(i as int));
                lemma_contains_push(all.take(i as int), id, handle.id);
            }
            if id == handle.id {
                found = true;
            } else {
                kept.push(id);
            }
            i += 1;
        }
        assert(self.children@.take(i as int) =~= self.children@);
        proof {
            lemma_without_keeps(old(self).children(), handle.id, old(self).next_id());
            let left = without(old(self).children(), handle.id);
            if left.contains(handle.id) {
                let at = left.index_of(handle.id);
                assert(left[at] != handle.id);
            }
        }
        self.children = kept;
        found
    }

    /// Whether the child of `handle` runs. `exited` is what a probe of the
    /// process gave: `Some(true)` if it has exited, `Some(false)` if not,
    /// `None` if the probe failed. A child that is not known does not run.
    pub fn is_running(&self, handle: &ProcessHandle, exited: Option<bool>) -> (r: bool)
        ensures
            r == (self.children().contains(handle.id) && exited == Some(false)),
    {
        let mut known = false;
        let mut i: usize = 0;
        while i < self.children.len()
            invariant
                i <= self.children.len(),
                known == self.children@.take(i as int).contains(handle.id),
            decreases self.children.len() - i,
        {
            proof {
                let all = self.children@;
                assert(all.take(i + 1) =~= all.take(i as int).push(all[i as int]));
                lemma_contains_push(all.take(i as int), all[i as int], handle.id);
            }
            if self.children[i] == handle.id {
                known = true;
            }
            i += 1;
        }
        assert(self.children@.take(i as int) =~= self.children@);
        match exited {
            Some(false) => known,
            _ => false,
        }
    }
}

/// Starts the projector for a manager.
#[derive(Debug)]
pub struct ProjectorLauncher {
    manager: ProcessManager,
}

impl ProjectorLauncher {
    pub closed spec fn manager(&self) -> ProcessManager {
        self.manager
    }

    pub fn new(manager: ProcessManager) -> (r: Self)
        ensures
            r.manager() == manager,
    {
        ProjectorLauncher { manager }
    }

    /// What a launch from the configuration needs: the request made of the
    /// configured projector and URL, or the error that names what is
    /// missing, the projector first.
    pub fn launch(&self, cfg: &CoreConfig) -> (r: CoreResult<LaunchRequest>)
        ensures
            is_launch_answer(cfg, r),
            r is Ok <==> cfg.launcher.projector_path is Some && cfg.launcher.main_swf_url is Some,
    {
        self.manager.launch_projector(cfg)
    }
}

} // verus!
