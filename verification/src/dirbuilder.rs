//! Directory creation, including the recursive walk that creates missing
//! parents first.
//!
//! The walk is a plan over a stack of paths still to create.  The driver
//! performs one make-directory call per step and reports its outcome;
//! when a parent is missing the plan pushes it and retries the child
//! after the parent exists, and when a call fails over an existing entry
//! the plan asks whether that entry is a directory before giving up.

use vstd::prelude::*;
use crate::bytes::has_nul;
use crate::gateway::ENOENT;
use crate::realpath::{is_abs, SEP};

verus! {

/// The default permission mode for new directories.
pub const DEFAULT_DIR_MODE: u32 = 0o777;

/// The index after dropping every separator just before `i`.
pub open spec fn skip_seps_back(p: Seq<u8>, i: int) -> int
    decreases i,
{
    if i <= 0 {
        0
    } else if p[i - 1] == SEP {
        skip_seps_back(p, i - 1)
    } else {
        i
    }
}

/// The index after dropping every non-separator byte just before `i`.
pub open spec fn skip_comp_back(p: Seq<u8>, i: int) -> int
    decreases i,
{
    if i <= 0 {
        0
    } else if p[i - 1] != SEP {
        skip_comp_back(p, i - 1)
    } else {
        i
    }
}

/// The parent of a path, as the standard path library reads it: the path
/// without its last component and the separators before it.  The empty
/// path and the root have none; the parent of a single relative
/// component is the empty path; the parent of `/a` is the root.
pub open spec fn parent_path(p: Seq<u8>) -> Option<Seq<u8>> {
    let e1 = skip_seps_back(p, p.len() as int);
    if e1 == 0 {
        None
    } else {
        let c0 = skip_comp_back(p, e1);
        let e2 = skip_seps_back(p, c0);
        if e2 == 0 {
            if is_abs(p) {
                Some(seq![SEP])
            } else {
                Some(Seq::empty())
            }
        } else {
            Some(p.subrange(0, e2))
        }
    }
}

/// Computes the parent of a path, or nothing for the root and the empty
/// path.
pub fn parent_of_path(p: &[u8]) -> (r: Option<Vec<u8>>)
    ensures
        (r matches Some(v) ==> parent_path(p@) == Some(v@)),
        (r is None ==> parent_path(p@) is None),
{
    let len: usize = p.len();
    let mut e1: usize = len;
    while e1 > 0 && p[e1 - 1] == SEP
        invariant
            0 <= e1 <= len,
            len == p@.len(),
            skip_seps_back(p@, len as int) == skip_seps_back(p@, e1 as int),
        decreases e1,
    {
        e1 -= 1;
    }
    proof {
        assert(skip_seps_back(p@, e1 as int) == e1 as int);
    }
    if e1 == 0 {
        return None;
    }
    let mut c0: usize = e1;
    while c0 > 0 && p[c0 - 1] != SEP
        invariant
            0 <= c0 <= e1 <= len,
            len == p@.len(),
            skip_comp_back(p@, e1 as int) == skip_comp_back(p@, c0 as int),
        decreases c0,
    {
        c0 -= 1;
    }
    proof {
        assert(skip_comp_back(p@, c0 as int) == c0 as int);
    }
    let mut e2: usize = c0;
    while e2 > 0 && p[e2 - 1] == SEP
        invariant
            0 <= e2 <= c0 <= len,
            len == p@.len(),
            skip_seps_back(p@, c0 as int) == skip_seps_back(p@, e2 as int),
        decreases e2,
    {
        e2 -= 1;
    }
    proof {
        assert(skip_seps_back(p@, e2 as int) == e2 as int);
    }
    if e2 == 0 {
        let mut v: Vec<u8> = Vec::new();
        if p[0] == SEP {
            v.push(SEP);
            proof {
                assert(v@ =~= seq![SEP]);
            }
        } else {
            proof {
                assert(v@ =~= Seq::<u8>::empty());
            }
        }
        return Some(v);
    }
    let mut v: Vec<u8> = Vec::new();
    let mut i: usize = 0;
    while i < e2
        invariant
            0 <= i <= e2 <= len,
            len == p@.len(),
            v@ == p@.subrange(0, i as int),
        decreases e2 - i,
    {
        v.push(p[i]);
        i += 1;
        proof {
            assert(v@ =~= p@.subrange(0, i as int));
        }
    }
    Some(v)
}

/// A stretch of a NUL-free byte string is NUL-free.
proof fn lemma_no_nul_subrange(p: Seq<u8>, a: int, b: int)
    requires
        !has_nul(p),
        0 <= a <= b <= p.len(),
    ensures
        !has_nul(p.subrange(a, b)),
{
    let s = p.subrange(a, b);
    if has_nul(s) {
        let i = choose|i: int| 0 <= i < s.len() && s[i] == 0u8;
        assert(p[a + i] == 0u8);
    }
}

/// A path's parent holds no NUL byte when the path holds none.
proof fn lemma_parent_no_nul(p: Seq<u8>)
    requires
        !has_nul(p),
    ensures
        parent_path(p) matches Some(v) ==> !has_nul(v),
{
    match parent_path(p) {
        Some(v) => {
            let e1 = skip_seps_back(p, p.len() as int);
            if e1 != 0 {
                let c0 = skip_comp_back(p, e1);
                let e2 = skip_seps_back(p, c0);
                if e2 == 0 {
                    if is_abs(p) {
                        if has_nul(seq![SEP]) {
                            let i = choose|i: int| 0 <= i < 1 && seq![SEP][i] == 0u8;
                            assert(seq![SEP][0] == SEP);
                        }
                    } else {
                        if has_nul(Seq::<u8>::empty()) {
                            let i = choose|i: int|
                                0 <= i < Seq::<u8>::empty().len() && Seq::<u8>::empty()[i]
                                    == 0u8;
                        }
                    }
                } else {
                    lemma_skip_seps_bounds(p, p.len() as int);
                    lemma_skip_comp_bounds(p, e1);
                    lemma_skip_seps_bounds(p, c0);
                    lemma_no_nul_subrange(p, 0, e2);
                }
            }
        },
        None => {},
    }
}

/// The separator scan never goes below zero nor past where it starts.
proof fn lemma_skip_seps_bounds(p: Seq<u8>, i: int)
    requires
        0 <= i,
    ensures
        0 <= skip_seps_back(p, i) <= i,
    decreases i,
{
    if i > 0 && p[i - 1] == SEP {
        lemma_skip_seps_bounds(p, i - 1);
    }
}

/// The component scan never goes below zero nor past where it starts.
proof fn lemma_skip_comp_bounds(p: Seq<u8>, i: int)
    requires
        0 <= i,
    ensures
        0 <= skip_comp_back(p, i) <= i,
    decreases i,
{
    if i > 0 && p[i - 1] != SEP {
        lemma_skip_comp_bounds(p, i - 1);
    }
}

/// One directory still to create: its path, and whether a make-directory
/// call for it already failed once for a missing parent.
#[derive(Debug)]
pub struct Pending {
    /// The path to create.
    pub path: Vec<u8>,
    /// Whether creation was already attempted once.
    pub attempted: bool,
}

/// The mathematical value of a pending directory.
pub struct PendingModel {
    /// The path to create.
    pub path: Seq<u8>,
    /// Whether creation was already attempted once.
    pub attempted: bool,
}

impl View for Pending {
    type V = PendingModel;

    open spec fn view(&self) -> PendingModel {
        PendingModel { path: self.path@, attempted: self.attempted }
    }
}

/// The models of a stack of pending directories.
pub open spec fn stack_view(s: Seq<Pending>) -> Seq<PendingModel> {
    s.map_values(|e: Pending| e@)
}

/// A pending stack's models are as many as its entries.
pub broadcast proof fn lemma_stack_view_len(s: Seq<Pending>)
    ensures
        #[trigger] stack_view(s).len() == s.len(),
{
}

/// A pending stack's models sit where their entries do.
pub broadcast proof fn lemma_stack_view_index(s: Seq<Pending>, i: int)
    requires
        0 <= i < s.len(),
    ensures
        #[trigger] stack_view(s)[i] == s[i]@,
{
}

/// Where a creation plan stands: about to issue a make-directory call
/// for the top of the stack, waiting to hear whether an entry that was
/// in the way is a directory, finished, failed with an error number, or
/// failed because the whole tree above the path is missing.
#[derive(Copy, Clone, Debug, PartialEq, Eq, Structural)]
pub enum PlanState {
    /// The next step is the make-directory call for the stack's top.
    Making,
    /// Waiting to hear whether the entry in the way of the stack's top
    /// is a directory; the error number to report when it is not.
    CheckingDir(i32),
    /// Every directory was created or already existed.
    Finished,
    /// Creation failed with this error number.
    Failed(i32),
    /// No part of the path's tree could be created.
    TreeFailed,
}

/// The mathematical state of a creation plan.
pub struct PlanModel {
    /// Permission mode for created directories.
    pub mode: u32,
    /// Whether missing parents are created too.
    pub recursive: bool,
    /// The directories still to create; the last is tried next.
    pub stack: Seq<PendingModel>,
    /// Where the plan stands.
    pub state: PlanState,
}

/// A plan is well formed when it works on a non-empty stack of paths
/// that hold no NUL byte.
pub open spec fn plan_wf(m: PlanModel) -> bool {
    &&& (m.state is Making || m.state is CheckingDir) ==> m.stack.len() > 0
    &&& forall|i: int| 0 <= i < m.stack.len() ==> !has_nul(#[trigger] m.stack[i].path)
}

/// The plan after the make-directory call for the stack's top came
/// back.  Success pops the top.  A failure ends a non-recursive plan at
/// once.  A recursive plan meets a first not-found failure by pushing
/// the parent — there being none fails the whole tree, and an empty
/// parent needs nothing made — and meets any other failure by asking
/// whether the entry in the way is a directory.
pub open spec fn spec_on_mkdir(m: PlanModel, r: Result<(), i32>) -> PlanModel {
    let top = m.stack.last();
    match r {
        Ok(()) => {
            let rest = m.stack.drop_last();
            PlanModel {
                stack: rest,
                state: if rest.len() == 0 {
                    PlanState::Finished
                } else {
                    PlanState::Making
                },
                ..m
            }
        },
        Err(e) => {
            if !m.recursive {
                PlanModel { state: PlanState::Failed(e), ..m }
            } else if e == ENOENT && !top.attempted {
                let marked = m.stack.update(
                    m.stack.len() - 1,
                    PendingModel { path: top.path, attempted: true },
                );
                match parent_path(top.path) {
                    None => PlanModel { state: PlanState::TreeFailed, ..m },
                    Some(pp) => {
                        if pp.len() == 0 {
                            PlanModel { stack: marked, state: PlanState::Making, ..m }
                        } else {
                            PlanModel {
                                stack: marked.push(
                                    PendingModel { path: pp, attempted: false },
                                ),
                                state: PlanState::Making,
                                ..m
                            }
                        }
                    },
                }
            } else {
                PlanModel { state: PlanState::CheckingDir(e), ..m }
            }
        },
    }
}

/// The plan after hearing whether the entry in the way of the stack's
/// top is a directory: a directory counts as created; anything else
/// fails with the error the make-directory call reported.
pub open spec fn spec_on_is_dir(m: PlanModel, is_dir: bool) -> PlanModel {
    let e = m.state->CheckingDir_0;
    if is_dir {
        let rest = m.stack.drop_last();
        PlanModel {
            stack: rest,
            state: if rest.len() == 0 {
                PlanState::Finished
            } else {
                PlanState::Making
            },
            ..m
        }
    } else {
        PlanModel { state: PlanState::Failed(e), ..m }
    }
}

/// Options for creating directories: the permission mode and whether
/// missing parents are created too.
#[derive(Copy, Clone, Debug)]
pub struct DirBuilder {
    /// Permission mode for created directories.
    pub mode: u32,
    /// Whether missing parents are created too.
    pub recursive: bool,
}

impl DirBuilder {
    /// Default options: the default directory mode, non-recursive.
    pub fn new() -> (b: DirBuilder)
        ensures
            b == (DirBuilder { mode: DEFAULT_DIR_MODE, recursive: false }),
    {
        DirBuilder { mode: DEFAULT_DIR_MODE, recursive: false }
    }

    /// Sets whether missing parents are created too.
    pub fn recursive(self, recursive: bool) -> (b: DirBuilder)
        ensures
            b == (DirBuilder { recursive, ..self }),
    {
        DirBuilder { recursive, ..self }
    }

    /// Sets the permission mode for created directories.
    pub fn mode(self, mode: u32) -> (b: DirBuilder)
        ensures
            b == (DirBuilder { mode, ..self }),
    {
        DirBuilder { mode, ..self }
    }

    /// The creation plan for a path under these options.  A recursive
    /// plan for the empty path has nothing to do.
    pub fn create(&self, path: &[u8]) -> (p: CreatePlan)
        requires
            !has_nul(path@),
        ensures
            p@.mode == self.mode,
            p@.recursive == self.recursive,
            self.recursive && path@.len() == 0 ==> p@.state == PlanState::Finished
                && p@.stack.len() == 0,
            !(self.recursive && path@.len() == 0) ==> p@.state == PlanState::Making && p@.stack
                =~= seq![PendingModel { path: path@, attempted: false }],
            plan_wf(p@),
    {
        broadcast use lemma_stack_view_len, lemma_stack_view_index;

        if self.recursive && path.len() == 0 {
            let p = CreatePlan {
                mode: self.mode,
                recursive: self.recursive,
                stack: Vec::new(),
                state: PlanState::Finished,
            };
            proof {
                assert(stack_view(Seq::<Pending>::empty()) =~= Seq::<PendingModel>::empty());
            }
            return p;
        }
        let mut owned: Vec<u8> = Vec::new();
        let mut i: usize = 0;
        while i < path.len()
            invariant
                0 <= i <= path@.len(),
                owned@ == path@.take(i as int),
            decreases path@.len() - i,
        {
            owned.push(path[i]);
            i += 1;
            proof {
                assert(owned@ =~= path@.take(i as int));
            }
        }
        proof {
            assert(path@.take(path@.len() as int) =~= path@);
        }
        let mut stack: Vec<Pending> = Vec::new();
        stack.push(Pending { path: owned, attempted: false });
        let p = CreatePlan { mode: self.mode, recursive: self.recursive, stack, state: PlanState::Making };
        proof {
            assert(p@.stack =~= seq![PendingModel { path: path@, attempted: false }]);
        }
        p
    }
}

/// The creation plan for a path with the default mode, creating every
/// missing parent.
pub fn create_dir_all(path: &[u8]) -> (p: CreatePlan)
    requires
        !has_nul(path@),
    ensures
        p@.mode == DEFAULT_DIR_MODE,
        p@.recursive,
        path@.len() == 0 ==> p@.state == PlanState::Finished && p@.stack.len() == 0,
        path@.len() > 0 ==> p@.state == PlanState::Making && p@.stack =~= seq![
            PendingModel { path: path@, attempted: false },
        ],
        plan_wf(p@),
{
    let b = DirBuilder::new().recursive(true);
    b.create(path)
}

/// An in-progress directory creation: the stack of paths still to make
/// and where the walk stands.
#[derive(Debug)]
pub struct CreatePlan {
    mode: u32,
    recursive: bool,
    stack: Vec<Pending>,
    state: PlanState,
}

impl View for CreatePlan {
    type V = PlanModel;

    closed spec fn view(&self) -> PlanModel {
        PlanModel {
            mode: self.mode,
            recursive: self.recursive,
            stack: stack_view(self.stack@),
            state: self.state,
        }
    }
}

impl CreatePlan {
    /// Where the plan stands.
    pub fn state(&self) -> (s: PlanState)
        ensures
            s == self@.state,
    {
        self.state
    }

    /// The permission mode the plan creates directories with.
    pub fn mode_bits(&self) -> (m: u32)
        ensures
            m == self@.mode,
    {
        self.mode
    }

    /// The path the next step works on: the make-directory call to
    /// issue, or the entry to test for being a directory.
    pub fn next_path(&self) -> (r: Vec<u8>)
        requires
            self@.state is Making || self@.state is CheckingDir,
            plan_wf(self@),
        ensures
            r@ == self@.stack.last().path,
            !has_nul(r@),
    {
        broadcast use lemma_stack_view_len, lemma_stack_view_index;

        let top: &Pending = &self.stack[self.stack.len() - 1];
        let mut v: Vec<u8> = Vec::new();
        let mut i: usize = 0;
        while i < top.path.len()
            invariant
                0 <= i <= top.path@.len(),
                v@ == top.path@.take(i as int),
            decreases top.path@.len() - i,
        {
            v.push(top.path[i]);
            i += 1;
            proof {
                assert(v@ =~= top.path@.take(i as int));
            }
        }
        proof {
            assert(top.path@.take(top.path@.len() as int) =~= top.path@);
            assert(self@.stack.last() == self.stack@.last()@);
        }
        v
    }

    /// Takes in the outcome of the make-directory call for the stack's
    /// top and advances the plan.
    pub fn on_mkdir(&mut self, r: Result<(), i32>)
        requires
            old(self)@.state is Making,
            plan_wf(old(self)@),
        ensures
            final(self)@ == spec_on_mkdir(old(self)@, r),
            plan_wf(final(self)@),
    {
        broadcast use lemma_stack_view_len, lemma_stack_view_index;

        match r {
            Ok(()) => {
                let ghost pre = self.stack@;
                self.stack.pop();
                proof {
                    assert(self.stack@ == pre.drop_last());
                    assert forall|j: int| 0 <= j < self.stack@.len() implies stack_view(
                        self.stack@,
                    )[j] == stack_view(pre).drop_last()[j] by {
                        assert(self.stack@[j] == pre[j]);
                        assert(stack_view(pre)[j] == pre[j]@);
                    }
                    assert(stack_view(self.stack@) =~= stack_view(pre).drop_last());
                }
                self.state = if self.stack.len() == 0 {
                    PlanState::Finished
                } else {
                    PlanState::Making
                };
            },
            Err(e) => {
                if !self.recursive {
                    self.state = PlanState::Failed(e);
                    return ;
                }
                let attempted: bool = self.stack[self.stack.len() - 1].attempted;
                if e == ENOENT && !attempted {
                    let ghost pre = self.stack@;
                    let top: Pending = self.stack.pop().unwrap();
                    let ghost top_path = top.path@;
                    match parent_of_path(top.path.as_slice()) {
                        None => {
                            self.stack.push(Pending { path: top.path, attempted: false });
                            proof {
                                assert forall|j: int| 0 <= j < self.stack@.len() implies
                                    stack_view(self.stack@)[j] == stack_view(pre)[j] by {
                                    if j < pre.len() - 1 {
                                        assert(self.stack@[j] == pre[j]);
                                        assert(stack_view(pre)[j] == pre[j]@);
                                    } else {
                                        assert(self.stack@[j]@ == PendingModel {
                                            path: top_path,
                                            attempted: false,
                                        });
                                        assert(stack_view(pre)[j] == pre[j]@);
                                    }
                                }
                                assert(stack_view(self.stack@) =~= stack_view(pre));
                            }
                            self.state = PlanState::TreeFailed;
                        },
                        Some(pp) => {
                            let ghost ppv = pp@;
                            proof {
                                assert(!has_nul(top_path));
                                lemma_parent_no_nul(top_path);
                            }
                            self.stack.push(Pending { path: top.path, attempted: true });
                            proof {
                                assert forall|j: int| 0 <= j < self.stack@.len() implies
                                    stack_view(self.stack@)[j] == stack_view(pre).update(
                                    pre.len() - 1,
                                    PendingModel { path: top_path, attempted: true },
                                )[j] by {
                                    if j < pre.len() - 1 {
                                        assert(self.stack@[j] == pre[j]);
                                        assert(stack_view(pre)[j] == pre[j]@);
                                    }
                                }
                                assert(stack_view(self.stack@) =~= stack_view(pre).update(
                                    pre.len() - 1,
                                    PendingModel { path: top_path, attempted: true },
                                ));
                            }
                            if pp.len() > 0 {
                                let ghost mid = self.stack@;
                                self.stack.push(Pending { path: pp, attempted: false });
                                proof {
                                    assert forall|j: int| 0 <= j < self.stack@.len() implies
                                        stack_view(self.stack@)[j] == stack_view(mid).push(
                                        PendingModel { path: ppv, attempted: false },
                                    )[j] by {
                                        if j < mid.len() {
                                            assert(self.stack@[j] == mid[j]);
                                            assert(stack_view(mid)[j] == mid[j]@);
                                        }
                                    }
                                    assert(stack_view(self.stack@) =~= stack_view(mid).push(
                                        PendingModel { path: ppv, attempted: false },
                                    ));
                                }
                            }
                            self.state = PlanState::Making;
                        },
                    }
                } else {
                    self.state = PlanState::CheckingDir(e);
                }
            },
        }
    }

    /// Takes in whether the entry in the way of the stack's top is a
    /// directory and advances the plan.
    pub fn on_is_dir(&mut self, is_dir: bool)
        requires
            old(self)@.state is CheckingDir,
            plan_wf(old(self)@),
        ensures
            final(self)@ == spec_on_is_dir(old(self)@, is_dir),
            plan_wf(final(self)@),
    {
        broadcast use lemma_stack_view_len, lemma_stack_view_index;

        if is_dir {
            let ghost pre = self.stack@;
            self.stack.pop();
            proof {
                assert(self.stack@ == pre.drop_last());
                assert forall|j: int| 0 <= j < self.stack@.len() implies stack_view(
                    self.stack@,
                )[j] == stack_view(pre).drop_last()[j] by {
                    assert(self.stack@[j] == pre[j]);
                    assert(stack_view(pre)[j] == pre[j]@);
                }
                assert(stack_view(self.stack@) =~= stack_view(pre).drop_last());
            }
            self.state = if self.stack.len() == 0 {
                PlanState::Finished
            } else {
                PlanState::Making
            };
        } else {
            let e: i32 = match self.state {
                PlanState::CheckingDir(e) => e,
                _ => 0,
            };
            self.state = PlanState::Failed(e);
        }
    }
}

} // verus!
