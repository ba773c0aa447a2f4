//! The path-canonicalization engine: resolves a path into its absolute,
//! symlink-free, dot-free canonical form.
//!
//! The engine itself performs no filesystem access.  It walks the path
//! component by component and, at each step, asks its driver one question
//! — does the prefix built so far exist, or is it a symbolic link — and
//! advances on the answer.  A driver loops on [`Resolver::status`] and
//! [`Resolver::on_reply`] until the resolution is done or failed.

use vstd::prelude::*;
use crate::bytes::has_nul;
use crate::gateway::ENOENT;

verus! {

/// The path separator byte, `/`.
pub const SEP: u8 = 47;

/// The dot byte, `.`.
pub const DOT: u8 = 46;

/// Whether a path is absolute: it starts with the separator.
pub open spec fn is_abs(p: Seq<u8>) -> bool {
    p.len() > 0 && p[0] == SEP
}

/// Whether a component is the literal `.`.
pub open spec fn is_dot_comp(c: Seq<u8>) -> bool {
    c.len() == 1 && c[0] == DOT
}

/// Whether a component is the literal `..`.
pub open spec fn is_dot_dot_comp(c: Seq<u8>) -> bool {
    c.len() == 2 && c[0] == DOT && c[1] == DOT
}

/// The index of the next separator at or after `i`, or the path's length
/// when there is none.
pub open spec fn next_sep(p: Seq<u8>, i: int) -> int
    decreases p.len() - i,
{
    if i >= p.len() {
        p.len() as int
    } else if p[i] == SEP {
        i
    } else {
        next_sep(p, i + 1)
    }
}

/// The components of the path from `i` on: the maximal separator-free,
/// non-empty stretches, in order.
pub open spec fn comps_from(p: Seq<u8>, i: int) -> Seq<Seq<u8>>
    decreases p.len() - i,
{
    if i >= p.len() {
        Seq::empty()
    } else if p[i] == SEP {
        comps_from(p, i + 1)
    } else {
        let j = if i + 1 <= next_sep(p, i) && next_sep(p, i) <= p.len() {
            next_sep(p, i)
        } else {
            i + 1
        };
        seq![p.subrange(i, j)] + comps_from(p, j)
    }
}

/// The components of a path: its non-empty, separator-free stretches.
/// Repeated separators fold together; `.` and `..` stay as components.
pub open spec fn components_of(p: Seq<u8>) -> Seq<Seq<u8>> {
    comps_from(p, 0)
}

/// The byte strings of a sequence of component vectors.
pub open spec fn comps_view(s: Seq<Vec<u8>>) -> Seq<Seq<u8>> {
    s.map_values(|c: Vec<u8>| c@)
}

/// A component list's byte strings are as many as its components.
pub broadcast proof fn lemma_comps_view_len(s: Seq<Vec<u8>>)
    ensures
        #[trigger] comps_view(s).len() == s.len(),
{
}

/// A component list's byte strings sit where their components do.
pub broadcast proof fn lemma_comps_view_index(s: Seq<Vec<u8>>, i: int)
    requires
        0 <= i < s.len(),
    ensures
        #[trigger] comps_view(s)[i] == s[i]@,
{
}

/// The parent of a component list: the list without its last component.
/// The root is its own parent.
pub open spec fn parent_of(parsed: Seq<Seq<u8>>) -> Seq<Seq<u8>> {
    if parsed.len() == 0 {
        parsed
    } else {
        parsed.drop_last()
    }
}

/// The rendering of the components from `i` on: a separator before each.
pub open spec fn render_from(parsed: Seq<Seq<u8>>, i: int) -> Seq<u8>
    decreases parsed.len() - i,
{
    if i >= parsed.len() {
        Seq::empty()
    } else {
        seq![SEP] + parsed[i] + render_from(parsed, i + 1)
    }
}

/// The absolute path a component list names: `/` for the empty list,
/// else each component behind a separator.
pub open spec fn render(parsed: Seq<Seq<u8>>) -> Seq<u8> {
    if parsed.len() == 0 {
        seq![SEP]
    } else {
        render_from(parsed, 0)
    }
}

/// A scan for the next separator lands between its start and the end.
proof fn lemma_next_sep_bounds(p: Seq<u8>, i: int)
    requires
        0 <= i <= p.len(),
    ensures
        i <= next_sep(p, i) <= p.len(),
    decreases p.len() - i,
{
    if i < p.len() && p[i] != SEP {
        lemma_next_sep_bounds(p, i + 1);
    }
}

/// Splits a path into its components.
pub fn split_components(p: &[u8]) -> (v: Vec<Vec<u8>>)
    ensures
        comps_view(v@) == components_of(p@),
{
    broadcast use lemma_comps_view_len, lemma_comps_view_index;
    let len: usize = p.len();
    let mut v: Vec<Vec<u8>> = Vec::new();
    let mut i: usize = 0;
    proof {
        assert(comps_view(Seq::<Vec<u8>>::empty()) + components_of(p@) =~= components_of(p@));
    }
    while i < len
        invariant
            len == p@.len(),
            0 <= i <= len,
            comps_view(v@) + comps_from(p@, i as int) == components_of(p@),
        decreases len - i,
    {
        if p[i] == SEP {
            i += 1;
            continue ;
        }
        let start: usize = i;
        let mut j: usize = i;
        while j < len && p[j] != SEP
            invariant
                start <= j <= len,
                len == p@.len(),
                forall|k: int| start <= k < j ==> p@[k] != SEP,
            decreases len - j,
        {
            j += 1;
        }
        proof {
            lemma_next_sep_at(p@, start as int, j as int);
            lemma_next_sep_bounds(p@, start as int);
        }
        let comp: Vec<u8> = copy_bytes(p, start, j);
        let ghost pre = v@;
        v.push(comp);
        proof {
            assert(comps_view(v@) =~= comps_view(pre) + seq![p@.subrange(start as int, j as int)]);
            assert((comps_view(pre) + seq![p@.subrange(start as int, j as int)]) + comps_from(
                p@,
                j as int,
            ) =~= comps_view(pre) + (seq![p@.subrange(start as int, j as int)] + comps_from(
                p@,
                j as int,
            )));
        }
        i = j;
    }
    proof {
        assert(comps_view(v@) + Seq::<Seq<u8>>::empty() =~= comps_view(v@));
    }
    v
}

/// When a scan from `i` saw no separator before `j` and stopped there,
/// the next separator from `i` sits at `j`, or at the end.
proof fn lemma_next_sep_at(p: Seq<u8>, i: int, j: int)
    requires
        0 <= i <= j <= p.len(),
        forall|k: int| i <= k < j ==> p[k] != SEP,
        j < p.len() ==> p[j] == SEP,
    ensures
        next_sep(p, i) == if j < p.len() {
            j
        } else {
            p.len() as int
        },
    decreases j - i,
{
    if i < j {
        lemma_next_sep_at(p, i + 1, j);
    }
}

/// Copies `p[start..end)` into a fresh vector.
fn copy_bytes(p: &[u8], start: usize, end: usize) -> (v: Vec<u8>)
    requires
        start <= end <= p@.len(),
    ensures
        v@ == p@.subrange(start as int, end as int),
{
    let mut v: Vec<u8> = Vec::new();
    let mut i: usize = start;
    while i < end
        invariant
            start <= i <= end <= p@.len(),
            v@ == p@.subrange(start as int, i as int),
        decreases end - i,
    {
        v.push(p[i]);
        i += 1;
        proof {
            assert(v@ =~= p@.subrange(start as int, i as int));
        }
    }
    v
}

/// Renders a component list as an absolute path.
pub fn render_path(parsed: &Vec<Vec<u8>>) -> (v: Vec<u8>)
    ensures
        v@ == render(comps_view(parsed@)),
{
    broadcast use lemma_comps_view_len, lemma_comps_view_index;
    let n: usize = parsed.len();
    if n == 0 {
        let mut v: Vec<u8> = Vec::new();
        v.push(SEP);
        proof {
            assert(v@ =~= seq![SEP]);
        }
        return v;
    }
    let mut v: Vec<u8> = Vec::new();
    let mut i: usize = 0;
    proof {
        assert(Seq::<u8>::empty() + render_from(comps_view(parsed@), 0) =~= render_from(
            comps_view(parsed@),
            0,
        ));
    }
    while i < n
        invariant
            n == parsed@.len(),
            0 <= i <= n,
            v@ + render_from(comps_view(parsed@), i as int) == render_from(comps_view(parsed@), 0),
        decreases n - i,
    {
        let ghost pre = v@;
        v.push(SEP);
        let comp: &Vec<u8> = &parsed[i];
        let mut k: usize = 0;
        while k < comp.len()
            invariant
                0 <= k <= comp@.len(),
                comp@ == parsed@[i as int]@,
                i < parsed@.len(),
                v@ == pre + seq![SEP] + comp@.take(k as int),
            decreases comp@.len() - k,
        {
            v.push(comp[k]);
            k += 1;
            proof {
                assert(v@ =~= pre + seq![SEP] + comp@.take(k as int));
            }
        }
        proof {
            assert(comp@.take(comp@.len() as int) =~= comp@);
            assert(v@ =~= pre + (seq![SEP] + comp@));
            let cv = comps_view(parsed@);
            assert(cv[i as int] == comp@);
            assert((pre + (seq![SEP] + cv[i as int])) + render_from(cv, i as int + 1) =~= pre + (
            seq![SEP] + cv[i as int] + render_from(cv, i as int + 1)));
        }
        i += 1;
    }
    proof {
        assert(v@ + Seq::<u8>::empty() =~= v@);
    }
    v
}

} // verus!

verus! {

/// Where the resolver stands: waiting for an existence answer, waiting
/// for a symlink answer, finished, or failed with an error number.
#[derive(Copy, Clone, Debug, PartialEq, Eq, Structural)]
pub enum Phase {
    /// Waiting to hear whether the parsed prefix exists.
    AwaitExists,
    /// Waiting to hear whether the parsed prefix is a symbolic link.
    AwaitLink,
    /// The resolution is complete.
    Done,
    /// The resolution failed with this error number.
    Failed(i32),
}

/// The question a resolver asks its driver, with the path it asks about.
#[derive(Debug)]
pub enum Query {
    /// Does this path name an existing filesystem entry?
    CheckExists(Vec<u8>),
    /// Is this path a symbolic link, and what does it hold?
    CheckLink(Vec<u8>),
}

/// What the resolver reports after a step: a question, the canonical
/// result, or a failure.
#[derive(Debug)]
pub enum Status {
    /// The resolver needs an answer to go on.
    Ask(Query),
    /// The canonical absolute path.
    Finished(Vec<u8>),
    /// The error number the resolution failed with.
    Failed(i32),
}

/// The driver's answer to the pending question.
#[derive(Debug)]
pub enum Reply {
    /// Whether the path exists, or the error the check ran into.
    Exists(Result<bool, i32>),
    /// The target the symbolic link holds, or nothing when the path is
    /// not a symbolic link.
    Target(Option<Vec<u8>>),
}

/// The mathematical value of a reply.
pub enum ReplyModel {
    /// Whether the path exists, or the error the check ran into.
    Exists(Result<bool, i32>),
    /// The link target, or nothing.
    Target(Option<Seq<u8>>),
}

impl View for Reply {
    type V = ReplyModel;

    open spec fn view(&self) -> ReplyModel {
        match self {
            Reply::Exists(r) => ReplyModel::Exists(*r),
            Reply::Target(t) => ReplyModel::Target(
                match t {
                    Some(v) => Some(v@),
                    None => None,
                },
            ),
        }
    }
}

/// The mathematical state of a resolver: the canonical prefix built so
/// far as components, the components still to walk, and the phase.
pub struct ResolverModel {
    /// The canonical prefix, as components under the root.
    pub parsed: Seq<Seq<u8>>,
    /// The components still to walk, first next.
    pub remaining: Seq<Seq<u8>>,
    /// Where the resolver stands.
    pub phase: Phase,
}

/// A resolver model is well formed when it waits for an existence answer
/// only while components remain to be walked, and is done only when none
/// do.
pub open spec fn model_wf(m: ResolverModel) -> bool {
    &&& m.phase is AwaitExists ==> m.remaining.len() > 0
    &&& m.phase is Done ==> m.remaining.len() == 0
}

/// The phase for a walk that still has `remaining` components ahead.
pub open spec fn walk_phase(remaining: Seq<Seq<u8>>) -> Phase {
    if remaining.len() == 0 {
        Phase::Done
    } else {
        Phase::AwaitExists
    }
}

/// One step of the walk after a positive existence answer: the next
/// component is consumed.  A `.` vanishes; a `..` moves the prefix to
/// its parent; any other component is appended.  After `..` or an
/// append the prefix must be checked for a symbolic link; after `.` the
/// walk goes straight on.
pub open spec fn consume_component(m: ResolverModel) -> ResolverModel {
    let c = m.remaining[0];
    let rest = m.remaining.drop_first();
    if is_dot_comp(c) {
        ResolverModel { parsed: m.parsed, remaining: rest, phase: walk_phase(rest) }
    } else if is_dot_dot_comp(c) {
        ResolverModel { parsed: parent_of(m.parsed), remaining: rest, phase: Phase::AwaitLink }
    } else {
        ResolverModel { parsed: m.parsed.push(c), remaining: rest, phase: Phase::AwaitLink }
    }
}

/// The splice after the prefix turned out to be a symbolic link holding
/// `t`: the walk starts over from the root, with the target's components
/// — anchored at the link's parent directory when the target is relative
/// — spliced in ahead of the components not yet walked.
pub open spec fn splice_target(m: ResolverModel, t: Seq<u8>) -> ResolverModel {
    let base = if is_abs(t) {
        Seq::<Seq<u8>>::empty()
    } else {
        parent_of(m.parsed)
    };
    let ahead = base + components_of(t) + m.remaining;
    ResolverModel { parsed: Seq::empty(), remaining: ahead, phase: walk_phase(ahead) }
}

/// The resolver's transition on a reply.  A missing prefix fails with
/// the not-found error; an existence check that itself failed passes
/// its error through; a link answer either resumes the walk or splices
/// the target in.
pub open spec fn spec_step(m: ResolverModel, r: ReplyModel) -> ResolverModel {
    match (m.phase, r) {
        (Phase::AwaitExists, ReplyModel::Exists(Err(e))) => ResolverModel {
            phase: Phase::Failed(e),
            ..m
        },
        (Phase::AwaitExists, ReplyModel::Exists(Ok(false))) => ResolverModel {
            phase: Phase::Failed(ENOENT),
            ..m
        },
        (Phase::AwaitExists, ReplyModel::Exists(Ok(true))) => consume_component(m),
        (Phase::AwaitLink, ReplyModel::Target(None)) => ResolverModel {
            phase: walk_phase(m.remaining),
            ..m
        },
        (Phase::AwaitLink, ReplyModel::Target(Some(t))) => splice_target(m, t),
        _ => m,
    }
}

/// The model a fresh resolution starts from: the prefix is the root for
/// an absolute path and the base directory for a relative one, and every
/// component of the path is still to walk.
pub open spec fn start_model(path: Seq<u8>, base: Seq<u8>) -> ResolverModel {
    let parsed = if is_abs(path) {
        Seq::<Seq<u8>>::empty()
    } else {
        components_of(base)
    };
    ResolverModel {
        parsed,
        remaining: components_of(path),
        phase: walk_phase(components_of(path)),
    }
}

/// The canonicalization engine's state: the canonical prefix built so
/// far and the components still to walk.
#[derive(Debug)]
pub struct Resolver {
    parsed: Vec<Vec<u8>>,
    remaining: Vec<Vec<u8>>,
    phase: Phase,
}

impl View for Resolver {
    type V = ResolverModel;

    closed spec fn view(&self) -> ResolverModel {
        ResolverModel {
            parsed: comps_view(self.parsed@),
            remaining: comps_view(self.remaining@),
            phase: self.phase,
        }
    }
}

/// Begins canonicalizing a path.  A relative path is anchored at `base`,
/// the caller's view of the working directory, which must be absolute.
pub fn canonicalize(path: &[u8], base: &[u8]) -> (r: Resolver)
    requires
        !has_nul(path@),
        !has_nul(base@),
        is_abs(base@),
    ensures
        r@ == start_model(path@, base@),
        model_wf(r@),
{
    broadcast use lemma_comps_view_len, lemma_comps_view_index;

    let parsed: Vec<Vec<u8>> = if path.len() > 0 && path[0] == SEP {
        Vec::new()
    } else {
        split_components(base)
    };
    let remaining: Vec<Vec<u8>> = split_components(path);
    let phase = if remaining.len() == 0 {
        Phase::Done
    } else {
        Phase::AwaitExists
    };
    let r = Resolver { parsed, remaining, phase };
    proof {
        assert(comps_view(Seq::<Vec<u8>>::empty()) =~= Seq::<Seq<u8>>::empty());
    }
    r
}

/// Copies a component list.
fn copy_comps(v: &Vec<Vec<u8>>) -> (r: Vec<Vec<u8>>)
    ensures
        comps_view(r@) == comps_view(v@),
{
    broadcast use lemma_comps_view_len, lemma_comps_view_index;

    let mut r: Vec<Vec<u8>> = Vec::new();
    let mut i: usize = 0;
    while i < v.len()
        invariant
            0 <= i <= v@.len(),
            comps_view(r@) == comps_view(v@).take(i as int),
        decreases v@.len() - i,
    {
        let c: Vec<u8> = copy_bytes(v[i].as_slice(), 0, v[i].len());
        proof {
            assert(v@[i as int]@.subrange(0, v@[i as int]@.len() as int) =~= v@[i as int]@);
        }
        let ghost cv = c@;
        let ghost pre_r = r@;
        let ghost ii = i as int;
        r.push(c);
        i += 1;
        proof {
            assert(cv == v@[ii]@);
            assert(comps_view(pre_r).len() == pre_r.len());
            assert forall|j: int| 0 <= j < r@.len() implies comps_view(r@)[j] == comps_view(
                v@,
            ).take(ii + 1)[j] by {
                if j < ii {
                    assert(r@[j] == pre_r[j]);
                    assert(comps_view(pre_r)[j] == pre_r[j]@);
                } else {
                    assert(r@[j]@ == cv);
                }
            }
            assert(comps_view(r@) =~= comps_view(v@).take(ii + 1));
        }
    }
    proof {
        assert(comps_view(v@).take(v@.len() as int) =~= comps_view(v@));
    }
    r
}

impl Resolver {
    /// What the resolver needs or concluded: the question to answer
    /// next, the canonical result, or the failure.
    pub fn status(&self) -> (s: Status)
        ensures
            self@.phase is AwaitExists ==> (s matches Status::Ask(q) && q matches
                Query::CheckExists(p) && p@ == render(self@.parsed)),
            self@.phase is AwaitLink ==> (s matches Status::Ask(q) && q matches Query::CheckLink(
                p,
            ) && p@ == render(self@.parsed)),
            self@.phase is Done ==> (s matches Status::Finished(p) && p@ == render(self@.parsed)),
            self@.phase matches Phase::Failed(e) ==> s == Status::Failed(e),
    {
        match self.phase {
            Phase::AwaitExists => Status::Ask(Query::CheckExists(render_path(&self.parsed))),
            Phase::AwaitLink => Status::Ask(Query::CheckLink(render_path(&self.parsed))),
            Phase::Done => Status::Finished(render_path(&self.parsed)),
            Phase::Failed(e) => Status::Failed(e),
        }
    }

    /// Advances the resolution on the driver's answer to the pending
    /// question.
    #[verifier::rlimit(50)]
    pub fn on_reply(&mut self, reply: Reply)
        requires
            model_wf(old(self)@),
            old(self)@.phase is AwaitExists ==> reply@ is Exists,
            old(self)@.phase is AwaitLink ==> reply@ is Target,
            !(old(self)@.phase is Done),
            !(old(self)@.phase is Failed),
            reply@ matches ReplyModel::Target(Some(t)) ==> !has_nul(t),
        ensures
            final(self)@ == spec_step(old(self)@, reply@),
            model_wf(final(self)@),
    {
        broadcast use lemma_comps_view_len, lemma_comps_view_index;

        match reply {
            Reply::Exists(Err(e)) => {
                self.phase = Phase::Failed(e);
            },
            Reply::Exists(Ok(false)) => {
                self.phase = Phase::Failed(ENOENT);
            },
            Reply::Exists(Ok(true)) => {
                let ghost pre_rem = self.remaining@;
                let c: Vec<u8> = self.remaining.remove(0);
                proof {
                    assert(self.remaining@ == pre_rem.remove(0));
                    assert forall|j: int| 0 <= j < self.remaining@.len() implies comps_view(
                        self.remaining@,
                    )[j] == comps_view(pre_rem).drop_first()[j] by {
                        assert(self.remaining@[j] == pre_rem[j + 1]);
                        assert(comps_view(pre_rem)[j + 1] == pre_rem[j + 1]@);
                    }
                    assert(comps_view(self.remaining@) =~= comps_view(pre_rem).drop_first());
                }
                if c.len() == 1 && c[0] == DOT {
                    self.phase = if self.remaining.len() == 0 {
                        Phase::Done
                    } else {
                        Phase::AwaitExists
                    };
                } else if c.len() == 2 && c[0] == DOT && c[1] == DOT {
                    if self.parsed.len() > 0 {
                        let ghost pre_parsed = self.parsed@;
                        self.parsed.pop();
                        proof {
                            assert(self.parsed@ == pre_parsed.drop_last());
                            assert forall|j: int| 0 <= j < self.parsed@.len() implies comps_view(
                                self.parsed@,
                            )[j] == comps_view(pre_parsed).drop_last()[j] by {
                                assert(self.parsed@[j] == pre_parsed[j]);
                                assert(comps_view(pre_parsed)[j] == pre_parsed[j]@);
                            }
                            assert(comps_view(self.parsed@) =~= comps_view(
                                pre_parsed,
                            ).drop_last());
                        }
                    }
                    self.phase = Phase::AwaitLink;
                } else {
                    let ghost pre_parsed = self.parsed@;
                    let ghost cv = c@;
                    self.parsed.push(c);
                    proof {
                        assert(cv == comps_view(pre_rem)[0]);
                        assert forall|j: int| 0 <= j < self.parsed@.len() implies comps_view(
                            self.parsed@,
                        )[j] == comps_view(pre_parsed).push(cv)[j] by {
                            if j < pre_parsed.len() {
                                assert(self.parsed@[j] == pre_parsed[j]);
                                assert(comps_view(pre_parsed)[j] == pre_parsed[j]@);
                            } else {
                                assert(self.parsed@[j]@ == cv);
                            }
                        }
                        assert(comps_view(self.parsed@) =~= comps_view(pre_parsed).push(cv));
                    }
                    self.phase = Phase::AwaitLink;
                }
            },
            Reply::Target(None) => {
                self.phase = if self.remaining.len() == 0 {
                    Phase::Done
                } else {
                    Phase::AwaitExists
                };
            },
            Reply::Target(Some(t)) => {
                let abs: bool = t.len() > 0 && t[0] == SEP;
                let mut front: Vec<Vec<u8>> = if abs {
                    Vec::new()
                } else {
                    copy_comps(&self.parsed)
                };
                if !abs && front.len() > 0 {
                    let ghost pre_front = front@;
                    front.pop();
                    proof {
                        assert(front@ == pre_front.drop_last());
                        assert forall|j: int| 0 <= j < front@.len() implies comps_view(
                            front@,
                        )[j] == comps_view(pre_front).drop_last()[j] by {
                            assert(front@[j] == pre_front[j]);
                            assert(comps_view(pre_front)[j] == pre_front[j]@);
                        }
                        assert(comps_view(front@) =~= comps_view(pre_front).drop_last());
                    }
                }
                proof {
                    assert(comps_view(Seq::<Vec<u8>>::empty()) =~= Seq::<Seq<u8>>::empty());
                    if abs {
                        assert(comps_view(front@) =~= Seq::<Seq<u8>>::empty());
                    } else {
                        assert(comps_view(front@) =~= parent_of(old(self)@.parsed));
                    }
                }
                let ghost base_v = comps_view(front@);
                let mut tcomps: Vec<Vec<u8>> = split_components(t.as_slice());
                let ghost t_v = comps_view(tcomps@);
                let ghost tc = tcomps@;
                let ghost pre_cat = front@;
                front.append(&mut tcomps);
                proof {
                    assert(front@ == pre_cat + tc);
                    assert forall|j: int| 0 <= j < front@.len() implies comps_view(front@)[j] == (
                    base_v + t_v)[j] by {
                        if j < pre_cat.len() {
                            assert(front@[j] == pre_cat[j]);
                            assert(comps_view(pre_cat)[j] == pre_cat[j]@);
                        } else {
                            assert(front@[j] == tc[j - pre_cat.len()]);
                            assert(comps_view(tc)[j - pre_cat.len()] == tc[j - pre_cat.len()]@);
                        }
                    }
                    assert(comps_view(front@) =~= base_v + t_v);
                }
                self.parsed = Vec::new();
                let ghost old_rem = comps_view(self.remaining@);
                let ghost rem_snap = self.remaining@;
                let ghost front_v = comps_view(front@);
                let ghost pre_cat2 = front@;
                front.append(&mut self.remaining);
                self.remaining = front;
                proof {
                    assert(self.remaining@ == pre_cat2 + rem_snap);
                    assert forall|j: int| 0 <= j < self.remaining@.len() implies comps_view(
                        self.remaining@,
                    )[j] == (front_v + old_rem)[j] by {
                        if j < pre_cat2.len() {
                            assert(self.remaining@[j] == pre_cat2[j]);
                            assert(comps_view(pre_cat2)[j] == pre_cat2[j]@);
                        } else {
                            assert(self.remaining@[j] == rem_snap[j - pre_cat2.len()]);
                            assert(comps_view(rem_snap)[j - pre_cat2.len()] == rem_snap[j
                                - pre_cat2.len()]@);
                        }
                    }
                    assert(comps_view(self.remaining@) =~= front_v + old_rem);
                    assert(comps_view(self.parsed@) =~= Seq::<Seq<u8>>::empty());
                }
                self.phase = if self.remaining.len() == 0 {
                    Phase::Done
                } else {
                    Phase::AwaitExists
                };
            },
        }
    }
}

} // verus!

verus! {

/// The purely syntactic normalization of a walk: starting from `parsed`,
/// a `.` component vanishes, a `..` component steps to the parent — a
/// no-op at the root — and any other component is appended.
pub open spec fn normalize(parsed: Seq<Seq<u8>>, remaining: Seq<Seq<u8>>) -> Seq<Seq<u8>>
    decreases remaining.len(),
{
    if remaining.len() == 0 {
        parsed
    } else {
        let c = remaining[0];
        let rest = remaining.drop_first();
        if is_dot_comp(c) {
            normalize(parsed, rest)
        } else if is_dot_dot_comp(c) {
            normalize(parent_of(parsed), rest)
        } else {
            normalize(parsed.push(c), rest)
        }
    }
}

/// An ordering of the walk's phases within one component: the symlink
/// check comes after the existence check.
pub open spec fn phase_rank(p: Phase) -> int {
    match p {
        Phase::AwaitLink => 1,
        _ => 0,
    }
}

/// The state a resolver reaches when every existence answer is yes and
/// no prefix is a symbolic link.
pub open spec fn run_without_links(m: ResolverModel) -> ResolverModel
    decreases m.remaining.len(), phase_rank(m.phase),
{
    match m.phase {
        Phase::AwaitExists => {
            if m.remaining.len() > 0 {
                run_without_links(spec_step(m, ReplyModel::Exists(Ok(true))))
            } else {
                m
            }
        },
        Phase::AwaitLink => run_without_links(spec_step(m, ReplyModel::Target(None))),
        _ => m,
    }
}

/// A walk that meets no missing entry and no symbolic link ends, and
/// ends with exactly the syntactic normalization of its path: `.`
/// components vanish, `..` steps to the parent — `..` at the root is a
/// no-op — and every other component is appended in order.
pub proof fn lemma_walk_without_links_normalizes(m: ResolverModel)
    requires
        model_wf(m),
        !(m.phase is Failed),
    ensures
        run_without_links(m).phase is Done,
        run_without_links(m).parsed == normalize(m.parsed, m.remaining),
    decreases m.remaining.len(), phase_rank(m.phase),
{
    match m.phase {
        Phase::AwaitExists => {
            let next = spec_step(m, ReplyModel::Exists(Ok(true)));
            lemma_walk_without_links_normalizes(next);
        },
        Phase::AwaitLink => {
            let next = spec_step(m, ReplyModel::Target(None));
            lemma_walk_without_links_normalizes(next);
        },
        _ => {},
    }
}

/// A symbolic link restarts the walk from the root: its target, anchored
/// at the link's own parent directory when the target is relative, is
/// spliced in ahead of the components not yet walked, and the prefix
/// resolved so far is discarded.
pub proof fn lemma_symlink_resolves_from_parent(m: ResolverModel, t: Seq<u8>)
    requires
        m.phase is AwaitLink,
    ensures
        spec_step(m, ReplyModel::Target(Some(t))).parsed == Seq::<Seq<u8>>::empty(),
        !is_abs(t) ==> spec_step(m, ReplyModel::Target(Some(t))).remaining == parent_of(m.parsed)
            + components_of(t) + m.remaining,
        is_abs(t) ==> spec_step(m, ReplyModel::Target(Some(t))).remaining == components_of(t)
            + m.remaining,
{
    if is_abs(t) {
        assert(Seq::<Seq<u8>>::empty() + components_of(t) =~= components_of(t));
    }
}

} // verus!

verus! {

/// A well-formed component: non-empty and free of separators.
pub open spec fn comp_wf(c: Seq<u8>) -> bool {
    c.len() > 0 && forall|j: int| 0 <= j < c.len() ==> c[j] != SEP
}

/// A well-formed component list, as splitting any path produces.
pub open spec fn comps_wf(p: Seq<Seq<u8>>) -> bool {
    forall|i: int| 0 <= i < p.len() ==> comp_wf(#[trigger] p[i])
}

/// The separator scan of a shifted suffix lands at the shifted spot.
proof fn lemma_next_sep_shift(a: Seq<u8>, b: Seq<u8>, i: int)
    requires
        0 <= i <= b.len(),
    ensures
        next_sep(a + b, a.len() + i) == a.len() + next_sep(b, i),
    decreases b.len() - i,
{
    if i < b.len() {
        assert((a + b)[a.len() + i] == b[i]);
        if b[i] != SEP {
            lemma_next_sep_shift(a, b, i + 1);
        }
    }
}

/// The components of a shifted suffix are the suffix's own components.
proof fn lemma_comps_from_shift(a: Seq<u8>, b: Seq<u8>, i: int)
    requires
        0 <= i,
    ensures
        comps_from(a + b, a.len() + i) == comps_from(b, i),
    decreases b.len() - i,
{
    let s = a + b;
    let l = a.len() as int;
    if i >= b.len() {
        assert(l + i >= s.len());
    } else {
        assert(s[l + i] == b[i]);
        if b[i] == SEP {
            lemma_comps_from_shift(a, b, i + 1);
        } else {
            lemma_next_sep_bounds(b, i + 1);
            lemma_next_sep_shift(a, b, i);
            let j = next_sep(b, i);
            assert(j == next_sep(b, i + 1));
            assert(j >= i + 1);
            assert(s.subrange(l + i, l + j) =~= b.subrange(i, j));
            lemma_comps_from_shift(a, b, j);
            assert(comps_from(s, l + i) == seq![s.subrange(l + i, l + j)] + comps_from(
                s,
                l + j,
            ));
        }
    }
}

/// Rendering components from `i` on and splitting the result — with any
/// separator-led continuation appended — gives those components back,
/// followed by the continuation's own.
proof fn lemma_split_render_from(p: Seq<Seq<u8>>, i: int, t: Seq<u8>)
    requires
        comps_wf(p),
        0 <= i <= p.len(),
    ensures
        comps_from(render_from(p, i) + seq![SEP] + t, 0) == p.subrange(i, p.len() as int)
            + comps_from(t, 0),
    decreases p.len() - i,
{
    if i == p.len() {
        assert(render_from(p, i) + seq![SEP] + t =~= seq![SEP] + t);
        let s = seq![SEP] + t;
        assert(s[0] == SEP);
        lemma_comps_from_shift(seq![SEP], t, 0);
        assert(comps_from(s, 0) == comps_from(s, 1));
        assert(p.subrange(i, p.len() as int) + comps_from(t, 0) =~= comps_from(t, 0));
    } else {
        let c = p[i];
        let rest = render_from(p, i + 1) + seq![SEP] + t;
        let s = render_from(p, i) + seq![SEP] + t;
        assert(render_from(p, i) == seq![SEP] + c + render_from(p, i + 1));
        assert(s =~= (seq![SEP] + c) + rest);
        let head = seq![SEP] + c;
        assert(s[0] == SEP);
        assert(comps_from(s, 0) == comps_from(s, 1));
        // The bytes of the component run to the next separator, which is
        // the first byte after it: either the next component's or the
        // continuation's.
        assert(rest[0] == SEP);
        assert(forall|k: int| 1 <= k < head.len() ==> s[k] == c[k - 1] && s[k] != SEP);
        assert(s[head.len() as int] == SEP);
        lemma_next_sep_at_sep(s, 1, head.len() as int);
        lemma_next_sep_bounds(s, 1);
        assert(next_sep(s, 1) == head.len());
        assert(s.subrange(1, head.len() as int) =~= c);
        assert(comps_from(s, 1) == seq![s.subrange(1, head.len() as int)] + comps_from(
            s,
            head.len() as int,
        ));
        lemma_comps_from_shift(head, rest, 0);
        assert(comps_from(s, head.len() as int) == comps_from(rest, 0));
        lemma_split_render_from(p, i + 1, t);
        assert(seq![c] + (p.subrange(i + 1, p.len() as int) + comps_from(t, 0)) =~= p.subrange(
            i,
            p.len() as int,
        ) + comps_from(t, 0));
    }
}

/// A separator scan that sees no separator before `j`, and one at `j`,
/// lands at `j`.
proof fn lemma_next_sep_at_sep(s: Seq<u8>, i: int, j: int)
    requires
        0 <= i <= j < s.len(),
        forall|k: int| i <= k < j ==> s[k] != SEP,
        s[j] == SEP,
    ensures
        next_sep(s, i) == j,
    decreases j - i,
{
    if i < j {
        lemma_next_sep_at_sep(s, i + 1, j);
    }
}

/// Splitting is the inverse of rendering: the components of a rendered
/// list are the list itself.
pub proof fn lemma_components_of_render(p: Seq<Seq<u8>>)
    requires
        comps_wf(p),
    ensures
        components_of(render(p)) == p,
{
    if p.len() == 0 {
        assert(render(p) == seq![SEP]);
        assert(render(p)[0] == SEP);
        assert(components_of(render(p)) == comps_from(render(p), 1));
    } else {
        lemma_split_render_from(p, 0, Seq::empty());
        assert(render_from(p, 0) + seq![SEP] + Seq::<u8>::empty() =~= render_from(p, 0) + seq![
            SEP,
        ]);
        lemma_trailing_sep_harmless(p);
        assert(p.subrange(0, p.len() as int) =~= p);
    }
}

/// A trailing separator adds no component: rendering with or without it
/// splits the same.
proof fn lemma_trailing_sep_harmless(p: Seq<Seq<u8>>)
    requires
        comps_wf(p),
        p.len() > 0,
    ensures
        comps_from(render_from(p, 0) + seq![SEP], 0) == comps_from(render_from(p, 0), 0),
{
    lemma_comps_prefix_stable(render_from(p, 0), 0);
}

/// Splitting ignores one separator appended at the end, from any spot.
proof fn lemma_comps_prefix_stable(s: Seq<u8>, i: int)
    requires
        0 <= i,
    ensures
        comps_from(s + seq![SEP], i) == comps_from(s, i),
    decreases s.len() + 1 - i,
{
    let e = s + seq![SEP];
    if i > s.len() {
        assert(i >= e.len());
    } else if i == s.len() {
        assert(e[i] == SEP);
        assert(comps_from(e, i) == comps_from(e, i + 1));
    } else {
        assert(e[i] == s[i]);
        if s[i] == SEP {
            lemma_comps_prefix_stable(s, i + 1);
        } else {
            lemma_next_sep_bounds(s, i + 1);
            let j = next_sep(s, i);
            assert(j == next_sep(s, i + 1));
            assert(j >= i + 1);
            lemma_next_sep_extend(s, i);
            assert(e.subrange(i, j) =~= s.subrange(i, j));
            lemma_comps_prefix_stable(s, j);
        }
    }
}

/// The separator scan of a path with one separator appended stops where
/// the plain scan does, or at the appended separator when the plain scan
/// ran off the end.
proof fn lemma_next_sep_extend(s: Seq<u8>, i: int)
    requires
        0 <= i <= s.len(),
    ensures
        next_sep(s + seq![SEP], i) == if next_sep(s, i) < s.len() {
            next_sep(s, i)
        } else {
            s.len() as int
        },
    decreases s.len() - i,
{
    let e = s + seq![SEP];
    if i < s.len() {
        assert(e[i] == s[i]);
        if s[i] != SEP {
            lemma_next_sep_extend(s, i + 1);
        }
    } else {
        assert(e[i] == SEP);
    }
}

/// The splice a relative symbolic link causes is exactly a fresh
/// resolution of the link's parent directory joined with the target,
/// continued with the components not yet walked: what the recursive
/// description of the algorithm re-canonicalizes, this machine walks.
pub proof fn lemma_splice_resolves_joined_path(m: ResolverModel, t: Seq<u8>)
    requires
        m.phase is AwaitLink,
        comps_wf(parent_of(m.parsed)),
        !is_abs(t),
    ensures
        spec_step(m, ReplyModel::Target(Some(t))).remaining == components_of(
            render(parent_of(m.parsed)) + seq![SEP] + t,
        ) + m.remaining,
{
    let base = parent_of(m.parsed);
    if base.len() == 0 {
        assert(render(base) == seq![SEP]);
        assert(render(base) + seq![SEP] + t =~= (seq![SEP] + seq![SEP]) + t);
        lemma_comps_from_shift(seq![SEP] + seq![SEP], t, 0);
        let s = render(base) + seq![SEP] + t;
        assert(s[0] == SEP);
        assert(s[1] == SEP);
        assert(comps_from(s, 0) == comps_from(s, 1));
        assert(comps_from(s, 1) == comps_from(s, 2));
        assert(components_of(s) == components_of(t));
        assert(base + components_of(t) =~= components_of(t));
    } else {
        assert(render(base) == render_from(base, 0));
        lemma_split_render_from(base, 0, t);
        assert(base.subrange(0, base.len() as int) =~= base);
    }
}

} // verus!

verus! {

/// The identity `x/..` resolves to where it started: a walk that begins
/// at a base, descends into one ordinary existing entry and steps back
/// up, meeting no symbolic link, ends with exactly the base's
/// components — and with the base path itself, for any base that is the
/// rendering of its own components, as every canonical path is.
pub proof fn lemma_descend_ascend_returns_to_base(base: Seq<u8>, x: Seq<u8>)
    requires
        !is_dot_comp(x),
        !is_dot_dot_comp(x),
    ensures
        ({
            let start = ResolverModel {
                parsed: components_of(base),
                remaining: seq![x, seq![DOT, DOT]],
                phase: Phase::AwaitExists,
            };
            &&& run_without_links(start).phase is Done
            &&& run_without_links(start).parsed == components_of(base)
            &&& (render(components_of(base)) == base ==> render(
                run_without_links(start).parsed,
            ) == base)
        }),
{
    let dd = seq![DOT, DOT];
    assert(is_dot_dot_comp(dd));
    let start = ResolverModel {
        parsed: components_of(base),
        remaining: seq![x, dd],
        phase: Phase::AwaitExists,
    };
    assert(seq![x, dd].len() == 2);
    lemma_walk_without_links_normalizes(start);
    assert(seq![x, dd][0] == x);
    assert(seq![x, dd].drop_first() =~= seq![dd]);
    assert(seq![dd][0] == dd);
    assert(seq![dd].drop_first() =~= Seq::<Seq<u8>>::empty());
    let p = components_of(base);
    assert(normalize(p, seq![x, dd]) == normalize(p.push(x), seq![dd]));
    assert(normalize(p.push(x), seq![dd]) == normalize(parent_of(p.push(x)), Seq::empty()));
    assert(p.push(x).drop_last() =~= p);
    assert(parent_of(p.push(x)) == p);
}

} // verus!
