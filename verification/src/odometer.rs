//! The dependent Cartesian iterator: an odometer over the step's
//! generator positions. Each position holds the binding sequence of its
//! latest (re)start and the binding it currently rests on; the last
//! position varies fastest, and a position that exhausts sends the
//! odometer back to the previous one. A position other than the first
//! is re-evaluated against the current, already-extended context every
//! time it is restarted — that is how a later generator's templates can
//! reference the values earlier generators currently rest on.
//!
//! The iterator is resumable: `poll` performs one step and hands out at
//! most one complete tuple, so the consumer can suspend between tuples
//! without materializing the product. A ghost history records every
//! tuple handed out; when every generator of the step depends on the
//! context alone, that history is proved to be exactly a prefix of the
//! recursive dependent-product model, and the whole model once the
//! iterator finishes.

use vstd::map::*;
use vstd::prelude::*;

use crate::ctx::ItemData;
use crate::iters::{all_wf, det_gen, gen_model, get_iter, views_of};
use crate::models::TaskIter;

verus! {

/// The view of one context or binding set.
pub type CtxV = Map<Seq<char>, Seq<char>>;

/// The view of one yielded tuple: the binding each position rests on,
/// and the snapshot of the accumulated context.
pub type TupV = (Seq<CtxV>, CtxV);

/// One complete combination handed to the consumer.
pub struct TupleOut {
    pub bindings: Vec<ItemData>,
    pub env: ItemData,
}

/// The view of a yielded tuple.
pub open spec fn tuple_view(t: TupleOut) -> TupV {
    (views_of(t.bindings@), t.env@)
}

/// Every generator of the list depends on the context alone.
pub open spec fn all_det(specs: Seq<TaskIter>) -> bool {
    forall|i: int| 0 <= i < specs.len() ==> det_gen(#[trigger] specs[i])
}

/// Every glob/JSONPath generator's field map has unique keys.
pub open spec fn specs_wf(specs: Seq<TaskIter>) -> bool {
    forall|i: int|
        0 <= i < specs.len() ==> ((#[trigger] specs[i]) matches TaskIter::GlobJsonPattern(g)
            ==> g.env_pattern.wf())
}

/// The tuples produced from position `k` on, after the bindings
/// `prefix` were pulled at positions before `k`, starting from context
/// `env` — position `k`'s generator evaluated against that context —
/// together with the context left when position `k` exhausts. The
/// context threads through the whole traversal: it is extended by every
/// binding pulled anywhere below, and is never rolled back.
pub open spec fn expand(specs: Seq<TaskIter>, k: int, prefix: Seq<CtxV>, env: CtxV) -> (
    Seq<TupV>,
    CtxV,
)
    decreases specs.len() - k, 1int, 0int,
    when 0 <= k < specs.len()
{
    expand_list(specs, k, prefix, gen_model(specs[k], env), env)
}

/// As `expand`, but with position `k`'s pending binding sequence given
/// explicitly.
pub open spec fn expand_list(
    specs: Seq<TaskIter>,
    k: int,
    prefix: Seq<CtxV>,
    items: Seq<CtxV>,
    env: CtxV,
) -> (Seq<TupV>, CtxV)
    decreases specs.len() - k, 0int, items.len(),
    when 0 <= k < specs.len()
{
    if items.len() == 0 {
        (Seq::<TupV>::empty(), env)
    } else {
        let b = items.first();
        let env1 = env.union_prefer_right(b);
        let rec: (Seq<TupV>, CtxV) = if k == specs.len() - 1 {
            (seq![(prefix.push(b), env1)], env1)
        } else {
            expand(specs, k + 1, prefix.push(b), env1)
        };
        let rest = expand_list(specs, k, prefix, items.drop_first(), rec.1);
        (rec.0 + rest.0, rest.1)
    }
}

/// Every tuple of a step with these generators, in odometer order,
/// starting from the seed context.
pub open spec fn odo_model(specs: Seq<TaskIter>, env: CtxV) -> Seq<TupV> {
    expand(specs, 0, Seq::<CtxV>::empty(), env).0
}

/// The view of the binding a position rests on.
pub open spec fn opt_view(o: Option<ItemData>) -> CtxV {
    match o {
        Some(d) => d@,
        None => Map::<Seq<char>, Seq<char>>::empty(),
    }
}

/// The bindings positions `0..k` currently rest on.
pub open spec fn prefix_of(cur: Seq<Option<ItemData>>, k: int) -> Seq<CtxV> {
    Seq::new(k as nat, |j: int| opt_view(cur[j]))
}

/// The resumable dependent-product iterator of one step run.
pub struct TupleIter {
    pub specs: Vec<TaskIter>,
    pub env: ItemData,
    pub seqs: Vec<Vec<ItemData>>,
    pub idxs: Vec<usize>,
    pub cur: Vec<Option<ItemData>>,
    pub pos: usize,
    pub live: bool,
    pub yielded: Ghost<Seq<TupV>>,
    pub init_env: Ghost<CtxV>,
}

/// What one `poll` step reports.
pub enum IterPoll {
    /// One complete tuple.
    Yielded(TupleOut),
    /// The odometer moved without completing a tuple.
    Working,
    /// The first position is exhausted; nothing more will come.
    Finished,
}

impl TupleIter {
    /// The binding sequence still pending at position `k`.
    pub open spec fn pending(self, k: int) -> Seq<CtxV> {
        views_of(self.seqs@[k]@).skip(self.idxs@[k] as int)
    }

    /// The tuples still to come from positions `0..=k` of the
    /// suspended stack, given the context `env` reached so far, with
    /// the context left when position 0 exhausts.
    pub open spec fn rem_levels(self, k: int, env: CtxV) -> (Seq<TupV>, CtxV)
        decreases k,
        when 0 <= k < self.specs@.len()
    {
        let lvl = expand_list(
            self.specs@,
            k,
            prefix_of(self.cur@, k),
            self.pending(k),
            env,
        );
        if k == 0 {
            lvl
        } else {
            let outer = self.rem_levels(k - 1, lvl.1);
            (lvl.0 + outer.0, outer.1)
        }
    }

    /// The current position awaits (re)evaluation against the current
    /// context before anything can be pulled from it.
    pub open spec fn needs_restart(self) -> bool {
        self.pos != 0 && self.cur@[self.pos as int] is None
    }

    /// The tuples this iterator will still hand out.
    pub open spec fn remaining(self) -> Seq<TupV> {
        if !self.live {
            Seq::<TupV>::empty()
        } else if self.needs_restart() {
            let fresh = expand(
                self.specs@,
                self.pos as int,
                prefix_of(self.cur@, self.pos as int),
                self.env@,
            );
            if self.pos == 0 {
                fresh.0
            } else {
                fresh.0 + self.rem_levels(self.pos - 1, fresh.1).0
            }
        } else {
            self.rem_levels(self.pos as int, self.env@).0
        }
    }

    /// Shapes and bounds of the internal state.
    pub open spec fn struct_inv(self) -> bool {
        let n = self.specs@.len();
        &&& n > 0
        &&& specs_wf(self.specs@)
        &&& self.seqs@.len() == n
        &&& self.idxs@.len() == n
        &&& self.cur@.len() == n
        &&& self.env.wf()
        &&& self.pos < n
        &&& (forall|j: int| 0 <= j < n ==> self.idxs@[j] <= (#[trigger] self.seqs@[j])@.len())
        &&& (forall|j: int| 0 <= j < n ==> all_wf((#[trigger] self.seqs@[j])@))
        &&& (forall|j: int| 0 <= j < self.pos ==> (#[trigger] self.cur@[j]) is Some)
        &&& (forall|j: int|
            0 <= j < n ==> ((#[trigger] self.cur@[j]) matches Some(d) ==> d.wf()))
        &&& (self.live ==> forall|j: int|
            self.pos < j < n ==> (#[trigger] self.cur@[j]) is None)
    }

    /// The full invariant: when every generator is context-only, the
    /// tuples handed out so far and those still to come are exactly the
    /// model of the step.
    pub open spec fn inv(self) -> bool {
        &&& self.struct_inv()
        &&& (all_det(self.specs@) ==> self.yielded@ + self.remaining() == odo_model(
            self.specs@,
            self.init_env@,
        ))
    }
}

/// The pending items of a position: what its latest evaluation still
/// holds, zero once the odometer has moved back past it.
pub open spec fn lvl_pending(it: TupleIter, j: int) -> int {
    if 0 <= j <= it.pos && j < it.seqs@.len() {
        it.seqs@[j]@.len() - it.idxs@[j]
    } else {
        0
    }
}

/// One, exactly on the position that awaits re-evaluation.
pub open spec fn lvl_waiting(it: TupleIter, j: int) -> int {
    if j == it.pos && it.needs_restart() {
        1int
    } else {
        0int
    }
}

/// The step order of the odometer: `b` is strictly closer to the end
/// than `a`. Positions are compared left to right, each by its
/// awaiting-re-evaluation flag and then its pending count, and the
/// position pointer breaks ties. For one iterator the width is fixed
/// and every component is a non-negative integer, so no infinite chain
/// descends this order: repeated polling cannot keep reporting
/// Working, it must reach a tuple or the end.
pub open spec fn step_lt(b: TupleIter, a: TupleIter) -> bool {
    ||| (exists|j: int|
        0 <= j < a.specs@.len() && (forall|t: int|
            0 <= t < j ==> lvl_waiting(b, t) == lvl_waiting(a, t) && #[trigger] lvl_pending(b, t)
                == lvl_pending(a, t)) && ((#[trigger] lvl_waiting(b, j) < lvl_waiting(a, j)) || (
        lvl_waiting(b, j) == lvl_waiting(a, j) && lvl_pending(b, j) < lvl_pending(a, j))))
    ||| ((forall|t: int|
        0 <= t < a.specs@.len() ==> lvl_waiting(b, t) == lvl_waiting(a, t)
            && #[trigger] lvl_pending(b, t) == lvl_pending(a, t)) && b.pos < a.pos)
}

/// `rem_levels` reads only positions `0..=k`: two states that agree
/// there agree on it.
proof fn lemma_rem_same(a: TupleIter, b: TupleIter, k: int, env: CtxV)
    requires
        0 <= k < a.specs@.len(),
        b.specs@ == a.specs@,
        a.seqs@.len() == a.specs@.len(),
        b.seqs@.len() == a.specs@.len(),
        a.idxs@.len() == a.specs@.len(),
        b.idxs@.len() == a.specs@.len(),
        a.cur@.len() == a.specs@.len(),
        b.cur@.len() == a.specs@.len(),
        forall|j: int|
            0 <= j <= k ==> views_of((#[trigger] b.seqs@[j])@) == views_of(a.seqs@[j]@),
        forall|j: int| 0 <= j <= k ==> (#[trigger] b.idxs@[j]) == a.idxs@[j],
        forall|j: int| 0 <= j < k ==> opt_view(#[trigger] b.cur@[j]) == opt_view(a.cur@[j]),
    ensures
        b.rem_levels(k, env) == a.rem_levels(k, env),
    decreases k,
{
    assert(b.pending(k) == a.pending(k));
    assert(prefix_of(b.cur@, k) =~= prefix_of(a.cur@, k));
    let lvl = expand_list(a.specs@, k, prefix_of(a.cur@, k), a.pending(k), env);
    if k > 0 {
        lemma_rem_same(a, b, k - 1, lvl.1);
    }
}

/// A sequence equals the prefix of any concatenation it starts.
proof fn lemma_take_of_concat(a: Seq<TupV>, b: Seq<TupV>, c: Seq<TupV>)
    requires
        a + b == c,
    ensures
        a == c.take(a.len() as int),
{
    assert(a =~= c.take(a.len() as int));
}

/// Start the odometer for a step's generator list against the seed
/// context: position 0 is evaluated at once, every other position
/// waits for its first restart.
pub fn get_iters(task_iters: Vec<TaskIter>, env: ItemData) -> (r: TupleIter)
    requires
        task_iters@.len() > 0,
        specs_wf(task_iters@),
        env.wf(),
    ensures
        r.inv(),
        r.live,
        r.yielded@ == Seq::<TupV>::empty(),
        r.specs@ == task_iters@,
        r.init_env@ == env@,
{
    let n = task_iters.len();
    let first = get_iter(&task_iters[0], &env);
    let ghost e0 = env@;
    let ghost f0 = first@;
    let mut seqs: Vec<Vec<ItemData>> = Vec::new();
    let mut idxs: Vec<usize> = Vec::new();
    let mut cur: Vec<Option<ItemData>> = Vec::new();
    seqs.push(first);
    idxs.push(0);
    cur.push(None);
    let mut i: usize = 1;
    while i < n
        invariant
            1 <= i <= n,
            seqs@.len() == i,
            idxs@.len() == i,
            cur@.len() == i,
            forall|j: int| 0 <= j < i ==> (#[trigger] idxs@[j]) == 0,
            forall|j: int| 0 <= j < i ==> (#[trigger] cur@[j]) is None,
            forall|j: int| 0 <= j < i ==> all_wf((#[trigger] seqs@[j])@),
            seqs@[0]@ == f0,
        decreases n - i,
    {
        let fresh: Vec<ItemData> = Vec::new();
        proof {
            assert(all_wf(fresh@));
        }
        seqs.push(fresh);
        idxs.push(0);
        cur.push(None);
        i = i + 1;
    }
    let r = TupleIter {
        specs: task_iters,
        env,
        seqs,
        idxs,
        cur,
        pos: 0,
        live: true,
        yielded: Ghost(Seq::<TupV>::empty()),
        init_env: Ghost(e0),
    };
    proof {
        assert(r.struct_inv());
        if all_det(r.specs@) {
            assert(det_gen(r.specs@[0]));
            assert(r.pending(0) =~= gen_model(r.specs@[0], env@));
            assert(prefix_of(r.cur@, 0) =~= Seq::<CtxV>::empty());
            assert(r.remaining() == expand(r.specs@, 0, Seq::<CtxV>::empty(), env@).0);
            assert(r.yielded@ + r.remaining() =~= odo_model(r.specs@, r.init_env@));
        }
    }
    r
}

impl TupleIter {
    /// Perform one odometer step: restart the current position against
    /// the current context if it awaits one, pull its next binding,
    /// and either hand out a complete tuple, move to a neighbouring
    /// position, or finish. Once every generator is context-only, the
    /// tuples handed out are always a prefix of the step's model, the
    /// whole of it once the iterator reports it has finished.
    pub fn poll(&mut self) -> (r: IterPoll)
        requires
            old(self).inv(),
        ensures
            final(self).inv(),
            final(self).specs@ == old(self).specs@,
            final(self).init_env@ == old(self).init_env@,
            match r {
                IterPoll::Yielded(t) => final(self).live && final(self).yielded@ == old(
                    self,
                ).yielded@.push(tuple_view(t)) && t.env.wf() && all_wf(t.bindings@)
                    && t.bindings@.len() == final(self).specs@.len()
                    && t.env@ == final(self).env@
                    && final(self).env@ == old(self).env@.union_prefer_right(
                    t.bindings@[t.bindings@.len() - 1]@,
                ) && views_of(t.bindings@) == prefix_of(
                    final(self).cur@,
                    final(self).specs@.len() as int,
                ),
                IterPoll::Working => final(self).live && final(self).yielded@ == old(
                    self,
                ).yielded@ && (final(self).env@ == old(self).env@ || (exists|b: CtxV|
                    final(self).env@ == old(self).env@.union_prefer_right(b))),
                IterPoll::Finished => !final(self).live && final(self).yielded@ == old(
                    self,
                ).yielded@,
            },
            all_det(old(self).specs@) ==> final(self).yielded@ == odo_model(
                old(self).specs@,
                old(self).init_env@,
            ).take(final(self).yielded@.len() as int),
            (all_det(old(self).specs@) && r matches IterPoll::Finished) ==> final(self).yielded@
                == odo_model(old(self).specs@, old(self).init_env@),
            !(r matches IterPoll::Finished) ==> step_lt(*final(self), *old(self)),
            (r matches IterPoll::Finished && old(self).live) ==> final(self).pos == 0
                && final(self).idxs@[0] == final(self).seqs@[0]@.len(),
            final(self).seqs@[0] == old(self).seqs@[0],
    {
        proof {
            if all_det(self.specs@) {
                lemma_take_of_concat(
                    self.yielded@,
                    self.remaining(),
                    odo_model(self.specs@, self.init_env@),
                );
            }
        }
        if !self.live {
            return IterPoll::Finished;
        }
        let pos = self.pos;
        let n = self.specs.len();
        let ghost before_restart = *self;
        if pos != 0 && self.cur[pos].is_none() {
            let fresh = get_iter(&self.specs[pos], &self.env);
            self.seqs[pos] = fresh;
            self.idxs[pos] = 0;
            proof {
                let a = before_restart;
                let b = *self;
                if all_det(b.specs@) {
                    // the restart branch of `remaining` ignores the
                    // refreshed position, and the refreshed sequence is
                    // the model's evaluation, so nothing moved
                    assert(det_gen(b.specs@[pos as int]));
                    assert(b.pending(pos as int) =~= gen_model(b.specs@[pos as int], b.env@));
                    assert(prefix_of(b.cur@, pos as int) =~= prefix_of(a.cur@, pos as int));
                    let fr = expand(
                        a.specs@,
                        pos as int,
                        prefix_of(a.cur@, pos as int),
                        a.env@,
                    );
                    lemma_rem_same(a, b, pos - 1, fr.1);
                    assert(b.remaining() == a.remaining());
                }
            }
        }
        let ghost st0 = *self;
        // In the deterministic case the pending items of the current
        // position now describe the remaining work directly, whether or
        // not a restart happened.
        proof {
            if all_det(st0.specs@) {
                if st0.needs_restart() {
                    assert(st0.pending(pos as int) =~= gen_model(st0.specs@[pos as int], st0.env@));
                    let lvl = expand_list(
                        st0.specs@,
                        pos as int,
                        prefix_of(st0.cur@, pos as int),
                        st0.pending(pos as int),
                        st0.env@,
                    );
                    assert(st0.remaining() == st0.rem_levels(pos as int, st0.env@).0);
                } else {
                    assert(st0.remaining() == st0.rem_levels(pos as int, st0.env@).0);
                }
            }
        }
        let idx = self.idxs[pos];
        let level_len = self.seqs[pos].len();
        if idx < level_len {
            let b = self.seqs[pos][idx].duplicate();
            self.idxs[pos] = idx + 1;
            self.cur[pos] = Some(b.duplicate());
            self.env.extend_with(&b);
            let ghost st1 = *self;
            proof {
                if all_det(st0.specs@) {
                    let sp = st0.specs@;
                    let p = prefix_of(st0.cur@, pos as int);
                    let items = st0.pending(pos as int);
                    assert(items.len() > 0);
                    assert(items.first() == b@) by {
                        assert(views_of(st0.seqs@[pos as int]@)[idx as int] == b@);
                    }
                    assert(st1.pending(pos as int) =~= items.drop_first());
                    assert(prefix_of(st1.cur@, pos as int) =~= p);
                    assert(st1.env@ == st0.env@.union_prefer_right(b@));
                }
            }
            if pos + 1 == n {
                // a complete tuple: snapshot the bindings and context
                let mut bindings: Vec<ItemData> = Vec::new();
                let mut j: usize = 0;
                while j < n
                    invariant
                        0 <= j <= n,
                        n == self.cur@.len(),
                        forall|t: int| 0 <= t < n ==> (#[trigger] self.cur@[t]) is Some,
                        forall|t: int|
                            0 <= t < n ==> ((#[trigger] self.cur@[t]) matches Some(d) ==> d.wf()),
                        bindings@.len() == j,
                        all_wf(bindings@),
                        forall|t: int|
                            0 <= t < j ==> (#[trigger] bindings@[t])@ == opt_view(self.cur@[t]),
                    decreases n - j,
                {
                    let d: ItemData = match &self.cur[j] {
                        Some(d) => d.duplicate(),
                        None => vstd::pervasive::unreached(),
                    };
                    bindings.push(d);
                    j = j + 1;
                }
                let t = TupleOut { bindings, env: self.env.duplicate() };
                proof {
                    self.yielded@ = st0.yielded@.push(tuple_view(t));
                }
                let ghost st2 = *self;
                proof {
                    assert(st2.struct_inv());
                    assert(t.env@ == st2.env@);
                    assert(t.bindings@[t.bindings@.len() - 1]@ == b@) by {
                        assert(t.bindings@[n - 1]@ == opt_view(st2.cur@[n - 1]));
                    }
                    assert(st2.env@ == old(self).env@.union_prefer_right(b@));
                    assert(views_of(t.bindings@) =~= prefix_of(st2.cur@, n as int));
                    assert(step_lt(st2, *old(self))) by {
                        let a = *old(self);
                        if a.needs_restart() {
                            assert(lvl_waiting(st2, pos as int) == 0);
                            assert(lvl_waiting(a, pos as int) == 1);
                        } else {
                            assert(lvl_waiting(st2, pos as int) == 0);
                            assert(lvl_waiting(a, pos as int) == 0);
                            assert(lvl_pending(st2, pos as int) < lvl_pending(a, pos as int));
                        }
                        assert(forall|t: int|
                            0 <= t < pos ==> lvl_waiting(st2, t) == lvl_waiting(a, t)
                                && #[trigger] lvl_pending(st2, t) == lvl_pending(a, t));
                    }
                    if all_det(st0.specs@) {
                        let sp = st0.specs@;
                        let p = prefix_of(st0.cur@, pos as int);
                        let items = st0.pending(pos as int);
                        let env1 = st0.env@.union_prefer_right(b@);
                        let lvl = expand_list(sp, pos as int, p, items, st0.env@);
                        let rest = expand_list(sp, pos as int, p, items.drop_first(), env1);
                        assert(lvl == (seq![(p.push(b@), env1)] + rest.0, rest.1));
                        assert(views_of(t.bindings@) =~= prefix_of(st2.cur@, n as int));
                        assert(prefix_of(st2.cur@, n as int) =~= p.push(b@));
                        assert(tuple_view(t) == (p.push(b@), env1));
                        assert(st2.pending(pos as int) == items.drop_first());
                        assert(prefix_of(st2.cur@, pos as int) =~= p);
                        assert(st2.env@ == env1);
                        if pos > 0 {
                            lemma_rem_same(st0, st2, pos - 1, rest.1);
                            assert(st2.rem_levels(pos as int, env1).0 == rest.0 + st0.rem_levels(
                                pos - 1,
                                rest.1,
                            ).0);
                            assert(st0.rem_levels(pos as int, st0.env@).0 == lvl.0
                                + st0.rem_levels(pos - 1, lvl.1).0);
                            assert(st2.remaining() == st2.rem_levels(pos as int, env1).0);
                            assert(seq![tuple_view(t)] + st2.remaining() =~= st0.remaining());
                        } else {
                            assert(st2.rem_levels(0, env1).0 == rest.0);
                            assert(st0.rem_levels(0, st0.env@).0 == lvl.0);
                            assert(st2.remaining() == st2.rem_levels(0, env1).0);
                            assert(seq![tuple_view(t)] + st2.remaining() =~= st0.remaining());
                        }
                        assert(st2.yielded@ + st2.remaining() =~= odo_model(sp, st0.init_env@));
                        lemma_take_of_concat(
                            st2.yielded@,
                            st2.remaining(),
                            odo_model(sp, st2.init_env@),
                        );
                    }
                }
                return IterPoll::Yielded(t);
            } else {
                self.pos = pos + 1;
                let ghost st2 = *self;
                proof {
                    assert(st2.struct_inv());
                    assert(step_lt(st2, *old(self))) by {
                        let a = *old(self);
                        if a.needs_restart() {
                            assert(lvl_waiting(st2, pos as int) == 0);
                            assert(lvl_waiting(a, pos as int) == 1);
                        } else {
                            assert(lvl_waiting(st2, pos as int) == 0);
                            assert(lvl_waiting(a, pos as int) == 0);
                            assert(lvl_pending(st2, pos as int) < lvl_pending(a, pos as int));
                        }
                        assert(forall|t: int|
                            0 <= t < pos ==> lvl_waiting(st2, t) == lvl_waiting(a, t)
                                && #[trigger] lvl_pending(st2, t) == lvl_pending(a, t));
                    }
                    if all_det(st0.specs@) {
                        let sp = st0.specs@;
                        let p = prefix_of(st0.cur@, pos as int);
                        let items = st0.pending(pos as int);
                        let env1 = st0.env@.union_prefer_right(b@);
                        let lvl = expand_list(sp, pos as int, p, items, st0.env@);
                        let rec = expand(sp, pos + 1, p.push(b@), env1);
                        let rest = expand_list(sp, pos as int, p, items.drop_first(), rec.1);
                        assert(lvl == (rec.0 + rest.0, rest.1));
                        assert(st2.needs_restart());
                        assert(prefix_of(st2.cur@, pos + 1) =~= p.push(b@));
                        assert(st2.pending(pos as int) == items.drop_first());
                        assert(prefix_of(st2.cur@, pos as int) =~= p);
                        let fr = expand(sp, pos + 1, prefix_of(st2.cur@, pos + 1), st2.env@);
                        assert(fr == rec);
                        assert(st2.env@ == env1);
                        if pos > 0 {
                            lemma_rem_same(st0, st2, pos - 1, rest.1);
                            assert(st2.rem_levels(pos as int, rec.1).0 == rest.0 + st0.rem_levels(
                                pos - 1,
                                rest.1,
                            ).0);
                            assert(st2.remaining() == fr.0 + st2.rem_levels(pos as int, fr.1).0);
                            assert(st0.rem_levels(pos as int, st0.env@).0 == lvl.0
                                + st0.rem_levels(pos - 1, lvl.1).0);
                            assert(st2.remaining() =~= st0.remaining());
                        } else {
                            assert(st2.rem_levels(0, rec.1).0 == rest.0);
                            assert(st2.remaining() == fr.0 + st2.rem_levels(pos as int, fr.1).0);
                            assert(st0.rem_levels(0, st0.env@).0 == lvl.0);
                            assert(st2.remaining() =~= st0.remaining());
                        }
                        lemma_take_of_concat(
                            st2.yielded@,
                            st2.remaining(),
                            odo_model(sp, st2.init_env@),
                        );
                    }
                }
                return IterPoll::Working;
            }
        } else {
            self.cur[pos] = None;
            let ghost st1 = *self;
            proof {
                if all_det(st0.specs@) {
                    let sp = st0.specs@;
                    let items = st0.pending(pos as int);
                    assert(items.len() == 0) by {
                        assert(st0.idxs@[pos as int] == st0.seqs@[pos as int]@.len());
                    }
                    assert(st1.pending(pos as int) =~= items);
                    assert(prefix_of(st1.cur@, pos as int) =~= prefix_of(st0.cur@, pos as int));
                    let lvl = expand_list(
                        sp,
                        pos as int,
                        prefix_of(st0.cur@, pos as int),
                        items,
                        st0.env@,
                    );
                    assert(lvl == (Seq::<TupV>::empty(), st0.env@));
                }
            }
            if pos == 0 {
                self.live = false;
                let ghost st2 = *self;
                proof {
                    assert(st2.struct_inv());
                    assert(st2.idxs@[0] == st2.seqs@[0]@.len());
                    if all_det(st0.specs@) {
                        assert(st0.remaining() =~= Seq::<TupV>::empty());
                        assert(st2.remaining() =~= Seq::<TupV>::empty());
                        assert(st2.yielded@ =~= odo_model(st0.specs@, st0.init_env@));
                        lemma_take_of_concat(
                            st2.yielded@,
                            st2.remaining(),
                            odo_model(st0.specs@, st2.init_env@),
                        );
                    }
                }
                return IterPoll::Finished;
            } else {
                self.pos = pos - 1;
                let ghost st2 = *self;
                proof {
                    assert(st2.struct_inv());
                    assert(step_lt(st2, *old(self))) by {
                        let a = *old(self);
                        if a.needs_restart() {
                            assert(lvl_waiting(st2, pos as int) == 0);
                            assert(lvl_waiting(a, pos as int) == 1);
                            assert(forall|t: int|
                                0 <= t < pos ==> lvl_waiting(st2, t) == lvl_waiting(a, t)
                                    && #[trigger] lvl_pending(st2, t) == lvl_pending(a, t));
                        } else {
                            assert(forall|t: int|
                                0 <= t < a.specs@.len() ==> lvl_waiting(st2, t) == lvl_waiting(
                                    a,
                                    t,
                                ) && #[trigger] lvl_pending(st2, t) == lvl_pending(a, t));
                            assert(st2.pos < a.pos);
                        }
                    }
                    if all_det(st0.specs@) {
                        let sp = st0.specs@;
                        let lvl = expand_list(
                            sp,
                            pos as int,
                            prefix_of(st0.cur@, pos as int),
                            st0.pending(pos as int),
                            st0.env@,
                        );
                        assert(st0.remaining() == st0.rem_levels(pos as int, st0.env@).0);
                        assert(st0.rem_levels(pos as int, st0.env@).0 == st0.rem_levels(
                            pos - 1,
                            st0.env@,
                        ).0);
                        assert(!st2.needs_restart());
                        assert(st2.remaining() == st2.rem_levels(pos - 1, st2.env@).0);
                        lemma_rem_same(st0, st2, pos - 1, st0.env@);
                        assert(st2.remaining() == st0.remaining());
                        lemma_take_of_concat(
                            st2.yielded@,
                            st2.remaining(),
                            odo_model(sp, st2.init_env@),
                        );
                    }
                }
                return IterPoll::Working;
            }
        }
    }
}

} // verus!
// The laws of the dependent product, stated over the model that
// `poll`'s contract ties the iterator to.

verus! {

use crate::iters::range_model;
use crate::models::IterRange;
use crate::text::{dec_val, digit_char, digit_val, is_digit, parse_usize_spec};
use crate::utils::render_of;

/// A range generator whose `take` template resolves and parses to zero
/// yields no bindings, and a step with that single generator yields no
/// tuples.
pub proof fn lemma_take_zero_yields_nothing(g: IterRange, env: CtxV)
    requires
        render_of(g.take@, env) matches Some(ts) && parse_usize_spec(ts) == Some(0usize),
    ensures
        gen_model(TaskIter::Range(g), env).len() == 0,
        odo_model(seq![TaskIter::Range(g)], env).len() == 0,
{
    let m = gen_model(TaskIter::Range(g), env);
    assert(m.len() == 0) by {
        match render_of(g.offset@, env) {
            Some(os) => {
                match parse_usize_spec(os) {
                    Some(o) => {
                        assert(m == range_model(g.name@, o as nat, 0nat));
                    },
                    None => {},
                }
            },
            None => {},
        }
    }
    let specs = seq![TaskIter::Range(g)];
    assert(gen_model(specs[0], env).len() == 0);
    assert(expand_list(specs, 0, Seq::<CtxV>::empty(), gen_model(specs[0], env), env) == (
        Seq::<TupV>::empty(),
        env,
    ));
    assert(odo_model(specs, env).len() == 0);
}

/// A step that declares no generators runs with the synthetic one-shot
/// index generator and yields exactly one tuple, binding the step's
/// index name to "0" — given that the templating engine returns the
/// digit-only templates "0" and "1" unchanged, as its wrapper
/// guarantees of every call.
pub proof fn lemma_no_generators_single_tuple(g: IterRange, env: CtxV)
    requires
        g.offset@ == "0"@,
        g.take@ == "1"@,
        render_of("0"@, env) == Some("0"@),
        render_of("1"@, env) == Some("1"@),
    ensures
        ({
            let b = Map::<Seq<char>, Seq<char>>::empty().insert(g.name@, "0"@);
            odo_model(seq![TaskIter::Range(g)], env) == seq![
                (seq![b], env.union_prefer_right(b)),
            ]
        }),
{
    reveal_strlit("0");
    reveal_strlit("1");
    let d0 = "0"@;
    let d1 = "1"@;
    assert(d0 =~= seq!['0']);
    assert(d1 =~= seq!['1']);
    assert(parse_usize_spec(d0) == Some(0usize)) by {
        assert(d0[0] == '0');
        assert(forall|k: int| 0 <= k < d0.len() ==> is_digit(#[trigger] d0[k])) by {
            assert(is_digit(d0[0]));
        }
        assert(d0.drop_last() =~= Seq::<char>::empty());
        assert(dec_val(d0) == dec_val(d0.drop_last()) * 10 + digit_val('0'));
        assert(dec_val(d0) == 0);
    }
    assert(parse_usize_spec(d1) == Some(1usize)) by {
        assert(d1[0] == '1');
        assert(forall|k: int| 0 <= k < d1.len() ==> is_digit(#[trigger] d1[k])) by {
            assert(is_digit(d1[0]));
        }
        assert(d1.drop_last() =~= Seq::<char>::empty());
        assert(dec_val(d1) == dec_val(d1.drop_last()) * 10 + digit_val('1'));
        assert(dec_val(d1) == 1);
    }
    let b = Map::<Seq<char>, Seq<char>>::empty().insert(g.name@, "0"@);
    assert(gen_model(TaskIter::Range(g), env) == range_model(g.name@, 0nat, 1nat));
    assert(crate::text::dec_str(0nat) == seq![digit_char(0nat)]);
    assert(digit_char(0nat) == '0');
    assert(seq![digit_char(0nat)] =~= d0);
    assert(range_model(g.name@, 0nat, 1nat) =~= seq![b]);
    let specs = seq![TaskIter::Range(g)];
    let items = gen_model(specs[0], env);
    assert(items =~= seq![b]);
    assert(items.len() == 1);
    assert(items.first() == b);
    let env1 = env.union_prefer_right(b);
    let rest = expand_list(specs, 0, Seq::<CtxV>::empty(), items.drop_first(), env1);
    assert(items.drop_first().len() == 0);
    assert(rest == (Seq::<TupV>::empty(), env1));
    assert(Seq::<CtxV>::empty().push(b) =~= seq![b]);
    assert(expand_list(specs, 0, Seq::<CtxV>::empty(), items, env).0 =~= seq![
        (seq![b], env1),
    ]);
    assert(odo_model(specs, env) == seq![(seq![b], env1)]);
}

proof fn lemma_last_level(specs: Seq<TaskIter>, prefix: Seq<CtxV>, items: Seq<CtxV>, env: CtxV)
    requires
        specs.len() > 0,
    ensures
        expand_list(specs, specs.len() - 1, prefix, items, env).0.len() == items.len(),
        forall|i: int|
            0 <= i < items.len() ==> (#[trigger] expand_list(
                specs,
                specs.len() - 1,
                prefix,
                items,
                env,
            ).0[i]).0 == prefix.push(items[i]),
    decreases items.len(),
{
    if items.len() == 0 {
    } else {
        let k = specs.len() - 1;
        let b = items.first();
        let env1 = env.union_prefer_right(b);
        lemma_last_level(specs, prefix, items.drop_first(), env1);
        let r = expand_list(specs, k, prefix, items, env);
        let rest = expand_list(specs, k, prefix, items.drop_first(), env1);
        assert(r.0 == seq![(prefix.push(b), env1)] + rest.0);
        assert forall|i: int| 0 <= i < items.len() implies (#[trigger] r.0[i]).0 == prefix.push(
            items[i],
        ) by {
            if i == 0 {
                assert(r.0[0] == (prefix.push(b), env1));
            } else {
                assert(r.0[i] == rest.0[i - 1]);
                assert(rest.0[i - 1].0 == prefix.push(items.drop_first()[i - 1]));
                assert(items.drop_first()[i - 1] == items[i]);
            }
        }
    }
}

/// Each return of the odometer to the second position re-evaluates
/// that generator against the context holding the first position's
/// current binding: in a two-generator step, the first block of tuples
/// pairs the first generator's first binding with exactly the bindings
/// the second generator produces under the context extended by it.
pub proof fn lemma_dependent_regeneration(specs: Seq<TaskIter>, env: CtxV)
    requires
        specs.len() == 2,
        gen_model(specs[0], env).len() > 0,
    ensures
        ({
            let a0 = gen_model(specs[0], env).first();
            let inner = gen_model(specs[1], env.union_prefer_right(a0));
            odo_model(specs, env).len() >= inner.len() && (forall|i: int|
                0 <= i < inner.len() ==> (#[trigger] odo_model(specs, env)[i]).0 == seq![
                    a0,
                    inner[i],
                ])
        }),
{
    let items = gen_model(specs[0], env);
    let a0 = items.first();
    let env1 = env.union_prefer_right(a0);
    let inner = gen_model(specs[1], env1);
    let p1 = Seq::<CtxV>::empty().push(a0);
    let rec = expand(specs, 1, p1, env1);
    let rest = expand_list(specs, 0, Seq::<CtxV>::empty(), items.drop_first(), rec.1);
    assert(odo_model(specs, env) == rec.0 + rest.0);
    lemma_last_level(specs, p1, inner, env1);
    assert(rec.0.len() == inner.len());
    assert forall|i: int| 0 <= i < inner.len() implies (#[trigger] odo_model(specs, env)[i]).0
        == seq![a0, inner[i]] by {
        assert(odo_model(specs, env)[i] == rec.0[i]);
        assert(rec.0[i].0 == p1.push(inner[i]));
        assert(p1.push(inner[i]) =~= seq![a0, inner[i]]);
    }
}

} // verus!
verus! {

/// Suspending between tuples never rewinds the odometer: at every
/// point, the tuples handed out so far are exactly the leading prefix
/// of the step's model, so a consumer that parks and resumes carries
/// on at the next unpulled tuple.
pub proof fn lemma_history_is_model_prefix(it: TupleIter)
    requires
        it.inv(),
        all_det(it.specs@),
    ensures
        it.yielded@ == odo_model(it.specs@, it.init_env@).take(it.yielded@.len() as int),
{
    lemma_take_of_concat(it.yielded@, it.remaining(), odo_model(it.specs@, it.init_env@));
}

/// A generator that reads nothing from the context: it yields the same
/// bindings under every context.
pub open spec fn context_free(g: TaskIter) -> bool {
    forall|e1: CtxV, e2: CtxV| #[trigger] gen_model(g, e1) == #[trigger] gen_model(g, e2)
}

proof fn lemma_independent_blocks(specs: Seq<TaskIter>, items: Seq<CtxV>, env: CtxV, inner: Seq<CtxV>)
    requires
        specs.len() == 2,
        context_free(specs[1]),
        forall|e: CtxV| #[trigger] gen_model(specs[1], e) == inner,
    ensures
        expand_list(specs, 0, Seq::<CtxV>::empty(), items, env).0.len() == items.len()
            * inner.len(),
        forall|i: int, j: int|
            0 <= i < items.len() && 0 <= j < inner.len() ==> (#[trigger] expand_list(
                specs,
                0,
                Seq::<CtxV>::empty(),
                items,
                env,
            ).0[i * inner.len() + j]).0 == seq![items[i], inner[j]],
    decreases items.len(),
{
    let nb = inner.len() as int;
    let r = expand_list(specs, 0, Seq::<CtxV>::empty(), items, env);
    if items.len() == 0 {
        assert(r.0.len() == 0);
    } else {
        let a0 = items.first();
        let env1 = env.union_prefer_right(a0);
        let p1 = Seq::<CtxV>::empty().push(a0);
        let rec = expand(specs, 1, p1, env1);
        let rest = expand_list(specs, 0, Seq::<CtxV>::empty(), items.drop_first(), rec.1);
        assert(r.0 == rec.0 + rest.0);
        assert(gen_model(specs[1], env1) == inner);
        lemma_last_level(specs, p1, inner, env1);
        assert(rec.0.len() == nb);
        lemma_independent_blocks(specs, items.drop_first(), rec.1, inner);
        assert(rest.0.len() == (items.len() - 1) * nb) by {
            assert(items.drop_first().len() == items.len() - 1);
        }
        assert(r.0.len() == items.len() * nb) by (nonlinear_arith)
            requires
                r.0.len() == rec.0.len() + rest.0.len(),
                rec.0.len() == nb,
                rest.0.len() == (items.len() - 1) * nb,
                items.len() >= 1,
        ;
        assert forall|i: int, j: int|
            0 <= i < items.len() && 0 <= j < nb implies (#[trigger] r.0[i * nb + j]).0 == seq![
            items[i],
            inner[j],
        ] by {
            if i == 0 {
                assert(0 * nb + j == j) by (nonlinear_arith);
                assert(r.0[j] == rec.0[j]);
                assert(rec.0[j].0 == p1.push(inner[j]));
                assert(p1.push(inner[j]) =~= seq![a0, inner[j]]);
            } else {
                assert(i * nb + j == nb + ((i - 1) * nb + j)) by (nonlinear_arith);
                assert(0 <= (i - 1) * nb + j < rest.0.len()) by (nonlinear_arith)
                    requires
                        1 <= i < items.len(),
                        0 <= j < nb,
                        rest.0.len() == (items.len() - 1) * nb,
                ;
                assert(r.0[i * nb + j] == rest.0[(i - 1) * nb + j]);
                assert(rest.0[(i - 1) * nb + j].0 == seq![items.drop_first()[i - 1], inner[j]]);
                assert(items.drop_first()[i - 1] == items[i]);
            }
        }
    }
}

/// Two generators with no cross-dependency give the full product, in
/// odometer order: the step yields one tuple per pair, the second
/// position varying fastest.
pub proof fn lemma_independent_product(specs: Seq<TaskIter>, env: CtxV)
    requires
        specs.len() == 2,
        context_free(specs[1]),
    ensures
        odo_model(specs, env).len() == gen_model(specs[0], env).len() * gen_model(
            specs[1],
            env,
        ).len(),
        forall|i: int, j: int|
            0 <= i < gen_model(specs[0], env).len() && 0 <= j < gen_model(specs[1], env).len()
                ==> (#[trigger] odo_model(specs, env)[i * gen_model(specs[1], env).len() + j]).0
                == seq![gen_model(specs[0], env)[i], gen_model(specs[1], env)[j]],
{
    let inner = gen_model(specs[1], env);
    assert(forall|e: CtxV| #[trigger] gen_model(specs[1], e) == inner);
    lemma_independent_blocks(specs, gen_model(specs[0], env), env, inner);
}

} // verus!
