use vstd::prelude::*;

verus! {

/// A message from the producer to the collector.
pub enum Action {
    /// The identifier of one patch to look up.
    Patch(String),
    /// No identifier follows.
    End,
}

/// What the collector asks of its caller after a message.
pub enum Step {
    /// Nothing to do: wait for the next message.
    Wait,
    /// Look up this full batch, then wait for the next message.
    Resolve(Vec<String>),
    /// The run is over: look up the remaining short batch, if any, then
    /// write the output.
    Finish(Option<Vec<String>>),
}

/// Why a batching run could not go ahead.
#[derive(PartialEq, Eq, Structural, Debug, Clone, Copy)]
pub enum BatchError {
    /// A batch size of zero was asked for.
    ZeroBatchSize,
    /// The messages ran out before `End`.
    MissingEnd,
}

/// Groups identifiers into batches of a fixed size.
pub struct Collector {
    pub batch_size: usize,
    pub pending: Vec<String>,
    pub finished: bool,
}

/// The identifiers of a sequence of strings.
pub open spec fn ids_view(v: Seq<String>) -> Seq<Seq<char>> {
    v.map_values(|t: String| t@)
}

/// The identifiers of each batch.
pub open spec fn rounds_view(rs: Seq<Vec<String>>) -> Seq<Seq<Seq<char>>> {
    rs.map_values(|b: Vec<String>| ids_view(b@))
}

/// The identifiers that arrive before the first `End`.
pub open spec fn ids_before_end(m: Seq<Action>) -> Seq<Seq<char>>
    decreases m.len(),
{
    if m.len() == 0 {
        Seq::empty()
    } else {
        match m[0] {
            Action::Patch(id) => seq![id@] + ids_before_end(m.skip(1)),
            Action::End => Seq::empty(),
        }
    }
}

/// Whether `End` occurs among the messages.
pub open spec fn has_end(m: Seq<Action>) -> bool {
    exists|k: int| 0 <= k < m.len() && #[trigger] m[k] is End
}

/// `rounds` split `ids`, in order, into batches of `b` identifiers, but for
/// the last, which holds between one and `b`.
pub open spec fn is_batching(rounds: Seq<Seq<Seq<char>>>, ids: Seq<Seq<char>>, b: nat) -> bool {
    &&& rounds.flatten() == ids
    &&& forall|k: int| 0 <= k < rounds.len() ==> 1 <= #[trigger] rounds[k].len() <= b
    &&& forall|k: int| 0 <= k < rounds.len() - 1 ==> #[trigger] rounds[k].len() == b
}

impl Collector {
    /// The collector holds fewer identifiers than a batch, and none once finished.
    pub open spec fn wf(&self) -> bool {
        &&& self.batch_size > 0
        &&& self.pending.len() < self.batch_size
        &&& self.finished ==> self.pending.len() == 0
    }

    /// A collector for batches of `batch_size` identifiers; zero is refused.
    pub fn new(batch_size: usize) -> (r: Result<Collector, BatchError>)
        ensures
            batch_size == 0 <==> r is Err,
            r is Err ==> r == Err::<Collector, BatchError>(BatchError::ZeroBatchSize),
            r matches Ok(c) ==> (c.wf() && c.batch_size == batch_size && c.pending@.len() == 0
                && !c.finished),
    {
        if batch_size == 0 {
            Err(BatchError::ZeroBatchSize)
        } else {
            Ok(Collector { batch_size, pending: Vec::new(), finished: false })
        }
    }

    /// Takes one message. An identifier joins the pending batch, which is
    /// handed out once it is full; `End` hands out what is pending and
    /// finishes the collector, after which messages are ignored.
    pub fn step(&mut self, msg: &Action) -> (s: Step)
        requires
            old(self).wf(),
        ensures
            final(self).wf(),
            final(self).batch_size == old(self).batch_size,
            old(self).finished ==> s is Finish && s->Finish_0 is None && *final(self) == *old(self),
            !old(self).finished ==> match *msg {
                Action::Patch(id) => {
                    &&& !final(self).finished
                    &&& if old(self).pending.len() + 1 == old(self).batch_size {
                        &&& s matches Step::Resolve(b) && b@ == old(self).pending@.push(id)
                        &&& final(self).pending@.len() == 0
                    } else {
                        &&& s is Wait
                        &&& final(self).pending@ == old(self).pending@.push(id)
                    }
                },
                Action::End => {
                    &&& final(self).finished
                    &&& final(self).pending@.len() == 0
                    &&& s is Finish
                    &&& old(self).pending.len() == 0 ==> s->Finish_0 is None
                    &&& old(self).pending.len() > 0 ==> (s->Finish_0 matches Some(b) && b@
                        == old(self).pending@)
                },
            },
    {
        if self.finished {
            return Step::Finish(None);
        }
        match msg {
            Action::Patch(id) => {
                self.pending.push(id.clone());
                if self.pending.len() >= self.batch_size {
                    let mut batch: Vec<String> = Vec::new();
                    std::mem::swap(&mut batch, &mut self.pending);
                    Step::Resolve(batch)
                } else {
                    Step::Wait
                }
            },
            Action::End => {
                self.finished = true;
                if self.pending.len() == 0 {
                    Step::Finish(None)
                } else {
                    let mut batch: Vec<String> = Vec::new();
                    std::mem::swap(&mut batch, &mut self.pending);
                    Step::Finish(Some(batch))
                }
            },
        }
    }
}

/// Batches of exactly `b` identifiers hold `b` identifiers each.
proof fn lemma_full_rounds_length(rs: Seq<Seq<Seq<char>>>, b: nat)
    requires
        forall|k: int| 0 <= k < rs.len() ==> #[trigger] rs[k].len() == b,
    ensures
        rs.flatten().len() == rs.len() * b,
    decreases rs.len(),
{
    if rs.len() > 0 {
        let init = rs.drop_last();
        lemma_full_rounds_length(init, b);
        assert(init.push(rs.last()) =~= rs);
        init.lemma_flatten_push(rs.last());
        assert(rs.len() * b == init.len() * b + b) by (nonlinear_arith)
            requires
                rs.len() == init.len() + 1,
        ;
    }
}

/// For a batch size `b > 0`, the number of lookup rounds is the number of
/// identifiers divided by `b`, rounded up, and the last round holds between
/// one and `b` identifiers.
pub proof fn lemma_round_count(rounds: Seq<Seq<Seq<char>>>, ids: Seq<Seq<char>>, b: nat)
    requires
        b > 0,
        is_batching(rounds, ids, b),
    ensures
        rounds.len() == (ids.len() + b - 1) / (b as int),
        rounds.len() > 0 ==> 1 <= rounds.last().len() <= b,
        ids.len() % b == 0 ==> rounds.len() == ids.len() / b,
{
    if rounds.len() == 0 {
        assert(ids.len() == 0);
        assert((b - 1) / (b as int) == 0) by (nonlinear_arith)
            requires
                b > 0,
        ;
    } else {
        let init = rounds.drop_last();
        let l: int = rounds.last().len() as int;
        let bi: int = b as int;
        assert(init.push(rounds.last()) =~= rounds);
        init.lemma_flatten_push(rounds.last());
        assert forall|k: int| 0 <= k < init.len() implies #[trigger] init[k].len() == b by {
            assert(init[k] == rounds[k]);
        }
        lemma_full_rounds_length(init, b);
        let n: int = init.len() as int;
        assert(ids.len() == n * b + l);
        assert((n * bi + l + bi - 1) / bi == n + 1) by (nonlinear_arith)
            requires
                bi > 0,
                n >= 0,
                1 <= l <= bi,
        {
            assert(n * bi + bi <= n * bi + l + bi - 1 < (n + 1) * bi + bi);
        }
        assert((n * bi + l) % bi == 0 ==> (n * bi + l) / bi == n + 1) by (nonlinear_arith)
            requires
                bi > 0,
                n >= 0,
                1 <= l <= bi,
        {
            if (n * bi + l) % bi == 0 {
                assert(n * bi < n * bi + l <= (n + 1) * bi);
            }
        }
    }
}

/// Runs a collector over `msgs` and returns the batches it hands out, in
/// order: the identifiers before the first `End`, in batches of
/// `batch_size`, the last of which may be short. A batch size of zero, or
/// messages without `End`, are refused.
pub fn collect_rounds(msgs: &Vec<Action>, batch_size: usize) -> (r: Result<
    Vec<Vec<String>>,
    BatchError,
>)
    ensures
        batch_size == 0 ==> r == Err::<Vec<Vec<String>>, BatchError>(BatchError::ZeroBatchSize),
        batch_size > 0 && !has_end(msgs@) ==> r == Err::<Vec<Vec<String>>, BatchError>(
            BatchError::MissingEnd,
        ),
        batch_size > 0 && has_end(msgs@) ==> (r matches Ok(rs) && is_batching(
            rounds_view(rs@),
            ids_before_end(msgs@),
            batch_size as nat,
        )),
{
    let mut c = match Collector::new(batch_size) {
        Ok(c) => c,
        Err(e) => {
            return Err(e);
        },
    };
    let ghost b = batch_size as nat;
    let mut rounds: Vec<Vec<String>> = Vec::new();
    let mut i: usize = 0;
    assert(msgs@.skip(0) =~= msgs@);
    assert(rounds_view(rounds@) =~= Seq::empty());
    assert(ids_view(c.pending@) =~= Seq::empty());
    while i < msgs.len()
        invariant
            i <= msgs.len(),
            c.wf(),
            !c.finished,
            c.batch_size == batch_size,
            b == batch_size as nat,
            forall|k: int| 0 <= k < i ==> !(#[trigger] msgs@[k] is End),
            forall|k: int|
                0 <= k < rounds_view(rounds@).len() ==> #[trigger] rounds_view(rounds@)[k].len()
                    == b,
            ids_before_end(msgs@) == rounds_view(rounds@).flatten() + ids_view(c.pending@)
                + ids_before_end(msgs@.skip(i as int)),
        decreases msgs.len() - i,
    {
        let ghost rest = msgs@.skip(i as int);
        let ghost old_rounds = rounds_view(rounds@);
        let ghost old_pending = c.pending@;
        assert(rest[0] == msgs@[i as int]);
        assert(rest.skip(1) =~= msgs@.skip(i + 1));
        match c.step(&msgs[i]) {
            Step::Wait => {
                assert(ids_view(c.pending@) =~= ids_view(old_pending) + seq![
                    ids_view(c.pending@).last(),
                ]);
            },
            Step::Resolve(batch) => {
                proof {
                    assert(ids_view(batch@) =~= ids_view(old_pending) + seq![
                        ids_view(batch@).last(),
                    ]);
                    assert(ids_view(c.pending@) =~= Seq::empty());
                    old_rounds.lemma_flatten_push(ids_view(batch@));
                    assert(ids_view(batch@).len() == b);
                }
                rounds.push(batch);
                assert(rounds_view(rounds@) =~= old_rounds.push(ids_view(rounds@.last()@)));
                assert(forall|k: int|
                    0 <= k < old_rounds.len() ==> rounds_view(rounds@)[k] == old_rounds[k]);
            },
            Step::Finish(last) => {
                assert(ids_view(old_pending).len() == old_pending.len());
                match last {
                    Some(batch) => {
                        proof {
                            old_rounds.lemma_flatten_push(ids_view(batch@));
                        }
                        rounds.push(batch);
                        let ghost rv = rounds_view(rounds@);
                        assert(rv =~= old_rounds.push(ids_view(rounds@.last()@)));
                        assert(rv.last().len() == old_pending.len());
                        assert forall|k: int| 0 <= k < rv.len() implies 1 <= #[trigger] rv[k].len()
                            <= b by {
                            if k < old_rounds.len() {
                                assert(rv[k] == old_rounds[k]);
                            }
                        }
                        assert forall|k: int| 0 <= k < rv.len() - 1 implies #[trigger] rv[k].len()
                            == b by {
                            assert(rv[k] == old_rounds[k]);
                        }
                    },
                    None => {
                        let ghost rv = rounds_view(rounds@);
                        assert forall|k: int| 0 <= k < rv.len() implies 1 <= #[trigger] rv[k].len()
                            <= b by {}
                    },
                }
                assert(rounds_view(rounds@).flatten() =~= ids_before_end(msgs@));
                return Ok(rounds);
            },
        }
        i = i + 1;
    }
    proof {
        if has_end(msgs@) {
            let k = choose|k: int| 0 <= k < msgs@.len() && #[trigger] msgs@[k] is End;
            assert(!(msgs@[k] is End));
        }
    }
    Err(BatchError::MissingEnd)
}

} // verus!
