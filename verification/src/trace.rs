//! What processing by steps has to do with processing by recursion.
//!
//! Processing an execution result by recursion goes through its messages
//! in order; where a reply is delivered, the result of the reply handler is
//! processed in the same way before the next message, and its data, where it
//! is not empty, takes the place of the data to return. The steps of
//! [`subcalls`](crate::subcalls) do the same with a stack in place of the
//! recursion: each step leaves unchanged what the recursion returns and
//! what it charges, and the last step returns it with nothing left to
//! charge.
//!
//! What the recursion charges for a whole tree of calls is, in turn, the sum
//! of what was charged for each thing in the tree, each counted once.
use vstd::prelude::*;
use crate::message::MessageView;
use crate::subcalls::{next_step, unwind, with_level, FramesView, LevelView, StepView};
use crate::transaction::CallResultView;

verus! {

/// What came of one message.
pub struct Outcome {
    /// The result of the dispatched call.
    pub result: CallResultView,
    /// Where a reply was delivered: what the reply handler returned, with
    /// what came of the messages that it emitted.
    pub reply: Option<Box<Trace>>,
    /// The gas that the parent was charged for the call: what the child
    /// used of what it was allowed.
    pub charged: nat,
    /// Where the call was a call of a contract that ran: the run of that
    /// contract in the child context.
    pub call: Option<Box<Nested>>,
}

/// An execution result with what came of each of its messages, and the
/// gas that was charged while the contract ran to return it.
pub struct Trace {
    pub data: Seq<u8>,
    pub messages: Seq<MessageView>,
    pub outcomes: Seq<Outcome>,
    /// The gas charged by the metering of instructions.
    pub metered: nat,
    /// The base costs charged for calls of the host's storage.
    pub host: nat,
}

/// The run of a contract in a child context: the base cost of the entry
/// point and what the contract returned.
pub struct Nested {
    pub base: nat,
    pub run: Trace,
}

/// Whether the outcomes are outcomes of the messages in a processing that
/// went through: there is one for each message, no call ran out of gas, a
/// reply was delivered exactly where the message asked to hear of such a
/// result, and the same holds of what the reply handlers returned.
pub open spec fn fits(messages: Seq<MessageView>, outcomes: Seq<Outcome>) -> bool
    decreases outcomes,
{
    &&& outcomes.len() == messages.len()
    &&& forall|i: int|
        0 <= i < outcomes.len() ==> {
            let outcome = #[trigger] outcomes[i];
            &&& !outcome.result.is_out_of_gas()
            &&& outcome.reply is Some <==> messages[i]->reply.selects(outcome.result is Success)
            &&& outcome.reply matches Some(sub) ==> fits(sub.messages, sub.outcomes)
        }
}

/// What processing by recursion returns for data and the outcomes of the
/// messages that came with it: the data of the last reply handler that
/// returned data, and the data itself where none did.
pub open spec fn returned(data: Seq<u8>, outcomes: Seq<Outcome>) -> Seq<u8>
    decreases outcomes,
{
    if outcomes.len() == 0 {
        data
    } else {
        let data = match outcomes[0].reply {
            Some(sub) => {
                let replied = returned(sub.data, sub.outcomes);
                if replied.len() > 0 {
                    replied
                } else {
                    data
                }
            },
            None => data,
        };
        returned(data, outcomes.subrange(1, outcomes.len() as int))
    }
}

/// Whether each level comes with the outcomes of its pending messages.
pub open spec fn in_step(levels: Seq<LevelView>, work: Seq<Seq<Outcome>>) -> bool {
    &&& levels.len() == work.len()
    &&& levels.len() > 0
    &&& forall|k: int| 0 <= k < levels.len() ==> fits((#[trigger] levels[k]).pending, work[k])
}

/// What processing by recursion returns for a stack of levels: the
/// innermost level hands what it returns to the level below it, where it
/// takes the place of the data unless it is empty, and so on down to the
/// first level.
pub open spec fn expected(levels: Seq<LevelView>, work: Seq<Seq<Outcome>>) -> Seq<u8>
    decreases levels.len(),
{
    if levels.len() == 0 || work.len() != levels.len() {
        Seq::empty()
    } else if levels.len() == 1 {
        returned(levels[0].data, work[0])
    } else {
        let handed = returned(levels.last().data, work.last());
        let below = levels[levels.len() - 2];
        let below = if handed.len() > 0 {
            LevelView { data: handed, pending: below.pending }
        } else {
            below
        };
        expected(levels.take(levels.len() - 2).push(below), work.drop_last())
    }
}

/// The outcomes that are left after the finished levels have handed down
/// their data: those of the levels that are left.
pub open spec fn unwind_work(levels: Seq<LevelView>, work: Seq<Seq<Outcome>>) -> Seq<
    Seq<Outcome>,
> {
    work.take(unwind(levels).len() as int)
}

/// Unwinding leaves a stack that is not longer, with the outcomes in step,
/// and does not change what is returned.
pub proof fn lemma_unwind(levels: Seq<LevelView>, work: Seq<Seq<Outcome>>)
    requires
        in_step(levels, work),
    ensures
        0 < unwind(levels).len() <= levels.len(),
        in_step(unwind(levels), unwind_work(levels, work)),
        expected(unwind(levels), unwind_work(levels, work)) == expected(levels, work),
        unwind(levels).len() > 1 ==> unwind(levels).last().pending.len() > 0,
    decreases levels.len(),
{
    if levels.len() <= 1 || levels.last().pending.len() > 0 {
        assert(work.take(levels.len() as int) =~= work);
    } else {
        let n = levels.len() as int;
        let done = levels.last();
        let below = levels[n - 2];
        let handed_down = if done.data.len() > 0 {
            LevelView { data: done.data, pending: below.pending }
        } else {
            below
        };
        let next = levels.take(n - 2).push(handed_down);
        let next_work = work.drop_last();
        assert(fits(done.pending, work.last()));
        assert(work.last().len() == 0);
        assert(returned(done.data, work.last()) == done.data);
        assert forall|k: int| 0 <= k < next.len() implies fits(
            (#[trigger] next[k]).pending,
            next_work[k],
        ) by {
            if k < n - 2 {
                assert(next[k] == levels[k]);
            } else {
                assert(next[k].pending == levels[n - 2].pending);
            }
        }
        lemma_unwind(next, next_work);
        assert(unwind(levels) == unwind(next));
        assert(next_work.take(unwind(next).len() as int) =~= work.take(
            unwind(levels).len() as int,
        ));
    }
}

/// What a stack returns depends on its innermost level only by what that
/// level returns.
pub proof fn lemma_expected_top(
    base: Seq<LevelView>,
    base_work: Seq<Seq<Outcome>>,
    first: LevelView,
    first_work: Seq<Outcome>,
    second: LevelView,
    second_work: Seq<Outcome>,
)
    requires
        base.len() == base_work.len(),
        returned(first.data, first_work) == returned(second.data, second_work),
    ensures
        expected(base.push(first), base_work.push(first_work)) == expected(
            base.push(second),
            base_work.push(second_work),
        ),
{
    let one = base.push(first);
    let two = base.push(second);
    if base.len() > 0 {
        let n = one.len() as int;
        assert(one.take(n - 2) =~= two.take(n - 2));
        assert(one[n - 2] == two[n - 2]);
        assert(base_work.push(first_work).drop_last() =~= base_work);
        assert(base_work.push(second_work).drop_last() =~= base_work);
    }
}

/// The outcome of the message that the next step dispatches.
pub open spec fn next_outcome(levels: Seq<LevelView>, work: Seq<Seq<Outcome>>) -> Outcome {
    unwind_work(levels, work).last()[0]
}

/// The outcomes that are left once the next message is dispatched.
pub open spec fn rest_of_work(levels: Seq<LevelView>, work: Seq<Seq<Outcome>>) -> Seq<
    Seq<Outcome>,
> {
    let unwound = unwind_work(levels, work);
    unwound.drop_last().push(unwound.last().subrange(1, unwound.last().len() as int))
}

/// Processing by steps returns what processing by recursion returns: a step
/// that ends the processing returns it, and a step that dispatches a message
/// leaves it unchanged, whether no reply is delivered for the message or the
/// result of its reply handler is taken up as a new level.
pub proof fn lemma_step_keeps_what_is_returned(
    frames: FramesView,
    work: Seq<Seq<Outcome>>,
    remaining: u64,
)
    requires
        in_step(frames.levels, work),
    ensures
        match next_step(frames, remaining) {
            StepView::Done(data) => data == expected(frames.levels, work),
            StepView::Call { frames: next, id, reply, max_gas, method, body } => {
                let outcome = next_outcome(frames.levels, work);
                let rest = rest_of_work(frames.levels, work);
                &&& outcome.reply is Some <==> reply.selects(outcome.result is Success)
                &&& outcome.reply is None ==> in_step(next.levels, rest) && expected(
                    next.levels,
                    rest,
                ) == expected(frames.levels, work)
                &&& outcome.reply matches Some(sub) ==> {
                    let taken_up = with_level(next, sub.data, sub.messages);
                    &&& in_step(taken_up.levels, rest.push(sub.outcomes))
                    &&& expected(taken_up.levels, rest.push(sub.outcomes)) == expected(
                        frames.levels,
                        work,
                    )
                }
            },
            StepView::Reply { frames, delivery } => false,
        },
{
    lemma_unwind(frames.levels, work);
    let levels = unwind(frames.levels);
    let unwound = unwind_work(frames.levels, work);
    let top = levels.last();
    assert(fits(top.pending, unwound.last()));
    if top.pending.len() == 0 {
        assert(levels.len() == 1);
        assert(unwound.last().len() == 0);
    } else {
        let outcome = unwound.last()[0];
        let rest_top = unwound.last().subrange(1, unwound.last().len() as int);
        let rest = unwound.drop_last().push(rest_top);
        let next_top = LevelView { data: top.data, pending: top.pending.drop_first() };
        let next = levels.drop_last().push(next_top);
        assert forall|i: int| 0 <= i < rest_top.len() implies {
            let o = #[trigger] rest_top[i];
            &&& !o.result.is_out_of_gas()
            &&& o.reply is Some <==> next_top.pending[i]->reply.selects(o.result is Success)
            &&& o.reply matches Some(sub) ==> fits(sub.messages, sub.outcomes)
        } by {
            assert(rest_top[i] == unwound.last()[i + 1]);
            assert(next_top.pending[i] == top.pending[i + 1]);
        }
        assert(fits(next_top.pending, rest_top));
        assert forall|k: int| 0 <= k < next.len() implies fits(
            (#[trigger] next[k]).pending,
            rest[k],
        ) by {
            if k < next.len() - 1 {
                assert(next[k] == levels[k]);
                assert(rest[k] == unwound[k]);
            }
        }
        assert(in_step(next, rest));
        assert(levels =~= levels.drop_last().push(top));
        assert(unwound =~= unwound.drop_last().push(unwound.last()));
        match outcome.reply {
            None => {
                assert(returned(top.data, unwound.last()) == returned(next_top.data, rest_top));
                lemma_expected_top(
                    levels.drop_last(),
                    unwound.drop_last(),
                    top,
                    unwound.last(),
                    next_top,
                    rest_top,
                );
            },
            Some(sub) => {
                let level = LevelView { data: sub.data, pending: sub.messages };
                let taken_up = next.push(level);
                let taken_up_work = rest.push(sub.outcomes);
                assert forall|k: int| 0 <= k < taken_up.len() implies fits(
                    (#[trigger] taken_up[k]).pending,
                    taken_up_work[k],
                ) by {
                    if k < next.len() {
                        assert(taken_up[k] == next[k]);
                        assert(taken_up_work[k] == rest[k]);
                    }
                }
                // The new level hands down what the reply handler returns.
                let replied = returned(sub.data, sub.outcomes);
                let handed = if replied.len() > 0 {
                    LevelView { data: replied, pending: next_top.pending }
                } else {
                    next_top
                };
                let n = taken_up.len() as int;
                assert(taken_up.take(n - 2) =~= levels.drop_last());
                assert(taken_up[n - 2] == next_top);
                assert(taken_up_work.drop_last() =~= rest);
                assert(expected(taken_up, taken_up_work) == expected(
                    levels.drop_last().push(handed),
                    rest,
                ));
                assert(returned(handed.data, rest_top) == returned(top.data, unwound.last()));
                lemma_expected_top(
                    levels.drop_last(),
                    unwound.drop_last(),
                    handed,
                    rest_top,
                    top,
                    unwound.last(),
                );
            },
        }
    }
}

/// The gas charged for processing the outcomes by recursion, at the given
/// price for dispatching one message: for each message what the child used
/// and, where a reply was delivered, what the reply handler used, the
/// dispatch of its messages and the processing of their outcomes.
pub open spec fn spent(outcomes: Seq<Outcome>, price: nat) -> nat
    decreases outcomes,
{
    if outcomes.len() == 0 {
        0
    } else {
        let first = outcomes[0];
        let replied = match first.reply {
            Some(sub) => sub.metered + sub.host + price * sub.outcomes.len() + spent(
                sub.outcomes,
                price,
            ),
            None => 0,
        };
        first.charged + replied + spent(outcomes.subrange(1, outcomes.len() as int), price)
    }
}

/// The gas charged for a run of a contract after the base cost of its entry
/// point: the metering, the host calls, the dispatch of its messages, and
/// what processing their outcomes costs.
pub open spec fn spent_by_run(run: Trace, price: nat) -> nat {
    run.metered + run.host + price * run.outcomes.len() + spent(run.outcomes, price)
}

/// Whether the charges for calls of contracts are what their runs cost: the
/// base cost of the entry point and what the run spent after it.
pub open spec fn settled(outcomes: Seq<Outcome>, price: nat) -> bool
    decreases outcomes,
{
    forall|i: int|
        0 <= i < outcomes.len() ==> {
            let outcome = #[trigger] outcomes[i];
            &&& outcome.call matches Some(nested) ==> outcome.charged == nested.base
                + spent_by_run(nested.run, price) && settled(nested.run.outcomes, price)
            &&& outcome.reply matches Some(sub) ==> settled(sub.outcomes, price)
        }
}

/// Gas by what it was charged for.
pub struct Bill {
    /// Base costs of entry points.
    pub base: nat,
    /// Metering of instructions.
    pub metered: nat,
    /// Base costs of host storage calls.
    pub host: nat,
    /// The number of messages dispatched.
    pub messages: nat,
    /// What dispatched calls of other methods used.
    pub other: nat,
}

impl Bill {
    /// The bill of nothing.
    pub open spec fn zero() -> Bill {
        Bill { base: 0, metered: 0, host: 0, messages: 0, other: 0 }
    }

    /// The two bills together.
    pub open spec fn plus(self, other: Bill) -> Bill {
        Bill {
            base: self.base + other.base,
            metered: self.metered + other.metered,
            host: self.host + other.host,
            messages: self.messages + other.messages,
            other: self.other + other.other,
        }
    }

    /// What the bill comes to at the given price for dispatching one
    /// message.
    pub open spec fn amount(self, price: nat) -> nat {
        self.base + self.metered + self.host + price * self.messages + self.other
    }
}

/// The bill of a run: its own metering, host calls and messages, and the
/// bill of what came of its messages.
pub open spec fn bill_of_run(run: Trace) -> Bill
    decreases run.outcomes,
{
    Bill { base: 0, metered: run.metered, host: run.host, messages: run.outcomes.len(), other: 0 }
        .plus(bill(run.outcomes))
}

/// The bill of what came of messages, through the whole tree of calls: for
/// a call of a contract the base cost and the bill of its run, for a call of
/// another method what it used, and for a reply the bill of the reply
/// handler's run.
pub open spec fn bill(outcomes: Seq<Outcome>) -> Bill
    decreases outcomes,
{
    if outcomes.len() == 0 {
        Bill::zero()
    } else {
        let first = outcomes[0];
        let called = match first.call {
            Some(nested) => Bill {
                base: nested.base,
                metered: nested.run.metered,
                host: nested.run.host,
                messages: nested.run.outcomes.len(),
                other: 0,
            }.plus(bill(nested.run.outcomes)),
            None => Bill { base: 0, metered: 0, host: 0, messages: 0, other: first.charged },
        };
        let replied = match first.reply {
            Some(sub) => Bill {
                base: 0,
                metered: sub.metered,
                host: sub.host,
                messages: sub.outcomes.len(),
                other: 0,
            }.plus(bill(sub.outcomes)),
            None => Bill::zero(),
        };
        called.plus(replied).plus(bill(outcomes.subrange(1, outcomes.len() as int)))
    }
}

/// The amounts of two bills add up to the amount of the two together.
pub proof fn lemma_amounts_add_up(one: Bill, other: Bill, price: nat)
    ensures
        one.plus(other).amount(price) == one.amount(price) + other.amount(price),
{
    assert(price * (one.messages + other.messages) == price * one.messages + price
        * other.messages) by (nonlinear_arith);
}

/// Gas is charged once for each thing: what processing a whole tree of
/// calls costs is the sum of the base costs of the entry points, the
/// metering of instructions, the base costs of the host calls, the price of
/// a dispatch for every message in the tree, and what calls of other methods
/// used.
pub proof fn lemma_spent_is_the_bill(outcomes: Seq<Outcome>, price: nat)
    requires
        settled(outcomes, price),
    ensures
        spent(outcomes, price) == bill(outcomes).amount(price),
    decreases outcomes,
{
    if outcomes.len() > 0 {
        let first = outcomes[0];
        let rest = outcomes.subrange(1, outcomes.len() as int);
        assert forall|i: int| 0 <= i < rest.len() implies {
            let outcome = #[trigger] rest[i];
            &&& outcome.call matches Some(nested) ==> outcome.charged == nested.base
                + spent_by_run(nested.run, price) && settled(nested.run.outcomes, price)
            &&& outcome.reply matches Some(sub) ==> settled(sub.outcomes, price)
        } by {
            assert(rest[i] == outcomes[i + 1]);
        }
        lemma_spent_is_the_bill(rest, price);
        let called = match first.call {
            Some(nested) => Bill {
                base: nested.base,
                metered: nested.run.metered,
                host: nested.run.host,
                messages: nested.run.outcomes.len(),
                other: 0,
            }.plus(bill(nested.run.outcomes)),
            None => Bill { base: 0, metered: 0, host: 0, messages: 0, other: first.charged },
        };
        let replied = match first.reply {
            Some(sub) => Bill {
                base: 0,
                metered: sub.metered,
                host: sub.host,
                messages: sub.outcomes.len(),
                other: 0,
            }.plus(bill(sub.outcomes)),
            None => Bill::zero(),
        };
        match first.call {
            Some(nested) => {
                lemma_spent_is_the_bill(nested.run.outcomes, price);
                lemma_amounts_add_up(
                    Bill {
                        base: nested.base,
                        metered: nested.run.metered,
                        host: nested.run.host,
                        messages: nested.run.outcomes.len(),
                        other: 0,
                    },
                    bill(nested.run.outcomes),
                    price,
                );
            },
            None => {},
        }
        match first.reply {
            Some(sub) => {
                lemma_spent_is_the_bill(sub.outcomes, price);
                lemma_amounts_add_up(
                    Bill {
                        base: 0,
                        metered: sub.metered,
                        host: sub.host,
                        messages: sub.outcomes.len(),
                        other: 0,
                    },
                    bill(sub.outcomes),
                    price,
                );
            },
            None => {},
        }
        assert(price * 0 == 0) by (nonlinear_arith);
        assert(called.amount(price) == first.charged);
        lemma_amounts_add_up(called, replied, price);
        lemma_amounts_add_up(called.plus(replied), bill(rest), price);
    }
}

/// The gas that a call of a contract uses, down the whole tree of calls
/// that it sets off, is the base cost of every entry point in the tree, the
/// metering of instructions, the base costs of the host calls, the price of
/// a dispatch for every message in the tree, and what calls of other methods
/// used: each charged once.
pub proof fn lemma_call_is_the_bill(call: Nested, price: nat)
    requires
        settled(call.run.outcomes, price),
    ensures
        call.base + spent_by_run(call.run, price) == (Bill {
            base: call.base,
            metered: 0,
            host: 0,
            messages: 0,
            other: 0,
        }).plus(bill_of_run(call.run)).amount(price),
{
    lemma_spent_is_the_bill(call.run.outcomes, price);
    let own = Bill {
        base: 0,
        metered: call.run.metered,
        host: call.run.host,
        messages: call.run.outcomes.len(),
        other: 0,
    };
    let entry = Bill { base: call.base, metered: 0, host: 0, messages: 0, other: 0 };
    assert(price * 0 == 0) by (nonlinear_arith);
    lemma_amounts_add_up(own, bill(call.run.outcomes), price);
    lemma_amounts_add_up(entry, bill_of_run(call.run), price);
}

/// The gas that is still to be charged for the outcomes that are left on a
/// stack of levels.
pub open spec fn owed(work: Seq<Seq<Outcome>>, price: nat) -> nat
    decreases work.len(),
{
    if work.len() == 0 {
        0
    } else {
        owed(work.drop_last(), price) + spent(work.last(), price)
    }
}

/// Processing by steps charges what processing by recursion charges: when
/// a step ends the processing nothing is owed any more, and a step that
/// dispatches a message leaves owed what was owed, less the charge for the
/// child and, where a reply is delivered, less what the reply handler used
/// and the dispatch of the messages that it emitted.
pub proof fn lemma_step_keeps_what_is_charged(
    frames: FramesView,
    work: Seq<Seq<Outcome>>,
    remaining: u64,
    price: nat,
)
    requires
        in_step(frames.levels, work),
    ensures
        match next_step(frames, remaining) {
            StepView::Done(data) => owed(work, price) == 0,
            StepView::Call { frames: next, id, reply, max_gas, method, body } => {
                let outcome = next_outcome(frames.levels, work);
                let rest = rest_of_work(frames.levels, work);
                &&& outcome.reply is None ==> owed(work, price) == outcome.charged + owed(
                    rest,
                    price,
                )
                &&& outcome.reply matches Some(sub) ==> owed(work, price) == outcome.charged
                    + sub.metered + sub.host + price * sub.outcomes.len() + owed(
                    rest.push(sub.outcomes),
                    price,
                )
            },
            StepView::Reply { frames, delivery } => false,
        },
{
    lemma_unwind(frames.levels, work);
    lemma_unwind_owes(frames.levels, work, price);
    let levels = unwind(frames.levels);
    let unwound = unwind_work(frames.levels, work);
    let top = levels.last();
    assert(fits(top.pending, unwound.last()));
    if top.pending.len() == 0 {
        assert(levels.len() == 1);
        assert(unwound.last().len() == 0);
        assert(unwound.drop_last() =~= Seq::<Seq<Outcome>>::empty());
        reveal_with_fuel(owed, 2);
    } else {
        let rest_top = unwound.last().subrange(1, unwound.last().len() as int);
        let rest = unwound.drop_last().push(rest_top);
        assert(rest.drop_last() =~= unwound.drop_last());
        match unwound.last()[0].reply {
            None => {},
            Some(sub) => {
                assert(rest.push(sub.outcomes).drop_last() =~= rest);
            },
        }
    }
}

/// Unwinding does not change what is owed: the levels that it takes away
/// have no outcomes left.
pub proof fn lemma_unwind_owes(levels: Seq<LevelView>, work: Seq<Seq<Outcome>>, price: nat)
    requires
        in_step(levels, work),
    ensures
        owed(unwind_work(levels, work), price) == owed(work, price),
    decreases levels.len(),
{
    if levels.len() <= 1 || levels.last().pending.len() > 0 {
        assert(work.take(levels.len() as int) =~= work);
    } else {
        let n = levels.len() as int;
        let done = levels.last();
        let below = levels[n - 2];
        let handed_down = if done.data.len() > 0 {
            LevelView { data: done.data, pending: below.pending }
        } else {
            below
        };
        let next = levels.take(n - 2).push(handed_down);
        let next_work = work.drop_last();
        assert(fits(done.pending, work.last()));
        assert(work.last().len() == 0);
        assert forall|k: int| 0 <= k < next.len() implies fits(
            (#[trigger] next[k]).pending,
            next_work[k],
        ) by {
            if k < n - 2 {
                assert(next[k] == levels[k]);
            } else {
                assert(next[k].pending == levels[n - 2].pending);
            }
        }
        lemma_unwind(next, next_work);
        lemma_unwind_owes(next, next_work, price);
        assert(unwind(levels) == unwind(next));
        assert(next_work.take(unwind(next).len() as int) =~= work.take(
            unwind(levels).len() as int,
        ));
    }
}

} // verus!
