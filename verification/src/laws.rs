use crate::store::Store;
use crate::subscription::{SubscriptionToken, UnsubscribeError};
use vstd::prelude::*;

verus! {

impl<State, Action, R, O> Store<State, Action, R, O> where
    R: Fn(&State, &Action) -> State,
    O: Fn(&State),
 {
    /// One operation on the registry leads from `self` to `after`: a
    /// subscription of some observer, or an attempt to unsubscribe some token.
    pub open spec fn registry_step(&self, after: Self) -> bool {
        ||| exists|func: O, token: SubscriptionToken| #[trigger]
            self.subscribed(after, func, token)
        ||| exists|token: SubscriptionToken, result: Result<(), UnsubscribeError>| #[trigger]
            self.unsubscribed(after, token, result)
    }

    /// One operation of the store leads from `self` to `after`: a dispatch of
    /// some action, or an operation on the registry.
    pub open spec fn step(&self, after: Self) -> bool {
        ||| exists|action: Action| #[trigger] self.dispatched(after, action)
        ||| self.registry_step(after)
    }

    /// `trace` lists the successive values of one store: each is reached from
    /// the one before it by one operation.
    pub open spec fn is_run(trace: Seq<Self>) -> bool {
        forall|k: int| 0 <= k < trace.len() - 1 ==> (#[trigger] trace[k]).step(trace[k + 1])
    }

    /// Until the first dispatch a store holds its initial state: along any run
    /// of registry operations that starts at a store just built from
    /// `initial_state`, the state is `initial_state` and the reducer is the one
    /// the store was built with.
    pub proof fn law_initial_state_until_dispatch(
        trace: Seq<Self>,
        reducer: R,
        initial_state: State,
    )
        requires
            trace.len() > 0,
            trace[0].is_initial(reducer, initial_state),
            forall|k: int|
                0 <= k < trace.len() - 1 ==> (#[trigger] trace[k]).registry_step(trace[k + 1]),
        ensures
            forall|k: int|
                0 <= k < trace.len() ==> (#[trigger] trace[k]).value() == initial_state
                    && trace[k].transition() == reducer,
        decreases trace.len(),
    {
        if trace.len() > 1 {
            let earlier = trace.drop_last();
            assert forall|k: int| 0 <= k < earlier.len() - 1 implies (
            #[trigger] earlier[k]).registry_step(earlier[k + 1]) by {
                assert(trace[k].registry_step(trace[k + 1]));
            }
            Self::law_initial_state_until_dispatch(earlier, reducer, initial_state);
            let last = trace.len() - 1;
            assert(earlier[last - 1] == trace[last - 1]);
            assert(trace[last - 1].registry_step(trace[last]));
            assert forall|k: int| 0 <= k < trace.len() implies (#[trigger] trace[k]).value()
                == initial_state && trace[k].transition() == reducer by {
                if k < last {
                    assert(earlier[k] == trace[k]);
                }
            }
        }
    }

    /// After a dispatch the state is what the reducer returns for the earlier
    /// state and the action: if the reducer has only the result `expected`
    /// for them, the store holds `expected`.
    pub proof fn law_dispatch_stores_the_reducer_result(
        before: Self,
        after: Self,
        action: Action,
        expected: State,
    )
        requires
            before.dispatched(after, action),
            forall|result: State|
                call_ensures(before.transition(), (&before.value(), &action), result) ==> result
                    == expected,
        ensures
            after.value() == expected,
    {
    }

    /// Subscriptions fill the registry in order: after the first `count`
    /// subscriptions of a run that starts with an empty registry, the
    /// registry holds exactly those observers under the tokens they were
    /// given.
    proof fn lemma_subscriptions_fill_registry(
        trace: Seq<Self>,
        funcs: Seq<O>,
        tokens: Seq<SubscriptionToken>,
        count: int,
    )
        requires
            trace.len() == funcs.len() + 1,
            tokens.len() == funcs.len(),
            trace[0].wf(),
            trace[0].registry().len() == 0,
            forall|k: int|
                0 <= k < funcs.len() ==> (#[trigger] trace[k]).subscribed(
                    trace[k + 1],
                    funcs[k],
                    tokens[k],
                ),
            0 <= count <= funcs.len(),
        ensures
            trace[count].wf(),
            trace[count].registry().len() == count,
            forall|j: int|
                0 <= j < count ==> (#[trigger] trace[count].registry()[j]) == (tokens[j], funcs[j]),
        decreases count,
    {
        if count > 0 {
            Self::lemma_subscriptions_fill_registry(trace, funcs, tokens, count - 1);
            let before = trace[count - 1];
            let after = trace[count];
            assert(before.subscribed(after, funcs[count - 1], tokens[count - 1]));
            Self::law_subscribe_adds_one_subscription(
                before,
                after,
                funcs[count - 1],
                tokens[count - 1],
            );
            assert forall|j: int| 0 <= j < count implies (#[trigger] after.registry()[j]) == (
                tokens[j],
                funcs[j],
            ) by {
                if j < count - 1 {
                    assert(after.registry()[j] == before.registry()[j]);
                }
            }
        }
    }

    /// After any sequence of subscriptions, one dispatch invokes every
    /// subscribed observer exactly once, on the state that it stored: along a
    /// run that starts with an empty registry and subscribes `funcs` one by
    /// one, receiving `tokens`, the invocations of a dispatch that follows
    /// are those tokens, each once and in order, and every observer of `funcs`
    /// has been called on the new state.
    pub proof fn law_subscribers_are_all_notified(
        trace: Seq<Self>,
        funcs: Seq<O>,
        tokens: Seq<SubscriptionToken>,
        after: Self,
        action: Action,
    )
        requires
            trace.len() == funcs.len() + 1,
            tokens.len() == funcs.len(),
            trace[0].wf(),
            trace[0].registry().len() == 0,
            forall|k: int|
                0 <= k < funcs.len() ==> (#[trigger] trace[k]).subscribed(
                    trace[k + 1],
                    funcs[k],
                    tokens[k],
                ),
            trace.last().dispatched(after, action),
        ensures
            after.notified() == tokens,
            tokens.no_duplicates(),
            forall|k: int|
                0 <= k < funcs.len() ==> call_ensures(
                    #[trigger] funcs[k],
                    (&after.value(),),
                    (),
                ),
    {
        let before = trace.last();
        Self::lemma_subscriptions_fill_registry(trace, funcs, tokens, funcs.len() as int);
        Self::law_dispatch_notifies_each_subscriber_once(before, after, action);
        assert forall|k: int| 0 <= k < tokens.len() implies after.notified()[k] == tokens[k] by {
            assert(before.registry()[k] == (tokens[k], funcs[k]));
        }
        assert(after.notified() =~= tokens);
        assert forall|k: int| 0 <= k < funcs.len() implies call_ensures(
            #[trigger] funcs[k],
            (&after.value(),),
            (),
        ) by {
            assert(before.registry()[k] == (tokens[k], funcs[k]));
        }
    }

    /// A dispatch invokes exactly the subscribed observers, each of them once:
    /// no token occurs twice among the invocations, and a token occurs among
    /// them if and only if it was subscribed when the dispatch began. Every
    /// invocation was made on the state that the dispatch stored.
    pub proof fn law_dispatch_notifies_each_subscriber_once(
        before: Self,
        after: Self,
        action: Action,
    )
        requires
            before.wf(),
            before.dispatched(after, action),
        ensures
            after.notified().no_duplicates(),
            after.notified().len() == before.registry().len(),
            forall|token: SubscriptionToken|
                after.notified().contains(token) <==> before.is_subscribed(token),
            forall|i: int|
                0 <= i < before.registry().len() ==> after.notified()[i] == (
                #[trigger] before.registry()[i]).0 && call_ensures(
                    before.registry()[i].1,
                    (&after.value(),),
                    (),
                ),
    {
        let log = after.notified();
        let registry = before.registry();
        assert forall|token: SubscriptionToken|
            log.contains(token) <==> before.is_subscribed(token) by {
            if log.contains(token) {
                let i = choose|i: int| 0 <= i < log.len() && log[i] == token;
                assert(registry[i].0 == token);
            }
            if before.is_subscribed(token) {
                let i = choose|i: int|
                    0 <= i < registry.len() && (#[trigger] registry[i]).0 == token;
                assert(log[i] == token);
            }
        }
        assert forall|i: int, j: int| 0 <= i < log.len() && 0 <= j < log.len() && i != j implies log[i]
            != log[j] by {
            assert(log[i] == registry[i].0);
            assert(log[j] == registry[j].0);
        }
    }

    /// No two live subscriptions share a token.
    pub proof fn law_live_tokens_are_distinct(store: Self)
        requires
            store.wf(),
        ensures
            store.tokens().no_duplicates(),
            forall|i: int, j: int|
                0 <= i < store.registry().len() && 0 <= j < store.registry().len() && i != j ==> (
                #[trigger] store.registry()[i]).0 != (#[trigger] store.registry()[j]).0,
    {
        let registry = store.registry();
        assert forall|i: int, j: int|
            0 <= i < registry.len() && 0 <= j < registry.len() && i != j implies (
        #[trigger] registry[i]).0 != (#[trigger] registry[j]).0 by {
            if i < j {
                assert(registry[i].0 < registry[j].0);
            } else {
                assert(registry[j].0 < registry[i].0);
            }
        }
    }

    /// A subscription registers its observer under a token that no observer has
    /// or had before, and keeps every earlier subscription.
    pub proof fn law_subscribe_adds_one_subscription(
        before: Self,
        after: Self,
        func: O,
        token: SubscriptionToken,
    )
        requires
            before.wf(),
            before.subscribed(after, func, token),
        ensures
            after.wf(),
            !before.is_subscribed(token),
            !before.is_retired(token),
            after.is_subscribed(token),
            after.registry().last() == (token, func),
            forall|other: SubscriptionToken|
                other != token ==> (after.is_subscribed(other) <==> before.is_subscribed(other)),
    {
        let old_registry = before.registry();
        let new_registry = after.registry();
        assert(new_registry[old_registry.len() as int] == (token, func));
        assert forall|other: SubscriptionToken| other != token implies (after.is_subscribed(other)
            <==> before.is_subscribed(other)) by {
            if after.is_subscribed(other) {
                let i = choose|i: int|
                    0 <= i < new_registry.len() && (#[trigger] new_registry[i]).0 == other;
                assert(old_registry[i].0 == other);
            }
            if before.is_subscribed(other) {
                let i = choose|i: int|
                    0 <= i < old_registry.len() && (#[trigger] old_registry[i]).0 == other;
                assert(new_registry[i].0 == other);
            }
        }
        assert forall|i: int, j: int| 0 <= i < j < new_registry.len() implies (
        #[trigger] new_registry[i]).0 < (#[trigger] new_registry[j]).0 by {
            assert(new_registry[i] == old_registry[i]);
            if j < old_registry.len() {
                assert(new_registry[j] == old_registry[j]);
            }
        }
        assert forall|i: int| 0 <= i < new_registry.len() implies (#[trigger] new_registry[i]).0
            < after.next_token() by {
            if i < old_registry.len() {
                assert(new_registry[i] == old_registry[i]);
            }
        }
    }

    /// A successful unsubscription retires its token and touches no other
    /// subscription.
    pub proof fn law_unsubscribe_removes_one_subscription(
        before: Self,
        after: Self,
        token: SubscriptionToken,
    )
        requires
            before.wf(),
            before.unsubscribed(after, token, Ok(())),
        ensures
            after.wf(),
            before.is_subscribed(token),
            after.is_retired(token),
            after.registry().len() == before.registry().len() - 1,
            forall|other: SubscriptionToken|
                other != token ==> (after.is_subscribed(other) <==> before.is_subscribed(other)),
    {
        let old_registry = before.registry();
        let new_registry = after.registry();
        let at = choose|i: int|
            0 <= i < old_registry.len() && (#[trigger] old_registry[i]).0 == token
                && new_registry == old_registry.remove(i);
        assert forall|k: int| 0 <= k < new_registry.len() implies #[trigger] new_registry[k]
            == old_registry[if k < at { k } else { k + 1 }] by {}
        assert forall|k: int| 0 <= k < new_registry.len() implies (#[trigger] new_registry[k]).0
            != token by {
            assert(old_registry[if k < at { k } else { k + 1 }].0 != token);
        }
        assert forall|other: SubscriptionToken| other != token implies (after.is_subscribed(other)
            <==> before.is_subscribed(other)) by {
            if after.is_subscribed(other) {
                let k = choose|k: int|
                    0 <= k < new_registry.len() && (#[trigger] new_registry[k]).0 == other;
                assert(old_registry[if k < at { k } else { k + 1 }].0 == other);
            }
            if before.is_subscribed(other) {
                let k = choose|k: int|
                    0 <= k < old_registry.len() && (#[trigger] old_registry[k]).0 == other;
                assert(new_registry[if k < at { k } else { k - 1 }].0 == other);
            }
        }
        assert forall|i: int, j: int| 0 <= i < j < new_registry.len() implies (
        #[trigger] new_registry[i]).0 < (#[trigger] new_registry[j]).0 by {
            assert(old_registry[if i < at { i } else { i + 1 }].0 < old_registry[if j < at {
                j
            } else {
                j + 1
            }].0);
        }
        assert forall|i: int| 0 <= i < new_registry.len() implies (#[trigger] new_registry[i]).0
            < after.next_token() by {
            assert(old_registry[if i < at { i } else { i + 1 }].0 < before.next_token());
        }
    }

    /// Unsubscribing a token that is not subscribed, whether it was never
    /// handed out or was removed already, reports that token and leaves the
    /// store exactly as it was.
    pub proof fn law_unknown_token_is_refused(
        before: Self,
        after: Self,
        token: SubscriptionToken,
        result: Result<(), UnsubscribeError>,
    )
        requires
            before.wf(),
            before.unsubscribed(after, token, result),
            token >= before.next_token() || before.is_retired(token),
        ensures
            result == Err::<(), UnsubscribeError>(UnsubscribeError::WrongToken(token)),
            after == before,
    {
        if token >= before.next_token() {
            assert(!before.is_subscribed(token));
        }
    }

    /// One operation keeps the registry's invariant, keeps a retired token
    /// retired, and never lowers the token counter.
    pub proof fn law_step_keeps_retired_tokens(
        before: Self,
        after: Self,
        token: SubscriptionToken,
    )
        requires
            before.wf(),
            before.step(after),
            before.is_retired(token),
        ensures
            after.wf(),
            after.is_retired(token),
            before.next_token() <= after.next_token(),
    {
        assert(before.registry_step(after) || exists|action: Action| #[trigger]
            before.dispatched(after, action));
        if exists|action: Action| #[trigger] before.dispatched(after, action) {
        } else if exists|func: O, fresh: SubscriptionToken| #[trigger]
            before.subscribed(after, func, fresh) {
            let (func, fresh) = choose|func: O, fresh: SubscriptionToken| #[trigger]
                before.subscribed(after, func, fresh);
            Self::law_subscribe_adds_one_subscription(before, after, func, fresh);
        } else {
            let (gone, result) = choose|
                gone: SubscriptionToken,
                result: Result<(), UnsubscribeError>,
            | #[trigger] before.unsubscribed(after, gone, result);
            match result {
                Ok(()) => {
                    Self::law_unsubscribe_removes_one_subscription(before, after, gone);
                },
                Err(_) => {},
            }
        }
    }

    /// Once a token is retired, no later dispatch invokes its observer: along
    /// any run of operations that starts where the token is retired, the token
    /// stays retired, and the invocations of every dispatch in the run leave it
    /// out.
    pub proof fn law_retired_token_is_never_notified(trace: Seq<Self>, token: SubscriptionToken)
        requires
            trace.len() > 0,
            trace[0].wf(),
            trace[0].is_retired(token),
            Self::is_run(trace),
        ensures
            forall|k: int|
                0 <= k < trace.len() ==> (#[trigger] trace[k]).wf() && trace[k].is_retired(token),
            forall|k: int, action: Action|
                0 <= k < trace.len() - 1 && #[trigger] trace[k].dispatched(trace[k + 1], action)
                    ==> !trace[k + 1].notified().contains(token),
        decreases trace.len(),
    {
        if trace.len() > 1 {
            let earlier = trace.drop_last();
            assert forall|k: int| 0 <= k < earlier.len() - 1 implies (#[trigger] earlier[k]).step(
                earlier[k + 1],
            ) by {
                assert(trace[k].step(trace[k + 1]));
            }
            Self::law_retired_token_is_never_notified(earlier, token);
            let last = trace.len() - 1;
            assert(earlier[last - 1] == trace[last - 1]);
            assert(trace[last - 1].step(trace[last]));
            Self::law_step_keeps_retired_tokens(trace[last - 1], trace[last], token);
            assert forall|k: int| 0 <= k < trace.len() implies (#[trigger] trace[k]).wf()
                && trace[k].is_retired(token) by {
                if k < last {
                    assert(earlier[k] == trace[k]);
                }
            }
            assert forall|k: int, action: Action|
                0 <= k < trace.len() - 1 && #[trigger] trace[k].dispatched(
                    trace[k + 1],
                    action,
                ) implies !trace[k + 1].notified().contains(token) by {
                assert(trace[k].wf() && trace[k].is_retired(token));
                Self::law_dispatch_notifies_each_subscriber_once(trace[k], trace[k + 1], action);
            }
        }
    }
}

} // verus!
