use crate::subscription::{SubscriptionToken, UnsubscribeError};
use std::marker::PhantomData;
use vstd::prelude::*;

verus! {

/// One registered observer together with the token it was registered under.
struct Registration<O> {
    token: SubscriptionToken,
    observer: O,
}

/// A state container: one state value, the reducer that computes the next
/// value from the current one and an action, and the registry of observers
/// that are notified after every transition.
///
/// The registry keeps its observers in the order in which they subscribed, and
/// notifies them in that order.
pub struct Store<State, Action, R, O> {
    reducer: R,
    state: State,
    subscriptions: Vec<Registration<O>>,
    subscriptions_index: SubscriptionToken,
    notified: Ghost<Seq<SubscriptionToken>>,
    action: PhantomData<Action>,
}

impl<State, Action, R, O> Store<State, Action, R, O> where
    R: Fn(&State, &Action) -> State,
    O: Fn(&State),
 {
    /// The current state value.
    pub closed spec fn value(&self) -> State {
        self.state
    }

    /// The reducer that the store was built with.
    pub closed spec fn transition(&self) -> R {
        self.reducer
    }

    /// The live subscriptions, oldest first: each token with its observer.
    pub closed spec fn registry(&self) -> Seq<(SubscriptionToken, O)> {
        self.subscriptions@.map_values(|r: Registration<O>| (r.token, r.observer))
    }

    /// The token that the next `subscribe` call will hand out.
    pub closed spec fn next_token(&self) -> SubscriptionToken {
        self.subscriptions_index
    }

    /// The tokens of the observers that the most recent `dispatch` invoked, one
    /// entry per invocation, in the order of the calls. Empty before the first
    /// `dispatch`.
    pub closed spec fn notified(&self) -> Seq<SubscriptionToken> {
        self.notified@
    }

    /// The tokens of the live subscriptions, oldest first.
    pub open spec fn tokens(&self) -> Seq<SubscriptionToken> {
        self.registry().map_values(|entry: (SubscriptionToken, O)| entry.0)
    }

    /// Whether an observer is currently registered under `token`.
    pub open spec fn is_subscribed(&self, token: SubscriptionToken) -> bool {
        exists|i: int| 0 <= i < self.registry().len() && (#[trigger] self.registry()[i]).0 == token
    }

    /// The registry's invariant: tokens grow strictly along the registry, so no
    /// token occurs twice, and every live token was handed out already.
    pub open spec fn wf(&self) -> bool {
        &&& forall|i: int, j: int|
            0 <= i < j < self.registry().len() ==> (#[trigger] self.registry()[i]).0 < (
            #[trigger] self.registry()[j]).0
        &&& forall|i: int|
            0 <= i < self.registry().len() ==> (#[trigger] self.registry()[i]).0
                < self.next_token()
    }

    /// Whether `token` was handed out earlier and is no longer subscribed.
    pub open spec fn is_retired(&self, token: SubscriptionToken) -> bool {
        token < self.next_token() && !self.is_subscribed(token)
    }

    /// What a store is when it has just been built from `reducer` and
    /// `initial_state`: it holds that state, has no observers, has handed out no
    /// token and has invoked nothing.
    pub open spec fn is_initial(&self, reducer: R, initial_state: State) -> bool {
        &&& self.value() == initial_state
        &&& self.transition() == reducer
        &&& self.registry() == Seq::<(SubscriptionToken, O)>::empty()
        &&& self.next_token() == 0
        &&& self.notified() == Seq::<SubscriptionToken>::empty()
    }

    /// What `dispatch` needs of its callbacks: the reducer accepts the current
    /// state with `action`, and every registered observer accepts whatever
    /// state the reducer may return for them.
    pub open spec fn can_dispatch(&self, action: Action) -> bool {
        &&& call_requires(self.transition(), (&self.value(), &action))
        &&& forall|next: State, i: int|
            call_ensures(self.transition(), (&self.value(), &action), next) && 0 <= i
                < self.registry().len() ==> #[trigger] call_requires(
                self.registry()[i].1,
                (&next,),
            )
    }

    /// How a `dispatch` of `action` leads from `self` to `after`: the state is
    /// what the reducer returned for the old state and the action, the
    /// registry is untouched, and every registered observer was invoked on the
    /// new state, once each, oldest first.
    pub open spec fn dispatched(&self, after: Self, action: Action) -> bool {
        &&& call_ensures(self.transition(), (&self.value(), &action), after.value())
        &&& after.transition() == self.transition()
        &&& after.registry() == self.registry()
        &&& after.next_token() == self.next_token()
        &&& after.notified() == after.tokens()
        &&& forall|i: int|
            0 <= i < after.registry().len() ==> call_ensures(
                (#[trigger] after.registry()[i]).1,
                (&after.value(),),
                (),
            )
    }

    /// How a `subscribe` of `func` that returned `token` leads from `self` to
    /// `after`: the token is the next in allocation order, and the observer
    /// joins the end of the registry under it. Nothing else changes.
    pub open spec fn subscribed(&self, after: Self, func: O, token: SubscriptionToken) -> bool {
        &&& token == self.next_token()
        &&& after.next_token() == token + 1
        &&& after.registry() == self.registry().push((token, func))
        &&& after.value() == self.value()
        &&& after.transition() == self.transition()
        &&& after.notified() == self.notified()
    }

    /// How an `unsubscribe` of `token` that returned `result` leads from `self`
    /// to `after`: it succeeds exactly when `token` is subscribed, and then
    /// takes that one entry out of the registry; otherwise it reports the
    /// token and changes nothing.
    pub open spec fn unsubscribed(
        &self,
        after: Self,
        token: SubscriptionToken,
        result: Result<(), UnsubscribeError>,
    ) -> bool {
        &&& after.value() == self.value()
        &&& after.transition() == self.transition()
        &&& after.next_token() == self.next_token()
        &&& after.notified() == self.notified()
        &&& match result {
            Ok(()) => exists|i: int|
                0 <= i < self.registry().len() && (#[trigger] self.registry()[i]).0 == token
                    && after.registry() == self.registry().remove(i),
            Err(error) => error == UnsubscribeError::WrongToken(token) && !self.is_subscribed(
                token,
            ) && after == *self,
        }
    }

    /// Creates a store that holds `initial_state` and has no observers.
    pub fn new(reducer: R, initial_state: State) -> (store: Self)
        ensures
            store.wf(),
            store.is_initial(reducer, initial_state),
    {
        let store = Store {
            reducer,
            state: initial_state,
            subscriptions: Vec::new(),
            subscriptions_index: 0,
            notified: Ghost(Seq::empty()),
            action: PhantomData,
        };
        assert(store.registry() =~= Seq::<(SubscriptionToken, O)>::empty());
        store
    }

    /// Returns the current state: the value that the most recent `dispatch`
    /// stored, or the initial value if there was none.
    pub fn state(&self) -> (state: &State)
        ensures
            *state == self.value(),
    {
        &self.state
    }

    /// Applies `action` to the current state through the reducer, stores the
    /// result, and then invokes every registered observer once on the stored
    /// result, oldest subscription first. Returns the store itself, so that
    /// calls can be chained.
    pub fn dispatch(&mut self, action: Action) -> (store: &mut Self)
        requires
            old(self).wf(),
            old(self).can_dispatch(action),
        ensures
            *final(self) == *final(store),
            store.wf(),
            old(self).dispatched(*store, action),
    {
        let next = (self.reducer)(&self.state, &action);
        self.state = next;
        let ghost mut log: Seq<SubscriptionToken> = Seq::empty();
        let n: usize = self.subscriptions.len();
        let mut i: usize = 0;
        assert(n == old(self).registry().len());
        while i < n
            invariant
                i <= n,
                n == self.subscriptions.len(),
                self.registry() == old(self).registry(),
                self.transition() == old(self).transition(),
                self.next_token() == old(self).next_token(),
                call_ensures(old(self).transition(), (&old(self).value(), &action), self.value()),
                forall|k: int|
                    0 <= k < n ==> #[trigger] call_requires(
                        self.registry()[k].1,
                        (&self.value(),),
                    ),
                log == self.tokens().subrange(0, i as int),
                forall|k: int|
                    0 <= k < i ==> call_ensures(
                        (#[trigger] self.registry()[k]).1,
                        (&self.value(),),
                        (),
                    ),
            decreases n - i,
        {
            let registration = &self.subscriptions[i];
            assert(self.registry()[i as int].1 == registration.observer);
            (registration.observer)(&self.state);
            proof {
                log = log.push(registration.token);
                assert(log =~= self.tokens().subrange(0, i + 1));
            }
            i += 1;
        }
        assert(log =~= self.tokens());
        self.notified = Ghost(log);
        self
    }

    /// Registers `func` as an observer and returns its token: the next one in
    /// allocation order, which no live or earlier subscription of this store
    /// has. The observer is not invoked by this call.
    ///
    /// The token counter is 64 bits wide; a store hands out at most
    /// `u64::MAX` tokens in its lifetime.
    pub fn subscribe(&mut self, func: O) -> (token: SubscriptionToken)
        requires
            old(self).wf(),
            old(self).next_token() < u64::MAX,
        ensures
            final(self).wf(),
            !old(self).is_subscribed(token),
            old(self).subscribed(*final(self), func, token),
    {
        let subscription_token = self.subscriptions_index;
        self.subscriptions.push(Registration { token: subscription_token, observer: func });
        self.subscriptions_index = subscription_token + 1;
        assert(self.registry() =~= old(self).registry().push((subscription_token, func)));
        subscription_token
    }

    /// Removes the observer registered under `subscription_token`, so that no
    /// later `dispatch` invokes it. Fails, and leaves the store as it was, if
    /// no observer is registered under that token.
    pub fn unsubscribe(&mut self, subscription_token: SubscriptionToken) -> (result: Result<
        (),
        UnsubscribeError,
    >)
        requires
            old(self).wf(),
        ensures
            final(self).wf(),
            result is Ok <==> old(self).is_subscribed(subscription_token),
            !final(self).is_subscribed(subscription_token),
            old(self).unsubscribed(*final(self), subscription_token, result),
    {
        let n: usize = self.subscriptions.len();
        let mut i: usize = 0;
        while i < n
            invariant
                i <= n,
                n == self.subscriptions.len(),
                *self == *old(self),
                self.wf(),
                forall|k: int|
                    0 <= k < i ==> (#[trigger] self.registry()[k]).0 != subscription_token,
            decreases n - i,
        {
            if self.subscriptions[i].token == subscription_token {
                assert(self.registry()[i as int].0 == subscription_token);
                self.subscriptions.remove(i);
                proof {
                    assert(self.registry() =~= old(self).registry().remove(i as int));
                    Self::law_unsubscribe_removes_one_subscription(
                        *old(self),
                        *self,
                        subscription_token,
                    );
                }
                return Ok(());
            }
            assert(self.registry()[i as int].0 != subscription_token);
            i += 1;
        }
        Err(UnsubscribeError::WrongToken(subscription_token))
    }
}

} // verus!
