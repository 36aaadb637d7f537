use redust::Store;

type Observer = fn(&u8);

enum StepAction {
    Increment,
    Decrement,
}

fn step_reducer(state: &u8, action: &StepAction) -> u8 {
    match action {
        StepAction::Increment => state + 1,
        StepAction::Decrement => state - 1,
    }
}

#[derive(Debug)]
enum AmountAction {
    // Increment on specific value
    IncrementBy(u8),

    // Decrement on specific value
    DecrementBy(u8),
}

fn amount_reducer(state: &u8, action: &AmountAction) -> u8 {
    match action {
        AmountAction::IncrementBy(value) => state + value,
        AmountAction::DecrementBy(value) => state - value,
    }
}

#[derive(Debug)]
enum UpAction {
    Increment,
}

fn up_reducer(state: &u8, action: &UpAction) -> u8 {
    match action {
        UpAction::Increment => state + 1,
    }
}

#[test]
fn dispatch_should_cause_updates_in_the_store() {
    let mut store: Store<_, _, _, Observer> = Store::new(step_reducer, 0);

    // Should increase the value to 1
    store.dispatch(StepAction::Increment);
    assert_eq!(*store.state(), 1);

    // Should increase the value to 2
    store.dispatch(StepAction::Increment);
    assert_eq!(*store.state(), 2);

    // Should decrease the value to 1
    store.dispatch(StepAction::Decrement);
    assert_eq!(*store.state(), 1);
}

#[test]
fn should_increment_or_decrement_the_reducer_data_by_specific_value() {
    let mut store: Store<_, _, _, Observer> = Store::new(amount_reducer, 0);

    // Should increase the value to 5
    store.dispatch(AmountAction::IncrementBy(5));
    assert_eq!(*store.state(), 5);

    // Should decrease the value to 3
    store.dispatch(AmountAction::DecrementBy(2));
    assert_eq!(*store.state(), 3);

    // Should increase the value to 4
    store.dispatch(AmountAction::IncrementBy(1));
    assert_eq!(*store.state(), 4);
}

#[test]
fn dispatch_should_called_multiple_times_when_chain() {
    let mut store: Store<_, _, _, Observer> = Store::new(up_reducer, 0);

    // Should increase the value to 3
    store
        .dispatch(UpAction::Increment)
        .dispatch(UpAction::Increment)
        .dispatch(UpAction::Increment);
    assert_eq!(*store.state(), 3);
}

#[test]
fn dispatch_stores_exactly_what_the_reducer_returns() {
    let starts: [u8; 4] = [0, 1, 17, 200];
    let amounts: [u8; 3] = [0, 3, 55];
    for start in starts {
        for amount in amounts {
            let mut store: Store<_, _, _, Observer> = Store::new(amount_reducer, start);
            store.dispatch(AmountAction::IncrementBy(amount));
            assert_eq!(
                *store.state(),
                amount_reducer(&start, &AmountAction::IncrementBy(amount))
            );
            assert_eq!(*store.state(), start + amount);
        }
    }
}

#[test]
fn dispatch_accepts_a_capturing_closure_as_reducer() {
    let factor: u32 = 3;
    let mut store: Store<u32, u32, _, fn(&u32)> =
        Store::new(move |state: &u32, action: &u32| state * factor + action, 1);
    store.dispatch(4).dispatch(5);
    assert_eq!(*store.state(), (1 * 3 + 4) * 3 + 5);
}
