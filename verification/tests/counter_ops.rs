use counter_project_backend::counter::Counter;

#[test]
fn initial_value_is_zero() {
    let c = Counter::new();
    assert_eq!(c.get_value(), 0);
}

#[test]
fn default_value_is_zero() {
    let c = Counter::default();
    assert_eq!(c.get_value(), 0);
}

#[test]
fn increments_accumulate() {
    let mut c = Counter::new();
    for expected in 1..=5i32 {
        c.increment();
        assert_eq!(c.get_value(), expected);
    }
}

#[test]
fn decrements_accumulate() {
    let mut c = Counter::new();
    for expected in 1..=5i32 {
        c.decrement();
        assert_eq!(c.get_value(), -expected);
    }
}

#[test]
fn three_decrements_yield_minus_three() {
    let mut c = Counter::new();
    c.decrement();
    c.decrement();
    c.decrement();
    assert_eq!(c.get_value(), -3);
}

#[test]
fn two_increments_one_decrement_yield_one() {
    let mut c = Counter::new();
    c.increment();
    c.increment();
    c.decrement();
    assert_eq!(c.get_value(), 1);
}

#[test]
fn interleavings_agree_on_the_net_result() {
    let mut a = Counter::new();
    a.increment();
    a.decrement();
    a.decrement();
    a.increment();
    a.decrement();

    let mut b = Counter::new();
    b.decrement();
    b.decrement();
    b.decrement();
    b.increment();
    b.increment();

    assert_eq!(a.get_value(), -1);
    assert_eq!(b.get_value(), -1);
}

#[test]
fn intermediate_reads_see_a_consistent_prefix() {
    let mut c = Counter::new();
    c.increment();
    assert_eq!(c.get_value(), 1);
    c.decrement();
    assert_eq!(c.get_value(), 0);
    c.decrement();
    assert_eq!(c.get_value(), -1);
}

#[test]
fn repeated_reads_return_the_same_value() {
    let mut c = Counter::new();
    c.increment();
    c.increment();
    let first = c.get_value();
    let second = c.get_value();
    let third = c.get_value();
    assert_eq!(first, 2);
    assert_eq!(second, first);
    assert_eq!(third, first);
}
