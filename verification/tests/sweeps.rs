use twodrive::fs::hydration::pin_ended;
use twodrive::fs::recovery::{change_ended, deletion_ended, ChangeOrder, DeleteOrder};
use twodrive::fs::sweep::{Ended, Sweep, SweepOrder};

fn run(ends: &[Ended]) -> Vec<SweepOrder> {
    let (mut sweep, order) = Sweep::begin(ends.len());
    let mut orders = vec![order];
    for end in ends {
        let (next, order) = sweep.next(*end);
        sweep = next;
        orders.push(order);
    }
    orders
}

#[test]
fn all_items_are_taken_and_the_good_ends_counted() {
    assert_eq!(run(&[]), vec![SweepOrder::Finish(0)]);
    assert_eq!(
        run(&[Ended::Done, Ended::Left, Ended::Done]),
        vec![
            SweepOrder::Take(0),
            SweepOrder::Take(1),
            SweepOrder::Take(2),
            SweepOrder::Finish(2),
        ]
    );
    assert_eq!(run(&[Ended::Left]), vec![SweepOrder::Take(0), SweepOrder::Finish(0)]);
}

#[test]
fn a_failure_ends_the_whole() {
    assert_eq!(
        run(&[Ended::Done, Ended::Failed, Ended::Done]),
        vec![SweepOrder::Take(0), SweepOrder::Take(1), SweepOrder::Fail, SweepOrder::Nothing]
    );
}

#[test]
fn a_deletion_that_the_cloud_refuses_waits_and_one_that_fails_here_ends_the_rest() {
    assert_eq!(deletion_ended(&DeleteOrder::Done), Ended::Done);
    assert_eq!(deletion_ended(&DeleteOrder::Keep), Ended::Left);
    assert_eq!(deletion_ended(&DeleteOrder::Fail), Ended::Failed);
}

#[test]
fn a_change_or_a_pinned_file_that_fails_lets_the_others_go_on() {
    assert_eq!(change_ended(&ChangeOrder::Finish(true)), Ended::Done);
    assert_eq!(change_ended(&ChangeOrder::Finish(false)), Ended::Left);
    assert_eq!(change_ended(&ChangeOrder::Fail), Ended::Left);
    assert_eq!(pin_ended(true), Ended::Done);
    assert_eq!(pin_ended(false), Ended::Left);
}
