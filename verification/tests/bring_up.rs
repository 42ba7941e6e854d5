use kernel::virtio::bring_up::bring_up_plan;
use kernel::virtio::bring_up::BringUpAction::{
    ConfigVector, DriverOk, EnableQueue, PostRxPool, QueueVector, SelectQueue,
};
use kernel::virtio::regs::NO_VECTOR;

#[test]
fn two_pairs_and_a_control_queue_come_up_in_order() {
    let plan = bring_up_plan(true, 2, 4);
    assert_eq!(
        plan,
        vec![
            ConfigVector(NO_VECTOR),
            SelectQueue(0),
            QueueVector(NO_VECTOR),
            EnableQueue(0),
            SelectQueue(1),
            QueueVector(NO_VECTOR),
            EnableQueue(1),
            PostRxPool(0),
            SelectQueue(2),
            QueueVector(NO_VECTOR),
            EnableQueue(2),
            SelectQueue(3),
            QueueVector(NO_VECTOR),
            EnableQueue(3),
            PostRxPool(1),
            SelectQueue(8),
            QueueVector(NO_VECTOR),
            EnableQueue(8),
            DriverOk,
        ]
    );
}

#[test]
fn driver_ok_comes_last_without_a_control_queue() {
    let plan = bring_up_plan(false, 1, 1);
    assert_eq!(plan.len(), 9);
    assert_eq!(plan[0], ConfigVector(NO_VECTOR));
    assert_eq!(plan[7], PostRxPool(0));
    assert_eq!(*plan.last().unwrap(), DriverOk);
    assert_eq!(plan.iter().filter(|a| **a == DriverOk).count(), 1);
}
