//! The order in which the queues of a virtio-net device are brought up once
//! the features are agreed: no MSI-X vector for the configuration or any
//! queue (the driver polls), each queue's vector cleared before the queue is
//! enabled, the receive buffers of a pair posted once both of its queues are
//! enabled, and DRIVER_OK set only after every queue is enabled.

use vstd::prelude::*;
use crate::virtio::regs::NO_VECTOR;

verus! {

/// One step of the queue bring-up.
#[derive(Clone, Copy, Debug, PartialEq, Eq, Structural)]
pub enum BringUpAction {
    /// Write this vector as the configuration-change MSI-X vector.
    ConfigVector(u16),
    /// Select this queue, read its size, and hand the device the addresses
    /// of its rings.
    SelectQueue(u16),
    /// Write this vector as the selected queue's MSI-X vector.
    QueueVector(u16),
    /// Enable this queue, which must be the selected one.
    EnableQueue(u16),
    /// Post the receive buffers of this queue pair.
    PostRxPool(u16),
    /// Set DRIVER_OK in the device status.
    DriverOk,
}

/// The steps that bring up queue pair `p`: its receive queue `2p`, its
/// transmit queue `2p + 1`, then its receive buffers.
pub open spec fn pair_actions(p: u16) -> Seq<BringUpAction> {
    seq![
        BringUpAction::SelectQueue((2 * p) as u16),
        BringUpAction::QueueVector(NO_VECTOR),
        BringUpAction::EnableQueue((2 * p) as u16),
        BringUpAction::SelectQueue((2 * p + 1) as u16),
        BringUpAction::QueueVector(NO_VECTOR),
        BringUpAction::EnableQueue((2 * p + 1) as u16),
        BringUpAction::PostRxPool(p),
    ]
}

/// The steps that bring up the control queue `index`.
pub open spec fn ctrl_actions(index: u16) -> Seq<BringUpAction> {
    seq![
        BringUpAction::SelectQueue(index),
        BringUpAction::QueueVector(NO_VECTOR),
        BringUpAction::EnableQueue(index),
    ]
}

/// Step `m` of the pair steps: step `m % 7` of pair `m / 7`.
pub open spec fn plan_step(m: int) -> BringUpAction {
    pair_actions((m / 7) as u16)[m % 7]
}

/// The whole queue bring-up for `pairs` queue pairs, with a control queue
/// after the `max_pairs` pairs the device supports when `ctrl` holds.
pub open spec fn bring_up_actions(ctrl: bool, pairs: u16, max_pairs: u16) -> Seq<BringUpAction> {
    seq![BringUpAction::ConfigVector(NO_VECTOR)] + Seq::new(7 * pairs as nat, |k: int| plan_step(k)) + (if ctrl {
        ctrl_actions((2 * max_pairs) as u16)
    } else {
        Seq::empty()
    }) + seq![BringUpAction::DriverOk]
}

/// Where the bring-up enables data queue `q`: queue `2p` is the third step
/// of pair `p`, queue `2p + 1` its sixth, after the configuration vector.
pub open spec fn enable_step(q: int) -> int {
    1 + 7 * (q / 2) + 3 * (q % 2) + 2
}

/// Position `m` of the pair steps is step `j` of pair `p`.
proof fn lemma_pair_position(m: int, p: int, j: int)
    requires
        m == 7 * p + j,
        0 <= j < 7,
        0 <= p,
    ensures
        m / 7 == p,
        m % 7 == j,
{
    assert(m / 7 == p && m % 7 == j) by (nonlinear_arith)
        requires
            m == 7 * p + j,
            0 <= j < 7,
            0 <= p,
    ;
}

/// What a single pair step is: never DRIVER_OK nor a configuration
/// vector, a queue vector only "no vector", and an enable only right after
/// the queue's selection and vector.
proof fn lemma_plan_step(m: int)
    requires
        0 <= m < 7 * 0x8000,
    ensures
        plan_step(m) != BringUpAction::DriverOk,
        !(plan_step(m) is ConfigVector),
        plan_step(m) matches BringUpAction::QueueVector(v) ==> v == NO_VECTOR,
        plan_step(m) matches BringUpAction::EnableQueue(q) ==> m % 7 >= 2 && plan_step(m - 1)
            == BringUpAction::QueueVector(NO_VECTOR) && plan_step(m - 2) == BringUpAction::SelectQueue(q),
{
    let p = m / 7;
    let j = m % 7;
    assert(0 <= j < 7 && m == 7 * p + j && 0 <= p < 0x8000) by (nonlinear_arith)
        requires
            p == m / 7,
            j == m % 7,
            0 <= m < 7 * 0x8000,
    ;
    let pa = pair_actions(p as u16);
    if j == 2 || j == 5 {
        lemma_pair_position(m - 1, p, j - 1);
        lemma_pair_position(m - 2, p, j - 2);
        assert(plan_step(m - 1) == pa[j - 1]);
        assert(plan_step(m - 2) == pa[j - 2]);
    }
    if j == 0 {
        assert(plan_step(m) == pa[0]);
    } else if j == 1 {
        assert(plan_step(m) == pa[1]);
    } else if j == 2 {
        assert(plan_step(m) == pa[2]);
    } else if j == 3 {
        assert(plan_step(m) == pa[3]);
    } else if j == 4 {
        assert(plan_step(m) == pa[4]);
    } else if j == 5 {
        assert(plan_step(m) == pa[5]);
    } else {
        assert(plan_step(m) == pa[6]);
    }
}

/// The queue bring-up, in order; see `bring_up_actions`. `pairs` is the
/// number of pairs brought up and `max_pairs` the number the device
/// supports.
pub fn bring_up_plan(ctrl: bool, pairs: u16, max_pairs: u16) -> (r: Vec<BringUpAction>)
    requires
        pairs <= max_pairs < 0x8000,
    ensures
        r@ == bring_up_actions(ctrl, pairs, max_pairs),
{
    let mut v: Vec<BringUpAction> = Vec::new();
    v.push(BringUpAction::ConfigVector(NO_VECTOR));
    let ghost head = seq![BringUpAction::ConfigVector(NO_VECTOR)];
    let mut p: u16 = 0;
    proof {
        assert(v@ =~= head + Seq::new(0, |k: int| plan_step(k)));
    }
    while p < pairs
        invariant
            p <= pairs < 0x8000,
            head == seq![BringUpAction::ConfigVector(NO_VECTOR)],
            v@ == head + Seq::new(7 * p as nat, |k: int| plan_step(k)),
        decreases pairs - p,
    {
        let ghost before = v@;
        v.push(BringUpAction::SelectQueue(2 * p));
        v.push(BringUpAction::QueueVector(NO_VECTOR));
        v.push(BringUpAction::EnableQueue(2 * p));
        v.push(BringUpAction::SelectQueue(2 * p + 1));
        v.push(BringUpAction::QueueVector(NO_VECTOR));
        v.push(BringUpAction::EnableQueue(2 * p + 1));
        v.push(BringUpAction::PostRxPool(p));
        proof {
            assert(before.len() == 1 + 7 * p);
            assert(v@.len() == 1 + 7 * (p + 1));
            assert forall|k: int| 0 <= k < 7 * (p + 1) implies #[trigger] v@[k + 1] == plan_step(k) by {
                if k < 7 * p {
                    assert(v@[k + 1] == before[k + 1]);
                } else {
                    lemma_pair_position(k, p as int, k - 7 * p);
                    let pa = pair_actions(p);
                    let j = k - 7 * p;
                    if j == 0 {
                        assert(v@[k + 1] == pa[0]);
                    } else if j == 1 {
                        assert(v@[k + 1] == pa[1]);
                    } else if j == 2 {
                        assert(v@[k + 1] == pa[2]);
                    } else if j == 3 {
                        assert(v@[k + 1] == pa[3]);
                    } else if j == 4 {
                        assert(v@[k + 1] == pa[4]);
                    } else if j == 5 {
                        assert(v@[k + 1] == pa[5]);
                    } else {
                        assert(v@[k + 1] == pa[6]);
                    }
                }
            }
            assert(v@ =~= head + Seq::new(7 * (p + 1) as nat, |k: int| plan_step(k)));
        }
        p = p + 1;
    }
    if ctrl {
        let index = 2 * max_pairs;
        v.push(BringUpAction::SelectQueue(index));
        v.push(BringUpAction::QueueVector(NO_VECTOR));
        v.push(BringUpAction::EnableQueue(index));
    }
    v.push(BringUpAction::DriverOk);
    proof {
        let mid = Seq::new(7 * pairs as nat, |k: int| plan_step(k));
        let c = if ctrl { ctrl_actions((2 * max_pairs) as u16) } else { Seq::empty() };
        assert(v@ =~= head + mid + c + seq![BringUpAction::DriverOk]);
    }
    v
}

/// Where the steps of the bring-up come from: the configuration vector,
/// the pair steps, the control-queue steps, DRIVER_OK.
proof fn lemma_bring_up_layout(ctrl: bool, pairs: u16, max_pairs: u16, k: int)
    requires
        0 <= k < bring_up_actions(ctrl, pairs, max_pairs).len(),
    ensures
        bring_up_actions(ctrl, pairs, max_pairs).len() == 7 * pairs + (if ctrl { 3int } else { 0 }) + 2,
        k == 0 ==> bring_up_actions(ctrl, pairs, max_pairs)[k] == BringUpAction::ConfigVector(NO_VECTOR),
        1 <= k <= 7 * pairs ==> bring_up_actions(ctrl, pairs, max_pairs)[k] == plan_step(k - 1),
        7 * pairs < k < bring_up_actions(ctrl, pairs, max_pairs).len() - 1 ==> ctrl && bring_up_actions(
            ctrl,
            pairs,
            max_pairs,
        )[k] == ctrl_actions((2 * max_pairs) as u16)[k - 7 * pairs - 1],
        k == bring_up_actions(ctrl, pairs, max_pairs).len() - 1 ==> bring_up_actions(ctrl, pairs, max_pairs)[k]
            == BringUpAction::DriverOk,
{
}

/// What one step of the bring-up is; see `lemma_bring_up_order`.
proof fn lemma_bring_up_step(ctrl: bool, pairs: u16, max_pairs: u16, k: int)
    requires
        pairs <= max_pairs < 0x8000,
        0 <= k < bring_up_actions(ctrl, pairs, max_pairs).len(),
    ensures
        ({
            let a = bring_up_actions(ctrl, pairs, max_pairs);
            &&& (k < a.len() - 1 ==> a[k] != BringUpAction::DriverOk)
            &&& (a[k] matches BringUpAction::ConfigVector(v) ==> v == NO_VECTOR)
            &&& (a[k] matches BringUpAction::QueueVector(v) ==> v == NO_VECTOR)
            &&& (a[k] matches BringUpAction::EnableQueue(q) ==> k >= 2 && a[k - 1] == BringUpAction::QueueVector(
                NO_VECTOR,
            ) && a[k - 2] == BringUpAction::SelectQueue(q))
        }),
{
    let n = 7 * pairs as int;
    lemma_bring_up_layout(ctrl, pairs, max_pairs, k);
    if 1 <= k <= n {
        lemma_plan_step(k - 1);
        if bring_up_actions(ctrl, pairs, max_pairs)[k] is EnableQueue {
            lemma_bring_up_layout(ctrl, pairs, max_pairs, k - 1);
            lemma_bring_up_layout(ctrl, pairs, max_pairs, k - 2);
        }
    } else if n < k < bring_up_actions(ctrl, pairs, max_pairs).len() - 1 {
        if k - n - 1 == 2 {
            lemma_bring_up_layout(ctrl, pairs, max_pairs, k - 1);
            lemma_bring_up_layout(ctrl, pairs, max_pairs, k - 2);
        }
    }
}

/// Data queue `q` is enabled at `enable_step(q)`.
proof fn lemma_enable_step(ctrl: bool, pairs: u16, max_pairs: u16, q: int)
    requires
        pairs <= max_pairs < 0x8000,
        0 <= q < 2 * pairs,
    ensures
        enable_step(q) < bring_up_actions(ctrl, pairs, max_pairs).len() - 1,
        bring_up_actions(ctrl, pairs, max_pairs)[enable_step(q)] == BringUpAction::EnableQueue(q as u16),
{
    let p = q / 2;
    let j = 3 * (q % 2) + 2;
    assert(0 <= p < pairs && (q % 2 == 0 || q % 2 == 1) && q == 2 * p + q % 2) by (nonlinear_arith)
        requires
            p == q / 2,
            0 <= q < 2 * pairs,
    ;
    lemma_pair_position(7 * p + j, p, j);
    lemma_bring_up_layout(ctrl, pairs, max_pairs, 1 + 7 * p + j);
    assert(plan_step(7 * p + j) == pair_actions(p as u16)[j]);
}

/// The order of the bring-up: DRIVER_OK is the last step and comes only
/// there; every MSI-X vector written is "no vector"; every queue is enabled
/// right after it was selected and its vector cleared; and every queue of
/// the `pairs` pairs, and the control queue when there is one, is enabled
/// before DRIVER_OK.
pub proof fn lemma_bring_up_order(ctrl: bool, pairs: u16, max_pairs: u16)
    requires
        pairs <= max_pairs < 0x8000,
    ensures
        ({
            let a = bring_up_actions(ctrl, pairs, max_pairs);
            &&& a.len() == 7 * pairs + (if ctrl { 3int } else { 0 }) + 2
            &&& a.last() == BringUpAction::DriverOk
            &&& forall|k: int| 0 <= k < a.len() - 1 ==> #[trigger] a[k] != BringUpAction::DriverOk
            &&& forall|k: int|
                0 <= k < a.len() ==> (#[trigger] a[k] matches BringUpAction::ConfigVector(v) ==> v == NO_VECTOR)
            &&& forall|k: int| 0 <= k < a.len() ==> (#[trigger] a[k] matches BringUpAction::QueueVector(v) ==> v == NO_VECTOR)
            &&& forall|k: int|
                0 <= k < a.len() ==> (#[trigger] a[k] matches BringUpAction::EnableQueue(q) ==> k >= 2 && a[k - 1]
                    == BringUpAction::QueueVector(NO_VECTOR) && a[k - 2] == BringUpAction::SelectQueue(q))
            &&& forall|q: int|
                0 <= q < 2 * pairs ==> #[trigger] enable_step(q) < a.len() - 1 && a[enable_step(q)]
                    == BringUpAction::EnableQueue(q as u16)
            &&& ctrl ==> a[7 * pairs + 3] == BringUpAction::EnableQueue((2 * max_pairs) as u16)
        }),
{
    let a = bring_up_actions(ctrl, pairs, max_pairs);
    lemma_bring_up_layout(ctrl, pairs, max_pairs, a.len() - 1);
    assert forall|k: int| 0 <= k < a.len() implies {
        &&& (k < a.len() - 1 ==> #[trigger] a[k] != BringUpAction::DriverOk)
        &&& (a[k] matches BringUpAction::ConfigVector(v) ==> v == NO_VECTOR)
        &&& (a[k] matches BringUpAction::QueueVector(v) ==> v == NO_VECTOR)
        &&& (a[k] matches BringUpAction::EnableQueue(q) ==> k >= 2 && a[k - 1] == BringUpAction::QueueVector(
            NO_VECTOR,
        ) && a[k - 2] == BringUpAction::SelectQueue(q))
    } by {
        lemma_bring_up_step(ctrl, pairs, max_pairs, k);
    }
    assert forall|q: int| 0 <= q < 2 * pairs implies #[trigger] enable_step(q) < a.len() - 1 && a[enable_step(q)]
        == BringUpAction::EnableQueue(q as u16) by {
        lemma_enable_step(ctrl, pairs, max_pairs, q);
    }
    if ctrl {
        lemma_bring_up_layout(ctrl, pairs, max_pairs, 7 * pairs + 3);
    }
}

} // verus!
