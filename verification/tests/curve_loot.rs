use kinetic_control::value_near;
use kinetic_control::LootTree;
use kinetic_control::LootTreeBuilder;
use kinetic_control::LootTreeNode;
use kinetic_control::StepCurve;
use kinetic_control::TimedDestroySystem;
use kinetic_control::DestroyAtTime;
use kinetic_control::DestroyInTime;

#[test]
fn step_curve_lower_bound_wins() {
    let curve = StepCurve { pieces: vec![(0, 10u32), (5, 20u32)] };
    assert_eq!(curve.eval(-1), None);
    assert_eq!(curve.eval(0), Some(&10));
    assert_eq!(curve.eval(4), Some(&10));
    assert_eq!(curve.eval(5), Some(&20));
    assert_eq!(curve.eval(100), Some(&20));
}

#[test]
fn step_curve_negative_domain() {
    let curve = StepCurve { pieces: vec![(-1000, 1500i64), (0, 2000i64)] };
    assert_eq!(curve.eval(-200), Some(&1500));
    assert_eq!(curve.eval(-1001), None);
    assert_eq!(curve.eval(0), Some(&2000));
}

#[test]
fn step_curve_later_piece_wins_ties() {
    // a zero-width piece is unreachable: its successor takes its threshold
    let curve = StepCurve { pieces: vec![(0, 1u32), (5, 2u32), (5, 3u32)] };
    assert_eq!(curve.eval(5), Some(&3));
    assert_eq!(curve.eval(4), Some(&1));
}

#[test]
fn loot_tree_ranges() {
    // chances 5 and 2: rolls 0 through 4 give the first item, 5 and 6 the
    // second, and the die has 7 sides
    let tree: LootTree<u32> = LootTreeBuilder {
        nodes: vec![
            LootTreeNode { chances: 5, result: 1u32 },
            LootTreeNode { chances: 2, result: 2u32 },
        ],
    }
    .build();
    assert_eq!(tree.max, 7);
    assert_eq!(tree.partial_func.eval(0), Some(&1));
    assert_eq!(tree.partial_func.eval(4), Some(&1));
    assert_eq!(tree.partial_func.eval(5), Some(&2));
    assert_eq!(tree.partial_func.eval(6), Some(&2));
}

#[test]
fn loot_tree_roll_yields_some_item() {
    let tree: LootTree<u32> = LootTreeBuilder {
        nodes: vec![
            LootTreeNode { chances: 5, result: 1u32 },
            LootTreeNode { chances: 2, result: 2u32 },
        ],
    }
    .build();
    for _ in 0..50 {
        let rolled = tree.roll().unwrap();
        assert!(rolled == 1 || rolled == 2);
    }
}

#[test]
fn loot_tree_single_node_always_rolls_it() {
    let tree: LootTree<u32> =
        LootTreeBuilder { nodes: vec![LootTreeNode { chances: 3, result: 9u32 }] }.build();
    for _ in 0..20 {
        assert_eq!(tree.roll(), Some(9));
    }
}

#[test]
fn loot_tree_empty_rolls_nothing() {
    let tree: LootTree<u32> = LootTreeBuilder::new().build();
    assert_eq!(tree.max, 0);
    assert_eq!(tree.roll(), None);
}

#[test]
fn value_near_brackets_target() {
    assert!(value_near(10, 12, 3));
    assert!(value_near(10, 10, 0));
    assert!(value_near(-10, -12, 3));
    assert!(!value_near(10, 14, 3));
    assert!(!value_near(10, 6, 3));
}

#[test]
fn timed_destroy_flags_expired() {
    let system = TimedDestroySystem;
    let rows = vec![DestroyAtTime { time: 500 }, DestroyAtTime { time: 1500 }];
    let flags = system.run_at(&rows, 1000);
    assert_eq!(flags, vec![true, false]);
}

#[test]
fn timed_destroy_counts_down() {
    let system = TimedDestroySystem;
    let mut rows = vec![DestroyInTime { timer: 50 }, DestroyInTime { timer: -1 }];
    let flags = system.run_in(&mut rows, 100);
    // the expired timer is flagged before this tick's time comes off
    assert_eq!(flags, vec![false, true]);
    assert_eq!(rows[0].timer, -50);
    assert_eq!(rows[1].timer, -101);
    let flags2 = system.run_in(&mut rows, 100);
    assert_eq!(flags2, vec![true, true]);
}
