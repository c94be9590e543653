use sidecar_engine::batch::{
    batch_board_size, prepare_batch, split_batch_outputs, BatchInput, FeaturizedItem,
    InferenceResult,
};

fn seq(n: u32) -> Vec<u32> {
    (0..n).collect()
}

fn result(policy: u32, value: u32, misc: u32, own: Option<u32>, dims: Vec<usize>) -> InferenceResult {
    InferenceResult {
        policy: seq(policy),
        value: seq(value),
        miscvalue: seq(misc),
        ownership: own.map(seq),
        policy_dims: dims,
    }
}

#[test]
fn empty_batch_needs_no_call() {
    assert!(prepare_batch(&vec![]).is_none());
    let none: Vec<BatchInput<()>> = vec![];
    assert_eq!(batch_board_size(&none), None);
}

#[test]
fn batch_inputs_concatenate_in_order() {
    let items = vec![
        FeaturizedItem { bin_input: vec![1, 2], global_input: vec![10] },
        FeaturizedItem { bin_input: vec![3, 4], global_input: vec![20] },
        FeaturizedItem { bin_input: vec![5, 6], global_input: vec![30] },
    ];
    let req = prepare_batch(&items).unwrap();
    assert_eq!(req.batch_size, 3);
    assert_eq!(req.bin_input, vec![1, 2, 3, 4, 5, 6]);
    assert_eq!(req.global_input, vec![10, 20, 30]);
}

#[test]
fn board_size_of_first_position() {
    let inputs = vec![
        BatchInput { sign_map: vec![vec![0i8; 9]; 9], options: () },
        BatchInput { sign_map: vec![vec![0i8; 9]; 9], options: () },
    ];
    assert_eq!(batch_board_size(&inputs), Some(9));
}

#[test]
fn ownership_per_item_is_board_area() {
    let r = result(3 * 10, 9, 30, Some(3 * 4), vec![3, 10]);
    let items = split_batch_outputs(&r, 3, 2);
    assert_eq!(items.len(), 3);
    for (b, item) in items.iter().enumerate() {
        let own = item.ownership.as_ref().unwrap();
        assert_eq!(own.len(), 4);
        assert_eq!(own[0], (b * 4) as u32);
        assert_eq!(item.policy.len(), 10);
        assert_eq!(item.policy_dims, vec![1, 10]);
    }
}

#[test]
fn ownership_absent_stays_absent() {
    let items = split_batch_outputs(&result(8, 6, 20, None, vec![]), 2, 19);
    assert_eq!(items.len(), 2);
    assert!(items.iter().all(|i| i.ownership.is_none()));
    // No declared shape: the policy is split evenly.
    assert_eq!(items[1].policy, vec![4, 5, 6, 7]);
    assert_eq!(items[1].policy_dims, vec![1, 4]);
}

#[test]
fn undersized_buffers_are_clamped() {
    // Declared 2 x 361 policy, but only 100 elements came back.
    let r = result(100, 4, 7, Some(300), vec![2, 361]);
    let items = split_batch_outputs(&r, 2, 19);
    assert_eq!(items.len(), 2);
    assert_eq!(items[0].policy, seq(100));
    assert!(items[1].policy.is_empty());
    assert_eq!(items[0].value, vec![0, 1, 2]);
    assert_eq!(items[1].value, vec![3]);
    // 7 < 2 * 10: miscvalue split evenly, 3 per item.
    assert_eq!(items[0].miscvalue, vec![0, 1, 2]);
    assert_eq!(items[1].miscvalue, vec![3, 4, 5]);
    assert_eq!(items[0].ownership.as_ref().unwrap().len(), 300);
    assert!(items[1].ownership.as_ref().unwrap().is_empty());
    assert_eq!(items[1].policy_dims, vec![1, 361]);
}

#[test]
fn huge_declared_dims_do_not_fault() {
    let r = result(50, 3, 10, None, vec![4, usize::MAX, 3]);
    let items = split_batch_outputs(&r, 4, 19);
    assert_eq!(items.len(), 4);
    assert_eq!(items[0].policy.len(), 50);
    assert!(items[3].policy.is_empty());
    assert_eq!(items[2].policy_dims, vec![1, usize::MAX, 3]);
    // A zero dimension gives empty policy fragments.
    let items = split_batch_outputs(&result(50, 3, 10, None, vec![2, 0, 7]), 2, 19);
    assert!(items[0].policy.is_empty() && items[1].policy.is_empty());
}

#[test]
fn miscvalue_fixed_width_when_large_enough() {
    let items = split_batch_outputs(&result(2, 6, 25, None, vec![]), 2, 19);
    assert_eq!(items[0].miscvalue, (0..10).collect::<Vec<u32>>());
    assert_eq!(items[1].miscvalue, (10..20).collect::<Vec<u32>>());
}
