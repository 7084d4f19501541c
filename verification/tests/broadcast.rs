use rusty_grad::tensor::{get_broadcast_directions, BroadcastDir};

#[test]
fn test_broadcasting_1() {
    let shape_l: Vec<usize> = vec![1, 2, 3];
    let shape_r: Vec<usize> = vec![1, 2, 3];
    let expected = vec![
        BroadcastDir::UnNeeded,
        BroadcastDir::UnNeeded,
        BroadcastDir::UnNeeded,
    ];
    let out = get_broadcast_directions(shape_l, shape_r);
    assert_eq!(out.unwrap(), expected);
}

#[test]
fn test_broadcasting_2() {
    let shape_l: Vec<usize> = vec![1, 2, 3];
    let shape_r: Vec<usize> = vec![2, 3];
    assert!(get_broadcast_directions(shape_l, shape_r).is_some())
}

#[test]
fn test_broadcasting_3() {
    let shape_l: Vec<usize> = vec![1, 2, 3];
    let shape_r: Vec<usize> = vec![2, 4];
    assert!(get_broadcast_directions(shape_l, shape_r).is_none())
}

#[test]
fn test_broadcasting_4() {
    let shape_l: Vec<usize> = vec![1, 2, 3];
    let shape_r: Vec<usize> = vec![1, 2, 3];
    assert!(get_broadcast_directions(shape_l, shape_r).is_some())
}

#[test]
fn test_broadcasting_5() {
    let shape_l: Vec<usize> = vec![1, 2, 1];
    let shape_r: Vec<usize> = vec![1, 1, 3];
    let expected = vec![
        BroadcastDir::UnNeeded,
        BroadcastDir::RTL, // right broadcasts to left
        BroadcastDir::LTR, // left broadcasts to right
    ];

    let result = get_broadcast_directions(shape_l, shape_r);
    assert_eq!(result.unwrap(), expected);
}

#[test]
fn test_broadcasting_6() {
    let shape_l: Vec<usize> = vec![2, 1, 2, 1];
    let shape_r: Vec<usize> = vec![1, 1, 3];
    let expected = vec![
        BroadcastDir::RTL,
        BroadcastDir::UnNeeded,
        BroadcastDir::RTL,
        BroadcastDir::LTR,
    ];

    let result = get_broadcast_directions(shape_l, shape_r);
    assert_eq!(result.unwrap(), expected)
}
