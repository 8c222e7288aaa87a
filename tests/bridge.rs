use cli_daw::bridge::sample_bridge;

#[test]
fn short_read_from_bridge_is_padded_with_silence() {
    let (mut tx, mut rx) = sample_bridge::<f32>(16);
    assert_eq!(tx.push_slice(&[0.5, -0.5, 0.25]), 3);
    let mut out = [9.0f32; 5];
    let n = rx.pop_into(&mut out, 0.0);
    assert_eq!(n, 3);
    assert_eq!(out, [0.5, -0.5, 0.25, 0.0, 0.0]);
}

#[test]
fn bridge_drops_what_does_not_fit() {
    let (mut tx, mut rx) = sample_bridge::<i32>(2);
    assert_eq!(tx.push_slice(&[1, 2, 3]), 2);
    let mut out = [7i32; 3];
    assert_eq!(rx.pop_into(&mut out, 0), 2);
    assert_eq!(out, [1, 2, 0]);
    assert_eq!(rx.pop_into(&mut out, 0), 0);
    assert_eq!(out, [0, 0, 0]);
}

#[test]
fn bridge_read_shorter_than_buffer() {
    let (mut tx, mut rx) = sample_bridge::<i32>(8);
    tx.push_slice(&[1, 2, 3, 4]);
    let mut out = [0i32; 2];
    assert_eq!(rx.pop_into(&mut out, 0), 2);
    assert_eq!(out, [1, 2]);
    assert_eq!(rx.pop_into(&mut out, 0), 2);
    assert_eq!(out, [3, 4]);
}
