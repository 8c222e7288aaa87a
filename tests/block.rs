use cli_daw::block::{fill_silence_from, play_block, spread_channels};

#[test]
fn short_read_is_followed_by_silence() {
    let mut out = [9.0f32; 6];
    let real = [0.5f32, -0.25];
    out[..2].copy_from_slice(&real);
    fill_silence_from(&mut out, real.len(), 0.0f32);
    assert_eq!(out, [0.5, -0.25, 0.0, 0.0, 0.0, 0.0]);
}

#[test]
fn full_read_keeps_everything() {
    let mut out = [1i32, 2, 3];
    fill_silence_from(&mut out, 3, 0);
    assert_eq!(out, [1, 2, 3]);
}

#[test]
fn mono_is_copied_to_every_channel() {
    let mono = [1i32, 2, 3];
    let mut out = [0i32; 6];
    spread_channels(&mono, 2, &mut out);
    assert_eq!(out, [1, 1, 2, 2, 3, 3]);
}

#[test]
fn partial_frame_is_left_alone() {
    let mono = [4i32, 5];
    let mut out = [9i32; 7];
    spread_channels(&mono, 3, &mut out);
    assert_eq!(out, [4, 4, 4, 5, 5, 5, 9]);
}

#[test]
fn playback_runs_into_silence() {
    let pcm = [1i32, 2, 3, 4, 5];
    let mut out = [7i32; 3];
    let p = play_block(&pcm, 0, &mut out, 0);
    assert_eq!((out, p), ([1, 2, 3], 3));
    let p = play_block(&pcm, p, &mut out, 0);
    assert_eq!((out, p), ([4, 5, 0], 5));
    let p = play_block(&pcm, p, &mut out, 0);
    assert_eq!((out, p), ([0, 0, 0], 5));
}
