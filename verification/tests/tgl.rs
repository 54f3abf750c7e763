use webgame::audio::{AudioRequest, Music, Sound};
use webgame::tgl::{Align, Baseline, Graphics, Layer, ALIGN_COUNT, BASELINE_COUNT};

#[test]
fn layer_size_is_three() {
    assert_eq!(Layer::size(), 3);
}

#[test]
fn layer_indices_are_distinct_and_in_range() {
    let all = [Layer::Floor, Layer::Middle, Layer::Ceil];
    let idx: Vec<u32> = all.iter().map(|l| l.index()).collect();
    assert_eq!(idx, vec![0, 1, 2]);
    assert!(idx.iter().all(|&i| (i as usize) < Layer::size()));
}

#[test]
fn align_codes() {
    let all = [Align::Start, Align::End, Align::Left, Align::Right, Align::Center];
    let idx: Vec<u32> = all.iter().map(|a| a.index()).collect();
    assert_eq!(idx, vec![0, 1, 2, 3, 4]);
    assert!(idx.iter().all(|&i| i < ALIGN_COUNT));
}

#[test]
fn baseline_codes() {
    let all = [
        Baseline::Top,
        Baseline::Hanging,
        Baseline::Middle,
        Baseline::Alphabetic,
        Baseline::Ideographic,
        Baseline::Bottom,
    ];
    let idx: Vec<u32> = all.iter().map(|b| b.index()).collect();
    assert_eq!(idx, vec![0, 1, 2, 3, 4, 5]);
    assert!(idx.iter().all(|&i| i < BASELINE_COUNT));
}

#[test]
fn graphics_initialize() {
    let _g: Graphics = Graphics::initialize();
}

#[test]
fn sound_play_request() {
    assert_eq!(Sound { id: 4 }.play(), AudioRequest::PlaySound(4));
    assert_eq!(Sound { id: 0 }.play(), AudioRequest::PlaySound(0));
}

#[test]
fn music_play_request() {
    assert_eq!(Music { id: 2 }.play(), AudioRequest::PlayMusic(2));
    assert_ne!(Music { id: 2 }.play(), Sound { id: 2 }.play());
}
