use volcano::channel::{mirror_right_half, Channel, Pick};
use volcano::channel::Pick::{Mean, One};

fn apply<T: Copy>(plan: &[Pick], values: &[T], mean: fn(T, T) -> T) -> Vec<T> {
    plan.iter()
        .map(|p| match *p {
            Pick::One(i) => values[i],
            Pick::Mean(i, j) => mean(values[i], values[j]),
        })
        .collect()
}

fn mean_f64(a: f64, b: f64) -> f64 {
    (a + b) / 2.0
}

fn mean_u32(a: u32, b: u32) -> u32 {
    (a + b) / 2
}

#[test]
fn stereo_layout_keeps_left_and_mirrors_right() {
    // The stereo layout keeps the left half and mirrors the right half.
    let input = vec![2.0, 0.32, 0.1, 0.032, 0.01, 0.001];
    let plan = Channel::Stereo.plan(input.len());
    assert_eq!(apply(&plan, &input, mean_f64), vec![2.0, 0.32, 0.1, 0.001, 0.01, 0.032]);
    // The per-band levels of that input (max 10, threshold -60 dB) are
    // 10, 8, 7, 5, 3, 0; laid out in stereo they read:
    let per_band = vec![10u32, 8, 7, 5, 3, 0];
    assert_eq!(apply(&plan, &per_band, mean_u32), vec![10, 8, 7, 0, 3, 5]);
}

#[test]
fn plans_for_each_strategy() {
    assert_eq!(Channel::Left.plan(6), vec![One(0), One(1), One(2)]);
    assert_eq!(Channel::Right.plan(6), vec![One(3), One(4), One(5)]);
    assert_eq!(Channel::Average.plan(6), vec![Mean(0, 3), Mean(1, 4), Mean(2, 5)]);
    assert_eq!(
        Channel::Stereo.plan(6),
        vec![One(0), One(1), One(2), One(5), One(4), One(3)]
    );
}

#[test]
fn plans_for_odd_band_counts() {
    assert_eq!(Channel::Left.plan(5), vec![One(0), One(1)]);
    assert_eq!(Channel::Right.plan(5), vec![One(2), One(3), One(4)]);
    assert_eq!(Channel::Average.plan(5), vec![Mean(0, 2), Mean(1, 3)]);
    assert_eq!(Channel::Stereo.plan(5), vec![One(0), One(1), One(4), One(3), One(2)]);
    assert_eq!(Channel::Stereo.plan(0), vec![]);
}

#[test]
fn names_parse_back() {
    for c in [Channel::Average, Channel::Left, Channel::Right, Channel::Stereo] {
        assert_eq!(Channel::from_name(c.name()), c);
    }
    assert_eq!(Channel::Average.name(), "Average");
    assert_eq!(Channel::Stereo.name(), "Stereo");
}

#[test]
fn names_ignore_case_and_default_to_stereo() {
    assert_eq!(Channel::from_name("LEFT"), Channel::Left);
    assert_eq!(Channel::from_name("aVeRaGe"), Channel::Average);
    assert_eq!(Channel::from_name("right"), Channel::Right);
    assert_eq!(Channel::from_name("mono"), Channel::Stereo);
    assert_eq!(Channel::from_name(""), Channel::Stereo);
}

#[test]
fn analyser_bars_per_strategy() {
    assert_eq!(Channel::Stereo.analyser_bars(20), 20);
    assert_eq!(Channel::Left.analyser_bars(20), 40);
    assert_eq!(Channel::Right.analyser_bars(20), 40);
    assert_eq!(Channel::Average.analyser_bars(20), 40);
}

#[test]
fn channel_from_str() {
    assert_eq!(Channel::from("Left"), Channel::Left);
    assert_eq!(Channel::from("STEREO"), Channel::Stereo);
    assert_eq!(Channel::from("unknown"), Channel::Stereo);
}

#[test]
fn mirroring_in_place_matches_the_stereo_plan() {
    let mut even = vec![1, 2, 3, 4, 5, 6];
    mirror_right_half(&mut even);
    assert_eq!(even, vec![1, 2, 3, 6, 5, 4]);
    let mut odd = vec![1, 2, 3, 4, 5];
    mirror_right_half(&mut odd);
    assert_eq!(odd, vec![1, 2, 5, 4, 3]);
    let input = vec![2.0, 0.32, 0.1, 0.032, 0.01, 0.001];
    let mut buffer = input.clone();
    mirror_right_half(&mut buffer);
    let plan = Channel::Stereo.plan(input.len());
    assert_eq!(buffer, apply(&plan, &input, mean_f64));
}
