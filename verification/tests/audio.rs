//! Audio taps, mix buses and the arithmetic between them.

use std::cell::Cell;
use std::collections::HashSet;

use framesw_companion::audio_mix::{build_scaled_planar_buffer, sum_contributions};
use framesw_companion::audio_tap::{
    decide_start, flush_mix, forward_if_tapped, mix_bus_sources, mix_handle, prepare_audio_tap, prepare_mix_bus,
    set_mix_sources, start_audio_tap, stop_all, stop_audio_tap, stop_mix_bus, tap_sender, tap_status, AudioTaps,
    Flush, StartDecision,
};

type Taps = AudioTaps<u32, u32, f32>;

fn names(list: &[&str]) -> Vec<String> {
    list.iter().map(|name| name.to_string()).collect()
}

fn forward(taps: &mut Taps, source: &str, left: &[f32], right: &[f32], volume: f32) -> Vec<(String, Vec<f32>)> {
    let frames = left.len() as i32;
    forward_if_tapped(taps, source, 48000, 2, frames, &[Some(left), Some(right)], 0.0, &|s: f32| s * volume)
}

fn plus(a: f32, b: f32) -> f32 {
    a + b
}

#[test]
fn decide_start_same_source_needs_nothing() {
    assert_eq!(decide_start(Some("shot-abc"), "shot-abc"), StartDecision::AlreadyCorrect);
}

#[test]
fn decide_start_different_source_repoints_in_place() {
    assert_eq!(decide_start(Some("shot-abc"), "shot-xyz"), StartDecision::Repoint);
}

#[test]
fn decide_start_no_existing_tap_needs_a_new_sender() {
    assert_eq!(decide_start(None, "shot-abc"), StartDecision::NeedsNewSender);
}

#[test]
fn stop_on_a_never_started_bus_is_a_safe_no_op() {
    let mut taps: Taps = AudioTaps::new();
    stop_audio_tap(&mut taps, "test-bus-never-started");
    assert_eq!(tap_status(&taps, "test-bus-never-started"), None);
}

#[test]
fn status_is_none_for_a_bus_that_was_never_started() {
    let taps: Taps = AudioTaps::new();
    assert_eq!(tap_status(&taps, "test-bus-untouched"), None);
}

#[test]
fn start_never_leaves_a_half_registered_entry() {
    // With a runtime that makes a sender, and with one that makes none.
    for made in [Some(7u32), None] {
        let mut taps: Taps = AudioTaps::new();
        let result = start_audio_tap(&mut taps, "shot-abc", "test-bus-lifecycle", made);
        match result {
            Ok(()) => {
                assert!(made.is_some());
                assert_eq!(tap_status(&taps, "test-bus-lifecycle"), Some("shot-abc".to_string()));
                stop_audio_tap(&mut taps, "test-bus-lifecycle");
            }
            Err(_) => {
                assert!(made.is_none());
                assert_eq!(tap_status(&taps, "test-bus-lifecycle"), None);
            }
        }
    }
}

#[test]
fn forward_with_no_active_taps_does_not_panic() {
    let mut taps: Taps = AudioTaps::new();
    let planes: [Option<&[f32]>; 2] = [None, None];
    let sent = forward_if_tapped(&mut taps, "shot-that-does-not-exist", 48000, 2, 480, &planes, 0.0, &|s: f32| s * 1.0);
    assert!(sent.is_empty());
}

#[test]
fn forward_real_audio_from_a_live_source_with_no_matching_tap_is_a_safe_no_op() {
    let left = vec![0.25f32; 480];
    let right = vec![-0.25f32; 480];
    let mut taps: Taps = AudioTaps::new();
    let planes: [Option<&[f32]>; 2] = [Some(&left), Some(&right)];
    let sent = forward_if_tapped(&mut taps, "shot-currently-live", 48000, 2, 480, &planes, 0.0, &|s: f32| s * 0.5);
    assert!(sent.is_empty());
}

#[test]
fn build_scaled_planar_buffer_applies_volume_to_every_sample() {
    let left = [1.0f32, 0.5, -1.0];
    let right = [0.2f32, -0.4, 0.6];
    let planes: [Option<&[f32]>; 2] = [Some(&left), Some(&right)];
    let buffer = build_scaled_planar_buffer(2, 3, &planes, 0.0, &|s: f32| s * 0.25);
    assert_eq!(buffer, vec![0.25, 0.125, -0.25, 0.05, -0.1, 0.15]);
}

#[test]
fn build_scaled_planar_buffer_skips_null_planes_without_panicking() {
    let left = [1.0f32, 1.0];
    let planes: [Option<&[f32]>; 2] = [Some(&left), None];
    let buffer = build_scaled_planar_buffer(2, 2, &planes, 0.0, &|s: f32| s * 1.0);
    assert_eq!(buffer, vec![1.0, 1.0, 0.0, 0.0]);
}

#[test]
fn sum_contributions_adds_sample_by_sample() {
    let a = vec![1.0f32, 0.5, -0.5];
    let b = vec![0.2f32, 0.2, 0.2];
    let mixed = sum_contributions(&vec![a, b], 0.0, &plus).expect("two real contributors");
    assert_eq!(mixed, vec![1.2, 0.7, -0.3]);
}

#[test]
fn sum_contributions_truncates_to_the_shortest_contributor() {
    let a = vec![1.0f32, 1.0, 1.0, 1.0];
    let b = vec![0.5f32, 0.5];
    let mixed = sum_contributions(&vec![a, b], 0.0, &plus).expect("still real contributors");
    assert_eq!(mixed, vec![1.5, 1.5]);
}

#[test]
fn sum_contributions_is_none_when_nothing_contributed() {
    assert_eq!(sum_contributions(&vec![], 0.0, &plus), None);
}

#[test]
fn sum_contributions_is_none_for_all_empty_contributors() {
    assert_eq!(sum_contributions(&vec![vec![], vec![]], 0.0, &plus), None);
}

#[test]
fn set_mix_sources_never_leaves_a_half_registered_entry() {
    for made in [Some(9u32), None] {
        let mut taps: Taps = AudioTaps::new();
        let names = vec!["shot-a".to_string(), "shot-b".to_string()];
        let result = set_mix_sources(&mut taps, "test-mix-bus-lifecycle", &names, made);
        match result {
            Ok(()) => {
                assert!(made.is_some());
                let sources: HashSet<String> =
                    mix_bus_sources(&taps, "test-mix-bus-lifecycle").unwrap().into_iter().collect();
                assert_eq!(sources, names.into_iter().collect());
                stop_mix_bus(&mut taps, "test-mix-bus-lifecycle");
                assert_eq!(mix_bus_sources(&taps, "test-mix-bus-lifecycle"), None);
            }
            Err(_) => {
                assert!(made.is_none());
                assert_eq!(mix_bus_sources(&taps, "test-mix-bus-lifecycle"), None);
            }
        }
    }
}

#[test]
fn mix_bus_sources_is_none_for_a_bus_that_was_never_started() {
    let taps: Taps = AudioTaps::new();
    assert_eq!(mix_bus_sources(&taps, "test-mix-bus-untouched"), None);
}

#[test]
fn stop_mix_bus_on_a_never_started_bus_is_a_safe_no_op() {
    let mut taps: Taps = AudioTaps::new();
    stop_mix_bus(&mut taps, "test-mix-bus-never-started");
    assert_eq!(mix_bus_sources(&taps, "test-mix-bus-never-started"), None);
}

#[test]
fn a_tap_is_made_once_and_then_repointed() {
    let mut taps: Taps = AudioTaps::new();
    assert_eq!(prepare_audio_tap(&mut taps, "solo"), Some("FrameSW-Monitor-solo".to_string()));
    assert_eq!(start_audio_tap(&mut taps, "one", "solo", Some(1)), Ok(()));
    // A bus that has a sender asks for none.
    assert_eq!(prepare_audio_tap(&mut taps, "solo"), None);
    assert_eq!(start_audio_tap(&mut taps, "two", "solo", None), Ok(()));
    assert_eq!(tap_status(&taps, "solo"), Some("two".to_string()));
    assert_eq!(tap_sender(&taps, "solo"), Some(&1));
    // The same source again changes nothing, not even for a sender offered.
    assert_eq!(start_audio_tap(&mut taps, "two", "solo", Some(5)), Ok(()));
    assert_eq!(tap_sender(&taps, "solo"), Some(&1));
}

#[test]
fn a_tap_without_a_sender_says_which_one_was_wanted() {
    let mut taps: Taps = AudioTaps::new();
    assert_eq!(
        start_audio_tap(&mut taps, "one", "cue", None),
        Err("NDI runtime unavailable — could not create sender 'FrameSW-Monitor-cue'".to_string())
    );
    assert_eq!(
        set_mix_sources(&mut taps, "cue", &names(&["one"]), None),
        Err("NDI runtime unavailable — could not create sender 'FrameSW-Monitor-cue'".to_string())
    );
}

#[test]
fn a_bus_is_a_tap_or_a_mix_and_never_both() {
    let mut taps: Taps = AudioTaps::new();
    assert_eq!(start_audio_tap(&mut taps, "one", "bus", Some(1)), Ok(()));
    assert_eq!(prepare_mix_bus(&mut taps, "bus"), Some("FrameSW-Monitor-bus".to_string()));
    assert_eq!(set_mix_sources(&mut taps, "bus", &names(&["one", "two"]), Some(2)), Ok(()));
    assert_eq!(tap_status(&taps, "bus"), None);
    assert_eq!(mix_handle(&taps, "bus"), Some(&2));
    assert_eq!(prepare_audio_tap(&mut taps, "bus"), Some("FrameSW-Monitor-bus".to_string()));
    assert_eq!(start_audio_tap(&mut taps, "one", "bus", Some(3)), Ok(()));
    assert_eq!(mix_bus_sources(&taps, "bus"), None);
    assert_eq!(tap_sender(&taps, "bus"), Some(&3));
}

#[test]
fn a_repeated_name_counts_once_and_the_bus_keeps_its_handle() {
    let mut taps: Taps = AudioTaps::new();
    assert_eq!(set_mix_sources(&mut taps, "bus", &names(&["one"]), Some(2)), Ok(()));
    assert_eq!(set_mix_sources(&mut taps, "bus", &names(&["two", "two"]), None), Ok(()));
    assert_eq!(mix_bus_sources(&taps, "bus"), Some(names(&["two"])));
    assert_eq!(mix_handle(&taps, "bus"), Some(&2));
}

#[test]
fn a_tapped_source_is_sent_to_every_bus_that_asks_for_it() {
    let mut taps: Taps = AudioTaps::new();
    assert_eq!(start_audio_tap(&mut taps, "shot", "a", Some(1)), Ok(()));
    assert_eq!(start_audio_tap(&mut taps, "other", "b", Some(2)), Ok(()));
    assert_eq!(start_audio_tap(&mut taps, "shot", "c", Some(3)), Ok(()));
    let sent = forward(&mut taps, "shot", &[1.0, 0.5], &[0.25, 0.0], 0.5);
    let mut buses: Vec<String> = sent.iter().map(|(bus, _)| bus.clone()).collect();
    buses.sort();
    assert_eq!(buses, names(&["a", "c"]));
    for (_, buffer) in &sent {
        assert_eq!(buffer, &vec![0.5, 0.25, 0.125, 0.0]);
    }
}

#[test]
fn a_mix_sums_what_its_sources_sent_and_then_waits() {
    let mut taps: Taps = AudioTaps::new();
    assert_eq!(set_mix_sources(&mut taps, "mix", &names(&["one", "two"]), Some(2)), Ok(()));
    assert!(matches!(flush_mix(&mut taps, "mix", 0.0, &plus), Flush::Idle));
    assert!(forward(&mut taps, "one", &[1.0, 0.5], &[0.25, 0.0], 1.0).is_empty());
    assert!(forward(&mut taps, "two", &[0.5, 0.5], &[0.5, 0.5], 0.5).is_empty());
    // A source outside the mix leaves it alone.
    assert!(forward(&mut taps, "three", &[9.0, 9.0], &[9.0, 9.0], 1.0).is_empty());
    match flush_mix(&mut taps, "mix", 0.0, &plus) {
        Flush::Send { sample_rate, channels, frames, samples } => {
            assert_eq!((sample_rate, channels, frames), (48000, 2, 2));
            assert_eq!(samples, vec![1.25, 0.75, 0.5, 0.25]);
        }
        _ => panic!("both sources had spoken"),
    }
    assert!(matches!(flush_mix(&mut taps, "mix", 0.0, &plus), Flush::Idle));
    stop_mix_bus(&mut taps, "mix");
    assert!(matches!(flush_mix(&mut taps, "mix", 0.0, &plus), Flush::Stopped));
}

#[test]
fn a_source_that_leaves_a_mix_is_not_heard_again() {
    let mut taps: Taps = AudioTaps::new();
    assert_eq!(set_mix_sources(&mut taps, "mix", &names(&["one", "two"]), Some(2)), Ok(()));
    forward(&mut taps, "one", &[1.0], &[1.0], 1.0);
    forward(&mut taps, "two", &[0.5], &[0.5], 1.0);
    assert_eq!(set_mix_sources(&mut taps, "mix", &names(&["two"]), None), Ok(()));
    match flush_mix(&mut taps, "mix", 0.0, &plus) {
        Flush::Send { samples, .. } => assert_eq!(samples, vec![0.5, 0.5]),
        _ => panic!("one source was left"),
    }
}

#[test]
fn a_mix_of_other_sources_scales_nothing() {
    let mut taps: Taps = AudioTaps::new();
    assert_eq!(set_mix_sources(&mut taps, "mix", &names(&["one"]), Some(1)), Ok(()));
    assert_eq!(set_mix_sources(&mut taps, "pair", &names(&["one", "two"]), Some(2)), Ok(()));
    let scaled = Cell::new(0);
    let scale = |s: f32| {
        scaled.set(scaled.get() + 1);
        s
    };
    let plane: &[f32] = &[0.5, 0.25];
    forward_if_tapped(&mut taps, "three", 48000, 1, 2, &[Some(plane)], 0.0, &scale);
    assert_eq!(scaled.get(), 0);
    forward_if_tapped(&mut taps, "two", 48000, 1, 2, &[Some(plane)], 0.0, &scale);
    assert_eq!(scaled.get(), 2);
    assert!(matches!(flush_mix(&mut taps, "mix", 0.0, &plus), Flush::Idle));
    assert!(matches!(flush_mix(&mut taps, "pair", 0.0, &plus), Flush::Send { frames: 2, .. }));
}

#[test]
fn packets_without_frames_or_channels_are_passed_over() {
    let mut taps: Taps = AudioTaps::new();
    assert_eq!(start_audio_tap(&mut taps, "shot", "a", Some(1)), Ok(()));
    let empty: [f32; 0] = [];
    assert!(forward(&mut taps, "shot", &empty, &empty, 1.0).is_empty());
    let sent = forward_if_tapped(&mut taps, "shot", 48000, 0, 10, &[], 0.0, &|s: f32| s);
    assert!(sent.is_empty());
}

#[test]
fn stopping_everything_leaves_no_tap_and_no_mix() {
    let mut taps: Taps = AudioTaps::new();
    assert_eq!(start_audio_tap(&mut taps, "one", "a", Some(1)), Ok(()));
    assert_eq!(set_mix_sources(&mut taps, "b", &names(&["one"]), Some(2)), Ok(()));
    stop_all(&mut taps);
    assert_eq!(tap_status(&taps, "a"), None);
    assert_eq!(mix_bus_sources(&taps, "b"), None);
}
