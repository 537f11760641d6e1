//! Levels, scans, the stream's window, texts and what differs by system.

use framesw_companion::audio_tap::{start_audio_tap, AudioTaps};
use framesw_companion::metering::{
    attach_callback_enum_proc, louder, peak_of, post_fader_level, refresh_source_bus, shutdown,
    source_is_on_program, speaker_layout_to_channels, BusFault, CaptureCall, Emit, Forward, LevelBoard, Lifecycle,
    ObsAudioInfo, Rescan, RescanLoop, SourceBus, SILENCE_DB,
};
use framesw_companion::named::NameMap;
use framesw_companion::ndi::{
    asks_for_sender, candidate_paths, load_ndi, NdiCall, NdiFault, NdiSender, NdiSymbol, Platform,
};
use framesw_companion::obs_data::{build_levels_payload, release, PayloadCall, SourceLevel};
use framesw_companion::plan::{Plan, Step};
use framesw_companion::platform::{
    buffer_units, framesw_install_dir, is_text, module_count, read_hklm_sz, read_install_dir, value_text, RegCall,
    RegFault,
};
use framesw_companion::response::{Response, Value};
use framesw_companion::stream_probe::{
    bitrate, configured, read_bitrate, shutdown as stop_probe, stall_buckets, stream_output, BitrateCall,
    BitrateFault, ConfiguredCall, ConfiguredFault, Interval, OutputCall, OutputFault, StreamProbe, Tick,
};
use framesw_companion::text::{
    chars_of, copy_name, has_nul, join_names, or_empty, same_text, split_names, text5, text_from,
    trim_backslashes, until_nul,
};
use framesw_companion::vendor::{
    handle_mix_status, handle_pause_rescan, handle_rescan_now, handle_resume_rescan, handle_set_mix_sources,
    handle_start_audio_tap, handle_stop_audio_tap, handle_stop_mix_bus, handle_tap_status, obs_module_ver, requests,
    VENDOR,
};

/// Follows a plan: every call is answered yes but those in `no`.
fn follow<C: Copy + PartialEq, F: Copy>(mut plan: Plan<C, F>, no: &[C]) -> (Vec<C>, Option<F>) {
    let mut calls = Vec::new();
    loop {
        match plan.next() {
            Step::Call(call) => {
                calls.push(call);
                plan.answer(!no.contains(&call));
            }
            Step::Failed(fault) => return (calls, Some(fault)),
            Step::Done => return (calls, None),
        }
    }
}

fn shown(response: &Response) -> Vec<String> {
    (0..response.len())
        .map(|i| {
            let value = match response.value_at(i) {
                Value::Bool(b) => b.to_string(),
                Value::Int(n) => n.to_string(),
                Value::Text(s) => s.clone(),
                Value::Pairs(second, pairs) => format!("{} {:?}", second, pairs),
            };
            format!("{}={}", response.key_at(i), value)
        })
        .collect()
}

fn names(list: &[&str]) -> Vec<String> {
    list.iter().map(|name| name.to_string()).collect()
}

fn bits(samples: &[f32]) -> Vec<u32> {
    samples.iter().map(|s| s.to_bits()).collect()
}

#[test]
fn speaker_layouts_have_their_channels() {
    let channels: Vec<u32> = (0..=9).map(speaker_layout_to_channels).collect();
    assert_eq!(channels, vec![0, 1, 2, 3, 4, 5, 6, 0, 8, 0]);
}

#[test]
fn the_peak_is_the_largest_magnitude() {
    assert_eq!(f32::from_bits(peak_of(&bits(&[0.25, -0.75, 0.5]))), 0.75);
    assert_eq!(peak_of(&bits(&[0.0, -0.0])), 0);
    assert_eq!(peak_of(&[]), 0);
    assert_eq!(f32::from_bits(peak_of(&bits(&[f32::NAN, 0.5, -f32::NAN]))), 0.5);
    assert_eq!(f32::from_bits(peak_of(&bits(&[1.0, f32::NEG_INFINITY]))), f32::INFINITY);
    assert_eq!(f32::from_bits(louder(0.5f32.to_bits(), (-0.625f32).to_bits())), 0.625);
}

#[test]
fn program_wins_over_preview_in_either_order() {
    for order in [[true, false], [false, true]] {
        let mut bus = SourceBus::new();
        for is_program in order {
            bus.collect_bus_member(Some("shared"), is_program);
        }
        bus.collect_bus_member(Some("cued"), false);
        bus.collect_bus_member(None, true);
        assert!(source_is_on_program(&bus, "shared"));
        assert!(!source_is_on_program(&bus, "cued"));
        assert!(!source_is_on_program(&bus, "unknown"));
    }
}

#[test]
fn rebuilding_the_bus_walks_both_scenes() {
    let mut bus = SourceBus::new();
    bus.collect_bus_member(Some("old"), true);
    let mut plan = refresh_source_bus(&mut bus, true, Some("Main"), Some("Next"));
    assert!(!source_is_on_program(&bus, "old"));
    let mut calls = Vec::new();
    loop {
        match plan.next() {
            Step::Call(call) => {
                calls.push(format!("{:?}", call));
                plan.answer(true);
            }
            Step::Failed(_) => panic!("nothing was missing"),
            Step::Done => break,
        }
    }
    assert_eq!(
        calls,
        names(&["FindScene(\"Main\")", "Walk(true)", "Release", "FindScene(\"Next\")", "Walk(false)", "Release"])
    );
    let mut missing = refresh_source_bus(&mut bus, false, Some("Main"), None);
    assert!(matches!(missing.next(), Step::Failed(BusFault::SymbolMissing)));
    let mut gone = refresh_source_bus(&mut bus, true, Some("Ma\0in"), None);
    assert!(matches!(gone.next(), Step::Done));
}

/// The product of two samples, on their bits.
fn product(a: u32, b: u32) -> u32 {
    (f32::from_bits(a) * f32::from_bits(b)).to_bits()
}

/// A sample in decibels, on its bits.
fn decibels(scaled: u32) -> u32 {
    (20.0 * f32::from_bits(scaled).log10()).to_bits()
}

#[test]
fn a_level_is_taken_after_the_fader() {
    let level = |samples: &[f32], muted: bool, volume: f32| {
        f32::from_bits(post_fader_level(&bits(samples), muted, volume.to_bits(), &product, &decibels))
    };
    assert_eq!(level(&[0.1, -1.0, 0.5], false, 1.0), 0.0);
    assert_eq!(level(&[0.1, -1.0, 0.5], false, 10.0), 20.0);
    assert_eq!(level(&[0.1, -1.0, 0.5], true, 1.0), -100.0);
    assert_eq!(level(&[1.0], false, 0.0), -100.0);
    assert_eq!(level(&[1.0], false, -1.0), -100.0);
    assert_eq!(level(&[1.0], false, f32::NEG_INFINITY), -100.0);
    assert_eq!(level(&[0.0, -0.0], false, 1.0), -100.0);
    assert_eq!(level(&[0.0], false, -1.0), -100.0);
    assert!(level(&[1.0], false, f32::NAN).is_nan());
    assert!(level(&[1.0], false, -f32::NAN).is_nan());
    assert_eq!(level(&[f32::NAN], false, 1.0), -100.0);
    assert_eq!(level(&[1.0], false, f32::INFINITY), f32::INFINITY);
    assert_eq!(f32::from_bits(SILENCE_DB), -100.0);
}

#[test]
fn a_captured_block_sets_the_level_of_its_source() {
    let mut bus = SourceBus::new();
    bus.collect_bus_member(Some("mic"), true);
    let mut board = LevelBoard::new();
    let info = Some(ObsAudioInfo { samples_per_sec: 48000, speakers: 2 });
    let unity = 1.0f32.to_bits();
    let loud = bits(&[0.5, -1.0]);
    let quiet = bits(&[0.0625, 0.1]);
    let mut hear = |name: Option<&str>, plane: Option<&[u32]>, muted: bool, info: Option<ObsAudioInfo>| {
        board.audio_capture_callback(&bus, name, plane, muted, unity, info, &product, &decibels)
    };
    let heard = Some(Forward { sample_rate: 48000, channels: 2, volume: unity });
    assert_eq!(hear(Some("mic"), Some(&loud), false, info), heard);
    hear(Some("mic"), Some(&quiet), false, info);
    assert_eq!(hear(Some("pad"), Some(&loud), false, None), None);
    let silenced = Some(Forward { sample_rate: 48000, channels: 2, volume: 0 });
    assert_eq!(hear(Some("muted"), Some(&loud), true, info), silenced);
    // Nothing to measure, or nobody to name.
    assert_eq!(hear(Some("x"), Some(&[]), false, info), None);
    assert_eq!(hear(Some("x"), None, false, info), None);
    assert_eq!(hear(None, Some(&loud), false, info), None);
    let odd = Some(ObsAudioInfo { samples_per_sec: 48000, speakers: 7 });
    assert_eq!(hear(Some("pad"), Some(&loud), false, odd), None);
    match board.next_event(false, true) {
        Emit::Send(levels) => {
            let mut told: Vec<(String, u32, bool)> =
                levels.into_iter().map(|level| (level.name, level.peak_db, level.active)).collect();
            told.sort();
            assert_eq!(
                told,
                vec![
                    ("mic".to_string(), decibels(0.1f32.to_bits()), true),
                    ("muted".to_string(), SILENCE_DB, false),
                    ("pad".to_string(), 0, false),
                ]
            );
        }
        _ => panic!("three sources were heard"),
    }
    assert!(matches!(board.next_event(false, true), Emit::Nothing));
}

#[test]
fn levels_wait_for_somebody_to_tell() {
    let bus = SourceBus::new();
    let mut board = LevelBoard::new();
    let block = bits(&[0.5]);
    board.audio_capture_callback(&bus, Some("mic"), Some(&block), false, 0, None, &product, &decibels);
    assert!(matches!(board.next_event(false, false), Emit::Nothing));
    assert!(matches!(board.next_event(true, true), Emit::Stop));
}

#[test]
fn an_event_is_built_entry_by_entry() {
    let level = |name: &str, peak_db: u32, active: bool| SourceLevel { name: name.to_string(), peak_db, active };
    let calls = build_levels_payload(true, &vec![level("a", 5, true), level("b", 6, false)]).unwrap();
    assert_eq!(
        calls,
        vec![
            PayloadCall::CreateRoot,
            PayloadCall::CreateArray,
            PayloadCall::CreateEntry,
            PayloadCall::SetName(0),
            PayloadCall::SetPeak(5),
            PayloadCall::SetActive(true),
            PayloadCall::PushEntry,
            PayloadCall::ReleaseEntry,
            PayloadCall::CreateEntry,
            PayloadCall::SetName(1),
            PayloadCall::SetPeak(6),
            PayloadCall::SetActive(false),
            PayloadCall::PushEntry,
            PayloadCall::ReleaseEntry,
            PayloadCall::SetArray,
            PayloadCall::ReleaseArray,
        ]
    );
    assert!(build_levels_payload(false, &vec![]).is_none());
    assert!(release(true, true));
    assert!(!release(true, false));
    assert!(!release(false, true));
}

#[test]
fn a_scan_leaves_one_callback_on_each_source() {
    assert_eq!(attach_callback_enum_proc(true, true), vec![CaptureCall::Remove, CaptureCall::Add]);
    assert_eq!(attach_callback_enum_proc(false, true), vec![CaptureCall::Add]);
    assert_eq!(attach_callback_enum_proc(true, false), vec![CaptureCall::Remove]);
}

#[test]
fn scans_come_every_fifty_naps_and_stop_at_once() {
    let mut scan = RescanLoop::new();
    assert_eq!(scan.next(false, false), Rescan::Scan);
    for _ in 0..50 {
        assert_eq!(scan.next(false, false), Rescan::Nap);
    }
    assert_eq!(scan.next(false, false), Rescan::Scan);
    assert_eq!(scan.next(true, false), Rescan::Stop);
    let mut paused = RescanLoop::new();
    assert_eq!(paused.next(false, true), Rescan::Nap);
}

#[test]
fn shutting_down_hands_out_the_threads() {
    let mut life: Lifecycle<u32> = Lifecycle::new();
    life.keep_thread(1);
    life.keep_thread(2);
    assert_eq!(shown(&handle_pause_rescan(&mut life)), names(&["ok=true"]));
    assert!(life.is_paused());
    let (scan, answer) = handle_rescan_now(&life);
    assert!(!scan);
    assert_eq!(shown(&answer), names(&["ok=false", "error=rescan paused or shutting down"]));
    assert_eq!(shown(&handle_resume_rescan(&mut life)), names(&["ok=true"]));
    let (scan, answer) = handle_rescan_now(&life);
    assert!(scan);
    assert_eq!(shown(&answer), names(&["ok=true"]));
    assert!(!life.is_shutting_down());
    assert_eq!(shutdown(&mut life), vec![1, 2]);
    assert!(life.is_shutting_down());
    assert!(!handle_rescan_now(&life).0);
    assert_eq!(shutdown(&mut life), Vec::<u32>::new());
}

#[test]
fn requests_answer_for_taps() {
    let mut taps: AudioTaps<u32, u32, f32> = AudioTaps::new();
    assert_eq!(shown(&handle_tap_status(&taps, "solo")), names(&["ok=true", "active=false", "source_name="]));
    assert_eq!(shown(&handle_start_audio_tap(&mut taps, "mic", "solo", Some(1))), names(&["ok=true"]));
    assert_eq!(shown(&handle_tap_status(&taps, "solo")), names(&["ok=true", "active=true", "source_name=mic"]));
    assert_eq!(
        shown(&handle_start_audio_tap(&mut taps, "mic", "other", None)),
        names(&["ok=false", "error=NDI runtime unavailable — could not create sender 'FrameSW-Monitor-other'"])
    );
    assert_eq!(shown(&handle_stop_audio_tap(&mut taps, "solo")), names(&["ok=true"]));
    assert_eq!(shown(&handle_stop_audio_tap(&mut taps, "solo")), names(&["ok=true"]));
    assert_eq!(shown(&handle_tap_status(&taps, "solo"))[1], "active=false");
}

#[test]
fn what_a_mix_status_says_can_be_set_again() {
    let mut taps: AudioTaps<u32, u32, f32> = AudioTaps::new();
    assert_eq!(start_audio_tap(&mut taps, "mic", "mix", Some(1)), Ok(()));
    let set = handle_set_mix_sources(&mut taps, "mix", " one ,two,,one ", Some(2));
    assert_eq!(shown(&set), names(&["ok=true"]));
    let status = shown(&handle_mix_status(&taps, "mix"));
    assert_eq!(status[..2], names(&["ok=true", "active=true"])[..]);
    let list = status[2].strip_prefix("source_names=").unwrap().to_string();
    let mut told = split_names(&list);
    told.sort();
    assert_eq!(told, names(&["one", "two"]));
    handle_set_mix_sources(&mut taps, "again", &list, Some(3));
    let mut again = split_names(shown(&handle_mix_status(&taps, "again"))[2].strip_prefix("source_names=").unwrap());
    again.sort();
    assert_eq!(again, told);
    assert_eq!(shown(&handle_stop_mix_bus(&mut taps, "mix")), names(&["ok=true"]));
    assert_eq!(shown(&handle_mix_status(&taps, "mix")), names(&["ok=true", "active=false", "source_names="]));
}

#[test]
fn the_vendor_offers_its_requests() {
    assert_eq!(VENDOR, "framesw");
    assert_eq!(obs_module_ver(), 0x1e00_0000);
    let offered = requests();
    assert_eq!(offered.len(), 19);
    assert_eq!(offered[0], "start_audio_tap");
    assert_eq!(offered[18], "mix_status");
    let mut sorted = offered.clone();
    sorted.sort();
    sorted.dedup();
    assert_eq!(sorted.len(), 19);
}

#[test]
fn a_response_keeps_its_fields_in_order() {
    let mut response = Response::new();
    response.set_int("n", -3);
    response.set_string("s", "tab\there");
    response.set_pair_array("list", "kind", vec![("a".to_string(), "b".to_string())]);
    assert_eq!(shown(&response), names(&["n=-3", "s=tab\there", "list=kind [(\"a\", \"b\")]"]));
    assert_eq!(shown(&Response::report(&Ok(()))), names(&["ok=true"]));
    assert_eq!(shown(&Response::report(&Err("no".to_string()))), names(&["ok=false", "error=no"]));
}

#[test]
fn comma_lists_are_split_and_trimmed() {
    assert_eq!(split_names(" a , b,,  ,c d "), names(&["a", "b", "c d"]));
    assert_eq!(split_names(""), Vec::<String>::new());
    assert_eq!(split_names("\u{3000}wide\u{a0},x"), names(&["wide", "x"]));
    assert_eq!(join_names(&names(&["a", "b", "c"])), "a,b,c");
    assert_eq!(join_names(&vec![]), "");
    assert_eq!(split_names(&join_names(&names(&["x y", "z"]))), names(&["x y", "z"]));
}

#[test]
fn white_space_is_what_the_standard_library_trims() {
    for code in 0..=0xffffu32 {
        let c = match char::from_u32(code) {
            Some(',') | None => continue,
            Some(c) => c,
        };
        let text = format!("{}x{}", c, c);
        assert_eq!(split_names(&text), vec![text.trim().to_string()], "{:x}", code);
    }
}

#[test]
fn texts_are_put_together_and_taken_apart() {
    assert_eq!(text5("a", "é", "", "-", "z"), "aé-z");
    assert_eq!(chars_of("añb"), vec!['a', 'ñ', 'b']);
    assert_eq!(text_from(&chars_of("añbc"), 1, 3), "ñb");
    assert_eq!(until_nul("ab\0cd"), "ab");
    assert_eq!(until_nul("abc"), "abc");
    assert!(has_nul("a\0"));
    assert!(!has_nul("a"));
    assert_eq!(trim_backslashes("C:\\x\\\\"), "C:\\x");
    assert_eq!(trim_backslashes("\\\\"), "");
    assert!(same_text("ab", "ab") && !same_text("ab", "abc"));
    assert_eq!(copy_name(&Some("a".to_string())), Some("a".to_string()));
    assert_eq!(or_empty(None), "");
}

#[test]
fn names_are_kept_once() {
    let mut map: NameMap<u32> = NameMap::new();
    map.set("a", 1);
    map.set("b", 2);
    map.set("a", 3);
    assert_eq!(map.len(), 2);
    assert_eq!(map.get("a"), Some(&3));
    assert_eq!(map.take("a"), Some(3));
    assert_eq!(map.take("a"), None);
    assert!(map.contains("b") && !map.contains("a"));
    assert_eq!((map.name_at(0).as_str(), map.value_at(0)), ("b", &2));
    assert_eq!(map.drain(), vec![("b".to_string(), 2)]);
    assert_eq!(map.len(), 0);
}

#[test]
fn an_install_location_is_read_as_utf16() {
    let utf16 = |text: &str| text.encode_utf16().collect::<Vec<u16>>();
    assert_eq!(value_text(&utf16("C:\\Frame\\")), Some("C:\\Frame".to_string()));
    assert_eq!(value_text(&utf16("D:\\é😀\0rest")), Some("D:\\é😀".to_string()));
    assert_eq!(value_text(&utf16("\\\\\0")), None);
    assert_eq!(value_text(&vec![]), None);
    // Halves of pairs.
    assert_eq!(value_text(&vec![0x61, 0xd800, 0x62, 0xdc00]), Some("a\u{fffd}b\u{fffd}".to_string()));
    assert_eq!(value_text(&vec![0xd83d, 0xd83d, 0xde00]), Some("\u{fffd}😀".to_string()));
    assert_eq!(value_text(&vec![0xdbff, 0xdfff]), Some("\u{10ffff}".to_string()));
    assert_eq!(value_text(&vec![0xe000, 0xd7ff]), Some("\u{e000}\u{d7ff}".to_string()));
    let units = utf16("x😀\u{fffd}ß");
    assert_eq!(value_text(&units), Some(String::from_utf16_lossy(&units)));
    assert_eq!(framesw_install_dir(Some("C:\\F".to_string())), Some("C:\\F".to_string()));
    assert_eq!(framesw_install_dir(None), None);
}

#[test]
fn utf16_is_read_as_the_standard_library_reads_it() {
    let pool: [u16; 8] = [0x41, 0xd7ff, 0xd800, 0xdbff, 0xdc00, 0xdfff, 0xe000, 0xffff];
    for n in 0..8usize.pow(4) {
        let units: Vec<u16> = (0..4u32).map(|i| pool[n / 8usize.pow(i) % 8]).collect();
        assert_eq!(value_text(&units), Some(String::from_utf16_lossy(&units)));
    }
}

#[test]
fn a_registry_key_that_was_opened_is_closed() {
    let reading = || read_hklm_sz("Software\\Shop", "Path");
    let (open, size) = (RegCall::OpenKey("Software\\Shop"), RegCall::QuerySize("Path"));
    let (read, close) = (RegCall::ReadValue("Path"), RegCall::CloseKey);
    assert_eq!(follow(reading(), &[]), (vec![open, size, read, close], None));
    assert_eq!(follow(reading(), &[open]), (vec![open], Some(RegFault::NoKey)));
    assert_eq!(follow(reading(), &[size]), (vec![open, size, close], Some(RegFault::NoValue)));
    assert_eq!(follow(reading(), &[read]), (vec![open, size, read, close], Some(RegFault::NotRead)));
    assert_eq!(
        follow(read_install_dir(), &[]).0,
        vec![
            RegCall::OpenKey("Software\\Microsoft\\Windows\\CurrentVersion\\Uninstall\\FrameSW"),
            RegCall::QuerySize("InstallLocation"),
            RegCall::ReadValue("InstallLocation"),
            RegCall::CloseKey,
        ]
    );
    assert!(is_text(0, 1, 8));
    assert!(!is_text(2, 1, 8));
    assert!(!is_text(0, 4, 8));
    assert!(!is_text(0, 1, 0));
    assert_eq!(buffer_units(8), 4);
    assert_eq!(buffer_units(7), 4);
}

#[test]
fn no_more_modules_are_searched_than_fit() {
    assert_eq!(module_count(80, 8), 10);
    assert_eq!(module_count(7, 8), 0);
    assert_eq!(module_count(80_000, 8), 1024);
}

#[test]
fn the_ndi_runtime_is_looked_for_where_it_says_first() {
    assert_eq!(
        candidate_paths(Platform::MacOs, Some("/opt/ndi")),
        names(&["/opt/ndi/libndi.dylib", "/usr/local/lib/libndi.dylib", "libndi.dylib"])
    );
    assert_eq!(
        candidate_paths(Platform::Windows, Some("C:\\N")),
        names(&[
            "C:\\N\\Processing.NDI.Lib.x64.dll",
            "C:\\Program Files\\NDI\\NDI 6 Runtime\\v6\\Processing.NDI.Lib.x64.dll",
            "Processing.NDI.Lib.x64.dll"
        ])
    );
    assert_eq!(candidate_paths(Platform::MacOs, None).len(), 2);
    assert!(candidate_paths(Platform::Other, Some("/x")).is_empty());
}

#[test]
fn the_ndi_runtime_starts_only_with_all_its_symbols() {
    let all = [NdiSymbol::Initialize, NdiSymbol::SendCreate, NdiSymbol::SendDestroy, NdiSymbol::SendAudio];
    let (calls, fault) = follow(load_ndi(true), &[]);
    assert_eq!(fault, None);
    assert_eq!(calls.last(), Some(&NdiCall::Initialize));
    for symbol in all {
        assert!(calls.contains(&NdiCall::Resolve(symbol)));
        let (tried, fault) = follow(load_ndi(true), &[NdiCall::Resolve(symbol)]);
        assert_eq!(fault, Some(NdiFault::SymbolMissing));
        assert!(!tried.contains(&NdiCall::Initialize));
    }
    assert_eq!(follow(load_ndi(false), &[]), (vec![], Some(NdiFault::NotFound)));
    assert_eq!(follow(load_ndi(true), &[NdiCall::Initialize]).1, Some(NdiFault::NotInitialized));
    assert_eq!(NdiSymbol::SendAudio.name(), "NDIlib_send_send_audio_v2");
}

#[test]
fn a_sender_that_cannot_be_made_says_why() {
    let why = |loaded, name: &str, created: Option<u32>| match NdiSender::new(loaded, name, created) {
        Ok(_) => panic!("a sender was made"),
        Err(e) => e,
    };
    assert!(asks_for_sender(true, "a") && !asks_for_sender(false, "a") && !asks_for_sender(true, "a\0"));
    assert_eq!(why(false, "a", None), "NDI runtime not loaded/initialized");
    assert_eq!(why(true, "a\0b", None), "sender name 'a\0b' contains an embedded NUL");
    assert!(why(true, "a", None).starts_with("NDIlib_send_create('a') returned null ("));
    let sender = match NdiSender::new(true, "a", Some(7u32)) {
        Ok(sender) => sender,
        Err(e) => panic!("{}", e),
    };
    assert_eq!(sender.instance(), &7);
    let frame = sender.send_audio(true, 48000, 2, 480).unwrap();
    assert_eq!((frame.sample_rate, frame.no_channels, frame.no_samples), (48000, 2, 480));
    assert_eq!(frame.channel_stride_in_bytes, 1920);
    assert!(sender.send_audio(false, 48000, 2, 480).is_none());
}

fn tick(ms: u64, bytes: u64) -> Tick {
    Tick { at: ms * 1_000_000, bytes, dropped: ms as i32 / 100, total: ms as i32, congestion: 0 }
}

#[test]
fn a_window_reduces_to_its_intervals() {
    let mut probe = StreamProbe::new();
    assert!(!probe.sample(0, Some(tick(0, 0))));
    assert!(probe.quality().is_none());
    let run = probe.start().unwrap();
    assert_eq!(probe.start(), None);
    for (ms, bytes) in [(100, 1000), (200, 3000), (200, 3500), (300, 3400), (400, 3400), (500, 9000)] {
        assert!(probe.sample(run, Some(tick(ms, bytes))));
    }
    let reduced = probe.quality().unwrap();
    assert_eq!(
        reduced.intervals,
        vec![
            Interval { bytes: 2000, nanos: 100_000_000 },
            Interval { bytes: 0, nanos: 100_000_000 },
            Interval { bytes: 0, nanos: 100_000_000 },
            Interval { bytes: 5600, nanos: 100_000_000 },
        ]
    );
    assert_eq!((reduced.stalls, reduced.buckets), (2, 4));
    assert_eq!((reduced.dropped_delta, reduced.total_delta), (4, 400));
    assert_eq!(reduced.congestion.len(), 6);
    assert!(stop_probe(&mut probe));
    assert!(!stop_probe(&mut probe));
    assert!(probe.quality().is_none());
}

#[test]
fn a_run_that_is_over_records_nothing() {
    let mut probe = StreamProbe::new();
    let first = probe.start().unwrap();
    for n in 1..5u64 {
        assert!(probe.sample(first, Some(tick(n * 100, n))));
    }
    stop_probe(&mut probe);
    for n in 5..9u64 {
        assert!(!probe.sample(first, Some(tick(n * 100, n))));
    }
    assert!(probe.quality().is_none());
    let second = probe.start().unwrap();
    assert_ne!(first, second);
    // A thread that has not noticed yet does not get into the new window.
    for n in 9..13u64 {
        assert!(!probe.sample(first, Some(tick(n * 100, n))));
    }
    assert!(probe.quality().is_none());
    for n in 13..16u64 {
        assert!(probe.sample(second, Some(tick(n * 100, n))));
    }
    // Nor does it empty that window.
    assert!(!probe.sample(first, None));
    assert_eq!(probe.quality().unwrap().congestion.len(), 3);
}

#[test]
fn a_window_holds_two_seconds_of_one_stream() {
    let mut probe = StreamProbe::new();
    let run = probe.start().unwrap();
    for n in 0..40u64 {
        probe.sample(run, Some(tick(n * 100, n)));
    }
    assert_eq!(probe.quality().unwrap().congestion.len(), 21);
    // Nothing is streaming any more.
    assert!(probe.sample(run, None));
    assert!(probe.quality().is_none());
    probe.sample(run, Some(tick(5000, 1)));
    probe.sample(run, Some(tick(5100, 2)));
    assert!(probe.quality().is_none());
}

#[test]
fn only_runs_of_gaps_are_stalls() {
    assert_eq!(stall_buckets(&[false, false, true, false, false, false]), 0);
    assert_eq!(stall_buckets(&[false, true, false, true, false, true, false, true]), 0);
    assert_eq!(stall_buckets(&[false, false, true, true, true, true, false, false]), 4);
    assert_eq!(stall_buckets(&[true, true, false, true, true, true]), 5);
    assert_eq!(stall_buckets(&[]), 0);
}

#[test]
fn the_stream_output_has_one_of_two_names() {
    assert_eq!(follow(stream_output(true), &[]).0, vec![OutputCall::FindSimple]);
    assert_eq!(
        follow(stream_output(true), &[OutputCall::FindSimple]).0,
        vec![OutputCall::FindSimple, OutputCall::FindAdvanced]
    );
    assert_eq!(follow(stream_output(false), &[]), (vec![], Some(OutputFault::SymbolMissing)));
}

#[test]
fn a_configured_bitrate_is_read_and_its_settings_released() {
    assert_eq!(follow(read_bitrate(true, true), &[]), (vec![BitrateCall::GetSettings, BitrateCall::ReadBitrate, BitrateCall::ReleaseSettings], None));
    assert_eq!(follow(read_bitrate(false, true), &[]), (vec![], Some(BitrateFault::SymbolMissing)));
    // Settings that could not be read are not taken.
    assert_eq!(follow(read_bitrate(true, false), &[]), (vec![], Some(BitrateFault::SymbolMissing)));
    assert_eq!(follow(read_bitrate(true, true), &[BitrateCall::GetSettings]), (vec![BitrateCall::GetSettings], Some(BitrateFault::NoSettings)));
    assert_eq!(bitrate(6000), Some(6000));
    assert_eq!(bitrate(0), None);
    assert_eq!(bitrate(-1), None);
    let (calls, fault) = follow(configured(), &[]);
    assert_eq!(fault, None);
    assert_eq!(calls.first(), Some(&ConfiguredCall::FindOutput));
    assert_eq!(calls.last(), Some(&ConfiguredCall::ReleaseOutput));
    let (calls, fault) = follow(configured(), &[ConfiguredCall::FindOutput]);
    assert_eq!((calls, fault), (vec![ConfiguredCall::FindOutput], Some(ConfiguredFault::NoOutput)));
    let (calls, _) = follow(configured(), &[ConfiguredCall::GetVideoEncoder]);
    assert!(!calls.contains(&ConfiguredCall::ReadVideoBitrate));
    assert!(!calls.contains(&ConfiguredCall::ReadEncoderId));
    assert!(calls.contains(&ConfiguredCall::ReadAudioBitrate));
}
