//! The requests that go through libobs call by call, and their answers.

use std::fmt::Debug;

use framesw_companion::config::{
    changes_renderer, handle_ndi_outputs, handle_projector_on_top, handle_renderer, ndi_outputs, projector_on_top,
    renderer, wanted_renderer, ConfigFault, ConfigSymbols, Switch,
};
use framesw_companion::group::{
    add_item_to_group, create_group, group_error, remove_item_from_group, set_group_locked, GroupFault, GroupSymbols,
};
use framesw_companion::input_probe::{
    copy_name, copy_settings, create_probe, emit_result, finish, handle_mono, handle_probe_input, is_device_kind,
    is_mono, mono_error, mono_on_ui_thread, probe_deadline, probe_error, probe_wait, probe_window, refuse_unready,
    requests, result_event, with_mono, CopyFault, MonoFault, ProbeFault, ProbeStats, ResultCall, Wait,
};
use framesw_companion::monitoring::{
    begin_monitoring, collect_monitoring_device, handle_monitoring_device, monitoring_device_on_ui_thread,
};
use framesw_companion::plan::{Plan, Step};
use framesw_companion::probe_table::{Probe, Probes};
use framesw_companion::profile::{
    begin_profile, current_profile_name, handle_ensure_profile, EnsureProfile, ProfileFault, ProfileStep,
};
use framesw_companion::response::{Response, Value};
use framesw_companion::role_tap::{
    attach_scene_audio_taps, frontend_scene_name, NameFault, RoleFault, RoleSymbols, RoleTap, SceneRoles,
};
use framesw_companion::scenes::{
    collect_video_output, create_scene, handle_create_scene, handle_get_current_scenes, handle_list_video_outputs,
    CurrentScenes, SceneFault,
};
use framesw_companion::showing::{
    handle_set_source_showing, refuse_unready as refuse_showing, show_error, wants_showing, ShowFault, Showing,
};
use framesw_companion::warm::{
    handle_warm_browser_engine, is_warm, warm_browser_engine, warm_settings, WarmFault, WARM_KIND,
};

/// Follows a plan: every call is answered yes but those whose text begins
/// with one of `no`.
fn follow<C: Copy + Debug, F: Copy>(mut plan: Plan<C, F>, no: &[&str]) -> (Vec<String>, Option<F>) {
    let mut calls = Vec::new();
    loop {
        match plan.next() {
            Step::Call(call) => {
                let text = format!("{:?}", call);
                plan.answer(!no.iter().any(|n| text.starts_with(n)));
                calls.push(text);
            }
            Step::Failed(fault) => return (calls, Some(fault)),
            Step::Done => return (calls, None),
        }
    }
}

fn shown(response: &Response) -> Vec<String> {
    (0..response.len())
        .map(|i| {
            let value = match response.value_at(i) {
                Value::Bool(b) => b.to_string(),
                Value::Int(n) => n.to_string(),
                Value::Text(s) => s.clone(),
                Value::Pairs(second, pairs) => format!("{} {:?}", second, pairs),
            };
            format!("{}={}", response.key_at(i), value)
        })
        .collect()
}

fn list(texts: &[&str]) -> Vec<String> {
    texts.iter().map(|text| text.to_string()).collect()
}

fn some(text: &str) -> Option<String> {
    Some(text.to_string())
}

fn refused(error: &str) -> Vec<String> {
    vec!["ok=false".to_string(), format!("error={}", error)]
}

fn group_symbols() -> GroupSymbols {
    GroupSymbols {
        scenes: true,
        add_group: true,
        find_source: true,
        add_item: true,
        remove_item: true,
        group_scene: true,
        set_locked: true,
    }
}

#[test]
fn a_group_is_created_in_its_scene() {
    let (calls, fault) = follow(create_group(group_symbols(), "Scene", "G"), &[]);
    assert_eq!(fault, None);
    assert_eq!(calls, list(&["FindSource(\"Scene\")", "SceneOfSource", "ReleaseSource", "AddGroup(\"G\")"]));
    // The source is released also where it is no scene.
    let (calls, fault) = follow(create_group(group_symbols(), "Scene", "G"), &["SceneOfSource"]);
    assert_eq!(fault, Some(GroupFault::NotAScene));
    assert_eq!(calls, list(&["FindSource(\"Scene\")", "SceneOfSource", "ReleaseSource"]));
    assert_eq!(follow(create_group(group_symbols(), "Scene", "G"), &["FindSource"]).1, Some(GroupFault::NoSource));
    assert_eq!(follow(create_group(group_symbols(), "Scene", "G"), &["AddGroup"]).1, Some(GroupFault::NotCreated));
    let without = GroupSymbols { scenes: false, ..group_symbols() };
    assert_eq!(follow(create_group(without, "Scene", "G"), &[]), (vec![], Some(GroupFault::SymbolMissing)));
    let without = GroupSymbols { add_group: false, ..group_symbols() };
    assert_eq!(follow(create_group(without, "Scene", "G"), &[]).1, Some(GroupFault::AddGroupMissing));
}

#[test]
fn items_join_and_leave_a_group() {
    let (calls, fault) = follow(add_item_to_group(group_symbols(), "Scene", "G", "cam"), &[]);
    assert_eq!(fault, None);
    assert_eq!(calls[3..], list(&["FindGroup(\"G\")", "FindItem(\"cam\")", "AddItem"])[..]);
    let add = |no: &str| follow(add_item_to_group(group_symbols(), "Scene", "G", "cam"), &[no]).1;
    assert_eq!(add("FindGroup"), Some(GroupFault::NoGroup));
    assert_eq!(add("FindItem("), Some(GroupFault::NoItem));
    let (calls, fault) = follow(remove_item_from_group(group_symbols(), "Scene", "G", "cam"), &[]);
    assert_eq!(fault, None);
    assert_eq!(calls.last(), Some(&"RemoveItem".to_string()));
    let leave = |no: &str| follow(remove_item_from_group(group_symbols(), "Scene", "G", "cam"), &[no]).1;
    assert_eq!(leave("SceneOfGroup"), Some(GroupFault::NoGroupScene));
    assert_eq!(leave("FindItemInGroup"), Some(GroupFault::NotInGroup));
    let (calls, fault) = follow(set_group_locked(group_symbols(), "Scene", "G", true), &[]);
    assert_eq!(fault, None);
    assert_eq!(calls.last(), Some(&"SetLocked(true)".to_string()));
}

#[test]
fn every_group_fault_has_its_text() {
    let text = |fault| group_error(fault, "S", "G", "c");
    assert_eq!(text(GroupFault::SymbolMissing), "required libobs symbol not resolved");
    assert_eq!(text(GroupFault::AddGroupMissing), "obs_scene_add_group not resolved");
    assert_eq!(text(GroupFault::NoSource), "no source named 'S' (scene not created yet?)");
    assert_eq!(text(GroupFault::NotAScene), "source 'S' exists but is not a scene");
    assert_eq!(text(GroupFault::NotCreated), "obs_scene_add_group('G') returned null");
    assert_eq!(text(GroupFault::NoGroup), "no group named 'G' in scene 'S'");
    assert_eq!(
        text(GroupFault::NoItem),
        "no top-level item for source 'c' in scene 'S' (already in a group, or not in this scene at all?)"
    );
    assert_eq!(text(GroupFault::NoGroupScene), "'G' has no group sub-scene (is it really a group?)");
    assert_eq!(text(GroupFault::NotInGroup), "'c' is not currently inside group 'G'");
}

#[test]
fn a_tap_moves_with_its_role_and_is_renewed_in_place() {
    let symbols = RoleSymbols { basic: true, remove: true };
    let mut tap = RoleTap::new();
    let (calls, fault) = follow(tap.attach_role_tap(symbols, Some("A")), &[]);
    assert_eq!(calls, list(&["Find(\"A\")", "Remove", "Add", "Release"]));
    tap.settle(symbols, Some("A"), fault.is_none());
    assert_eq!(tap.scene(), some("A"));
    let (calls, _) = follow(tap.attach_role_tap(symbols, Some("A")), &[]);
    assert_eq!(calls, list(&["Find(\"A\")", "Remove", "Add", "Release"]));
    let (calls, fault) = follow(tap.attach_role_tap(symbols, Some("B")), &[]);
    assert_eq!(
        calls,
        list(&["FindOld", "RemoveFromOld", "ReleaseOld", "Find(\"B\")", "Remove", "Add", "Release"])
    );
    tap.settle(symbols, Some("B"), fault.is_none());
    assert_eq!(tap.scene(), some("B"));
    let (_, fault) = follow(tap.attach_role_tap(symbols, Some("gone")), &["Find(\"gone"]);
    assert_eq!(fault, Some(RoleFault::NotPresent));
    tap.settle(symbols, Some("gone"), false);
    assert_eq!(tap.scene(), None);
    let none = RoleSymbols { basic: false, remove: true };
    assert_eq!(follow(tap.attach_role_tap(none, Some("A")), &[]), (vec![], Some(RoleFault::SymbolMissing)));
}

#[test]
fn the_roles_are_those_the_ui_thread_gave_last() {
    let mut roles = SceneRoles::new();
    let taps = attach_scene_audio_taps(&roles, true);
    assert!(taps.queue_refresh && taps.roles.is_none());
    roles.cache_scene_roles(some("P"), None);
    let taps = attach_scene_audio_taps(&roles, false);
    assert!(!taps.queue_refresh);
    assert_eq!(taps.roles, Some((some("P"), None)));
    assert_eq!(follow(frontend_scene_name(true), &[]), (list(&["Get", "ReadName", "Release"]), None));
    let (calls, fault) = follow(frontend_scene_name(true), &["ReadName"]);
    assert_eq!((calls, fault), (list(&["Get", "ReadName", "Release"]), Some(NameFault::NoName)));
    assert_eq!(follow(frontend_scene_name(true), &["Get"]), (list(&["Get"]), Some(NameFault::NoScene)));
    assert_eq!(follow(frontend_scene_name(false), &[]), (vec![], Some(NameFault::SymbolMissing)));
}

#[test]
fn a_probe_that_fails_gives_everything_back() {
    let (calls, fault) = follow(create_probe(true, "mic"), &[]);
    assert_eq!(fault, None);
    assert_eq!(
        calls,
        list(&[
            "FindInput(\"mic\")",
            "ReadKind",
            "CopySettings",
            "ReleaseInput",
            "TakeId",
            "CreateSource(\"mic\")",
            "ReleaseCopy",
            "AddTap",
            "Track",
        ])
    );
    let (calls, fault) = follow(create_probe(true, "mic"), &["Track"]);
    assert_eq!(fault, Some(ProbeFault::NotTracked));
    assert_eq!(calls[9..], list(&["RemoveTap", "ReleaseSource"])[..]);
    let (calls, fault) = follow(create_probe(true, "mic"), &["CreateSource", "CopySettings"]);
    assert_eq!(fault, Some(ProbeFault::NotCreated));
    assert!(calls.contains(&"ReleaseInput".to_string()) && !calls.contains(&"ReleaseCopy".to_string()));
    let (calls, fault) = follow(create_probe(true, "mic"), &["ReadKind"]);
    assert_eq!(fault, Some(ProbeFault::NotADevice));
    assert_eq!(calls, list(&["FindInput(\"mic\")", "ReadKind", "ReleaseInput"]));
    assert_eq!(follow(create_probe(true, "mic"), &["FindInput"]).1, Some(ProbeFault::NoInput));
    assert_eq!(follow(create_probe(true, "m\0c"), &[]), (vec![], Some(ProbeFault::NameNul)));
    assert_eq!(follow(create_probe(false, "mic"), &[]), (vec![], Some(ProbeFault::SymbolMissing)));
    assert_eq!(
        follow(copy_settings(), &[]),
        (list(&["GetSettings", "GetJson", "CreateFromJson", "ReleaseSettings"]), None)
    );
    let (calls, fault) = follow(copy_settings(), &["GetJson"]);
    assert_eq!((calls, fault), (list(&["GetSettings", "GetJson", "ReleaseSettings"]), Some(CopyFault::NoCopy)));
}

#[test]
fn every_probe_fault_has_its_text() {
    let text = |fault| probe_error(fault, "mic", "image_source");
    assert_eq!(text(ProbeFault::SymbolMissing), "required libobs symbols unavailable");
    assert_eq!(text(ProbeFault::NameNul), "input name contained a NUL");
    assert_eq!(text(ProbeFault::NoInput), "no input named \"mic\"");
    assert_eq!(text(ProbeFault::NotADevice), "not a device input (kind \"image_source\")");
    assert_eq!(text(ProbeFault::NotCreated), "OBS could not create a private copy of the input");
    assert_eq!(text(ProbeFault::NotTracked), "probe table unavailable");
    assert_eq!(copy_name("mic"), "FrameSW mic check (temporary, not a shot) - mic");
    assert!(is_device_kind("coreaudio_input_capture") && is_device_kind("wasapi_input_capture"));
    assert!(!is_device_kind("wasapi_output_capture"));
}

#[test]
fn a_probe_counts_after_its_warm_up() {
    let square = |power: f64, sample: u32| {
        let s = f32::from_bits(sample) as f64;
        power + s * s
    };
    let left: Vec<u32> = [0.5f32, -0.75, 0.0, 9.0].iter().map(|s| s.to_bits()).collect();
    let mut stats: ProbeStats<f64> = ProbeStats::new(2, 0.0);
    let planes: [Option<&[u32]>; 2] = [Some(&left), None];
    stats.probe_callback(5_000_000, 3, &planes, &square);
    stats.probe_callback(204_999_999, 3, &planes, &square);
    assert_eq!(stats.frame_count(), 0);
    stats.probe_callback(205_000_000, 3, &planes, &square);
    stats.probe_callback(300_000_000, 0, &planes, &square);
    assert_eq!(stats.frame_count(), 3);
    let heard = stats.heard();
    assert_eq!(f32::from_bits(heard[0].peak), 0.75);
    assert_eq!((heard[0].power, heard[0].zeros), (0.8125, 1));
    assert_eq!((heard[1].peak, heard[1].zeros), (0, 3));
    assert_eq!(
        shown(&emit_result(7, "mic", "wasapi_input_capture", &stats)),
        list(&[
            "probe_id=7",
            "input_name=mic",
            "kind=wasapi_input_capture",
            "packets=4",
            "warmup_packets=2",
            "frames=3",
            "first_packet_ms=5",
            "ok=true",
        ])
    );
    let silent: ProbeStats<f64> = ProbeStats::new(0, 0.0);
    assert_eq!(silent.heard().len(), 1);
    assert_eq!(ProbeStats::new(20, 0.0f64).heard().len(), 8);
    assert!(shown(&emit_result(1, "a", "b", &silent)).contains(&"first_packet_ms=-1".to_string()));
}

#[test]
fn a_result_is_built_sent_and_let_go() {
    let calls = result_event(true, 1, true).unwrap();
    assert_eq!(
        calls,
        vec![
            ResultCall::CreateRoot,
            ResultCall::SetFields,
            ResultCall::CreateArray,
            ResultCall::CreateEntry,
            ResultCall::SetLevels(0),
            ResultCall::PushEntry,
            ResultCall::ReleaseEntry,
            ResultCall::SetArray,
            ResultCall::ReleaseArray,
            ResultCall::Emit,
            ResultCall::ReleaseRoot,
        ]
    );
    assert!(!result_event(true, 2, false).unwrap().contains(&ResultCall::Emit));
    assert!(result_event(false, 2, true).is_none());
    let end = finish(true, false, true);
    assert!(end.remove_tap && end.queue_release);
    assert!(!finish(false, false, true).remove_tap);
}

#[test]
fn probes_are_kept_by_number() {
    let mut probes: Probes<u32> = Probes::new();
    let first = probes.take_id();
    let second = probes.take_id();
    assert_ne!(first, second);
    let probe = |name: &str| Probe { input_name: name.to_string(), kind: "k".to_string(), handle: 3 };
    probes.track(first, probe("a"));
    probes.track(second, probe("b"));
    assert_eq!(probes.untrack(first).map(|p| p.input_name), some("a"));
    assert!(probes.untrack(first).is_none());
    assert_eq!(probes.untrack(second).map(|p| p.input_name), some("b"));
}

#[test]
fn probe_requests_are_bounded_and_answered() {
    assert_eq!(requests(), vec!["probe_input", "mono"]);
    assert_eq!(probe_window(None), 1000);
    assert_eq!(probe_window(Some(10)), 300);
    assert_eq!(probe_window(Some(99_999)), 5000);
    assert_eq!(probe_window(Some(700)), 700);
    assert_eq!(probe_deadline(1000), 1350);
    assert_eq!(probe_wait(1349, 1350, false), Wait::Nap);
    assert_eq!(probe_wait(1350, 1350, false), Wait::Finish);
    assert_eq!(probe_wait(0, 1350, true), Wait::Finish);
    assert_eq!(shown(&refuse_unready(None, true).unwrap()), refused("input_name is required"));
    assert_eq!(shown(&refuse_unready(Some("a"), false).unwrap()), refused("obs_queue_task unavailable"));
    assert!(refuse_unready(Some("a"), true).is_none());
    let started = Ok((4, "k".to_string()));
    assert_eq!(shown(&handle_probe_input(true, &started)), list(&["ok=true", "probe_id=4", "kind=k"]));
    assert_eq!(shown(&handle_probe_input(false, &started)), refused("UI-thread task never ran"));
    assert_eq!(shown(&handle_probe_input(true, &Err("x".to_string()))), refused("x"));
}

#[test]
fn mono_is_one_flag_among_others() {
    assert!(is_mono(2) && is_mono(3) && !is_mono(1));
    assert_eq!(with_mono(5, true), 7);
    assert_eq!(with_mono(7, false), 5);
    assert_eq!(with_mono(with_mono(5, true), false), 5);
    let (calls, fault) = follow(mono_on_ui_thread(true, "mic", Some(true)), &[]);
    assert_eq!(fault, None);
    assert!(calls.contains(&"SetFlags(true)".to_string()));
    assert_eq!(calls.last(), Some(&"ReleaseInput".to_string()));
    let (calls, _) = follow(mono_on_ui_thread(true, "mic", None), &[]);
    assert!(!calls.iter().any(|call| call.starts_with("SetFlags")));
    assert_eq!(follow(mono_on_ui_thread(true, "mic", None), &["FindInput"]).1, Some(MonoFault::NoInput));
    assert_eq!(follow(mono_on_ui_thread(true, "\0", None), &[]).1, Some(MonoFault::NameNul));
    assert_eq!(follow(mono_on_ui_thread(false, "mic", None), &[]).1, Some(MonoFault::SymbolMissing));
    assert_eq!(mono_error(MonoFault::NoInput, "mic"), "no input named \"mic\"");
    assert_eq!(mono_error(MonoFault::NameNul, "mic"), "input name contained a NUL");
    assert_eq!(mono_error(MonoFault::SymbolMissing, "mic"), "required libobs symbols unavailable");
    assert_eq!(shown(&handle_mono(true, &Ok(true))), list(&["ok=true", "mono=true"]));
    assert_eq!(shown(&handle_mono(false, &Ok(true))), refused("UI-thread task never ran"));
}

/// Carries a request out and notes how it went.
fn show(showing: &mut Showing, name: &str, want: bool, no: &[&str]) -> (Vec<String>, Option<ShowFault>, Option<String>) {
    let (calls, fault) = follow(showing.set_showing(true, name, want), no);
    let released = showing.settle(true, name, want, fault.is_none());
    (calls, fault, released)
}

#[test]
fn no_more_than_one_source_is_forced_to_show() {
    let mut showing = Showing::new();
    assert_eq!(show(&mut showing, "a", true, &[]).0, list(&["Find(\"a\")", "IncShowing", "Release"]));
    assert_eq!(show(&mut showing, "a", true, &[]), (vec![], None, None));
    let (calls, fault, released) = show(&mut showing, "b", true, &[]);
    assert_eq!(
        calls,
        list(&["FindHeld", "DecShowing", "ReleaseHeld", "Find(\"b\")", "IncShowing", "Release"])
    );
    assert_eq!((fault, released), (None, some("a")));
    assert_eq!(showing.held(), some("b"));
    // To let go of another source does nothing.
    assert_eq!(show(&mut showing, "a", false, &[]), (vec![], None, None));
    assert_eq!(show(&mut showing, "b", false, &[]).0, list(&["FindHeld", "DecShowing", "ReleaseHeld"]));
    assert_eq!(showing.held(), None);
    // A source that is gone needs no counting down.
    show(&mut showing, "a", true, &[]);
    let (calls, fault, released) = show(&mut showing, "c", true, &["FindHeld", "Find(\"c"]);
    assert_eq!(calls, list(&["FindHeld", "Find(\"c\")"]));
    assert_eq!((fault, released), (Some(ShowFault::NoSource), some("a")));
    assert_eq!(showing.held(), None);
    assert_eq!(show(&mut showing, "\0", true, &[]).1, Some(ShowFault::InvalidName));
    assert_eq!(follow(showing.set_showing(false, "a", true), &[]).1, Some(ShowFault::SymbolMissing));
}

#[test]
fn showing_requests_are_answered() {
    assert_eq!(show_error(ShowFault::SymbolMissing, "a"), "required libobs symbols unavailable");
    assert_eq!(show_error(ShowFault::InvalidName, "a"), "invalid source name");
    assert_eq!(show_error(ShowFault::NoSource, "a"), "no source named 'a'");
    assert_eq!(shown(&refuse_showing("", true).unwrap()), refused("missing source name"));
    assert_eq!(shown(&refuse_showing("a", false).unwrap()), refused("obs_queue_task unavailable"));
    assert!(refuse_showing("a", true).is_none());
    assert!(wants_showing(Some(true)) && !wants_showing(Some(false)));
    assert_eq!(shown(&handle_set_source_showing(false, &None, &None)), refused("UI-thread task did not run"));
    assert_eq!(shown(&handle_set_source_showing(true, &some("x"), &None)), refused("x"));
    assert_eq!(shown(&handle_set_source_showing(true, &None, &None)), list(&["ok=true"]));
    assert_eq!(shown(&handle_set_source_showing(true, &None, &some("a"))), list(&["released=a", "ok=true"]));
}

#[test]
fn a_scene_that_exists_is_a_success() {
    // `LookFor` is answered yes where no source has the name.
    let (calls, fault) = follow(create_scene(true, true, "S"), &[]);
    assert_eq!((calls, fault), (list(&["LookFor(\"S\")", "CreateScene(\"S\")", "ReleaseScene"]), None));
    let (calls, fault) = follow(create_scene(true, true, "S"), &["LookFor"]);
    assert_eq!(calls, list(&["LookFor(\"S\")", "ReleaseExisting"]));
    assert_eq!(fault, Some(SceneFault::AlreadyThere));
    assert_eq!(shown(&handle_create_scene(fault)), list(&["ok=true"]));
    assert_eq!(shown(&handle_create_scene(None)), list(&["ok=true"]));
    let missing = follow(create_scene(false, true, "S"), &[]).1;
    assert_eq!(shown(&handle_create_scene(missing)), refused("required libobs symbols unavailable"));
    let missing = follow(create_scene(true, false, "S"), &[]).1;
    assert_eq!(shown(&handle_create_scene(missing)), refused("required libobs symbols unavailable"));
    let invalid = follow(create_scene(true, true, "S\0"), &[]).1;
    assert_eq!(shown(&handle_create_scene(invalid)), refused("invalid scene name"));
    let failed = follow(create_scene(true, true, "S"), &["CreateScene"]).1;
    assert_eq!(shown(&handle_create_scene(failed)), refused("obs_scene_create returned null"));
}

#[test]
fn the_current_scenes_are_told_as_far_as_there_are_any() {
    let scenes = CurrentScenes { ran: true, studio_mode: true, program: some("P"), preview: None };
    assert_eq!(shown(&handle_get_current_scenes(true, &scenes)), list(&["ok=true", "studio_mode=true", "program=P"]));
    assert_eq!(shown(&handle_get_current_scenes(false, &scenes)), refused("obs_queue_task unavailable"));
    let never = CurrentScenes { ran: false, ..scenes };
    assert_eq!(shown(&handle_get_current_scenes(true, &never)), refused("UI task handler unavailable"));
}

#[test]
fn only_active_video_outputs_are_listed() {
    let mut outputs = Vec::new();
    collect_video_output(&mut outputs, true, 3, some("cam"), some("virtualcam_output"));
    collect_video_output(&mut outputs, false, 3, some("idle"), some("x"));
    collect_video_output(&mut outputs, true, 2, some("audio"), some("x"));
    collect_video_output(&mut outputs, true, 1, None, some("x"));
    collect_video_output(&mut outputs, true, 1, some("bare"), None);
    assert_eq!(
        shown(&handle_list_video_outputs(true, true, outputs)),
        list(&["outputs=kind [(\"cam\", \"virtualcam_output\"), (\"bare\", \"\")]", "ok=true"])
    );
    assert_eq!(shown(&handle_list_video_outputs(false, true, vec![])), refused("obs_enum_outputs unavailable"));
    assert_eq!(shown(&handle_list_video_outputs(true, false, vec![])), refused("obs_data array symbols unavailable"));
}

fn monitoring_error(queue: bool, name: Option<String>, id: Option<String>) -> Vec<String> {
    match begin_monitoring(queue, name, id) {
        Ok(_) => panic!("the request was in order"),
        Err(response) => shown(&response),
    }
}

#[test]
fn a_monitoring_device_needs_both_its_texts() {
    let both = "both \"name\" and \"id\" are required to set a device";
    assert_eq!(monitoring_error(true, some("n"), None), refused(both));
    assert_eq!(monitoring_error(true, None, some("i")), refused(both));
    assert_eq!(monitoring_error(false, None, None), refused("obs_queue_task unavailable"));
    let mut state = begin_monitoring(true, some("n"), some("i")).ok().unwrap();
    assert!(state.sets_device(true) && !state.sets_device(false));
    let mut devices = Vec::new();
    collect_monitoring_device(&mut devices, some("n"), some("i"));
    collect_monitoring_device(&mut devices, None, some("j"));
    monitoring_device_on_ui_thread(&mut state, true, true, Some((some("n"), None)), Some(devices));
    assert_eq!(
        shown(&handle_monitoring_device(state, true)),
        list(&["devices=id [(\"n\", \"i\"), (\"\", \"j\")]", "current_name=n", "current_id=", "applied=true", "ok=true"])
    );
    let asks = begin_monitoring(true, None, None).ok().unwrap();
    assert!(!asks.sets_device(true));
    assert_eq!(shown(&handle_monitoring_device(asks, true)), refused("UI-thread task did not run"));
    let mut nul = begin_monitoring(true, some("n\0"), some("i")).ok().unwrap();
    assert!(!nul.sets_device(true));
    monitoring_device_on_ui_thread(&mut nul, true, true, Some((None, None)), None);
    assert!(nul.current.is_none() && !nul.applied);
    assert_eq!(shown(&handle_monitoring_device(nul, false)), refused("obs_data array symbols unavailable"));
}

fn profile(name: &str) -> EnsureProfile {
    match begin_profile(name.to_string(), true) {
        Ok(state) => state,
        Err(_) => panic!("the request was in order"),
    }
}

#[test]
fn a_profile_is_switched_to_or_made() {
    let mut there = profile("FrameSW");
    assert_eq!(there.ensure_profile(some("FrameSW")), ProfileStep::Stop);
    assert_eq!(shown(&handle_ensure_profile(&there)), list(&["ok=true", "switched=true", "created=false"]));
    let mut switched = profile("FrameSW");
    assert_eq!(switched.ensure_profile(some("Old")), ProfileStep::Switch);
    assert_eq!(switched.after_switch(some("FrameSW"), true), ProfileStep::Stop);
    assert_eq!(
        shown(&handle_ensure_profile(&switched)),
        list(&["ok=true", "switched=true", "created=false", "previous=Old"])
    );
    let mut made = profile("FrameSW");
    assert_eq!(made.ensure_profile(some("Old")), ProfileStep::Switch);
    assert_eq!(made.after_switch(some("Old"), true), ProfileStep::Duplicate);
    made.after_duplicate(some("FrameSW"));
    assert_eq!(
        shown(&handle_ensure_profile(&made)),
        list(&["ok=true", "switched=true", "created=true", "previous=Old"])
    );
    let mut stuck = profile("FrameSW");
    assert_eq!(stuck.ensure_profile(some("Old")), ProfileStep::Switch);
    assert_eq!(stuck.after_switch(some("Old"), false), ProfileStep::Stop);
    assert_eq!(shown(&handle_ensure_profile(&stuck)), list(&["ok=true", "switched=false", "created=false"]));
    let mut unmade = profile("FrameSW");
    assert_eq!(unmade.ensure_profile(some("Old")), ProfileStep::Switch);
    assert_eq!(unmade.after_switch(some("Old"), true), ProfileStep::Duplicate);
    unmade.after_duplicate(some("Old"));
    assert_eq!(shown(&handle_ensure_profile(&unmade)), list(&["ok=true", "switched=false", "created=true"]));
    let mut blind = profile("FrameSW");
    assert_eq!(blind.ensure_profile(None), ProfileStep::Stop);
    assert_eq!(shown(&handle_ensure_profile(&blind)), refused("profile frontend API unavailable"));
    assert_eq!(follow(current_profile_name(true), &[]), (list(&["Get", "ReadName", "Free"]), None));
    assert_eq!(follow(current_profile_name(true), &["Get"]), (list(&["Get"]), Some(ProfileFault::NoProfile)));
    assert_eq!(follow(current_profile_name(false), &[]), (vec![], Some(ProfileFault::SymbolMissing)));
    assert_eq!(shown(&begin_profile(String::new(), true).err().unwrap()), refused("missing profile name"));
    assert_eq!(shown(&begin_profile("a".to_string(), false).err().unwrap()), refused("obs_queue_task unavailable"));
}

#[test]
fn settings_are_saved_once_they_are_written() {
    let symbols = ConfigSymbols { read: true, write: true, save: true };
    let (calls, fault) = follow(ndi_outputs(symbols, Some(true), None), &[]);
    assert_eq!(fault, None);
    assert_eq!(
        calls,
        list(&["GetConfig", "SetBool(NdiMain, true)", "Save", "GetBool(NdiMain)", "GetBool(NdiPreview)"])
    );
    let (calls, _) = follow(ndi_outputs(symbols, None, None), &[]);
    assert_eq!(calls, list(&["GetConfig", "GetBool(NdiMain)", "GetBool(NdiPreview)"]));
    let (calls, _) = follow(projector_on_top(symbols, Some(false)), &[]);
    assert_eq!(
        calls,
        list(&["GetConfig", "SetBool(ProjectorOnTop, false)", "Save", "GetBool(ProjectorOnTop)"])
    );
    assert_eq!(follow(projector_on_top(symbols, None), &["GetConfig"]).1, Some(ConfigFault::NoConfig));
    let fixed = ConfigSymbols { write: false, ..symbols };
    assert_eq!(
        follow(projector_on_top(fixed, Some(true)), &[]),
        (list(&["GetConfig"]), Some(ConfigFault::SetMissing))
    );
    assert_eq!(follow(projector_on_top(fixed, None), &[]).1, None);
    let blind = ConfigSymbols { read: false, ..symbols };
    assert_eq!(follow(ndi_outputs(blind, None, None), &[]), (vec![], Some(ConfigFault::SymbolMissing)));
    assert_eq!(Switch::ProjectorOnTop.place(), ("BasicWindow", "ProjectorAlwaysOnTop"));
    assert_eq!(Switch::NdiMain.place(), ("NDIPlugin", "MainOutputEnabled"));
    assert_eq!(Switch::NdiPreview.place(), ("NDIPlugin", "PreviewOutputEnabled"));
    assert_eq!(shown(&handle_ndi_outputs(true, true, true, false)), list(&["ok=true", "main=true", "preview=false"]));
    assert_eq!(shown(&handle_ndi_outputs(true, false, true, false)), refused("user config unavailable"));
    assert_eq!(shown(&handle_projector_on_top(true, true, true)), list(&["ok=true", "enabled=true"]));
    assert_eq!(shown(&handle_projector_on_top(false, true, true)), refused("obs_queue_task unavailable"));
}

#[test]
fn the_renderer_is_written_only_where_it_changes() {
    let symbols = ConfigSymbols { read: true, write: true, save: true };
    let wanted = wanted_renderer(some("Metal"));
    assert!(changes_renderer(&wanted, "OpenGL") && !changes_renderer(&wanted, "Metal"));
    assert!(!changes_renderer(&None, "OpenGL"));
    assert_eq!(wanted_renderer(some("")), None);
    // `Read` is answered no where the renderer is to change.
    let (calls, fault) = follow(renderer(symbols, wanted.as_deref()), &["Read"]);
    assert_eq!(fault, None);
    assert_eq!(calls, list(&["GetConfig", "Read", "SetText(\"Metal\")", "Save", "ReadAgain"]));
    let (calls, _) = follow(renderer(symbols, wanted.as_deref()), &[]);
    assert_eq!(calls, list(&["GetConfig", "Read", "ReadAgain"]));
    assert_eq!(follow(renderer(symbols, None), &[]), (list(&["GetConfig", "Read", "ReadAgain"]), None));
    let unsaved = ConfigSymbols { save: false, ..symbols };
    let (calls, _) = follow(renderer(unsaved, Some("Metal")), &["Read"]);
    assert_eq!(calls, list(&["GetConfig", "Read", "SetText(\"Metal\")", "ReadAgain"]));
    let refusing = (list(&["GetConfig", "Read"]), Some(ConfigFault::SetMissing));
    assert_eq!(follow(renderer(symbols, Some("Me\0tal")), &["Read"]), refusing);
    let fixed = ConfigSymbols { write: false, ..symbols };
    assert_eq!(follow(renderer(fixed, Some("Metal")), &["Read"]), refusing);
    assert_eq!(follow(renderer(fixed, Some("Metal")), &[]).1, None);
    assert_eq!(shown(&handle_renderer(true, true, "Metal", true)), list(&["ok=true", "renderer=Metal", "changed=true"]));
    assert_eq!(shown(&handle_renderer(true, false, "", false)), refused("app config unavailable"));
}

#[test]
fn the_browser_engine_is_woken_once() {
    let (calls, fault) = follow(warm_browser_engine(false, true, true), &[]);
    assert_eq!(fault, None);
    assert_eq!(
        calls,
        list(&["CreateSettings", "FillSettings", "CreateSource", "ReleaseSettings", "ReleaseSource"])
    );
    assert!(is_warm(false, fault) && is_warm(true, Some(WarmFault::AlreadyWarm)));
    assert_eq!(
        shown(&handle_warm_browser_engine(true, true, fault)),
        list(&["ok=true", "created=true", "already_warm=false"])
    );
    let (calls, fault) = follow(warm_browser_engine(true, true, true), &[]);
    assert_eq!((calls, fault), (vec![], Some(WarmFault::AlreadyWarm)));
    assert_eq!(
        shown(&handle_warm_browser_engine(true, true, fault)),
        list(&["ok=true", "created=false", "already_warm=true"])
    );
    let (calls, fault) = follow(warm_browser_engine(false, true, true), &["CreateSource"]);
    assert_eq!(calls, list(&["CreateSettings", "FillSettings", "CreateSource", "ReleaseSettings"]));
    assert!(!is_warm(false, fault));
    let answer = |fault| shown(&handle_warm_browser_engine(true, true, fault));
    assert_eq!(answer(fault), refused("obs_source_create_private returned null"));
    assert_eq!(
        answer(follow(warm_browser_engine(false, false, true), &[]).1),
        refused("obs_source_create_private unavailable")
    );
    assert_eq!(answer(follow(warm_browser_engine(false, true, false), &[]).1), refused("obs_data_create unavailable"));
    assert_eq!(
        answer(follow(warm_browser_engine(false, true, true), &["CreateSettings"]).1),
        refused("could not allocate settings")
    );
    assert_eq!(shown(&handle_warm_browser_engine(false, true, None)), refused("obs_queue_task unavailable"));
    assert_eq!(shown(&handle_warm_browser_engine(true, false, None)), refused("UI-thread task did not run"));
    assert_eq!(
        shown(&warm_settings()),
        list(&[
            "url=about:blank",
            "width=16",
            "height=16",
            "shutdown=false",
            "restart_when_active=false",
            "reroute_audio=false",
        ])
    );
    assert_eq!(WARM_KIND, "browser_source");
}
