//! The shared-memory ring, the frames of a feed, and the feeds themselves.

use framesw_companion::feed::{feed_key, ndi_name, now_100ns, output_name, Path, Transport, Which};
use framesw_companion::feed_request::{stop, FeedRequest, FeedStep};
use framesw_companion::plan::{Plan, Step};
use framesw_companion::response::{Response, Value};
use framesw_companion::shm_ring::{
    cell_bytes, frame_bytes, mapping_bytes, pack_frame, ring_path, slot_bytes, Cell, RingFault, RingWriter, Store,
    HEADER_BYTES, MAGIC, SLOT_COUNT, SLOT_HEADER_BYTES,
};
use framesw_companion::video_frames::{choose_delivery, Delivery, Pipeline, Report, Reports, Snapshot, Work};
use framesw_companion::video_tap::{
    apply, attach, attach_error, feed_settings, handle_start_video_feed, handle_stop_video_feed,
    handle_video_feed_status, on_frontend_event, output_start, raw_conversion, read_request, refresh_view,
    register_output_type, run_on_ui, small_ovi, start_error, start_feed, stop_all, teardown, worker_name, AttachCall,
    AttachFault, AttachSymbols, EventAction, Feed, FeedSettings, FeedStatus, Feeds, Held, ObsVideoInfo,
    OutputStartCall, OutputStartFault, RefreshCall, RefreshFault, StartCall, StartFault, TeardownCall,
    TeardownSymbols, VideoScaleInfo, EVENT_EXIT, EVENT_PREVIEW_SCENE_CHANGED, EVENT_SCENE_CHANGED,
    EVENT_SCENE_COLLECTION_CHANGED, EVENT_SCENE_COLLECTION_CLEANUP, EVENT_STUDIO_MODE_DISABLED,
    EVENT_STUDIO_MODE_ENABLED, EVENT_TRANSITION_CHANGED,
};

/// Follows a plan: every call is answered yes but those in `no`.
fn follow<C: Copy + PartialEq, F: Copy>(mut plan: Plan<C, F>, no: &[C]) -> (Vec<C>, Option<F>) {
    let mut calls = Vec::new();
    loop {
        match plan.next() {
            Step::Call(call) => {
                calls.push(call);
                plan.answer(!no.contains(&call));
            }
            Step::Failed(fault) => return (calls, Some(fault)),
            Step::Done => return (calls, None),
        }
    }
}

fn shown(response: &Response) -> Vec<String> {
    (0..response.len())
        .map(|i| {
            let value = match response.value_at(i) {
                Value::Bool(b) => b.to_string(),
                Value::Int(n) => n.to_string(),
                Value::Text(s) => s.clone(),
                Value::Pairs(second, pairs) => format!("{} {:?}", second, pairs),
            };
            format!("{}={}", response.key_at(i), value)
        })
        .collect()
}

fn put(memory: &mut [u8], ring: &RingWriter, store: &Store) {
    let at = ring.cell_at(store.cell);
    let bytes = cell_bytes(store.cell);
    memory[at..at + bytes].copy_from_slice(&store.value.to_le_bytes()[..bytes]);
}

fn number(memory: &[u8], ring: &RingWriter, cell: Cell) -> u64 {
    let at = ring.cell_at(cell);
    let bytes = cell_bytes(cell);
    let mut out = [0u8; 8];
    out[..bytes].copy_from_slice(&memory[at..at + bytes]);
    u64::from_le_bytes(out)
}

fn ring(width: u32, height: u32) -> RingWriter {
    match RingWriter::create("/tmp/x.ring".to_string(), width, height, Ok(())) {
        Ok(ring) => ring,
        Err(e) => panic!("{}", e),
    }
}

fn main_info() -> ObsVideoInfo {
    ObsVideoInfo {
        fps_num: 60000,
        fps_den: 1001,
        base_width: 1920,
        base_height: 1080,
        output_width: 1280,
        output_height: 720,
        output_format: 6,
        adapter: 1,
        gpu_conversion: true,
        colorspace: 4,
        range: 2,
        scale_type: 3,
    }
}

fn all_symbols() -> AttachSymbols {
    AttachSymbols { output_type: true, raw_callback: true, video_info: true, view: true, output: true }
}

#[test]
fn a_slot_holds_exactly_one_nv12_frame_plus_its_header() {
    // 640x360 NV12 = 230400 luma + 115200 chroma.
    assert_eq!(frame_bytes(640, 360), 345_600);
    assert_eq!(slot_bytes(640, 360), 345_600 + SLOT_HEADER_BYTES);
}

#[test]
fn the_mapping_holds_the_header_and_every_slot() {
    assert_eq!(mapping_bytes(640, 360), HEADER_BYTES + 3 * (345_600 + SLOT_HEADER_BYTES));
}

/// The app maps these same bytes from a separate binary, so the layout
/// has to be stated, not inferred.
#[test]
fn the_header_layout_is_fixed() {
    assert_eq!(HEADER_BYTES, 56);
    assert_eq!(SLOT_HEADER_BYTES, 16);
}

#[test]
fn every_cell_lies_where_the_reader_looks() {
    let ring = ring(4, 2);
    let slot = slot_bytes(4, 2);
    assert_eq!(slot, 28);
    let at = [
        (Cell::Magic, 0),
        (Cell::Version, 4),
        (Cell::Width, 8),
        (Cell::Height, 12),
        (Cell::Format, 16),
        (Cell::FpsNum, 20),
        (Cell::FpsDen, 24),
        (Cell::SlotCount, 28),
        (Cell::SlotBytes, 32),
        (Cell::WriterPid, 36),
        (Cell::Frames, 40),
        (Cell::Heartbeat, 48),
        (Cell::Sequence(0), 56),
        (Cell::Timecode(0), 64),
        (Cell::Sequence(2), 56 + 2 * slot),
        (Cell::Timecode(2), 64 + 2 * slot),
    ];
    for (cell, place) in at {
        assert_eq!(ring.cell_at(cell), place, "{:?}", cell);
    }
}

#[test]
fn the_magic_is_stamped_last_and_taken_away_first() {
    let ring = ring(640, 360);
    let stores = ring.stamp(60, 1, 4711);
    let mut memory = vec![0u8; mapping_bytes(640, 360)];
    for (i, store) in stores.iter().enumerate() {
        assert_eq!(number(&memory, &ring, Cell::Magic), 0, "store {}", i);
        put(&mut memory, &ring, store);
    }
    assert!(stores.last().unwrap().release);
    assert_eq!(number(&memory, &ring, Cell::Magic), MAGIC as u64);
    assert_eq!(&memory[..4], b"FSW1");
    assert_eq!(number(&memory, &ring, Cell::Version), 1);
    assert_eq!(number(&memory, &ring, Cell::Width), 640);
    assert_eq!(number(&memory, &ring, Cell::Height), 360);
    assert_eq!(number(&memory, &ring, Cell::Format), 2);
    assert_eq!(number(&memory, &ring, Cell::FpsNum), 60);
    assert_eq!(number(&memory, &ring, Cell::FpsDen), 1);
    assert_eq!(number(&memory, &ring, Cell::SlotCount), 3);
    assert_eq!(number(&memory, &ring, Cell::SlotBytes), 345_616);
    assert_eq!(number(&memory, &ring, Cell::WriterPid), 4711);
    put(&mut memory, &ring, &ring.unstamp());
    assert_eq!(number(&memory, &ring, Cell::Magic), 0);
}

#[test]
fn a_frame_goes_to_the_next_slot_and_is_odd_while_it_is_written() {
    let ring = ring(4, 2);
    let mut memory = vec![0u8; mapping_bytes(4, 2)];
    for n in 0..7u64 {
        let slot = ring.slot_after(n);
        assert_eq!(slot as u64, n % SLOT_COUNT as u64);
        let seq = number(&memory, &ring, Cell::Sequence(slot));
        assert_eq!(seq % 2, 0);
        let write = ring.write_frame(n, seq, 1000 + n);
        put(&mut memory, &ring, &write.opening);
        assert_eq!(number(&memory, &ring, Cell::Sequence(slot)), seq + 1);
        assert_eq!(write.data_at, HEADER_BYTES + slot as usize * 28 + SLOT_HEADER_BYTES);
        let frame = [n as u8; 12];
        memory[write.data_at..write.data_at + 12].copy_from_slice(&frame);
        for store in &write.closing {
            put(&mut memory, &ring, store);
        }
        assert_eq!(number(&memory, &ring, Cell::Sequence(slot)), seq + 2);
        assert_eq!(number(&memory, &ring, Cell::Timecode(slot)), 1000 + n);
        assert_eq!(number(&memory, &ring, Cell::Frames), n + 1);
        assert_eq!(number(&memory, &ring, Cell::Heartbeat), 1000 + n);
        assert_eq!(&memory[write.data_at..write.data_at + 12], &frame);
    }
    // The two frames before the last are still there.
    assert_eq!(number(&memory, &ring, Cell::Timecode(1)), 1004);
    assert_eq!(number(&memory, &ring, Cell::Timecode(2)), 1005);
}

#[test]
fn a_ring_belongs_to_its_user_and_feed() {
    assert_eq!(ring_path(Some("ann"), None, "preview"), "framesw-ann-preview.ring");
    assert_eq!(ring_path(None, Some("Bob Ross"), "program"), "framesw-BobRoss-program.ring");
    assert_eq!(ring_path(None, None, "program"), "framesw-user-program.ring");
    assert_eq!(ring_path(Some("../é_1"), Some("x"), "p"), "framesw-1-p.ring");
    let long = "a".repeat(40);
    assert_eq!(ring_path(Some(&long), None, "p"), format!("framesw-{}-p.ring", "a".repeat(24)));
}

#[test]
fn a_ring_that_cannot_be_made_says_why() {
    let cause = || "no space".to_string();
    let failed = |fault| match RingWriter::create("/x".to_string(), 4, 2, Err(fault)) {
        Ok(_) => panic!("there was a fault"),
        Err(e) => e,
    };
    assert_eq!(failed(RingFault::Open(cause())), "creating /x: no space");
    assert_eq!(failed(RingFault::Size(cause())), "sizing /x: no space");
    assert_eq!(failed(RingFault::Mapping(cause())), "no space");
    assert_eq!(ring(4, 2).path(), "/tmp/x.ring");
}

#[test]
fn packing_drops_the_padding_of_both_planes() {
    let y = [1, 2, 3, 4, 99, 99, 5, 6, 7, 8, 99, 99];
    let uv = [9, 10, 11, 12, 99];
    let mut out = [0u8; 12];
    pack_frame(4, 2, &y, 6, &uv, 5, &mut out);
    assert_eq!(out, [1, 2, 3, 4, 5, 6, 7, 8, 9, 10, 11, 12]);
}

#[test]
fn times_are_counted_in_hundreds_of_nanoseconds() {
    assert_eq!(now_100ns(Some(1_700_000_000_000_000_099)), 17_000_000_000_000_000);
    assert_eq!(now_100ns(None), 0);
}

#[test]
fn a_feed_has_its_own_name_and_key() {
    assert_eq!(feed_key(Which::Preview), "preview");
    assert_eq!(feed_key(Which::Program), "program");
    assert_eq!(ndi_name(Which::Preview), "FrameSW Preview");
    assert_eq!(ndi_name(Which::Program), "FrameSW Program");
    assert_eq!(output_name(Which::Preview), "FrameSW Preview feed");
    assert_eq!(output_name(Which::Program), "FrameSW Program feed");
    assert_eq!(Transport::Shm.label(), "shm");
    assert_eq!(Transport::Ndi.label(), "ndi");
    assert_eq!(Path::Raw.label(), "raw");
    assert_eq!(worker_name(Path::View), "framesw-video-view");
}

#[test]
fn frames_with_narrow_rows_or_no_ring_are_ignored() {
    let wide = Some((640, 700));
    assert_eq!(choose_delivery(true, Transport::Shm, 640, wide, true), Delivery::Ring);
    assert_eq!(choose_delivery(true, Transport::Shm, 640, wide, false), Delivery::Ignore);
    assert_eq!(choose_delivery(true, Transport::Ndi, 640, wide, false), Delivery::Park);
    assert_eq!(choose_delivery(false, Transport::Ndi, 640, wide, false), Delivery::Ignore);
    assert_eq!(choose_delivery(true, Transport::Ndi, 640, Some((639, 640)), false), Delivery::Ignore);
    assert_eq!(choose_delivery(true, Transport::Ndi, 640, Some((640, 639)), false), Delivery::Ignore);
    assert_eq!(choose_delivery(true, Transport::Ndi, 640, None, false), Delivery::Ignore);
}

#[test]
fn a_new_frame_takes_the_place_of_one_that_was_not_sent() {
    let mut pipeline = Pipeline::new();
    assert!(pipeline.must_wait(true));
    assert!(!pipeline.must_wait(false));
    for n in 1..=3u8 {
        pipeline.copy_frame(2, 2, &[n; 4], 2, &[n; 2], 2, n as i64);
    }
    pipeline.count_copy(3_000);
    assert!(!pipeline.must_wait(true));
    match pipeline.next_work(true, true) {
        Work::Send(frame) => {
            assert_eq!(frame.data, vec![3; 6]);
            assert_eq!(frame.timecode, 3);
            pipeline.count_sent(frame, 5_000_000);
        }
        _ => panic!("a frame was waiting"),
    }
    assert!(matches!(pipeline.next_work(true, true), Work::Idle));
    let stats = pipeline.stats();
    assert_eq!((stats.frames_in, stats.frames_sent, stats.frames_dropped), (3, 1, 2));
    assert_eq!((stats.copy_ns, stats.send_ns, stats.send_max_ns), (3_000, 5_000_000, 5_000_000));
}

#[test]
fn a_frame_without_a_sender_or_after_the_end_is_not_sent() {
    let mut pipeline = Pipeline::new();
    pipeline.copy_frame(2, 2, &[1; 4], 2, &[1; 2], 2, 1);
    assert!(matches!(pipeline.next_work(true, false), Work::Idle));
    assert!(matches!(pipeline.next_work(true, true), Work::Idle));
    pipeline.copy_frame(2, 2, &[1; 4], 2, &[1; 2], 2, 1);
    assert!(matches!(pipeline.next_work(false, true), Work::Stop));
}

#[test]
fn a_report_averages_since_the_last_one() {
    let mut pipeline = Pipeline::new();
    pipeline.count_ring_frame();
    let then = pipeline.snapshot();
    pipeline.count_ring_frame();
    pipeline.count_ring_frame();
    pipeline.count_copy(4_000_000);
    pipeline.copy_frame(2, 2, &[1; 4], 2, &[1; 2], 2, 1);
    if let Work::Send(frame) = pipeline.next_work(true, true) {
        pipeline.count_sent(frame, 9_000_000);
    }
    assert_eq!(
        pipeline.report(then),
        Report {
            frames_in: 3,
            frames_sent: 3,
            frames_dropped: 0,
            copy_avg_us: 1333,
            send_avg_us: 3000,
            send_max_us: 9000
        }
    );
    // The longest send starts over with every report.
    assert_eq!(pipeline.report(then).send_max_us, 0);
}

#[test]
fn a_report_is_due_every_ten_seconds() {
    let mut pipeline = Pipeline::new();
    pipeline.count_ring_frame();
    let mut reports = Reports::new(&pipeline);
    pipeline.count_ring_frame();
    assert_eq!(reports.next(&mut pipeline, 0), None);
    assert_eq!(reports.next(&mut pipeline, 9), None);
    assert_eq!(reports.next(&mut pipeline, 10).map(|report| report.frames_in), Some(1));
    // The next one counts from there.
    assert_eq!(reports.next(&mut pipeline, 9), None);
    pipeline.count_ring_frame();
    pipeline.count_ring_frame();
    assert_eq!(reports.next(&mut pipeline, 25).map(|report| report.frames_in), Some(2));
}

#[test]
fn a_request_that_says_nothing_asks_for_both_feeds() {
    let request = read_request(None, None, None, None, None, None);
    assert_eq!((request.preview, request.program), (true, true));
    assert_eq!((request.width, request.height), (640, 360));
    assert_eq!((request.program_path, request.transport), (Path::Raw, Transport::Shm));
    assert_eq!(request.wanted(Which::Preview).path, Path::View);
    assert_eq!(request.wanted(Which::Program).path, Path::Raw);
}

#[test]
fn sizes_are_made_even_and_kept_in_range() {
    let request = read_request(Some(false), None, Some(641), Some(-5), Some("view"), Some("ndi"));
    assert_eq!((request.width, request.height), (640, 16));
    assert_eq!((request.program_path, request.transport), (Path::View, Transport::Ndi));
    assert!(!request.wanted(Which::Preview).on);
    let large = read_request(None, None, Some(100_000), Some(3839), Some("VIEW"), Some("Ndi"));
    assert_eq!((large.width, large.height), (3840, 3838));
    assert_eq!((large.program_path, large.transport), (Path::Raw, Transport::Shm));
}

#[test]
fn a_small_mix_keeps_the_clock_and_drops_the_high_range() {
    let small = small_ovi(main_info(), 640, 360);
    assert_eq!((small.fps_num, small.fps_den, small.adapter), (60000, 1001, 1));
    assert_eq!((small.base_width, small.base_height), (1920, 1080));
    assert_eq!((small.output_width, small.output_height), (640, 360));
    assert_eq!(small.output_format, 2);
    assert_eq!(small.colorspace, 2);
    assert_eq!(
        raw_conversion(640, 360),
        VideoScaleInfo { format: 2, width: 640, height: 360, range: 0, colorspace: 0 }
    );
}

#[test]
fn a_view_is_attached_step_by_step() {
    let plan = attach(all_symbols(), Which::Preview, Path::View, 640, 360);
    let (calls, fault) = follow(plan, &[]);
    assert_eq!(fault, None);
    assert_eq!(
        calls,
        vec![
            AttachCall::GetVideoInfo,
            AttachCall::CreateView,
            AttachCall::WantedSource(Which::Preview),
            AttachCall::SetSource,
            AttachCall::ReadSourceName,
            AttachCall::ReleaseSource,
            AttachCall::AddMix(640, 360),
            AttachCall::CreateOutput(Which::Preview),
            AttachCall::TakeBackOffer,
            AttachCall::SetMedia,
            AttachCall::StartOutput,
        ]
    );
}

#[test]
fn what_a_failed_attach_holds_is_what_teardown_undoes() {
    let which = Which::Preview;
    let cases = [
        (AttachCall::GetVideoInfo, AttachFault::NoVideo, false, false),
        (AttachCall::CreateView, AttachFault::NoView, false, false),
        (AttachCall::AddMix(640, 360), AttachFault::NoMix, true, false),
        (AttachCall::CreateOutput(which), AttachFault::NoOutput, true, false),
        (AttachCall::TakeBackOffer, AttachFault::NotTaken, true, true),
        (AttachCall::StartOutput, AttachFault::NotStarted, true, true),
    ];
    let symbols = TeardownSymbols {
        remove_raw: true,
        output_stop: true,
        output_release: true,
        view_remove: true,
        view_destroy: true,
    };
    for (no, fault, view, output) in cases {
        let (calls, failed) = follow(attach(all_symbols(), which, Path::View, 640, 360), &[no]);
        assert_eq!(failed, Some(fault));
        let mut held = Held::new();
        for call in calls {
            held.note(call, call != no);
        }
        assert_eq!((held.view, held.output, held.raw_connected), (view, output, false), "{:?}", fault);
        let undo = teardown(symbols, held);
        assert_eq!(undo.contains(&TeardownCall::ReleaseOutput), output);
        assert_eq!(undo.contains(&TeardownCall::DestroyView), view);
        assert!(!undo.contains(&TeardownCall::RemoveRaw));
        assert_eq!(undo.first(), Some(&TeardownCall::StopRunning));
        assert_eq!(undo.last(), Some(&TeardownCall::JoinWorker));
    }
}

#[test]
fn the_raw_path_asks_for_one_callback() {
    let plan = attach(all_symbols(), Which::Program, Path::Raw, 640, 360);
    let (calls, fault) = follow(plan, &[]);
    assert_eq!(fault, None);
    assert_eq!(calls, vec![AttachCall::NameMainMix, AttachCall::GetVideoInfo, AttachCall::AddRaw(640, 360)]);
    let mut held = Held::new();
    for call in calls {
        held.note(call, true);
    }
    assert_eq!(held, Held { view: false, output: false, raw_connected: true });
}

#[test]
fn missing_symbols_stop_an_attach_before_the_first_call() {
    let without = [
        (Path::Raw, AttachSymbols { raw_callback: false, ..all_symbols() }, AttachFault::RawMissing),
        (Path::View, AttachSymbols { output_type: false, ..all_symbols() }, AttachFault::NotRegistered),
        (Path::View, AttachSymbols { view: false, ..all_symbols() }, AttachFault::ViewMissing),
        (Path::View, AttachSymbols { output: false, ..all_symbols() }, AttachFault::OutputMissing),
        (Path::View, AttachSymbols { video_info: false, ..all_symbols() }, AttachFault::VideoInfoMissing),
    ];
    for (path, symbols, fault) in without {
        let (calls, failed) = follow(attach(symbols, Which::Program, path, 16, 16), &[]);
        assert!(calls.is_empty());
        assert_eq!(failed, Some(fault));
    }
}

#[test]
fn every_attach_fault_has_its_text() {
    let text = |fault| attach_error(fault, "because");
    assert_eq!(text(AttachFault::RawMissing), "obs_add_raw_video_callback2 unavailable");
    assert_eq!(text(AttachFault::NotRegistered), "output type not registered");
    assert_eq!(text(AttachFault::ViewMissing), "obs_view_* unavailable");
    assert_eq!(text(AttachFault::OutputMissing), "obs_output_* unavailable");
    assert_eq!(text(AttachFault::VideoInfoMissing), "obs_get_video_info unavailable");
    assert_eq!(text(AttachFault::NoVideo), "obs_get_video_info returned false (video not initialised)");
    assert_eq!(text(AttachFault::NoView), "obs_view_create returned null");
    assert_eq!(text(AttachFault::NoMix), "obs_view_add2 returned null");
    assert_eq!(text(AttachFault::NoOutput), "obs_output_create returned null");
    assert_eq!(text(AttachFault::NotTaken), "output create callback never ran");
    assert_eq!(text(AttachFault::NotStarted), "obs_output_start failed: because");
}

#[test]
fn the_output_begins_only_where_it_can() {
    assert_eq!(follow(output_start(true, true), &[]), (vec![OutputStartCall::CanBegin, OutputStartCall::Begin], None));
    assert_eq!(
        follow(output_start(true, true), &[OutputStartCall::CanBegin]),
        (vec![OutputStartCall::CanBegin], Some(OutputStartFault::CannotBegin))
    );
    assert_eq!(follow(output_start(true, true), &[OutputStartCall::Begin]).1, Some(OutputStartFault::NotBegun));
    assert_eq!(follow(output_start(true, false), &[]), (vec![], Some(OutputStartFault::SymbolMissing)));
    assert_eq!(follow(output_start(false, true), &[]), (vec![], Some(OutputStartFault::NoData)));
}

#[test]
fn a_feed_that_cannot_be_attached_is_taken_down() {
    let start = || start_feed(true, Which::Program, Path::Raw, Transport::Shm);
    let make = StartCall::MakeTransport(Which::Program, Transport::Shm);
    let spawn = StartCall::SpawnWorker(Path::Raw);
    assert_eq!(follow(start(), &[]), (vec![StartCall::GetVideoInfo, make, spawn, StartCall::Attach], None));
    assert_eq!(
        follow(start(), &[StartCall::Attach]),
        (
            vec![StartCall::GetVideoInfo, make, spawn, StartCall::Attach, StartCall::Teardown],
            Some(StartFault::NotAttached)
        )
    );
    assert_eq!(follow(start(), &[spawn]).1, Some(StartFault::NoWorker));
    assert_eq!(follow(start(), &[make]).1, Some(StartFault::NoTransport));
    assert_eq!(follow(start(), &[StartCall::GetVideoInfo]).1, Some(StartFault::NoVideo));
    let blind = start_feed(false, Which::Program, Path::Raw, Transport::Shm);
    assert_eq!(follow(blind, &[]), (vec![], Some(StartFault::VideoInfoMissing)));
    assert_eq!(start_error(StartFault::VideoInfoMissing, "x"), "obs_get_video_info unavailable");
    assert_eq!(start_error(StartFault::NoVideo, "x"), "obs_get_video_info returned false (video not initialised)");
    assert_eq!(start_error(StartFault::NoTransport, "x"), "x");
    assert_eq!(start_error(StartFault::NoWorker, "x"), "spawning send worker failed: x");
    assert_eq!(start_error(StartFault::NotAttached, "x"), "x");
}

#[test]
fn a_feed_that_serves_is_left_alone() {
    let mut feeds: Feeds<u32> = Feeds::new();
    let request = read_request(None, Some(false), None, None, None, None);
    let wanted = request.wanted(Which::Preview);
    let change = feeds.reconcile(Which::Preview, wanted);
    assert!(change.stop.is_none() && change.start);
    feeds.keep(Feed { settings: feed_settings(Which::Preview, wanted, main_info()), handle: 1 });
    assert_eq!(feeds.watch(), Some(true));
    assert_eq!(feeds.watch(), None);
    let again = feeds.reconcile(Which::Preview, wanted);
    assert!(again.stop.is_none() && !again.start);
    assert_eq!(feeds.feed(Which::Preview).map(|feed| feed.handle), Some(1));
    // Another size: the old feed goes, a new one comes.
    let larger = read_request(None, None, Some(1280), Some(720), None, None).wanted(Which::Preview);
    let change = feeds.reconcile(Which::Preview, larger);
    assert_eq!(change.stop.map(|feed| feed.handle), Some(1));
    assert!(change.start);
    assert!(feeds.feed(Which::Preview).is_none());
    // Program was not asked for.
    let off = feeds.reconcile(Which::Program, request.wanted(Which::Program));
    assert!(off.stop.is_none() && !off.start);
    assert_eq!(feeds.watch(), Some(false));
}

#[test]
fn stopping_all_feeds_hands_them_out() {
    let mut feeds: Feeds<u32> = Feeds::new();
    let request = read_request(None, None, None, None, None, None);
    for (which, handle) in [(Which::Program, 2), (Which::Preview, 1)] {
        let settings = feed_settings(which, request.wanted(which), main_info());
        feeds.keep(Feed { settings, handle });
    }
    assert_eq!(feeds.watch(), Some(true));
    let handles: Vec<u32> = stop_all(&mut feeds).into_iter().map(|feed| feed.handle).collect();
    assert_eq!(handles, vec![1, 2]);
    assert!(feeds.unwatch());
    assert!(!feeds.unwatch());
    assert!(!feeds.is_exiting());
    feeds.exit();
    assert!(feeds.is_exiting());
}

/// Carries a request out; Program never starts where `program` is none.
fn carry_out(
    feeds: &mut Feeds<u32>,
    run: &mut FeedRequest,
    program: Option<u32>,
) -> (Vec<String>, Result<(), String>) {
    let mut steps = Vec::new();
    loop {
        match run.next(feeds) {
            FeedStep::Teardown(feed) => steps.push(format!("teardown {}", feed.handle)),
            FeedStep::Start(Which::Preview, _) => {
                steps.push("start preview".to_string());
                run.started(feeds, Ok((main_info(), 1)));
            }
            FeedStep::Start(Which::Program, _) => {
                steps.push("start program".to_string());
                let outcome = program.map(|handle| (main_info(), handle)).ok_or("no video".to_string());
                run.started(feeds, outcome);
            }
            FeedStep::Listen(on) => steps.push(format!("listen {}", on)),
            FeedStep::Finished(result) => return (steps, result),
        }
    }
}

#[test]
fn a_request_sets_what_runs_and_then_changes_nothing() {
    let mut feeds: Feeds<u32> = Feeds::new();
    let both = read_request(None, None, None, None, None, None);
    let (steps, result) = carry_out(&mut feeds, &mut FeedRequest::begin(both), Some(2));
    assert_eq!(steps, vec!["start preview", "start program", "listen true"]);
    assert_eq!(result, Ok(()));
    assert_eq!(carry_out(&mut feeds, &mut FeedRequest::begin(both), Some(3)), (vec![], Ok(())));
    let other = read_request(Some(false), None, Some(320), Some(180), None, None);
    let (steps, result) = carry_out(&mut feeds, &mut FeedRequest::begin(other), None);
    assert_eq!(steps, vec!["teardown 1", "teardown 2", "start program", "listen false"]);
    assert_eq!(result, Err("program: no video".to_string()));
    let none = read_request(Some(false), Some(false), None, None, None, None);
    assert_eq!(carry_out(&mut feeds, &mut FeedRequest::begin(none), None), (vec![], Ok(())));
}

#[test]
fn a_feed_that_is_not_as_wanted_is_handed_out_first() {
    let mut feeds: Feeds<u32> = Feeds::new();
    let both = read_request(None, None, None, None, None, None);
    carry_out(&mut feeds, &mut FeedRequest::begin(both), Some(2)).1.unwrap();
    // Each feed is taken down before its own successor starts.
    let smaller = read_request(None, None, Some(320), Some(180), None, None);
    let (steps, result) = carry_out(&mut feeds, &mut FeedRequest::begin(smaller), Some(4));
    assert_eq!(steps, vec!["teardown 1", "start preview", "teardown 2", "start program"]);
    assert_eq!(result, Ok(()));
    assert_eq!(feeds.feed(Which::Program).map(|feed| feed.handle), Some(4));
    // One feed stays while the other goes.
    let preview = read_request(None, Some(false), Some(320), Some(180), None, None);
    let (steps, _) = carry_out(&mut feeds, &mut FeedRequest::begin(preview), None);
    assert_eq!(steps, vec!["teardown 4"]);
    assert!(feeds.feed(Which::Preview).is_some() && feeds.feed(Which::Program).is_none());
}

#[test]
fn a_request_while_obs_exits_changes_nothing() {
    let mut feeds: Feeds<u32> = Feeds::new();
    let preview = read_request(None, Some(false), None, None, None, None);
    carry_out(&mut feeds, &mut FeedRequest::begin(preview), None).1.unwrap();
    feeds.exit();
    let other = read_request(Some(false), None, None, None, None, None);
    let refused = carry_out(&mut feeds, &mut FeedRequest::begin(other), Some(2));
    assert_eq!(refused, (vec![], Err("OBS is exiting".to_string())));
    assert_eq!(feeds.feed(Which::Preview).map(|feed| feed.handle), Some(1));
    assert!(feeds.feed(Which::Program).is_none());
    assert!(feeds.unwatch());
}

#[test]
fn nothing_starts_once_obs_exits() {
    let mut feeds: Feeds<u32> = Feeds::new();
    let both = read_request(None, None, None, None, None, None);
    let (_, result) = carry_out(&mut feeds, &mut FeedRequest::begin(both), Some(2));
    assert_eq!(result, Ok(()));
    let (stopped, listening) = stop(&mut feeds, true);
    assert_eq!(stopped.into_iter().map(|feed| feed.handle).collect::<Vec<u32>>(), vec![1, 2]);
    assert!(listening);
    let refused = carry_out(&mut feeds, &mut FeedRequest::begin(both), Some(2));
    assert_eq!(refused, (vec![], Err("OBS is exiting".to_string())));
    let (stopped, listening) = stop(&mut feeds, false);
    assert!(stopped.is_empty() && !listening);
    assert!(feeds.is_exiting());
}

#[test]
fn the_output_type_is_registered_where_libobs_can() {
    let mut feeds: Feeds<u32> = Feeds::new();
    assert!(!register_output_type(&mut feeds, false));
    assert!(!feeds.has_output_type());
    assert!(register_output_type(&mut feeds, true));
    assert!(feeds.has_output_type());
}

#[test]
fn a_feed_runs_at_the_rate_of_the_main_mix() {
    let wanted = read_request(None, None, None, None, None, Some("ndi")).wanted(Which::Program);
    let settings = feed_settings(Which::Program, wanted, main_info());
    assert_eq!((settings.fps_num, settings.fps_den), (60000, 1001));
    assert_eq!((settings.width, settings.height), (640, 360));
    let stopped = ObsVideoInfo { fps_num: 0, fps_den: 0, ..main_info() };
    let settings = feed_settings(Which::Program, wanted, stopped);
    assert_eq!((settings.fps_num, settings.fps_den), (1, 1));
}

#[test]
fn the_two_outcomes_become_one() {
    let bad = |text: &str| Some(text.to_string());
    assert_eq!(apply(false, None, None), Ok(()));
    assert_eq!(apply(false, bad("a"), None), Err("preview: a".to_string()));
    assert_eq!(apply(false, None, bad("b")), Err("program: b".to_string()));
    assert_eq!(apply(false, bad("a"), bad("b")), Err("preview: a; program: b".to_string()));
    assert_eq!(apply(true, bad("a"), None), Err("OBS is exiting".to_string()));
}

#[test]
fn only_events_that_move_a_picture_matter() {
    assert_eq!(on_frontend_event(EVENT_EXIT), EventAction::Exit);
    assert_eq!(on_frontend_event(EVENT_SCENE_COLLECTION_CLEANUP), EventAction::Clear);
    for event in [
        EVENT_SCENE_CHANGED,
        EVENT_TRANSITION_CHANGED,
        EVENT_SCENE_COLLECTION_CHANGED,
        EVENT_STUDIO_MODE_ENABLED,
        EVENT_STUDIO_MODE_DISABLED,
        EVENT_PREVIEW_SCENE_CHANGED,
    ] {
        assert_eq!(on_frontend_event(event), EventAction::Refresh);
    }
    assert_eq!(on_frontend_event(0), EventAction::Ignore);
    assert_eq!(on_frontend_event(-1), EventAction::Ignore);
}

#[test]
fn a_refresh_sets_only_another_source() {
    let follows = || refresh_view(true, true, Which::Preview, false);
    // `Compare` is answered yes where the wanted source is not the one shown.
    let (other, fault) = follow(follows(), &[]);
    assert_eq!(fault, None);
    assert_eq!(
        other,
        vec![
            RefreshCall::WantedSource(Which::Preview),
            RefreshCall::CurrentSource,
            RefreshCall::Compare,
            RefreshCall::ReleaseCurrent,
            RefreshCall::SetSource,
            RefreshCall::ReadSourceName,
            RefreshCall::ReleaseWanted,
        ]
    );
    let (same, _) = follow(follows(), &[RefreshCall::Compare]);
    assert!(!same.contains(&RefreshCall::SetSource));
    assert!(same.contains(&RefreshCall::ReleaseWanted));
    let none = [RefreshCall::WantedSource(Which::Preview), RefreshCall::CurrentSource, RefreshCall::Compare];
    let (empty, _) = follow(follows(), &none);
    assert_eq!(empty, none);
    let (cleared, _) = follow(refresh_view(true, true, Which::Preview, true), &[]);
    assert!(!cleared.contains(&RefreshCall::WantedSource(Which::Preview)));
    assert!(cleared.contains(&RefreshCall::SetSource));
    assert_eq!(follow(refresh_view(false, true, Which::Preview, false), &[]).1, Some(RefreshFault::NoView));
    assert_eq!(follow(refresh_view(true, false, Which::Preview, true), &[]).1, Some(RefreshFault::SymbolMissing));
}

#[test]
fn work_for_the_ui_thread_needs_it() {
    assert_eq!(run_on_ui(false, true, Ok(())), Err("obs_queue_task unavailable".to_string()));
    assert_eq!(run_on_ui(true, false, Ok(())), Err("UI task handler unavailable".to_string()));
    assert_eq!(run_on_ui(true, true, Ok(())), Ok(()));
    assert_eq!(run_on_ui(true, true, Err("x".to_string())), Err("x".to_string()));
}

#[test]
fn a_status_tells_of_both_feeds() {
    let settings = FeedSettings {
        which: Which::Program,
        path: Path::Raw,
        transport: Transport::Shm,
        width: 640,
        height: 360,
        fps_num: 30,
        fps_den: 1,
    };
    let counters = Snapshot { frames_in: 5, frames_sent: 4, frames_dropped: 1, copy_ns: 7, send_ns: 9 };
    let feed = FeedStatus { settings, ring: "/r".to_string(), source: "Scene".to_string(), counters };
    let status = handle_video_feed_status(&None, &Some(feed));
    assert_eq!(
        shown(&status),
        vec![
            "ok=true",
            "preview_active=false",
            "program_active=true",
            "program_ndi_name=FrameSW Program",
            "program_path=raw",
            "program_transport=shm",
            "program_ring=/r",
            "program_source=Scene",
            "program_width=640",
            "program_height=360",
            "program_fps_num=30",
            "program_fps_den=1",
            "program_frames_in=5",
            "program_frames_sent=4",
            "program_frames_dropped=1",
            "program_copy_ns_total=7",
            "program_send_ns_total=9",
        ]
    );
    let refused = handle_start_video_feed(&Err("OBS is exiting".to_string()), &None, &None);
    assert!(shown(&refused).contains(&"error=OBS is exiting".to_string()));
    assert!(shown(&refused).contains(&"ok=false".to_string()));
    assert_eq!(shown(&handle_stop_video_feed(&Ok(()))), vec!["ok=true"]);
    assert_eq!(shown(&handle_stop_video_feed(&Err("x".to_string()))), vec!["ok=false", "error=x"]);
}
