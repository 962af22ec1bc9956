use lidar_fanout::channel::Received;
use lidar_fanout::frame::SendStatus;
use lidar_fanout::live_view::{absorb, DrainState, LiveViewSink, StepOutcome};
use lidar_fanout::message::{GuiMessage, LidarMessage};
use lidar_fanout::output::frame_layout;
use lidar_fanout::producer::{action_for, LidarHandler, ProducerAction, PublishReport};
use std::path::PathBuf;
use std::sync::Arc;

type Points = Vec<u32>;
type Pose = (i32, i32, i32);

fn handler(
    name: &str,
    agg_tx: flume::Sender<LidarMessage<Points>>,
    gui_tx: Option<flume::Sender<GuiMessage<Points, Pose>>>,
) -> LidarHandler<Points, Pose> {
    LidarHandler::new(
        Arc::new(name.to_string()),
        Arc::new(PathBuf::from(format!("/out/{name}"))),
        agg_tx,
        gui_tx,
    )
}

fn drain_ids(rx: &flume::Receiver<LidarMessage<Points>>) -> Vec<usize> {
    rx.try_iter().map(|m| m.frame_id).collect()
}

#[test]
fn frame_ids_without_drops_are_contiguous() {
    let (tx, rx) = flume::bounded(8);
    let mut h = handler("car_001", tx, None);
    for n in 0..6u32 {
        let report = h.process_msg(vec![n; n as usize], (0, 0, 0));
        assert_eq!(report.aggregator, SendStatus::Delivered);
        assert_eq!(report.live_view, None);
    }
    assert_eq!(drain_ids(&rx), vec![0, 1, 2, 3, 4, 5]);
    assert_eq!(h.next_frame_id(), 6);
}

#[test]
fn full_attempts_leave_a_gap_of_that_size() {
    let (tx, rx) = flume::bounded(1);
    let mut h = handler("car_002", tx, None);
    assert_eq!(h.process_msg(vec![1], (0, 0, 0)).aggregator, SendStatus::Delivered);
    for expected in 1..4usize {
        let report = h.process_msg(vec![2], (0, 0, 0));
        assert_eq!(report.frame_id, expected);
        assert_eq!(report.aggregator, SendStatus::Full);
        assert!(!report.should_stop());
    }
    assert_eq!(drain_ids(&rx), vec![0]);
    let report = h.process_msg(vec![3], (0, 0, 0));
    assert_eq!(report.aggregator, SendStatus::Delivered);
    assert_eq!(report.frame_id, 0 + 3 + 1);
    assert_eq!(drain_ids(&rx), vec![4]);
}

#[test]
fn closing_senders_loses_nothing_enqueued() {
    let (tx, rx) = flume::bounded(4);
    let mut h = handler("car_003", tx, None);
    for _ in 0..3 {
        h.process_msg(vec![7, 7], (0, 0, 0));
    }
    drop(h);
    let mut ids = vec![];
    while let Ok(msg) = rx.recv() {
        ids.push(msg.frame_id);
    }
    assert_eq!(ids, vec![0, 1, 2]);
    assert!(rx.is_disconnected());
}

#[test]
fn three_frames_give_three_files() {
    let (tx, rx) = flume::bounded(3);
    let mut h = handler("car_001", tx, None);
    for n in [5usize, 0, 12] {
        h.process_msg(vec![0; n], (0, 0, 0));
    }
    drop(h);
    let layouts: Vec<_> = rx
        .iter()
        .map(|m| {
            assert_eq!(m.sub_outdir.as_path(), std::path::Path::new("/out/car_001"));
            assert_eq!(m.role_name.as_str(), "car_001");
            frame_layout(m.frame_id, m.measure.len())
        })
        .collect();
    assert_eq!(layouts.len(), 3);
    let names: Vec<&str> = layouts.iter().map(|l| l.file_name.as_str()).collect();
    assert_eq!(names, vec!["00000.pcd", "00001.pcd", "00002.pcd"]);
    let widths: Vec<u64> = layouts.iter().map(|l| l.width).collect();
    assert_eq!(widths, vec![5, 0, 12]);
    assert!(layouts.iter().all(|l| l.height == 1));
}

#[test]
fn capacity_one_two_rapid_sends() {
    let (tx, rx) = flume::bounded(1);
    let mut h = handler("car_004", tx, None);
    let first = h.process_msg(vec![1, 2], (0, 0, 0));
    let second = h.process_msg(vec![3], (0, 0, 0));
    assert_eq!(first.aggregator, SendStatus::Delivered);
    assert_eq!(second.aggregator, SendStatus::Full);
    assert_eq!(second.frame_id, 1);
    assert_eq!(h.next_frame_id(), 2);
    drop(h);
    let written: Vec<_> = rx.iter().collect();
    assert_eq!(written.len(), 1);
    assert_eq!(written[0].frame_id, 0);
    assert_eq!(*written[0].measure, vec![1, 2]);
}

#[test]
fn termination_flag_closes_before_draining() {
    let (tx, rx) = flume::bounded::<u32>(4);
    tx.send(1).unwrap();
    tx.send(2).unwrap();
    let mut sink = LiveViewSink::new(rx.clone());
    assert!(matches!(sink.step(true, 100), StepOutcome::Close));
    assert!(sink.is_finished());
    assert_eq!(rx.len(), 2);
    assert!(matches!(sink.step(false, 100), StepOutcome::Close));
    assert_eq!(rx.len(), 2);
}

#[test]
fn step_drains_what_is_waiting() {
    let (tx, rx) = flume::bounded::<u32>(8);
    for i in 0..5 {
        tx.send(i).unwrap();
    }
    let mut sink = LiveViewSink::new(rx);
    match sink.step(false, 3) {
        StepOutcome::Render(batch) => assert_eq!(batch, vec![0, 1, 2]),
        StepOutcome::Close => panic!("closed with senders alive"),
    }
    match sink.step(false, 100) {
        StepOutcome::Render(batch) => assert_eq!(batch, vec![3, 4]),
        StepOutcome::Close => panic!("closed with senders alive"),
    }
    match sink.step(false, 100) {
        StepOutcome::Render(batch) => assert!(batch.is_empty()),
        StepOutcome::Close => panic!("closed with senders alive"),
    }
    assert!(!sink.is_finished());
    drop(tx);
    assert!(matches!(sink.step(false, 100), StepOutcome::Close));
    assert!(sink.is_finished());
}

#[test]
fn gather_reports_a_closed_channel() {
    let (tx, rx) = flume::bounded::<u32>(4);
    let mut sink = LiveViewSink::new(rx.clone());
    assert_eq!(sink.gather_msgs(10), Some(vec![]));
    tx.send(9).unwrap();
    tx.send(8).unwrap();
    assert_eq!(sink.gather_msgs(0), Some(vec![]));
    assert_eq!(rx.len(), 2);
    assert_eq!(sink.gather_msgs(10), Some(vec![9, 8]));
    assert!(rx.is_empty());
    tx.send(7).unwrap();
    drop(tx);
    assert_eq!(sink.gather_msgs(10), None);
    assert_eq!(sink.gather_msgs(10), None);
    assert!(!sink.is_finished());
}

#[test]
fn zero_item_step_renders_nothing() {
    let (tx, rx) = flume::bounded::<u32>(4);
    tx.send(1).unwrap();
    let mut sink = LiveViewSink::new(rx.clone());
    match sink.step(false, 0) {
        StepOutcome::Render(batch) => assert!(batch.is_empty()),
        StepOutcome::Close => panic!("closed with senders alive"),
    }
    assert_eq!(rx.len(), 1);
}

#[test]
fn live_view_gets_the_same_measurement_and_pose() {
    let (agg_tx, agg_rx) = flume::bounded(2);
    let (gui_tx, gui_rx) = flume::bounded(2);
    let mut h = handler("car_005", agg_tx, Some(gui_tx));
    let report = h.process_msg(vec![4, 5, 6], (1, 2, 3));
    assert_eq!(report.live_view, Some(SendStatus::Delivered));
    let agg = agg_rx.try_recv().unwrap();
    let gui = gui_rx.try_recv().unwrap();
    assert!(Arc::ptr_eq(&agg.measure, &gui.measure));
    assert_eq!(gui.transform, (1, 2, 3));
    assert_eq!(gui.role_name.as_str(), "car_005");
}

#[test]
fn closed_consumer_stops_the_source() {
    let (agg_tx, agg_rx) = flume::bounded(2);
    let (gui_tx, gui_rx) = flume::bounded(2);
    let mut h = handler("car_006", agg_tx, Some(gui_tx));
    drop(gui_rx);
    let report = h.process_msg(vec![1], (0, 0, 0));
    assert_eq!(report.aggregator, SendStatus::Delivered);
    assert_eq!(report.live_view, Some(SendStatus::Closed));
    assert!(report.should_stop());
    drop(agg_rx);
    let report = h.process_msg(vec![1], (0, 0, 0));
    assert_eq!(report.frame_id, 1);
    assert_eq!(report.aggregator, SendStatus::Closed);
    assert!(report.should_stop());
}

#[test]
fn full_live_view_only_warns() {
    let (agg_tx, _agg_rx) = flume::bounded(4);
    let (gui_tx, _gui_rx) = flume::bounded(1);
    let mut h = handler("car_007", agg_tx, Some(gui_tx));
    h.process_msg(vec![1], (0, 0, 0));
    let report = h.process_msg(vec![1], (0, 0, 0));
    assert_eq!(report.aggregator, SendStatus::Delivered);
    assert_eq!(report.live_view, Some(SendStatus::Full));
    assert!(!report.should_stop());
}

#[test]
fn drop_policy_per_outcome() {
    assert_eq!(action_for(SendStatus::Delivered), ProducerAction::Continue);
    assert_eq!(action_for(SendStatus::Full), ProducerAction::WarnDropped);
    assert_eq!(action_for(SendStatus::Closed), ProducerAction::Stop);
    let report = PublishReport {
        frame_id: 3,
        aggregator: SendStatus::Full,
        live_view: Some(SendStatus::Full),
    };
    assert!(!report.should_stop());
    let report = PublishReport { frame_id: 3, aggregator: SendStatus::Closed, live_view: None };
    assert!(report.should_stop());
}

#[test]
fn envelope_carries_the_source_identity() {
    let (tx, _rx) = flume::bounded(1);
    let h = handler("car_008", tx, None);
    let msg = h.envelope(17, Arc::new(vec![1, 2, 3]));
    assert_eq!(msg.frame_id, 17);
    assert_eq!(msg.role_name.as_str(), "car_008");
    assert_eq!(h.role_name().as_str(), "car_008");
    assert_eq!(msg.sub_outdir.as_path(), std::path::Path::new("/out/car_008"));
    assert_eq!(*msg.measure, vec![1, 2, 3]);
}

#[test]
fn absorb_appends_items_and_ends_otherwise() {
    let mut batch = vec![1u32];
    assert_eq!(absorb(&mut batch, Received::Item(2)), DrainState::More);
    assert_eq!(batch, vec![1, 2]);
    assert_eq!(absorb(&mut batch, Received::Empty), DrainState::Done);
    assert_eq!(batch, vec![1, 2]);
    assert_eq!(absorb(&mut batch, Received::Closed), DrainState::Closed);
    assert_eq!(batch, vec![1, 2]);
}
