use std::collections::HashMap;

use ableton_link::discovery::peers::PeerState;
use ableton_link::link::duration::Duration;
use ableton_link::link::ghostxform::GhostXForm;
use ableton_link::link::measurement::{
    measure_peer, measurement_done, measurement_result, median, on_measure_request, read_pong,
    MeasurePeerEvent,
    samples_can_be_counted, Measurement, MeasurementEndpointV4, MeasurementEntry,
    MeasurementService, TimerAction,
    MEASUREMENT_ENDPOINT_V4_HEADER_KEY, MEASUREMENT_ENDPOINT_V4_SIZE,
};
use ableton_link::link::node::{NodeId, NodeState};
use ableton_link::link::payload::{PayloadEntry, SocketAddrV4};
use ableton_link::link::sessions::{SessionId, SessionMembership};
use ableton_link::link::state::StartStopState;
use ableton_link::link::timeline::{Beats, Tempo, Timeline};
use ableton_link::link::wire::Error;

fn micros(n: i64) -> Duration {
    Duration::microseconds(n)
}

fn state() -> PeerState {
    PeerState {
        node_state: NodeState {
            node_id: NodeId(8),
            session_id: SessionId(NodeId(2)),
            timeline: Timeline {
                tempo: Tempo::new(0),
                beat_origin: Beats::new(0),
                time_origin: Duration::zero(),
            },
            start_stop_state: StartStopState {
                is_playing: false,
                beats: Beats::new(0),
                timestamp: Duration::zero(),
            },
        },
        measurement_endpoint: Some(SocketAddrV4 { ip: 0x7f000001, port: 20808 }),
    }
}

fn pong(session: u64, ghost: i64, prev_ghost: i64, host: i64) -> Vec<PayloadEntry> {
    vec![
        PayloadEntry::SessionMembership(SessionMembership {
            session_id: SessionId(NodeId(session)),
        }),
        PayloadEntry::GhostTime(micros(ghost)),
        PayloadEntry::PrevGhostTime(micros(prev_ghost)),
        PayloadEntry::HostTime(micros(host)),
    ]
}

fn intercept(event: MeasurePeerEvent) -> Option<Duration> {
    match event {
        MeasurePeerEvent::XForm(_, x_form) => {
            if x_form == GhostXForm::default() {
                None
            } else {
                assert_eq!(f64::from_bits(x_form.slope_bits), 1.0);
                Some(x_form.intercept)
            }
        }
        _ => panic!("no result"),
    }
}

#[test]
fn endpoint_is_encoded_with_its_header_and_read_back() {
    let entry = MeasurementEndpointV4 {
        endpoint: Some(SocketAddrV4 { ip: 0xC0A80102, port: 0x5148 }),
    };
    let bytes = entry.encode().unwrap();
    assert_eq!(
        bytes,
        vec![0x6d, 0x65, 0x70, 0x34, 0, 0, 0, 6, 0xC0, 0xA8, 1, 2, 0x51, 0x48]
    );
    assert_eq!(MEASUREMENT_ENDPOINT_V4_HEADER_KEY, 0x6d657034);
    assert_eq!(MEASUREMENT_ENDPOINT_V4_SIZE, 6);
    assert_eq!(MeasurementEndpointV4::decode(&bytes[8..]), Ok(entry));
}

#[test]
fn endpoint_of_too_few_bytes_is_refused() {
    assert_eq!(MeasurementEndpointV4::decode(&[1, 2, 3, 4, 5]), Err(Error::Decode));
    assert_eq!(MeasurementEndpointV4::decode(&[]), Err(Error::Decode));
    assert_eq!(
        MeasurementEndpointV4::decode(&[0, 0, 0, 1, 0, 2, 9]),
        Ok(MeasurementEndpointV4 { endpoint: Some(SocketAddrV4 { ip: 1, port: 2 }) })
    );
}

#[test]
fn last_entry_of_each_sort_counts() {
    let mut entries = pong(2, 10, 20, 30);
    entries.push(PayloadEntry::GhostTime(micros(11)));
    entries.push(PayloadEntry::Other);
    let read = read_pong(&entries);
    assert_eq!(read.session_id, SessionId(NodeId(2)));
    assert_eq!(read.ghost_time, micros(11));
    assert_eq!(read.prev_ghost_time, micros(20));
    assert_eq!(read.prev_host_time, micros(30));
    let nothing = read_pong(&vec![]);
    assert_eq!(nothing.session_id, SessionId(NodeId(0)));
    assert_eq!(nothing.ghost_time, Duration::zero());
}

#[test]
fn measurement_starts_with_a_ping_of_the_host_time() {
    let (measurement, ping) = Measurement::new(state(), micros(5));
    assert_eq!(measurement.session_id, SessionId(NodeId(2)));
    assert_eq!(measurement.measurement_endpoint, state().measurement_endpoint);
    assert!(measurement.data.is_empty());
    assert!(!measurement.success);
    assert_eq!(ping.len(), 1);
    assert!(matches!(ping[0], PayloadEntry::HostTime(t) if t == micros(5)));
}

#[test]
fn pong_gives_two_samples_and_a_reply() {
    let (mut measurement, _) = Measurement::new(state(), micros(5));
    let outcome = measurement.on_pong(&pong(2, 1_000, 900, 100), micros(301));
    assert_eq!(measurement.data, vec![2 * 1_000 - (301 + 100), 1_000 + 900 - 2 * 100]);
    assert!(!outcome.is_done);
    let reply = outcome.reply.unwrap();
    assert_eq!(reply.len(), 2);
    assert!(matches!(reply[0], PayloadEntry::HostTime(t) if t == micros(301)));
    assert!(matches!(reply[1], PayloadEntry::PrevGhostTime(t) if t == micros(900)));
}

#[test]
fn pong_without_previous_ghost_time_gives_one_sample() {
    let (mut measurement, _) = Measurement::new(state(), micros(5));
    measurement.on_pong(&pong(2, 1_000, 0, 100), micros(301));
    assert_eq!(measurement.data, vec![1_599]);
    let outcome = measurement.on_pong(&pong(2, 0, 900, 100), micros(301));
    assert_eq!(measurement.data.len(), 1);
    assert!(outcome.reply.is_some());
    measurement.on_pong(&pong(2, 1_000, 900, 0), micros(301));
    assert_eq!(measurement.data.len(), 1);
}

#[test]
fn equal_delays_cancel() {
    let (mut measurement, _) = Measurement::new(state(), micros(5));
    for delay in [0i64, 7, 1234] {
        measurement.data.clear();
        measurement.on_pong(&pong(2, 100 + delay + 5_000, 0, 100), micros(100 + 2 * delay));
        assert_eq!(measurement.data, vec![2 * 5_000]);
    }
}

#[test]
fn pong_of_another_session_is_ignored() {
    let (mut measurement, _) = Measurement::new(state(), micros(5));
    let outcome = measurement.on_pong(&pong(3, 1_000, 900, 100), micros(301));
    assert!(outcome.reply.is_none());
    assert!(!outcome.is_done);
    assert!(measurement.data.is_empty());
}

#[test]
fn measurement_is_done_after_more_than_twenty_samples() {
    let (mut measurement, _) = Measurement::new(state(), micros(5));
    for _ in 0..10 {
        assert!(!measurement.on_pong(&pong(2, 1_000, 900, 100), micros(301)).is_done);
    }
    assert_eq!(measurement.data.len(), 20);
    assert!(measurement.on_pong(&pong(2, 1_000, 0, 100), micros(301)).is_done);
    let data = measurement.finish();
    assert_eq!(data.len(), 21);
    assert!(measurement.success);
    assert!(measurement.data.is_empty());
}

#[test]
fn timer_gives_up_after_five_pings() {
    let (mut measurement, _) = Measurement::new(state(), micros(5));
    measurement.on_pong(&pong(2, 1_000, 0, 100), micros(301));
    for n in 0..5 {
        match measurement.on_timer(micros(n)) {
            TimerAction::Ping(entries) => {
                assert!(matches!(entries[0], PayloadEntry::HostTime(t) if t == micros(n)));
            }
            TimerAction::Fail(_) => panic!("too early"),
        }
        measurement.ping_sent();
    }
    assert_eq!(measurement.data.len(), 1);
    assert!(matches!(measurement.on_timer(micros(9)), TimerAction::Fail(data) if data.is_empty()));
    assert!(measurement.data.is_empty());
    assert!(!measurement.success);
}

#[test]
fn median_is_the_middle_or_the_mean_of_the_two_in_the_middle() {
    assert_eq!(median(vec![5, 1, 3]), 6);
    assert_eq!(median(vec![4, 1, 3, 2]), 5);
    assert_eq!(median(vec![3, 2, 4, 1]), 5);
    assert_eq!(median(vec![-7, -7, -7, 100, -7]), -14);
}

#[test]
fn median_lies_among_the_samples() {
    let data: Vec<i128> = vec![9, -4, 12, 7, 7, 0];
    let quarters = median(data.clone());
    assert_eq!(quarters, 14);
    assert!(2 * -4 <= quarters && quarters <= 2 * 12);
}

#[test]
fn result_is_rounded_half_away_from_zero() {
    let id = SessionId(NodeId(2));
    let of = |data: Vec<i128>| intercept(measurement_result(id, data)).unwrap();
    assert_eq!(of(vec![10, 10, 10]), micros(5));
    assert_eq!(of(vec![9, 9, 9]), micros(5));
    assert_eq!(of(vec![-9, -9, -9]), micros(-5));
    assert_eq!(of(vec![8, 8, 9, 9]), micros(4));
    assert_eq!(of(vec![-8, -8, -9, -9]), micros(-4));
    assert_eq!(of(vec![9, 9, 10, 10]), micros(5));
}

#[test]
fn result_is_cut_off_at_the_ends() {
    let id = SessionId(NodeId(2));
    let far: i128 = 0x1_8000_0000_0000_0000;
    assert_eq!(
        intercept(measurement_result(id, vec![far, far, far])),
        Some(micros(i64::MAX))
    );
    assert_eq!(
        intercept(measurement_result(id, vec![-far, -far, -far])),
        Some(micros(i64::MIN))
    );
}

#[test]
fn result_without_samples_is_no_transform() {
    let event = measurement_result(SessionId(NodeId(2)), vec![]);
    assert!(matches!(event, MeasurePeerEvent::XForm(id, _) if id == SessionId(NodeId(2))));
    assert!(intercept(event).is_none());
    assert!(intercept(measurement_result(SessionId(NodeId(2)), vec![0, 0, 0])).is_some());
}

#[test]
fn measurements_are_kept_by_peer_until_done() {
    let mut service = MeasurementService::new(&state(), GhostXForm::default());
    assert!(service.measurement_map.is_empty());
    let (mut first, ping) = measure_peer(&mut service.measurement_map, state(), micros(5));
    assert_eq!(ping.len(), 1);
    assert_eq!(
        service.measurement_map.get(&8),
        Some(&MeasurementEntry {
            session_id: SessionId(NodeId(2)),
            measurement_endpoint: state().measurement_endpoint,
        })
    );
    let (second, _) = measure_peer(&mut service.measurement_map, state(), micros(6));
    first.ping_sent();
    assert_eq!(first.measurements_started, 1);
    assert_eq!(second.measurements_started, 0);
    assert_eq!(service.measurement_map.len(), 1);
    let event = measurement_done(
        &mut service.measurement_map,
        NodeId(8),
        SessionId(NodeId(2)),
        vec![20, 20, 20],
    );
    assert_eq!(intercept(event), Some(micros(10)));
    let left: &HashMap<u64, MeasurementEntry> = &service.measurement_map;
    assert!(left.is_empty());
}

#[test]
fn samples_of_times_that_are_too_long_cannot_be_counted() {
    assert!(samples_can_be_counted(&pong(2, 1_000, 900, 100), micros(301)));
    assert!(samples_can_be_counted(&vec![], micros(i64::MAX)));
    assert!(!samples_can_be_counted(&pong(2, 1_000, 0, i64::MAX), micros(1)));
    assert!(samples_can_be_counted(&pong(2, 0, 0, i64::MAX), micros(1)));
    assert!(!samples_can_be_counted(&pong(2, i64::MIN, -1, 1), micros(1)));
    assert!(samples_can_be_counted(&pong(2, i64::MIN, 0, 1), micros(1)));
}

#[test]
fn service_starts_one_measurement_per_peer_and_none_per_result() {
    let x_form = GhostXForm { slope_bits: 1.0f64.to_bits(), intercept: micros(7) };
    let mut service = MeasurementService::new(&state(), x_form);
    assert_eq!(service.ping_session_id, SessionId(NodeId(2)));
    assert_eq!(service.ping_x_form, x_form);

    let result = MeasurePeerEvent::XForm(SessionId(NodeId(9)), x_form);
    assert!(on_measure_request(result).is_none());
    assert!(service.on_event(result, micros(4)).is_none());
    assert!(service.measurement_map.is_empty());

    let request = MeasurePeerEvent::PeerState(SessionId(NodeId(9)), state());
    assert_eq!(on_measure_request(request).unwrap().0, SessionId(NodeId(9)));
    let started = service.on_event(request, micros(5)).unwrap();
    assert_eq!(started.session_id, SessionId(NodeId(9)));
    assert_eq!(started.peer.ident(), NodeId(8));
    assert_eq!(started.measurement.session_id, SessionId(NodeId(2)));
    assert!(matches!(started.ping[..], [PayloadEntry::HostTime(t)] if t == micros(5)));
    assert_eq!(service.measurement_map.len(), 1);

    service.update_node_state(SessionId(NodeId(3)), GhostXForm::default());
    assert_eq!(service.ping_session_id, SessionId(NodeId(3)));
    assert_eq!(service.ping_x_form, GhostXForm::default());
    assert_eq!(service.measurement_map.len(), 1);
}

#[test]
fn bytes_of_the_first_ping_are_noted() {
    let (mut measurement, _) = Measurement::new(state(), micros(5));
    measurement.first_ping_sent(42);
    assert_eq!(measurement.init_bytes_sent, 42);
    assert_eq!(measurement.measurements_started, 0);
}

#[test]
fn ping_that_was_sent_is_counted_and_hands_out_the_samples() {
    let (mut measurement, _) = Measurement::new(state(), micros(5));
    measurement.on_pong(&pong(2, 1_000, 0, 100), micros(301));
    assert_eq!(measurement.after_ping(), vec![1_599]);
    assert_eq!(measurement.measurements_started, 1);
    assert!(measurement.success);
    assert!(measurement.data.is_empty());
    assert!(measurement.after_ping().is_empty());
    assert_eq!(measurement.measurements_started, 2);
}

#[test]
fn pong_that_completes_a_measurement_hands_out_the_samples() {
    let (mut measurement, _) = Measurement::new(state(), micros(5));
    for _ in 0..10 {
        let received = measurement.receive_pong(&pong(2, 1_000, 900, 100), micros(301));
        assert!(received.reply.is_some());
        assert!(received.data.is_none());
    }
    assert!(!measurement.success);
    let received = measurement.receive_pong(&pong(3, 1_000, 900, 100), micros(301));
    assert!(received.reply.is_none() && received.data.is_none());
    let received = measurement.receive_pong(&pong(2, 1_000, 0, 100), micros(301));
    assert_eq!(received.data.unwrap().len(), 21);
    assert!(received.reply.is_some());
    assert!(measurement.success);
    assert!(measurement.data.is_empty());
}
