use bytes::Bytes;
use rapi::frame::{FragmentMessage, FrameError};
use rapi::identity::{fresh_request_id, GatewayIdentity};
use rapi::multiplexer::{Admission, Forward, Job, Multiplexer, Routed};
use std::sync::mpsc::{channel, Receiver, Sender};

type Handle = Sender<Bytes>;

fn gateway() -> Multiplexer<Handle> {
    Multiplexer::new(GatewayIdentity::from_token(String::from("gateway")))
}

fn reply(job_id: &str, header: &str, payload: &[u8]) -> Vec<Vec<u8>> {
    vec![job_id.as_bytes().to_vec(), header.as_bytes().to_vec(), payload.to_vec()]
}

/// Submits a job whose request goes out, and hands back the caller's end.
fn submit(mux: &mut Multiplexer<Handle>, job_id: &str, request: &[u8]) -> Receiver<Bytes> {
    let (tx, rx) = channel();
    let job = Job { job_id: String::from(job_id), request: Bytes::copy_from_slice(request), tx };
    assert!(mux.request_frame(&job).is_some());
    assert_eq!(mux.complete_submission(job, true), Admission::Accepted);
    rx
}

/// Handles one inbound frame as the gateway's loop does: route, deliver, settle.
fn deliver(mux: &mut Multiplexer<Handle>, frame: Vec<Vec<u8>>) -> &'static str {
    match mux.receive(frame) {
        Routed::Forward(Forward { job_id, delivery, payload, remaining }) => {
            let delivered = delivery.send(payload).is_ok();
            mux.settle(job_id, delivery, remaining, delivered);
            if delivered {
                "delivered"
            } else {
                "caller gone"
            }
        }
        Routed::Unknown => "unknown",
        Routed::Malformed(_) => "malformed",
    }
}

#[test]
fn ping_pong() {
    let mut mux = gateway();
    let (tx, rx) = channel();
    let data = b"data";
    let job = Job { job_id: String::from("id"), request: Bytes::copy_from_slice(&data[..]), tx };

    let frame = mux.request_frame(&job).unwrap();
    assert_eq!(frame, vec![b"gateway".to_vec(), b"id".to_vec(), b"data".to_vec()]);
    assert_eq!(mux.complete_submission(job, true), Admission::Accepted);

    // the backend answers with what it was sent
    let answer = vec![frame[1].clone(), b"1/0".to_vec(), frame[2].clone()];
    assert_eq!(deliver(&mut mux, answer), "delivered");

    assert_eq!(rx.recv().unwrap(), data.as_ref());
}

#[test]
fn single_fragment_round_trip() {
    let mut mux = gateway();
    let rx = submit(&mut mux, "J", b"request");
    assert!(mux.is_waiting(&String::from("J")));

    assert_eq!(deliver(&mut mux, reply("J", "1/0", b"only")), "delivered");
    assert_eq!(rx.try_recv().unwrap(), Bytes::from_static(b"only"));
    assert!(!mux.is_waiting(&String::from("J")));
    assert!(mux.is_idle());

    assert_eq!(deliver(&mut mux, reply("J", "1/0", b"again")), "unknown");
    assert!(rx.try_recv().is_err());
}

#[test]
fn multi_fragment_fan_in() {
    let mut mux = gateway();
    let rx = submit(&mut mux, "J", b"request");

    assert_eq!(deliver(&mut mux, reply("J", "2/0", b"first")), "delivered");
    assert!(mux.is_waiting(&String::from("J")));
    assert_eq!(deliver(&mut mux, reply("J", "2/1", b"second")), "delivered");
    assert!(!mux.is_waiting(&String::from("J")));

    assert_eq!(deliver(&mut mux, reply("J", "2/2", b"third")), "unknown");

    assert_eq!(rx.try_recv().unwrap(), Bytes::from_static(b"first"));
    assert_eq!(rx.try_recv().unwrap(), Bytes::from_static(b"second"));
    assert!(rx.try_recv().is_err());
}

#[test]
fn fragments_are_passed_on_in_arrival_order() {
    let mut mux = gateway();
    let rx = submit(&mut mux, "J", b"request");
    assert_eq!(deliver(&mut mux, reply("J", "3/2", b"c")), "delivered");
    assert_eq!(deliver(&mut mux, reply("J", "3/0", b"a")), "delivered");
    assert_eq!(deliver(&mut mux, reply("J", "3/1", b"b")), "delivered");
    assert!(mux.is_idle());
    let got: Vec<Bytes> = rx.try_iter().collect();
    assert_eq!(got, vec![Bytes::from_static(b"c"), Bytes::from_static(b"a"), Bytes::from_static(b"b")]);
}

#[test]
fn the_first_fragment_sets_the_count() {
    let mut mux = gateway();
    let _rx = submit(&mut mux, "J", b"request");
    match mux.receive(reply("J", "5/0", b"x")) {
        Routed::Forward(forward) => {
            assert_eq!(forward.remaining, 4);
            assert!(mux.settle(forward.job_id, forward.delivery, forward.remaining, true));
        }
        _ => panic!("the job is in flight"),
    }
    // a later fragment that announces another count does not reset it
    match mux.receive(reply("J", "9/1", b"y")) {
        Routed::Forward(forward) => assert_eq!(forward.remaining, 3),
        _ => panic!("the job is in flight"),
    }
}

#[test]
fn a_count_of_zero_or_less_completes_the_job() {
    for header in ["0/0", "-4/0", "-2147483648/0", "1/0"] {
        let mut mux = gateway();
        let rx = submit(&mut mux, "J", b"request");
        match mux.receive(reply("J", header, b"x")) {
            Routed::Forward(forward) => {
                assert_eq!(forward.remaining, 0);
                let delivered = forward.delivery.send(forward.payload).is_ok();
                assert!(!mux.settle(forward.job_id, forward.delivery, forward.remaining, delivered));
            }
            _ => panic!("the job is in flight"),
        }
        assert!(mux.is_idle());
        assert_eq!(rx.try_recv().unwrap(), Bytes::from_static(b"x"));
    }
}

#[test]
fn isolation() {
    let mut mux = gateway();
    let rx_a = submit(&mut mux, "A", b"for a");
    let rx_b = submit(&mut mux, "B", b"for b");

    assert_eq!(deliver(&mut mux, reply("A", "2/0", b"a0")), "delivered");
    assert_eq!(deliver(&mut mux, reply("B", "2/0", b"b0")), "delivered");
    assert_eq!(deliver(&mut mux, reply("B", "2/1", b"b1")), "delivered");
    assert!(mux.is_waiting(&String::from("A")));
    assert!(!mux.is_waiting(&String::from("B")));
    assert_eq!(deliver(&mut mux, reply("A", "2/1", b"a1")), "delivered");
    assert!(mux.is_idle());

    let got_a: Vec<Bytes> = rx_a.try_iter().collect();
    let got_b: Vec<Bytes> = rx_b.try_iter().collect();
    assert_eq!(got_a, vec![Bytes::from_static(b"a0"), Bytes::from_static(b"a1")]);
    assert_eq!(got_b, vec![Bytes::from_static(b"b0"), Bytes::from_static(b"b1")]);
}

#[test]
fn unknown_id() {
    let mut mux = gateway();
    assert_eq!(deliver(&mut mux, reply("never submitted", "1/0", b"x")), "unknown");
    assert!(mux.is_live());
    assert!(mux.is_idle());

    let rx = submit(&mut mux, "J", b"request");
    assert_eq!(deliver(&mut mux, reply("other", "1/0", b"x")), "unknown");
    assert!(mux.is_waiting(&String::from("J")));
    assert_eq!(deliver(&mut mux, reply("J", "1/0", b"answer")), "delivered");
    assert_eq!(rx.try_recv().unwrap(), Bytes::from_static(b"answer"));
}

#[test]
fn malformed_frame() {
    let mut mux = gateway();
    let rx = submit(&mut mux, "J", b"request");

    let two = vec![b"J".to_vec(), b"1/0".to_vec()];
    let four = vec![b"J".to_vec(), b"1/0".to_vec(), b"x".to_vec(), b"y".to_vec()];
    assert!(matches!(mux.receive(two), Routed::Malformed(FrameError::PartCount)));
    assert!(matches!(mux.receive(four), Routed::Malformed(FrameError::PartCount)));
    assert!(matches!(
        mux.receive(reply("J", "many/0", b"x")),
        Routed::Malformed(FrameError::FragmentField)
    ));
    assert!(matches!(
        mux.receive(vec![vec![0xc3u8, 0x28u8], b"1/0".to_vec(), b"x".to_vec()]),
        Routed::Malformed(FrameError::JobId)
    ));

    assert!(mux.is_live());
    assert!(mux.is_waiting(&String::from("J")));
    assert!(rx.try_recv().is_err());
    assert_eq!(deliver(&mut mux, reply("J", "1/0", b"answer")), "delivered");
    assert_eq!(rx.try_recv().unwrap(), Bytes::from_static(b"answer"));
}

#[test]
fn cancellation() {
    let mut mux = gateway();
    let rx_gone = submit(&mut mux, "gone", b"request");
    let rx_here = submit(&mut mux, "here", b"request");
    drop(rx_gone);

    assert_eq!(deliver(&mut mux, reply("gone", "3/0", b"x")), "caller gone");
    assert!(!mux.is_waiting(&String::from("gone")));
    assert_eq!(deliver(&mut mux, reply("gone", "3/1", b"y")), "unknown");
    assert_eq!(deliver(&mut mux, reply("gone", "3/2", b"z")), "unknown");

    assert!(mux.is_live());
    assert_eq!(deliver(&mut mux, reply("here", "1/0", b"answer")), "delivered");
    assert_eq!(rx_here.try_recv().unwrap(), Bytes::from_static(b"answer"));
}

#[test]
fn transport_failure() {
    let mut mux = gateway();
    let rx_before = submit(&mut mux, "before", b"request");

    let (tx, rx) = channel();
    let job = Job { job_id: String::from("J"), request: Bytes::from_static(b"request"), tx };
    assert!(mux.request_frame(&job).is_some());
    assert_eq!(mux.complete_submission(job, false), Admission::Stopped);
    assert!(!mux.is_live());
    assert!(!mux.is_waiting(&String::from("J")));
    assert!(rx.recv().is_err());

    let (tx, rx) = channel();
    let job = Job { job_id: String::from("K"), request: Bytes::from_static(b"request"), tx };
    assert!(mux.request_frame(&job).is_none());
    assert_eq!(mux.complete_submission(job, true), Admission::Stopped);
    assert!(!mux.is_waiting(&String::from("K")));
    assert!(!mux.is_live());
    assert!(rx.recv().is_err());

    assert!(mux.is_waiting(&String::from("before")));
    drop(rx_before);
}

#[test]
fn an_id_in_flight_is_not_taken_twice() {
    let mut mux = gateway();
    let rx_first = submit(&mut mux, "J", b"first");

    let (tx, rx_second) = channel();
    let job = Job { job_id: String::from("J"), request: Bytes::from_static(b"second"), tx };
    assert!(mux.request_frame(&job).is_none());
    assert_eq!(mux.complete_submission(job, true), Admission::Refused);
    assert!(mux.is_live());
    assert!(rx_second.recv().is_err());

    assert_eq!(deliver(&mut mux, reply("J", "1/0", b"answer")), "delivered");
    assert_eq!(rx_first.try_recv().unwrap(), Bytes::from_static(b"answer"));
}

#[test]
fn settling_never_overwrites_a_job_in_flight() {
    let mut mux = gateway();
    let rx = submit(&mut mux, "J", b"request");
    let (stray, stray_rx) = channel();
    assert!(!mux.settle(String::from("J"), stray, 7, true));
    drop(stray_rx);
    assert_eq!(deliver(&mut mux, reply("J", "1/0", b"answer")), "delivered");
    assert_eq!(rx.try_recv().unwrap(), Bytes::from_static(b"answer"));
}

#[test]
fn route_hands_out_the_payload_it_was_given() {
    let mut mux: Multiplexer<u32> = Multiplexer::new(GatewayIdentity::from_token(String::from("g")));
    let job = Job { job_id: String::from("J"), request: Bytes::new(), tx: 17u32 };
    assert_eq!(mux.complete_submission(job, true), Admission::Accepted);
    let fragment = FragmentMessage {
        job_id: String::from("J"),
        fragment_index: 0,
        fragment_count: 2,
        payload: Bytes::from_static(b"payload"),
    };
    match mux.route(fragment) {
        Routed::Forward(forward) => {
            assert_eq!(forward.job_id, "J");
            assert_eq!(forward.delivery, 17);
            assert_eq!(forward.payload, Bytes::from_static(b"payload"));
            assert_eq!(forward.remaining, 1);
        }
        _ => panic!("the job is in flight"),
    }
    assert!(!mux.is_waiting(&String::from("J")));
}

#[test]
fn a_fresh_identity_is_a_hyphenated_uuid() {
    let identity = GatewayIdentity::generate();
    let token = identity.as_str();
    assert_eq!(token.len(), 36);
    for (at, c) in token.chars().enumerate() {
        if at == 8 || at == 13 || at == 18 || at == 23 {
            assert_eq!(c, '-');
        } else {
            assert!(c.is_ascii_hexdigit());
        }
    }
    assert_ne!(GatewayIdentity::generate().as_str(), token);
    assert_eq!(fresh_request_id().len(), 36);
}

#[test]
fn jobs_in_flight_are_counted() {
    let mut mux = gateway();
    assert_eq!(mux.in_flight(), 0);
    assert_eq!(mux.gateway_identity().as_str(), "gateway");
    let _rx_a = submit(&mut mux, "A", b"request");
    let rx_b = submit(&mut mux, "B", b"request");
    assert_eq!(mux.in_flight(), 2);
    assert_eq!(deliver(&mut mux, reply("A", "2/0", b"x")), "delivered");
    assert_eq!(mux.in_flight(), 2);
    assert_eq!(deliver(&mut mux, reply("A", "2/1", b"y")), "delivered");
    assert_eq!(mux.in_flight(), 1);
    // a caller that has gone is only noticed when a fragment arrives for it
    drop(rx_b);
    assert_eq!(mux.in_flight(), 1);
    assert_eq!(deliver(&mut mux, reply("B", "2/0", b"x")), "caller gone");
    assert_eq!(mux.in_flight(), 0);
}
