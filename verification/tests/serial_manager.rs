use labino_rust::serial_manager::{
    classify, Exchange, LinkAction, LinkEvent, LinkPhase, SerialManager, SerialManagerError,
};

fn link(retries: u8, delay: u64) -> SerialManager {
    SerialManager::new(Some(retries), Some(delay), Some(1_000), None, None).unwrap()
}

fn expect_write(action: LinkAction) -> Vec<u8> {
    match action {
        LinkAction::Write(bytes) => bytes,
        other => panic!("expected a write, got {:?}", other),
    }
}

fn run_to_first_read(link: &SerialManager, x: &mut Exchange, first: LinkAction) -> Vec<u8> {
    assert!(matches!(first, LinkAction::Flush));
    assert!(matches!(x.step(link, LinkEvent::Done), LinkAction::ClearBuffers));
    let written = expect_write(x.step(link, LinkEvent::Done));
    let after_write = x.step(link, LinkEvent::Done);
    if link.delay() != 0 {
        match after_write {
            LinkAction::Sleep(ms) => assert_eq!(ms, link.delay()),
            other => panic!("expected a sleep, got {:?}", other),
        }
        assert!(matches!(x.step(link, LinkEvent::Done), LinkAction::Read));
    } else {
        assert!(matches!(after_write, LinkAction::Read));
    }
    assert_eq!(x.phase(), LinkPhase::FirstRead);
    written
}

#[test]
fn defaults_of_the_link() {
    let m = SerialManager::new(None, None, None, None, None).unwrap();
    assert_eq!(m.n_retries(), 3);
    assert_eq!(m.delay(), 500);
    assert_eq!(m.timeout_long(), 30_000);
    assert_eq!(m.end_char(), b'\n');
    assert_eq!(m.rcv_str(), &b"rcv".to_vec());
}

#[test]
fn given_settings_are_kept() {
    let m = SerialManager::new(Some(7), Some(0), Some(9), Some(b';'), Some(b"wait")).unwrap();
    assert_eq!(m.n_retries(), 7);
    assert_eq!(m.delay(), 0);
    assert_eq!(m.timeout_long(), 9);
    assert_eq!(m.end_char(), b';');
    assert_eq!(m.rcv_str(), &b"wait".to_vec());
}

#[test]
fn terminator_outside_ascii_is_refused() {
    assert!(matches!(
        SerialManager::new(None, None, None, Some(200), None),
        Err(SerialManagerError::ArgumentError)
    ));
    assert!(SerialManager::new(None, None, None, Some(127), None).is_ok());
}

#[test]
fn exchange_appends_the_terminator_once() {
    let m = link(1, 0);
    let (mut x, first) = m.send_command_wait_response(b"ok");
    assert_eq!(run_to_first_read(&m, &mut x, first), b"ok\n".to_vec());
    let (mut y, first) = m.send_command_wait_response(b"ok\n");
    assert_eq!(run_to_first_read(&m, &mut y, first), b"ok\n".to_vec());
    let (mut z, first) = m.send_command_wait_response(b"");
    assert_eq!(run_to_first_read(&m, &mut z, first), b"\n".to_vec());
}

#[test]
fn exchange_returns_the_trimmed_answer() {
    let m = link(3, 20);
    let (mut x, first) = m.send_command_wait_response_retries(b"ok");
    run_to_first_read(&m, &mut x, first);
    match x.step(&m, LinkEvent::Data(b"  OK\r\n".to_vec())) {
        LinkAction::Done(Ok(text)) => assert_eq!(text, b"OK".to_vec()),
        other => panic!("unexpected {:?}", other),
    }
    assert!(x.is_finished());
}

#[test]
fn exchange_waits_for_the_late_answer_after_the_sentinel() {
    let m = link(1, 20);
    let (mut x, first) = m.send_command_wait_response(b"stepper 100");
    run_to_first_read(&m, &mut x, first);
    assert!(matches!(x.step(&m, LinkEvent::Data(b"rcv".to_vec())), LinkAction::Poll));
    // nothing waits yet and the timeout has not passed: sleep and poll again
    match x.step(&m, LinkEvent::Pending { elapsed: 0, waiting: 0 }) {
        LinkAction::Sleep(ms) => assert_eq!(ms, 20),
        other => panic!("unexpected {:?}", other),
    }
    assert!(matches!(x.step(&m, LinkEvent::Done), LinkAction::Poll));
    assert!(matches!(
        x.step(&m, LinkEvent::Pending { elapsed: 999, waiting: 0 }),
        LinkAction::Sleep(20)
    ));
    assert!(matches!(x.step(&m, LinkEvent::Done), LinkAction::Poll));
    // bytes wait: read again
    assert!(matches!(x.step(&m, LinkEvent::Pending { elapsed: 40, waiting: 3 }), LinkAction::Read));
    match x.step(&m, LinkEvent::Data(b"OK\n".to_vec())) {
        LinkAction::Done(Ok(text)) => assert_eq!(text, b"OK".to_vec()),
        other => panic!("unexpected {:?}", other),
    }
}

#[test]
fn exchange_reads_again_when_the_long_timeout_has_passed() {
    let m = link(1, 20);
    let (mut x, first) = m.send_command_wait_response(b"pump 1 1");
    run_to_first_read(&m, &mut x, first);
    assert!(matches!(x.step(&m, LinkEvent::Data(b"rcv".to_vec())), LinkAction::Poll));
    assert!(matches!(
        x.step(&m, LinkEvent::Pending { elapsed: 1_000, waiting: 0 }),
        LinkAction::Read
    ));
    assert!(matches!(
        x.step(&m, LinkEvent::Data(Vec::new())),
        LinkAction::Done(Err(SerialManagerError::Empty))
    ));
}

#[test]
fn sentinel_with_white_space_is_an_ordinary_answer() {
    let m = link(1, 0);
    let (mut x, first) = m.send_command_wait_response(b"ok");
    run_to_first_read(&m, &mut x, first);
    match x.step(&m, LinkEvent::Data(b"rcv\n".to_vec())) {
        LinkAction::Done(Ok(text)) => assert_eq!(text, b"rcv".to_vec()),
        other => panic!("unexpected {:?}", other),
    }
}

#[test]
fn exchange_retries_and_returns_the_first_success() {
    let m = link(3, 0);
    let (mut x, first) = m.send_command_wait_response_retries(b"hx_n");
    run_to_first_read(&m, &mut x, first);
    // first attempt: empty answer, so the attempt starts over
    let again = x.step(&m, LinkEvent::Data(b" \n".to_vec()));
    run_to_first_read(&m, &mut x, again);
    // second attempt: device error
    let again = x.step(&m, LinkEvent::Data(b"ERROR: busy".to_vec()));
    run_to_first_read(&m, &mut x, again);
    match x.step(&m, LinkEvent::Data(b"4".to_vec())) {
        LinkAction::Done(Ok(text)) => assert_eq!(text, b"4".to_vec()),
        other => panic!("unexpected {:?}", other),
    }
}

#[test]
fn exchange_with_retries_ends_with_retries_exhausted_and_the_last_fault() {
    let m = link(2, 0);
    let (mut x, first) = m.send_command_wait_response_retries(b"hx 10");
    run_to_first_read(&m, &mut x, first);
    // the first attempt fails with an empty answer, the last with a device error
    let again = x.step(&m, LinkEvent::Data(b"".to_vec()));
    run_to_first_read(&m, &mut x, again);
    match x.step(&m, LinkEvent::Data(b" ERROR 7 \n".to_vec())) {
        LinkAction::Done(Err(SerialManagerError::RetriesExhausted(Some(last)))) => match *last {
            SerialManagerError::DeviceError(text) => assert_eq!(text, b"ERROR 7".to_vec()),
            other => panic!("unexpected last fault {:?}", other),
        },
        other => panic!("unexpected {:?}", other),
    }
    assert!(x.is_finished());
    assert!(matches!(
        x.step(&m, LinkEvent::Done),
        LinkAction::Done(Err(SerialManagerError::RetriesExhausted(None)))
    ));
}

#[test]
fn exchange_with_one_retry_still_says_retries_exhausted() {
    let m = link(1, 0);
    let (mut x, first) = m.send_command_wait_response_retries(b"ok");
    run_to_first_read(&m, &mut x, first);
    match x.step(&m, LinkEvent::Data(b" ".to_vec())) {
        LinkAction::Done(Err(SerialManagerError::RetriesExhausted(Some(last)))) => {
            assert!(matches!(*last, SerialManagerError::Empty))
        }
        other => panic!("unexpected {:?}", other),
    }
}

#[test]
fn exchange_with_retries_writes_the_command_once_per_attempt() {
    let m = link(3, 0);
    let (mut x, mut action) = m.send_command_wait_response_retries(b"ok");
    let mut writes = 0;
    let mut steps = 0;
    loop {
        let event = match action {
            LinkAction::Done(outcome) => {
                assert!(matches!(outcome, Err(SerialManagerError::RetriesExhausted(Some(_)))));
                break;
            }
            LinkAction::Write(_) => {
                writes += 1;
                LinkEvent::Done
            }
            LinkAction::Read => LinkEvent::Data(Vec::new()),
            _ => LinkEvent::Done,
        };
        action = x.step(&m, event);
        steps += 1;
        assert!(steps < 100);
    }
    assert_eq!(writes, 3);
}

#[test]
fn exchange_without_attempts_is_over_at_once() {
    let m = link(0, 0);
    let (x, first) = m.send_command_wait_response_retries(b"ok");
    assert!(matches!(first, LinkAction::Done(Err(SerialManagerError::RetriesExhausted(None)))));
    assert!(x.is_finished());
}

#[test]
fn single_exchange_does_not_retry() {
    let m = link(5, 0);
    let (mut x, first) = m.send_command_wait_response(b"ok");
    run_to_first_read(&m, &mut x, first);
    assert!(matches!(
        x.step(&m, LinkEvent::Data(b"".to_vec())),
        LinkAction::Done(Err(SerialManagerError::Empty))
    ));
}

#[test]
fn port_failure_fails_the_attempt() {
    let m = link(2, 0);
    let (mut x, first) = m.send_command_wait_response_retries(b"ok");
    assert!(matches!(first, LinkAction::Flush));
    assert!(matches!(x.step(&m, LinkEvent::Failed), LinkAction::Flush));
    assert!(matches!(x.step(&m, LinkEvent::Done), LinkAction::ClearBuffers));
    match x.step(&m, LinkEvent::Failed) {
        LinkAction::Done(Err(SerialManagerError::RetriesExhausted(Some(last)))) => {
            assert!(matches!(*last, SerialManagerError::IOError))
        }
        other => panic!("unexpected {:?}", other),
    }
}

#[test]
fn event_that_does_not_answer_the_action_fails_the_attempt() {
    let m = link(1, 0);
    let (mut x, _) = m.send_command_wait_response(b"ok");
    assert!(matches!(
        x.step(&m, LinkEvent::Data(b"OK".to_vec())),
        LinkAction::Done(Err(SerialManagerError::IOError))
    ));
}

#[test]
fn classify_sorts_answers_out() {
    assert_eq!(classify(b" OK ").unwrap(), b"OK".to_vec());
    assert!(matches!(classify(b""), Err(SerialManagerError::Empty)));
    assert!(matches!(classify(b"\r\n\t "), Err(SerialManagerError::Empty)));
    match classify(b"  some ERROR text\n") {
        Err(SerialManagerError::DeviceError(t)) => assert_eq!(t, b"some ERROR text".to_vec()),
        other => panic!("unexpected {:?}", other),
    }
    assert_eq!(classify(b"error").unwrap(), b"error".to_vec());
}

#[test]
fn command_lines() {
    assert_eq!(SerialManager::cmd_ok(), b"ok".to_vec());
    assert_eq!(SerialManager::cmd_hx(10), b"hx 10".to_vec());
    assert_eq!(SerialManager::cmd_hx(0), b"hx 0".to_vec());
    assert_eq!(SerialManager::cmd_hx_single(2, 15), b"hx_single 15 2".to_vec());
    assert_eq!(SerialManager::cmd_hx_n(), b"hx_n".to_vec());
    assert_eq!(SerialManager::cmd_dht(), b"dht".to_vec());
    assert_eq!(SerialManager::cmd_stepper(-250, false), b"stepper -250".to_vec());
    assert_eq!(SerialManager::cmd_stepper(4000, true), b"stepper 4000 1".to_vec());
    assert_eq!(SerialManager::cmd_servo(90).unwrap(), b"servo 90".to_vec());
    assert_eq!(SerialManager::cmd_pump(1500, 80).unwrap(), b"pump 1500 80".to_vec());
    assert_eq!(SerialManager::stepper_attach(true), b"stepper_attach 1".to_vec());
    assert_eq!(SerialManager::stepper_attach(false), b"stepper_attach 0".to_vec());
    assert_eq!(SerialManager::servo_attach(true), b"servo_attach 1".to_vec());
    assert_eq!(SerialManager::servo_attach(false), b"servo_attach 0".to_vec());
}

#[test]
fn servo_angle_is_checked_before_anything_is_sent() {
    assert!(matches!(SerialManager::cmd_servo(0), Err(SerialManagerError::ArgumentError)));
    assert!(matches!(SerialManager::cmd_servo(180), Err(SerialManagerError::ArgumentError)));
    assert!(SerialManager::cmd_servo(1).is_ok());
    assert!(SerialManager::cmd_servo(179).is_ok());
}

#[test]
fn pump_intensity_is_checked_before_anything_is_sent() {
    assert!(matches!(SerialManager::cmd_pump(10, 101), Err(SerialManagerError::ArgumentError)));
    assert!(SerialManager::cmd_pump(u32::MAX, 100).is_ok());
    assert_eq!(SerialManager::cmd_pump(0, 0).unwrap(), b"pump 0 0".to_vec());
}

#[test]
fn reply_ok_wants_the_literal() {
    assert!(SerialManager::reply_ok(b"OK"));
    assert!(!SerialManager::reply_ok(b"ok"));
    assert!(!SerialManager::reply_ok(b"OK "));
    assert!(SerialManager::reply_done(b"OK").is_ok());
    assert!(matches!(
        SerialManager::reply_done(b"done"),
        Err(SerialManagerError::MalformedPayload)
    ));
}

#[test]
fn reply_hx_reads_a_bracketed_list() {
    assert_eq!(SerialManager::reply_hx(b"[1,2.5,-3]").unwrap(), vec![1000, 2500, -3000]);
    assert_eq!(SerialManager::reply_hx(b"[ 80.12 , 120 ]").unwrap(), vec![80_120, 120_000]);
    assert_eq!(SerialManager::reply_hx(b"[7]").unwrap(), vec![7000]);
}

#[test]
fn reply_hx_refuses_missing_brackets() {
    for bad in [&b""[..], b"1,2", b"[1,2", b"1,2]", b"[", b"]", b" [1]"] {
        assert!(matches!(
            SerialManager::reply_hx(bad),
            Err(SerialManagerError::MalformedPayload)
        ));
    }
}

#[test]
fn reply_hx_refuses_an_element_that_is_no_number() {
    for bad in [&b"[]"[..], b"[1,,2]", b"[1,x]", b"[a,1]", b"[1,2,]", b"[1e3]", b"[1 2]"] {
        assert!(matches!(SerialManager::reply_hx(bad), Err(SerialManagerError::ParseFloat)));
    }
}

#[test]
fn reply_hx_single_reads_one_number() {
    assert_eq!(SerialManager::reply_hx_single(b" 12.5 ").unwrap(), 12_500);
    assert!(matches!(
        SerialManager::reply_hx_single(b"twelve"),
        Err(SerialManagerError::ParseFloat)
    ));
}

#[test]
fn reply_servo_wants_the_echo_of_the_angle() {
    assert!(SerialManager::reply_servo(90, b"90").is_ok());
    match SerialManager::reply_servo(90, b"91") {
        Err(SerialManagerError::DeviceError(t)) => assert_eq!(t, b"91".to_vec()),
        other => panic!("unexpected {:?}", other),
    }
    assert!(matches!(SerialManager::reply_servo(90, b"OK"), Err(SerialManagerError::ParseInt)));
    assert!(matches!(SerialManager::reply_servo(90, b"346"), Err(SerialManagerError::ParseInt)));
}

#[test]
fn channel_count_is_kept_for_five_minutes() {
    let mut m = link(1, 0);
    assert_eq!(m.cached_hx_n(0), None);
    m.store_hx_n(SerialManager::reply_hx_n(b"4").unwrap(), 1_000);
    assert_eq!(m.cached_hx_n(1_000), Some(4));
    assert_eq!(m.cached_hx_n(301_000), Some(4));
    assert_eq!(m.cached_hx_n(301_001), None);
    assert_eq!(m.cached_hx_n(999), None);
    m.store_hx_n(SerialManager::reply_hx_n(b"5").unwrap(), 400_000);
    assert_eq!(m.cached_hx_n(400_001), Some(5));
    assert_eq!(m.cached_hx_n(399_999), None);
}

#[test]
fn channel_count_that_is_no_number_is_refused() {
    assert!(matches!(SerialManager::reply_hx_n(b"four"), Err(SerialManagerError::ParseInt)));
    assert!(matches!(SerialManager::reply_hx_n(b"-1"), Err(SerialManagerError::ParseInt)));
    assert!(matches!(SerialManager::reply_hx_n(b"4.0"), Err(SerialManagerError::ParseInt)));
    assert!(matches!(SerialManager::reply_hx_n(b""), Err(SerialManagerError::ParseInt)));
    assert_eq!(SerialManager::reply_hx_n(b"+12").unwrap(), 12);
}

#[test]
fn errors_can_be_cloned() {
    let e = SerialManagerError::DeviceError(b"ERROR 1".to_vec());
    match e.clone() {
        SerialManagerError::DeviceError(t) => assert_eq!(t, b"ERROR 1".to_vec()),
        other => panic!("unexpected {:?}", other),
    }
    let nested = SerialManagerError::RetriesExhausted(Some(Box::new(e)));
    match nested.clone() {
        SerialManagerError::RetriesExhausted(Some(last)) => match *last {
            SerialManagerError::DeviceError(t) => assert_eq!(t, b"ERROR 1".to_vec()),
            other => panic!("unexpected {:?}", other),
        },
        other => panic!("unexpected {:?}", other),
    }
}
