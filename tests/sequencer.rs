use gping::monitor::{command_outcome, remaining_us, Event, Key, Monitor, Phase, ProbeEvent, Step};

fn row(step: Step) -> Option<String> {
    match step {
        Step::Recorded(r) => r,
        other => panic!("unexpected step {:?}", other),
    }
}

#[test]
fn timeouts_are_logged_as_one_second() {
    let (mut m, header) = Monitor::new(2, 3, true);
    assert_eq!(header, "Time, Gateway, ISP Hop 1\n");
    assert_eq!(row(m.handle(Event::Update(0, ProbeEvent::TimedOut), 10)), None);
    assert_eq!(
        row(m.handle(Event::Update(1, ProbeEvent::Measured(42_500)), 20)),
        Some("0.0,1000,42,\n".to_string())
    );
}

#[test]
fn indeterminate_is_not_recorded() {
    let (mut m, _) = Monitor::new(1, 2, false);
    assert!(matches!(m.handle(Event::Update(0, ProbeEvent::Indeterminate), 5), Step::Redraw));
    assert_eq!(row(m.handle(Event::Update(0, ProbeEvent::Measured(3_000)), 6)), Some("0.0,3,\n".to_string()));
}

#[test]
fn quit_keys_stop_the_run() {
    for (key, ctrl) in [(Key::Char('q'), false), (Key::Esc, false), (Key::Char('c'), true)] {
        let (mut m, _) = Monitor::new(1, 1, false);
        assert!(matches!(m.handle(Event::Input(Key::Char('c'), false), 0), Step::Ignored));
        assert!(matches!(m.handle(Event::Input(Key::Other, true), 0), Step::Ignored));
        assert!(matches!(m.handle(Event::Input(key, ctrl), 0), Step::Stop));
        assert!(matches!(m.handle(Event::Interrupt, 0), Step::Ignored));
    }
}

#[test]
fn cancelled_mid_row_still_finalizes() {
    let (mut m, header) = Monitor::new(2, 3, true);
    let mut data = header.clone();
    let events = [(0usize, 10_000u64), (1, 20_000), (0, 11_000), (1, 21_000), (0, 12_000)];
    for (i, (t, v)) in events.iter().enumerate() {
        if let Some(r) = row(m.handle(Event::Update(*t, ProbeEvent::Measured(*v)), i as u64)) {
            data.push_str(&r);
        }
    }
    assert!(matches!(m.handle(Event::Interrupt, 9), Step::Stop));
    m.producer_exited(0);
    m.producer_exited(2);
    assert_eq!(m.current_phase(), Phase::ShuttingDown);
    assert_eq!(m.finalize(&data).is_some(), true);
    m.producer_exited(1);
    assert_eq!(m.current_phase(), Phase::Terminated);
    assert!(matches!(m.handle(Event::Update(0, ProbeEvent::Measured(1)), 10), Step::Ignored));
    let done = m.finalize(&data).unwrap();
    assert_eq!(data, "Time, Gateway, ISP Hop 1\n0.0,10,20,\n0.2,11,21,\n");
    assert_eq!(
        done,
        format!(",11,20,Average\n,,,\n,,,\n,12,21,95th percentile\n,12,21,99th percentile\n{}", data)
    );
}

#[test]
fn producer_exit_before_stop_keeps_running() {
    let (mut m, _) = Monitor::new(1, 1, false);
    m.producer_exited(0);
    assert_eq!(m.current_phase(), Phase::Running);
    assert!(matches!(m.handle(Event::Interrupt, 0), Step::Stop));
    m.producer_exited(0);
    assert_eq!(m.current_phase(), Phase::Terminated);
}

#[test]
fn command_outcomes() {
    assert_eq!(command_outcome(true, 1234), ProbeEvent::Measured(1234));
    assert_eq!(command_outcome(false, 1234), ProbeEvent::TimedOut);
}

#[test]
fn sleep_is_rest_of_interval() {
    assert_eq!(remaining_us(500_000, 120_000), 380_000);
    assert_eq!(remaining_us(500_000, 500_000), 0);
    assert_eq!(remaining_us(500_000, 700_000), 0);
}
