use kindle_dashboard::cover::{
    AfterCoverRead, Cover, CoverProbe, CoverRead, ProbeAction, ProbeEvent, ProbeRequest,
    ProbeStage, cover_error, decoded_lid_state, event_path, ioctl_read_request, is_hall_name,
    lid_bit_set, query_code, signed_request,
};

#[test]
fn only_lid_switch_open_and_close_values_are_accepted() {
    assert_eq!(decoded_lid_state(5, 0, 0), Some(false));
    assert_eq!(decoded_lid_state(5, 0, 1), Some(true));
    for (kind, code, value) in [(5, 0, -1), (5, 0, 2), (5, 1, 1), (1, 0, 1)] {
        assert_eq!(decoded_lid_state(kind, code, value), None);
    }
}

#[test]
fn query_codes_are_those_of_the_input_layer() {
    assert_eq!(ioctl_read_request(0x06, 64), 0x8040_4506);
    assert_eq!(query_code(&ProbeRequest::AskName), Some(0x8040_4506));
    assert_eq!(query_code(&ProbeRequest::AskSwitches), Some(0x8001_4525));
    assert_eq!(query_code(&ProbeRequest::AskState), Some(0x8001_451b));
    assert_eq!(query_code(&ProbeRequest::NoCover), None);
    assert_eq!(signed_request(0x8040_4506) as u32, 0x8040_4506);
    assert_eq!(signed_request(7), 7);
    assert_eq!(event_path(31), "/dev/input/event31");
}

#[test]
fn the_sensor_is_known_by_its_name() {
    let mut name = [0u8; 64];
    name[..16].copy_from_slice(b"hall_sensor_disp");
    assert!(is_hall_name(&name));
    name[17] = b'x';
    assert!(is_hall_name(&name));
    name[16] = b'2';
    assert!(!is_hall_name(&name));
    assert!(is_hall_name(b"hall_sensor_disp"));
    assert!(!is_hall_name(b"hall_sensor"));
    assert!(!is_hall_name(b""));
    assert!(lid_bit_set(0x83));
    assert!(!lid_bit_set(0x82));
}

#[test]
fn the_search_finds_the_sensor_and_keeps_it_open() {
    let (mut probe, first) = CoverProbe::start();
    assert_eq!(first, ProbeAction { close: false, request: ProbeRequest::Open(0) });
    let second = probe.step(&ProbeEvent::Opened(false));
    assert_eq!(second, ProbeAction { close: false, request: ProbeRequest::Open(1) });
    assert_eq!(
        probe.step(&ProbeEvent::Opened(true)),
        ProbeAction { close: false, request: ProbeRequest::AskName }
    );
    assert_eq!(
        probe.step(&ProbeEvent::Name(Some(b"touch\0".to_vec()))),
        ProbeAction { close: true, request: ProbeRequest::Open(2) }
    );
    probe.step(&ProbeEvent::Opened(true));
    assert_eq!(
        probe.step(&ProbeEvent::Name(None)),
        ProbeAction { close: true, request: ProbeRequest::Open(3) }
    );
    probe.step(&ProbeEvent::Opened(true));
    assert_eq!(
        probe.step(&ProbeEvent::Name(Some(b"hall_sensor_disp\0\0".to_vec()))),
        ProbeAction { close: false, request: ProbeRequest::AskSwitches }
    );
    assert_eq!(
        probe.step(&ProbeEvent::Switches(Some(2))),
        ProbeAction { close: true, request: ProbeRequest::Open(4) }
    );
    probe.step(&ProbeEvent::Opened(true));
    probe.step(&ProbeEvent::Name(Some(b"hall_sensor_disp".to_vec())));
    assert_eq!(
        probe.step(&ProbeEvent::Switches(Some(1))),
        ProbeAction { close: false, request: ProbeRequest::AskState }
    );
    let mut lost = probe;
    assert_eq!(
        probe.step(&ProbeEvent::State(Some(1))),
        ProbeAction { close: false, request: ProbeRequest::Found(true) }
    );
    assert_eq!(probe.stage, ProbeStage::Over);
    assert_eq!(
        lost.step(&ProbeEvent::State(None)),
        ProbeAction { close: true, request: ProbeRequest::Failed }
    );
}

#[test]
fn the_search_ends_without_a_sensor() {
    let (mut probe, mut action) = CoverProbe::start();
    let mut opened = 0;
    while let ProbeRequest::Open(number) = action.request {
        assert_eq!(number, opened);
        opened += 1;
        action = probe.step(&ProbeEvent::Opened(false));
    }
    assert_eq!(opened, 32);
    assert_eq!(action, ProbeAction { close: false, request: ProbeRequest::NoCover });
}

fn event(kind: u16, code: u16, value: i32) -> CoverRead {
    CoverRead::Bytes { count: 16, kind, code, value }
}

#[test]
fn the_last_change_of_the_lid_is_reported() {
    let mut cover = Cover::new(false);
    cover.begin_read();
    assert_eq!(cover.read_step(&event(5, 0, 1)), AfterCoverRead::ReadAgain);
    assert_eq!(cover.read_step(&event(0, 0, 0)), AfterCoverRead::ReadAgain);
    assert_eq!(cover.read_step(&event(5, 0, 0)), AfterCoverRead::ReadAgain);
    assert_eq!(cover.read_step(&event(5, 0, 1)), AfterCoverRead::ReadAgain);
    assert_eq!(cover.read_step(&CoverRead::WouldBlock), AfterCoverRead::Drained(Some(true)));
    assert!(cover.closed);
    cover.begin_read();
    assert_eq!(cover.read_step(&event(5, 0, 1)), AfterCoverRead::ReadAgain);
    assert_eq!(cover.read_step(&CoverRead::WouldBlock), AfterCoverRead::Drained(None));
}

#[test]
fn a_lid_that_moved_and_moved_back_is_reported() {
    let mut cover = Cover::new(false);
    cover.begin_read();
    cover.read_step(&event(5, 0, 1));
    cover.read_step(&event(5, 0, 0));
    assert_eq!(cover.read_step(&CoverRead::WouldBlock), AfterCoverRead::Drained(Some(false)));
    cover.begin_read();
    cover.read_step(&event(5, 0, 0));
    cover.read_step(&event(5, 1, 1));
    assert_eq!(cover.read_step(&CoverRead::WouldBlock), AfterCoverRead::Drained(None));
}

#[test]
fn a_cover_that_cannot_be_read_is_an_error() {
    let mut cover = Cover::new(true);
    assert_eq!(cover.read_step(&CoverRead::Failed), AfterCoverRead::ReadFailed);
    let end = cover.read_step(&CoverRead::Bytes { count: 0, kind: 5, code: 0, value: 0 });
    assert_eq!(end, AfterCoverRead::EndOfInput);
    assert_eq!(cover_error(&end), Some("Kindle cover input closed"));
    let part = cover.read_step(&CoverRead::Bytes { count: 8, kind: 5, code: 0, value: 0 });
    assert_eq!(part, AfterCoverRead::PartialEvent);
    assert_eq!(cover_error(&part), Some("Kindle cover input returned a partial event"));
    assert_eq!(cover_error(&AfterCoverRead::ReadFailed), None);
    assert_eq!(cover, Cover::new(true));
}
