use pet_cache::asset::{asset_file_name, origin_url, parse_asset_file_name};
use pet_cache::coordinator::{Begin, Coordinator, WaitState};
use pet_cache::flow::{check_fetch, is_success, FetchFailure};
use pet_cache::port::{PortScan, ScanStep, PORT_END, PORT_FIRST};

#[test]
fn parses_canonical_names() {
    assert_eq!(parse_asset_file_name("7.swf"), Some(7));
    assert_eq!(parse_asset_file_name("0.swf"), Some(0));
    assert_eq!(parse_asset_file_name("1234.swf"), Some(1234));
    assert_eq!(parse_asset_file_name("4294967295.swf"), Some(u32::MAX));
}

#[test]
fn refuses_other_names() {
    for name in [
        "abc.swf", "007.swf", "00.swf", "+7.swf", "-7.swf", "7.SWF", "7.swfx", "7swf", ".swf",
        "4294967296.swf", "99999999999.swf", "7 .swf", "a/7.swf", "",
    ] {
        assert_eq!(parse_asset_file_name(name), None, "{}", name);
    }
}

#[test]
fn file_names_and_urls() {
    assert_eq!(asset_file_name(42), "42.swf");
    assert_eq!(asset_file_name(0), "0.swf");
    assert_eq!(asset_file_name(u32::MAX), "4294967295.swf");
    assert_eq!(
        origin_url(7),
        "https://seer2-pet-resource.yuuinih.com/public/fight/7.swf"
    );
}

#[test]
fn file_name_round_trip() {
    for id in [0u32, 7, 10, 42, 100, 65535, u32::MAX] {
        assert_eq!(parse_asset_file_name(&asset_file_name(id)), Some(id));
    }
}

#[test]
fn success_statuses() {
    assert!(is_success(200));
    assert!(is_success(204));
    assert!(is_success(299));
    assert!(!is_success(199));
    assert!(!is_success(300));
    assert!(!is_success(404));
    assert!(!is_success(500));
}

#[test]
fn fetch_checks() {
    assert_eq!(check_fetch(Some(200), Some(vec![1, 2, 3])), Ok(vec![1, 2, 3]));
    assert_eq!(check_fetch(None, None), Err(FetchFailure::Transport));
    assert_eq!(check_fetch(Some(500), Some(vec![1])), Err(FetchFailure::Status(500)));
    assert_eq!(check_fetch(Some(200), None), Err(FetchFailure::Body));
}

#[test]
fn scan_takes_first_port_that_binds() {
    let (mut scan, first) = PortScan::start();
    assert_eq!(first, ScanStep::Probe(8103));
    assert_eq!(scan.on_probe(false), ScanStep::Probe(8104));
    assert_eq!(scan.on_probe(false), ScanStep::Probe(8105));
    assert_eq!(scan.on_probe(true), ScanStep::Found(8105));
}

#[test]
fn scan_stays_in_range_and_ends() {
    let (mut scan, mut step) = PortScan::start();
    let mut probes = 0;
    loop {
        match step {
            ScanStep::Probe(p) => {
                assert!(PORT_FIRST <= p && p < PORT_END);
                probes += 1;
                step = scan.on_probe(false);
            }
            ScanStep::Exhausted => break,
            ScanStep::Found(_) => panic!("no port bound"),
        }
    }
    assert_eq!(probes, 97);
}

#[test]
fn scan_finds_last_port() {
    let (mut scan, mut step) = PortScan::start();
    while step != ScanStep::Probe(8199) {
        step = scan.on_probe(false);
    }
    assert_eq!(scan.on_probe(true), ScanStep::Found(8199));
}

#[test]
fn coordinator_tickets() {
    let mut c = Coordinator::new();
    assert_eq!(c.begin(1, true), Begin::Hit);
    assert_eq!(c.begin(1, false), Begin::Fetch(0));
    assert_eq!(c.begin(1, false), Begin::Wait(0));
    assert_eq!(c.begin(2, false), Begin::Fetch(1));
    assert_eq!(c.wait_state(1, 0, false), WaitState::Pending);
    c.finish(1, 7);
    assert!(c.in_flight(1));
    c.finish(1, 0);
    assert!(!c.in_flight(1));
    assert!(c.in_flight(2));
    assert_eq!(c.wait_state(1, 0, true), WaitState::Ready);
    assert_eq!(c.wait_state(1, 0, false), WaitState::Ended);
    assert_eq!(c.begin(1, false), Begin::Fetch(2));
}
