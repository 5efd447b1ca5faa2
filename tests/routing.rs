use telemetry::hub::Hub;
use telemetry::message::{
    parse_driver, parse_route, Channel, Driver, Headers, Mpu6050, Payload, Report, Route,
};
use telemetry::router::{all_routes, handle, Dispatch};

#[test]
fn route_topics_round_trip() {
    let routes = all_routes();
    assert_eq!(routes.len(), 8);
    for r in &routes {
        assert_eq!(parse_route(r.topic()), Some(*r));
    }
    assert_eq!(
        Route { channel: Channel::Durable, driver: Driver::Motion }.topic(),
        "durable/motion"
    );
    assert_eq!(Route { channel: Channel::Live, driver: Driver::Alert }.topic(), "live/alert");
}

#[test]
fn unknown_topics_do_not_parse() {
    assert_eq!(parse_route("durable"), None);
    assert_eq!(parse_route("durable/"), None);
    assert_eq!(parse_route("durable/temperature/x"), None);
    assert_eq!(parse_route("socket/temperature"), None);
    assert_eq!(parse_route(""), None);
}

#[test]
fn router_dispatches_by_route() {
    assert_eq!(handle("durable/temperature"), Dispatch::Store(Driver::Temperature));
    assert_eq!(handle("durable/optical"), Dispatch::Store(Driver::Optical));
    assert_eq!(handle("live/motion"), Dispatch::Forward(Driver::Motion));
    assert_eq!(handle("live/alert"), Dispatch::Forward(Driver::Alert));
    assert_eq!(handle("live/unknown"), Dispatch::Drop);
    assert_eq!(handle("archive/temperature"), Dispatch::Drop);
}

#[test]
fn driver_names() {
    assert_eq!(parse_driver("temperature"), Some(Driver::Temperature));
    assert_eq!(parse_driver("optical"), Some(Driver::Optical));
    assert_eq!(parse_driver("motion"), Some(Driver::Motion));
    assert_eq!(parse_driver("alert"), Some(Driver::Alert));
    assert_eq!(parse_driver("Optical"), None);
    assert_eq!(Driver::Optical.name(), "optical");
}

#[test]
fn fanout_isolation() {
    let mut hub = Hub::new();
    let a = hub.connect().unwrap();
    let b = hub.connect().unwrap();
    assert_ne!(a, b);
    assert_eq!(hub.subscribe_frame(a, "optical"), Some(Driver::Optical));
    assert_eq!(hub.subscribe_frame(b, "temperature"), Some(Driver::Temperature));
    assert_eq!(hub.recipients(Driver::Temperature), vec![b]);
    assert_eq!(hub.recipients(Driver::Optical), vec![a]);
    assert!(hub.recipients(Driver::Motion).is_empty());
}

#[test]
fn several_sessions_share_a_topic() {
    let mut hub = Hub::new();
    let a = hub.connect().unwrap();
    let b = hub.connect().unwrap();
    assert!(hub.subscribe(a, Driver::Motion));
    assert!(hub.subscribe(b, Driver::Motion));
    assert!(hub.subscribe(a, Driver::Motion));
    assert_eq!(hub.recipients(Driver::Motion), vec![a, b]);
    hub.close(a);
    assert_eq!(hub.recipients(Driver::Motion), vec![b]);
    assert!(!hub.subscribe(a, Driver::Alert));
    assert!(hub.recipients(Driver::Alert).is_empty());
}

#[test]
fn unknown_frame_subscribes_nothing() {
    let mut hub = Hub::new();
    let a = hub.connect().unwrap();
    assert_eq!(hub.subscribe_frame(a, "gps"), None);
    assert_eq!(hub.subscribe_frame(a + 1, "motion"), None);
    for d in [Driver::Temperature, Driver::Optical, Driver::Motion, Driver::Alert] {
        assert!(hub.recipients(d).is_empty());
    }
}

#[test]
fn payload_drivers() {
    assert_eq!(Payload::Motion(Mpu6050 { steps: 3 }).driver(), Driver::Motion);
    assert_eq!(Payload::Alert(Report::warning()).driver(), Driver::Alert);
}

#[test]
fn warning_report_text() {
    let r = Report::warning();
    assert_eq!(r.status, "warning");
    assert_eq!(r.description, "Ocurrio algo grave");
}

#[test]
fn header_offsets() {
    let h = Headers { timestamp: 1000 };
    assert_eq!(h.with_offset(-3600), -2600);
    assert_eq!(h.with_offset(7200), 8200);
    assert_eq!(Headers { timestamp: i64::MAX }.with_offset(10), i64::MAX);
    assert_eq!(Headers { timestamp: i64::MIN }.with_offset(-10), i64::MIN);
    let local = h.get_timestamp();
    assert!((local - 1000).abs() < 86400);
}

#[test]
fn open_under_given_identifier() {
    let mut hub = Hub::new();
    assert!(hub.open(7));
    assert!(!hub.open(7));
    assert!(hub.open(8));
    assert!(hub.subscribe(7, Driver::Optical));
    assert!(!hub.subscribe(9, Driver::Optical));
    assert_eq!(hub.recipients(Driver::Optical), vec![7]);
    hub.close(7);
    assert!(hub.open(7));
    assert!(hub.recipients(Driver::Optical).is_empty());
}

#[test]
fn empty_hub_always_connects() {
    let mut hub = Hub::new();
    assert!(hub.connect().is_some());
}
