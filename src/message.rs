use vstd::prelude::*;
use crate::clock::{local_now_seconds, local_offset_seconds};
use crate::text::text_is;

verus! {

/// Delivery class of a route: `live` goes to subscribers only, `durable` is stored.
#[derive(Clone, Copy, Debug, PartialEq, Eq, Structural)]
pub enum Channel {
    Live,
    Durable,
}

/// Sensor kind; each one has its own payload type.
#[derive(Clone, Copy, Debug, PartialEq, Eq, Structural)]
pub enum Driver {
    Temperature,
    Optical,
    Motion,
    Alert,
}

/// The addressing unit on the wire, written `channel/driver`.
#[derive(Clone, Copy, Debug, PartialEq, Eq, Structural)]
pub struct Route {
    pub channel: Channel,
    pub driver: Driver,
}

pub open spec fn route_text(r: Route) -> Seq<char> {
    match (r.channel, r.driver) {
        (Channel::Live, Driver::Temperature) => "live/temperature"@,
        (Channel::Live, Driver::Optical) => "live/optical"@,
        (Channel::Live, Driver::Motion) => "live/motion"@,
        (Channel::Live, Driver::Alert) => "live/alert"@,
        (Channel::Durable, Driver::Temperature) => "durable/temperature"@,
        (Channel::Durable, Driver::Optical) => "durable/optical"@,
        (Channel::Durable, Driver::Motion) => "durable/motion"@,
        (Channel::Durable, Driver::Alert) => "durable/alert"@,
    }
}

impl Route {
    /// The topic string of this route.
    pub fn topic(&self) -> (r: &'static str)
        ensures
            r@ == route_text(*self),
    {
        match (self.channel, self.driver) {
            (Channel::Live, Driver::Temperature) => "live/temperature",
            (Channel::Live, Driver::Optical) => "live/optical",
            (Channel::Live, Driver::Motion) => "live/motion",
            (Channel::Live, Driver::Alert) => "live/alert",
            (Channel::Durable, Driver::Temperature) => "durable/temperature",
            (Channel::Durable, Driver::Optical) => "durable/optical",
            (Channel::Durable, Driver::Motion) => "durable/motion",
            (Channel::Durable, Driver::Alert) => "durable/alert",
        }
    }
}

/// Distinct routes have distinct topic strings.
pub proof fn lemma_route_text_injective(a: Route, b: Route)
    requires
        route_text(a) == route_text(b),
    ensures
        a == b,
{
    reveal_strlit("live/temperature");
    assert("live/temperature"@.len() == 16);
    reveal_strlit("live/optical");
    assert("live/optical"@.len() == 12);
    reveal_strlit("live/motion");
    assert("live/motion"@.len() == 11);
    reveal_strlit("live/alert");
    assert("live/alert"@.len() == 10);
    reveal_strlit("durable/temperature");
    assert("durable/temperature"@.len() == 19);
    reveal_strlit("durable/optical");
    assert("durable/optical"@.len() == 15);
    reveal_strlit("durable/motion");
    assert("durable/motion"@.len() == 14);
    reveal_strlit("durable/alert");
    assert("durable/alert"@.len() == 13);
    assert(route_text(a).len() == route_text(b).len());
}

/// Reads a topic string back into a route; unknown topics give `None`.
pub fn parse_route(topic: &str) -> (r: Option<Route>)
    ensures
        match r {
            Some(route) => topic@ == route_text(route),
            None => forall|route: Route| topic@ != route_text(route),
        },
        forall|route: Route| topic@ == route_text(route) ==> r == Some(route),
{
    let r = if text_is(topic, "live/temperature") {
        Some(Route { channel: Channel::Live, driver: Driver::Temperature })
    } else if text_is(topic, "live/optical") {
        Some(Route { channel: Channel::Live, driver: Driver::Optical })
    } else if text_is(topic, "live/motion") {
        Some(Route { channel: Channel::Live, driver: Driver::Motion })
    } else if text_is(topic, "live/alert") {
        Some(Route { channel: Channel::Live, driver: Driver::Alert })
    } else if text_is(topic, "durable/temperature") {
        Some(Route { channel: Channel::Durable, driver: Driver::Temperature })
    } else if text_is(topic, "durable/optical") {
        Some(Route { channel: Channel::Durable, driver: Driver::Optical })
    } else if text_is(topic, "durable/motion") {
        Some(Route { channel: Channel::Durable, driver: Driver::Motion })
    } else if text_is(topic, "durable/alert") {
        Some(Route { channel: Channel::Durable, driver: Driver::Alert })
    } else {
        None
    };
    proof {
        assert forall|route: Route| topic@ == route_text(route) implies r == Some(route) by {
            if let Some(x) = r {
                lemma_route_text_injective(x, route);
            }
        }
    }
    r
}

pub open spec fn driver_text(d: Driver) -> Seq<char> {
    match d {
        Driver::Temperature => "temperature"@,
        Driver::Optical => "optical"@,
        Driver::Motion => "motion"@,
        Driver::Alert => "alert"@,
    }
}

impl Driver {
    /// The bare driver name, as a subscription frame carries it.
    pub fn name(&self) -> (r: &'static str)
        ensures
            r@ == driver_text(*self),
    {
        match self {
            Driver::Temperature => "temperature",
            Driver::Optical => "optical",
            Driver::Motion => "motion",
            Driver::Alert => "alert",
        }
    }
}

/// Distinct drivers have distinct names.
pub proof fn lemma_driver_text_injective(a: Driver, b: Driver)
    requires
        driver_text(a) == driver_text(b),
    ensures
        a == b,
{
    reveal_strlit("temperature");
    assert("temperature"@.len() == 11);
    reveal_strlit("optical");
    assert("optical"@.len() == 7);
    reveal_strlit("motion");
    assert("motion"@.len() == 6);
    reveal_strlit("alert");
    assert("alert"@.len() == 5);
    assert(driver_text(a).len() == driver_text(b).len());
}

/// Reads a bare driver name; unknown names give `None`.
pub fn parse_driver(name: &str) -> (r: Option<Driver>)
    ensures
        match r {
            Some(d) => name@ == driver_text(d),
            None => forall|d: Driver| name@ != driver_text(d),
        },
        forall|d: Driver| name@ == driver_text(d) ==> r == Some(d),
{
    let r = if text_is(name, "temperature") {
        Some(Driver::Temperature)
    } else if text_is(name, "optical") {
        Some(Driver::Optical)
    } else if text_is(name, "motion") {
        Some(Driver::Motion)
    } else if text_is(name, "alert") {
        Some(Driver::Alert)
    } else {
        None
    };
    proof {
        assert forall|d: Driver| name@ == driver_text(d) implies r == Some(d) by {
            if let Some(x) = r {
                lemma_driver_text_injective(x, d);
            }
        }
    }
    r
}

/// Temperature sample, in thousandths of a degree Celsius.
#[derive(Clone, Copy, Debug, PartialEq, Eq, Structural)]
pub struct Ds18b20 {
    pub millidegrees: i32,
}

/// Heart-rate sample, in beats per minute.
#[derive(Clone, Copy, Debug, PartialEq, Eq, Structural)]
pub struct Max3010x {
    pub heart_rate: u32,
}

/// Motion sample: the step count so far.
#[derive(Clone, Copy, Debug, PartialEq, Eq, Structural)]
pub struct Mpu6050 {
    pub steps: u32,
}

/// Raw accelerometer reading.
#[derive(Clone, Copy, Debug, PartialEq, Eq, Structural)]
pub struct Accel {
    pub x: i16,
    pub y: i16,
    pub z: i16,
}

/// Operator alert raised from the device.
#[derive(Clone, Debug)]
pub struct Report {
    pub status: String,
    pub description: String,
}

impl Report {
    /// The alert that the device button raises.
    pub fn warning() -> (r: Report)
        ensures
            r.status@ == "warning"@,
            r.description@ == "Ocurrio algo grave"@,
    {
        Report { status: "warning".to_owned(), description: "Ocurrio algo grave".to_owned() }
    }
}

/// Payload of an envelope: each variant carries only its own fields.
#[derive(Clone, Debug)]
pub enum Payload {
    Temperature(Ds18b20),
    HeartRate(Max3010x),
    Motion(Mpu6050),
    Alert(Report),
}

pub open spec fn payload_driver(p: Payload) -> Driver {
    match p {
        Payload::Temperature(_) => Driver::Temperature,
        Payload::HeartRate(_) => Driver::Optical,
        Payload::Motion(_) => Driver::Motion,
        Payload::Alert(_) => Driver::Alert,
    }
}

impl Payload {
    /// The driver whose topic carries this payload.
    pub fn driver(&self) -> (r: Driver)
        ensures
            r == payload_driver(*self),
    {
        match self {
            Payload::Temperature(_) => Driver::Temperature,
            Payload::HeartRate(_) => Driver::Optical,
            Payload::Motion(_) => Driver::Motion,
            Payload::Alert(_) => Driver::Alert,
        }
    }
}

/// Envelope header: capture time in seconds since the Unix epoch.
#[derive(Clone, Copy, Debug, PartialEq, Eq, Structural)]
pub struct Headers {
    pub timestamp: i64,
}

/// `t` moved by `offset` seconds, held within the range of `i64`.
pub open spec fn shifted(t: i64, offset: i32) -> i64 {
    let s = t + offset;
    if s > i64::MAX {
        i64::MAX
    } else if s < i64::MIN {
        i64::MIN
    } else {
        s as i64
    }
}

impl Headers {
    /// The capture time moved into a time zone `offset` seconds east of UTC.
    pub fn with_offset(&self, offset: i32) -> (r: i64)
        ensures
            r == shifted(self.timestamp, offset),
    {
        let s: i128 = self.timestamp as i128 + offset as i128;
        if s > i64::MAX as i128 {
            i64::MAX
        } else if s < i64::MIN as i128 {
            i64::MIN
        } else {
            s as i64
        }
    }

    /// The capture time in the machine's local time zone.
    pub fn get_timestamp(&self) -> (r: i64)
        ensures
            exists|offset: i32| -86400 < offset < 86400 && r == shifted(self.timestamp, offset),
    {
        self.with_offset(local_offset_seconds())
    }
}

/// An envelope: capture time and payload.
#[derive(Clone, Debug)]
pub struct Message {
    pub headers: Headers,
    pub payload: Payload,
}

impl Message {
    /// Stamps a payload with the device clock.
    pub fn new(payload: Payload) -> (r: Message)
        ensures
            r.payload == payload,
    {
        Message { headers: Headers { timestamp: local_now_seconds() }, payload }
    }

    /// An envelope with a given capture time.
    pub fn at(timestamp: i64, payload: Payload) -> (r: Message)
        ensures
            r.headers.timestamp == timestamp,
            r.payload == payload,
    {
        Message { headers: Headers { timestamp }, payload }
    }
}

} // verus!
