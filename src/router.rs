use vstd::prelude::*;
use crate::message::{parse_route, route_text, Channel, Driver, Route};

verus! {

/// What the broker does with an inbound publish.
#[derive(Clone, Copy, Debug, PartialEq, Eq, Structural)]
pub enum Dispatch {
    /// Decode the payload as the driver's envelope type and store it.
    Store(Driver),
    /// Pass the raw payload to the driver's fan-out topic.
    Forward(Driver),
    /// Unrecognised route: drop silently.
    Drop,
}

/// Routes an inbound publish by its topic alone: durable routes go to the
/// store, live routes to the fan-out hub, anything else is dropped.
pub fn handle(topic: &str) -> (r: Dispatch)
    ensures
        match r {
            Dispatch::Store(d) => topic@ == route_text(Route { channel: Channel::Durable, driver: d }),
            Dispatch::Forward(d) => topic@ == route_text(Route { channel: Channel::Live, driver: d }),
            Dispatch::Drop => forall|route: Route| topic@ != route_text(route),
        },
{
    match parse_route(topic) {
        Some(route) => match route.channel {
            Channel::Durable => Dispatch::Store(route.driver),
            Channel::Live => Dispatch::Forward(route.driver),
        },
        None => Dispatch::Drop,
    }
}

/// Every route the broker listens on: both channels for every driver.
pub fn all_routes() -> (r: Vec<Route>)
    ensures
        r@.len() == 8,
        forall|route: Route| r@.contains(route),
{
    let mut r: Vec<Route> = Vec::new();
    r.push(Route { channel: Channel::Live, driver: Driver::Temperature });
    r.push(Route { channel: Channel::Live, driver: Driver::Optical });
    r.push(Route { channel: Channel::Live, driver: Driver::Motion });
    r.push(Route { channel: Channel::Live, driver: Driver::Alert });
    r.push(Route { channel: Channel::Durable, driver: Driver::Temperature });
    r.push(Route { channel: Channel::Durable, driver: Driver::Optical });
    r.push(Route { channel: Channel::Durable, driver: Driver::Motion });
    r.push(Route { channel: Channel::Durable, driver: Driver::Alert });
    assert forall|route: Route| r@.contains(route) by {
        let i: int = match (route.channel, route.driver) {
            (Channel::Live, Driver::Temperature) => 0,
            (Channel::Live, Driver::Optical) => 1,
            (Channel::Live, Driver::Motion) => 2,
            (Channel::Live, Driver::Alert) => 3,
            (Channel::Durable, Driver::Temperature) => 4,
            (Channel::Durable, Driver::Optical) => 5,
            (Channel::Durable, Driver::Motion) => 6,
            (Channel::Durable, Driver::Alert) => 7,
        };
        assert(r@[i] == route);
    }
    r
}

} // verus!
