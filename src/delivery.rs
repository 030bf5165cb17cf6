//! Delivering one message: privately where asked, with the shared channel as
//! the fallback.

use vstd::prelude::*;

verus! {

/// Where a delivery attempt goes.
#[derive(Debug, Clone, Copy, PartialEq, Eq, Structural)]
pub enum Route {
    /// A private message to the recipient.
    Direct,
    /// A post in the shared channel, addressed to the recipient by mention.
    Channel,
}

/// The first attempt for a recipient.
pub open spec fn first_route_spec(prefer_private: bool) -> Route {
    if prefer_private {
        Route::Direct
    } else {
        Route::Channel
    }
}

/// The attempt after one on `route` that succeeded or failed; `None` ends the
/// delivery.
pub open spec fn next_route_spec(route: Route, succeeded: bool) -> Option<Route> {
    match route {
        Route::Direct => if succeeded {
            None
        } else {
            Some(Route::Channel)
        },
        Route::Channel => None,
    }
}

/// The first attempt for a recipient.
pub fn first_route(prefer_private: bool) -> (r: Route)
    ensures
        r == first_route_spec(prefer_private),
{
    if prefer_private {
        Route::Direct
    } else {
        Route::Channel
    }
}

/// The attempt that follows one on `route`.
pub fn next_route(route: Route, succeeded: bool) -> (r: Option<Route>)
    ensures
        r == next_route_spec(route, succeeded),
{
    match route {
        Route::Direct => if succeeded {
            None
        } else {
            Some(Route::Channel)
        },
        Route::Channel => None,
    }
}

/// The attempts made for one recipient when a private message would succeed
/// or fail as `direct_ok` says.
pub open spec fn attempts(prefer_private: bool, direct_ok: bool) -> Seq<Route> {
    let first = first_route_spec(prefer_private);
    match next_route_spec(first, if first == Route::Direct { direct_ok } else { true }) {
        Some(second) => seq![first, second],
        None => seq![first],
    }
}

/// A failed private delivery falls back to the channel; without the private
/// preference the channel is used, whatever a private message would have done;
/// a delivery ends after at most two attempts and always ends on a channel
/// post or a successful private message.
pub proof fn law_delivery_fallback(prefer_private: bool, direct_ok: bool)
    ensures
        prefer_private && !direct_ok ==> attempts(prefer_private, direct_ok) == seq![
            Route::Direct,
            Route::Channel,
        ],
        prefer_private && direct_ok ==> attempts(prefer_private, direct_ok) == seq![Route::Direct],
        !prefer_private ==> attempts(prefer_private, direct_ok) == seq![Route::Channel],
        !prefer_private ==> attempts(prefer_private, !direct_ok) == attempts(
            prefer_private,
            direct_ok,
        ),
        next_route_spec(Route::Channel, direct_ok) is None,
{
}

} // verus!
