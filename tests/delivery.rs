use shaggy::delivery::{first_route, next_route, Route};

fn run(prefer_private: bool, direct_ok: bool) -> Vec<Route> {
    let mut out = Vec::new();
    let mut next = Some(first_route(prefer_private));
    while let Some(r) = next {
        out.push(r);
        let ok = match r {
            Route::Direct => direct_ok,
            Route::Channel => true,
        };
        next = next_route(r, ok);
    }
    out
}

#[test]
fn private_failure_falls_back_to_channel() {
    assert_eq!(run(true, false), vec![Route::Direct, Route::Channel]);
}

#[test]
fn private_success_stops() {
    assert_eq!(run(true, true), vec![Route::Direct]);
}

#[test]
fn public_always_posts_to_channel() {
    assert_eq!(run(false, true), vec![Route::Channel]);
    assert_eq!(run(false, false), vec![Route::Channel]);
}

#[test]
fn failed_channel_post_ends_delivery() {
    assert_eq!(next_route(Route::Channel, false), None);
}
