use build_proxy::debounce::{Poll, S};

#[test]
fn a_new_stream_has_let_nothing_through() {
    let stream = S("below").debounce(50);
    assert_eq!(stream.stream, "below");
    assert_eq!(stream.duration, 50);
    assert_eq!(stream.last_item_yielded_at, None);
}

#[test]
fn items_that_come_too_early_are_dropped() {
    let mut stream = S(()).debounce(50);
    assert_eq!(stream.poll_next(Poll::Ready(Some(1)), 100, 101), Poll::Ready(Some(1)));
    assert_eq!(stream.last_item_yielded_at, Some(101));
    assert_eq!(stream.poll_next(Poll::Ready(Some(2)), 120, 121), Poll::Pending);
    assert_eq!(stream.poll_next(Poll::Ready(Some(3)), 150, 151), Poll::Pending);
    assert_eq!(stream.last_item_yielded_at, Some(101));
    assert_eq!(stream.poll_next(Poll::Ready(Some(4)), 151, 155), Poll::Ready(Some(4)));
    assert_eq!(stream.last_item_yielded_at, Some(155));
}

#[test]
fn the_end_can_come_too_early() {
    let mut stream = S(()).debounce(50);
    assert_eq!(stream.poll_next(Poll::Ready(Some(1)), 0, 0), Poll::Ready(Some(1)));
    assert_eq!(stream.poll_next::<i32>(Poll::Ready(None), 10, 10), Poll::Pending);
    assert_eq!(stream.poll_next::<i32>(Poll::Ready(None), 60, 60), Poll::Ready(None));
}

#[test]
fn pending_changes_nothing() {
    let mut stream = S(()).debounce(50);
    assert_eq!(stream.poll_next::<i32>(Poll::Pending, 0, 0), Poll::Pending);
    assert_eq!(stream.last_item_yielded_at, None);
}

#[test]
fn no_duration_lets_everything_through() {
    let mut stream = S(()).debounce(0);
    assert_eq!(stream.poll_next(Poll::Ready(Some(1)), 5, 5), Poll::Ready(Some(1)));
    assert_eq!(stream.poll_next(Poll::Ready(Some(2)), 4, 4), Poll::Ready(Some(2)));
}

#[test]
fn a_clock_that_goes_back_lets_nothing_through() {
    let mut stream = S(()).debounce(1);
    assert_eq!(stream.poll_next(Poll::Ready(Some(1)), 5, 5), Poll::Ready(Some(1)));
    assert_eq!(stream.poll_next(Poll::Ready(Some(2)), 4, 4), Poll::Pending);
}

#[test]
fn items_let_through_are_spaced() {
    let mut stream = S(()).debounce(7);
    let mut last: Option<u128> = None;
    for now in 0..100u128 {
        if let Poll::Ready(_) = stream.poll_next(Poll::Ready(Some(now)), now, now) {
            if let Some(at) = last {
                assert_eq!(now - at, 7);
            }
            last = Some(now);
        }
    }
    assert_eq!(last, Some(98));
}
