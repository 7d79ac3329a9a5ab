use moq::error::Closed;
use moq::model::broadcast::Broadcast;
use moq::model::broadcast::BroadcastReader;
use moq::model::hub::Hub;
use moq::relay::origins::Origins;
use moq::relay::origins::RouterAnnounce;

fn consumer(hub: &mut Hub, name: &str) -> BroadcastReader {
    Broadcast::new(name).produce(hub).1
}

fn served(router: &Origins, name: &str) -> Option<usize> {
    match router.serve(name) {
        Ok(b) => {
            assert_eq!(b.info().name, name);
            Some(b.id())
        }
        Err(e) => {
            assert_eq!(e, Closed::NotFound);
            None
        }
    }
}

#[test]
fn empty_router_finds_nothing() {
    let router = Origins::new();
    assert_eq!(served(&router, "room"), None);
    assert_eq!(router.announced("room"), 0);
}

#[test]
fn newest_announcement_wins_and_the_older_comes_back() {
    let mut hub = Hub::new();
    let mut router = Origins::new();
    let a = consumer(&mut hub, "room");
    let b = consumer(&mut hub, "room");
    let handle_a = router.announce(a.clone());
    assert_eq!(served(&router, "room"), Some(a.id()));
    let handle_b = router.announce(b.clone());
    assert_eq!(served(&router, "room"), Some(b.id()));
    assert_eq!(router.announced("room"), 2);
    assert!(handle_b.release(&mut router));
    assert_eq!(served(&router, "room"), Some(a.id()));
    assert!(handle_a.release(&mut router));
    assert_eq!(served(&router, "room"), None);
    assert_eq!(router.announced("room"), 0);
}

#[test]
fn withdrawing_the_older_leaves_the_newer_in_front() {
    let mut hub = Hub::new();
    let mut router = Origins::new();
    let a = consumer(&mut hub, "room");
    let b = consumer(&mut hub, "room");
    let c = consumer(&mut hub, "room");
    let handle_a = router.announce(a.clone());
    let handle_b = router.announce(b.clone());
    let _handle_c = router.announce(c.clone());
    assert!(handle_a.release(&mut router));
    assert_eq!(served(&router, "room"), Some(c.id()));
    assert!(handle_b.release(&mut router));
    assert_eq!(served(&router, "room"), Some(c.id()));
    assert_eq!(router.announced("room"), 1);
}

#[test]
fn names_do_not_touch_one_another() {
    let mut hub = Hub::new();
    let mut router = Origins::new();
    let a = consumer(&mut hub, "one");
    let b = consumer(&mut hub, "two");
    let handle_a = router.announce(a.clone());
    let _handle_b = router.announce(b.clone());
    assert_eq!(served(&router, "one"), Some(a.id()));
    assert_eq!(served(&router, "two"), Some(b.id()));
    assert_eq!(served(&router, "three"), None);
    assert!(handle_a.release(&mut router));
    assert_eq!(served(&router, "one"), None);
    assert_eq!(served(&router, "two"), Some(b.id()));
}

#[test]
fn withdrawing_what_is_not_announced_changes_nothing() {
    let mut hub = Hub::new();
    let mut router = Origins::new();
    let a = consumer(&mut hub, "room");
    let b = consumer(&mut hub, "room");
    let _handle = router.announce(a.clone());
    assert!(!router.unannounce(&b));
    let stranger = consumer(&mut hub, "elsewhere");
    assert!(!router.unannounce(&stranger));
    assert_eq!(served(&router, "room"), Some(a.id()));
    assert!(router.unannounce(&a));
    assert!(!router.unannounce(&a));
}

#[test]
fn one_consumer_announced_twice_is_withdrawn_once_at_a_time() {
    let mut hub = Hub::new();
    let mut router = Origins::new();
    let a = consumer(&mut hub, "room");
    let b = consumer(&mut hub, "room");
    let first = router.announce(a.clone());
    let _between = router.announce(b.clone());
    let second = router.announce(a.clone());
    assert_eq!(router.announced("room"), 3);
    assert_eq!(served(&router, "room"), Some(a.id()));
    assert!(second.release(&mut router));
    assert_eq!(served(&router, "room"), Some(b.id()));
    assert_eq!(router.announced("room"), 2);
    assert!(first.release(&mut router));
    assert_eq!(served(&router, "room"), Some(b.id()));
    assert_eq!(router.announced("room"), 1);
}

#[test]
fn handle_names_its_consumer() {
    let mut hub = Hub::new();
    let a = consumer(&mut hub, "room");
    let handle = RouterAnnounce::new(a.clone());
    assert_eq!(handle.broadcast().id(), a.id());
    let mut router = Origins::new();
    assert!(!handle.release(&mut router));
}
