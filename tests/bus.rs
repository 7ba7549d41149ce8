use prism::channel::{BusEvent, Channel};

#[test]
fn every_subscriber_gets_each_message_in_order() {
    let channel = Channel::new("lobby");
    let mut s1 = channel.subscribe();
    let mut s2 = channel.subscribe();
    assert_eq!(channel.publish(vec![1]), 2);
    assert_eq!(channel.publish(vec![2, 3]), 2);
    for s in [&mut s1, &mut s2] {
        assert_eq!(s.try_recv(), Some(BusEvent::Message(vec![1])));
        assert_eq!(s.try_recv(), Some(BusEvent::Message(vec![2, 3])));
        assert_eq!(s.try_recv(), None);
    }
}

#[test]
fn no_history_before_subscribing() {
    let channel = Channel::new("lobby");
    let _early = channel.subscribe();
    channel.publish(vec![1]);
    let mut late = channel.subscribe();
    assert_eq!(late.try_recv(), None);
    channel.publish(vec![2]);
    assert_eq!(late.try_recv(), Some(BusEvent::Message(vec![2])));
}

#[test]
fn publish_without_subscribers_is_harmless() {
    let channel = Channel::new("empty");
    assert_eq!(channel.publish(vec![1, 2, 3]), 0);
}

#[test]
fn slow_subscriber_lags_without_holding_others_back() {
    let channel = Channel::new("lobby");
    let mut slow = channel.subscribe();
    let mut fast = channel.subscribe();
    for i in 0..200u32 {
        let msg = i.to_be_bytes().to_vec();
        channel.publish(msg.clone());
        assert_eq!(fast.try_recv(), Some(BusEvent::Message(msg)));
    }
    assert_eq!(slow.try_recv(), Some(BusEvent::Lagged(136)));
    // Resubscribing puts the subscriber at the tail.
    let mut slow = channel.subscribe();
    assert_eq!(slow.try_recv(), None);
    channel.publish(vec![9]);
    assert_eq!(slow.try_recv(), Some(BusEvent::Message(vec![9])));
}

#[test]
fn closed_when_no_publisher_is_left() {
    let channel = Channel::new("gone");
    let mut s = channel.subscribe();
    drop(channel);
    assert_eq!(s.try_recv(), Some(BusEvent::Closed));
}
