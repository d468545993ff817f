use openvibe_server::forward::forward_message;
use openvibe_server::state::{subscribe, subscribe_master, subscribe_slave, unregister_client, Connections};
use openvibe_server::types::ClientType;
use tokio::sync::broadcast::error::TryRecvError;

#[test]
fn device_broadcasts_to_multiple_masters() {
    let mut connections = Connections::new();
    let mut device_rx = subscribe_slave(&mut connections, "device123");
    let mut mobile_receivers = Vec::new();
    for _ in 0..3 {
        mobile_receivers.push(subscribe_master(&mut connections, "device123"));
    }

    let msg = "hello mobiles".to_string();
    let sent = forward_message(&connections, "device123", msg.clone(), ClientType::Slave);
    assert_eq!(sent.expect("send from device").receivers, 3);
    for rx in mobile_receivers.iter_mut() {
        let got = rx.try_recv();
        assert_eq!(got.unwrap(), msg);
    }

    let mmsg = "hello device".to_string();
    let sent = forward_message(&connections, "device123", mmsg.clone(), ClientType::Master);
    assert_eq!(sent.expect("send from mobile").receivers, 1);
    let got = device_rx.try_recv();
    assert_eq!(got.unwrap(), mmsg);
}

#[test]
fn test_device_mobile_communication() {
    let device_id = "test_device_123";
    let mut connections = Connections::new();
    let mut device_rx = subscribe_slave(&mut connections, device_id);
    let mut mobile_rx = subscribe_master(&mut connections, device_id);

    let sent = forward_message(&connections, device_id, "Hello from mobile".to_string(), ClientType::Master);
    assert!(sent.is_some());
    let msg = device_rx.try_recv().expect("Device message error");
    assert_eq!(msg, "Hello from mobile".to_string());

    let sent = forward_message(&connections, device_id, "Hello from device".to_string(), ClientType::Slave);
    assert!(sent.is_some());
    let msg = mobile_rx.try_recv().expect("Mobile message error");
    assert_eq!(msg, "Hello from device".to_string());
}

#[test]
fn mobile_messages_do_not_go_to_other_masters() {
    let device_id = "device_no_cross";
    let mut connections = Connections::new();
    let mut device_rx = subscribe_slave(&mut connections, device_id);
    let _m1_rx = subscribe_master(&mut connections, device_id);
    let mut m2_rx = subscribe_master(&mut connections, device_id);

    let text = "from mobile1".to_string();
    let sent = forward_message(&connections, device_id, text.clone(), ClientType::Master);
    assert!(sent.is_some(), "send from m1");

    let res = m2_rx.try_recv();
    assert!(res.is_err(), "mobile2 should NOT receive messages from another mobile");
    assert_eq!(res, Err(TryRecvError::Empty));
    assert_eq!(device_rx.try_recv(), Ok(text));
}

#[test]
fn subscribe_then_unsubscribe_leaves_no_entry() {
    for role in [ClientType::Master, ClientType::Slave] {
        let mut connections = Connections::new();
        assert!(connections.is_empty());
        let _rx = subscribe(&mut connections, "solo", role);
        assert!(connections.contains("solo"));
        assert_eq!(connections.subscribers("solo", role), 1);
        assert!(!connections.is_empty());
        unregister_client(&mut connections, "solo", role);
        assert!(!connections.contains("solo"));
        assert_eq!(connections.subscribers("solo", role), 0);
        assert!(connections.is_empty());
    }
}

#[test]
fn subscribe_then_unsubscribe_restores_a_shared_entry() {
    let mut connections = Connections::new();
    let _device = subscribe_slave(&mut connections, "shared");
    let _first = subscribe_master(&mut connections, "shared");
    let _second = subscribe_master(&mut connections, "shared");
    unregister_client(&mut connections, "shared", ClientType::Master);
    assert!(connections.contains("shared"));
    assert_eq!(connections.subscribers("shared", ClientType::Master), 1);
    assert_eq!(connections.subscribers("shared", ClientType::Slave), 1);
}

#[test]
fn every_subscriber_gets_each_message_once_and_in_order() {
    let mut connections = Connections::new();
    let _device = subscribe_slave(&mut connections, "fan");
    let mut receivers = Vec::new();
    for _ in 0..5 {
        receivers.push(subscribe_master(&mut connections, "fan"));
    }
    assert_eq!(connections.subscribers("fan", ClientType::Master), 5);
    for text in ["one", "two", "three"] {
        let sent = forward_message(&connections, "fan", text.to_string(), ClientType::Slave);
        assert_eq!(sent.unwrap().receivers, 5);
    }
    for rx in receivers.iter_mut() {
        assert_eq!(rx.try_recv(), Ok("one".to_string()));
        assert_eq!(rx.try_recv(), Ok("two".to_string()));
        assert_eq!(rx.try_recv(), Ok("three".to_string()));
        assert_eq!(rx.try_recv(), Err(TryRecvError::Empty));
    }
}

#[test]
fn publish_without_destination_is_a_no_op() {
    let mut connections = Connections::new();
    assert!(forward_message(&connections, "nobody", "lost".to_string(), ClientType::Master).is_none());
    assert!(forward_message(&connections, "nobody", "lost".to_string(), ClientType::Slave).is_none());
    assert!(connections.is_empty());

    let mut device_rx = subscribe_slave(&mut connections, "lonely");
    assert!(forward_message(&connections, "lonely", "lost".to_string(), ClientType::Slave).is_none());
    assert_eq!(device_rx.try_recv(), Err(TryRecvError::Empty));
    assert!(connections.contains("lonely"));
    assert_eq!(connections.subscribers("lonely", ClientType::Slave), 1);
    assert_eq!(connections.subscribers("lonely", ClientType::Master), 0);
    assert!(!connections.contains("nobody"));
}

#[test]
fn unsubscribing_one_of_several_keeps_the_slot() {
    let mut connections = Connections::new();
    let _device = subscribe_slave(&mut connections, "several");
    let mut first = subscribe_master(&mut connections, "several");
    let second = subscribe_master(&mut connections, "several");
    let mut third = subscribe_master(&mut connections, "several");
    assert_eq!(connections.subscribers("several", ClientType::Master), 3);

    drop(second);
    unregister_client(&mut connections, "several", ClientType::Master);
    assert_eq!(connections.subscribers("several", ClientType::Master), 2);
    assert!(connections.contains("several"));

    let sent = forward_message(&connections, "several", "still here".to_string(), ClientType::Slave);
    assert_eq!(sent.unwrap().receivers, 2);
    assert_eq!(first.try_recv(), Ok("still here".to_string()));
    assert_eq!(third.try_recv(), Ok("still here".to_string()));
}

#[test]
fn round_trip_is_byte_identical_both_ways() {
    let payload = "{ \"k\" :  [1, 2.50, \"\u{00e9}\\n\"] }\r\n\ttail \u{1F600}";
    let mut connections = Connections::new();
    let mut device_rx = subscribe_slave(&mut connections, "X");
    let mut mobile_a = subscribe_master(&mut connections, "X");
    let mut mobile_b = subscribe_master(&mut connections, "X");

    forward_message(&connections, "X", payload.to_string(), ClientType::Slave).unwrap();
    assert_eq!(mobile_a.try_recv().unwrap().as_bytes(), payload.as_bytes());
    assert_eq!(mobile_b.try_recv().unwrap().as_bytes(), payload.as_bytes());
    assert_eq!(device_rx.try_recv(), Err(TryRecvError::Empty));

    forward_message(&connections, "X", payload.to_string(), ClientType::Master).unwrap();
    assert_eq!(device_rx.try_recv().unwrap().as_bytes(), payload.as_bytes());
    assert_eq!(mobile_a.try_recv(), Err(TryRecvError::Empty));
    assert_eq!(mobile_b.try_recv(), Err(TryRecvError::Empty));
}

#[test]
fn one_device_three_mobiles() {
    let mut connections = Connections::new();
    let mut device_rx = subscribe(&mut connections, "d1", ClientType::Slave);
    let mut mobiles = vec![
        subscribe(&mut connections, "d1", ClientType::Master),
        subscribe(&mut connections, "d1", ClientType::Master),
        subscribe(&mut connections, "d1", ClientType::Master),
    ];
    forward_message(&connections, "d1", "hello mobiles".to_string(), ClientType::Slave).unwrap();
    for rx in mobiles.iter_mut() {
        assert_eq!(rx.try_recv(), Ok("hello mobiles".to_string()));
        assert_eq!(rx.try_recv(), Err(TryRecvError::Empty));
    }
    forward_message(&connections, "d1", "hello device".to_string(), ClientType::Master).unwrap();
    assert_eq!(device_rx.try_recv(), Ok("hello device".to_string()));
    assert_eq!(device_rx.try_recv(), Err(TryRecvError::Empty));
    for rx in mobiles.iter_mut() {
        assert_eq!(rx.try_recv(), Err(TryRecvError::Empty));
    }
}

#[test]
fn two_mobiles_without_a_device() {
    let mut connections = Connections::new();
    let mut mobile_a = subscribe_master(&mut connections, "d2");
    let mut mobile_b = subscribe_master(&mut connections, "d2");
    let sent = forward_message(&connections, "d2", "anyone?".to_string(), ClientType::Master);
    assert!(sent.is_none());
    assert_eq!(mobile_b.try_recv(), Err(TryRecvError::Empty));
    assert_eq!(mobile_a.try_recv(), Err(TryRecvError::Empty));
    assert_eq!(connections.subscribers("d2", ClientType::Master), 2);
}

#[test]
fn device_connects_and_disconnects_alone() {
    let mut connections = Connections::new();
    let rx = subscribe_slave(&mut connections, "d3");
    assert!(connections.contains("d3"));
    drop(rx);
    unregister_client(&mut connections, "d3", ClientType::Slave);
    assert!(!connections.contains("d3"));
    assert!(connections.is_empty());
}

#[test]
fn unsubscribing_what_is_absent_changes_nothing() {
    let mut connections = Connections::new();
    unregister_client(&mut connections, "ghost", ClientType::Master);
    assert!(connections.is_empty());

    let _device = subscribe_slave(&mut connections, "half");
    unregister_client(&mut connections, "half", ClientType::Master);
    unregister_client(&mut connections, "other", ClientType::Slave);
    assert!(connections.contains("half"));
    assert_eq!(connections.subscribers("half", ClientType::Slave), 1);
    unregister_client(&mut connections, "half", ClientType::Slave);
    unregister_client(&mut connections, "half", ClientType::Slave);
    assert!(!connections.contains("half"));
}

#[test]
fn entry_goes_only_with_its_last_slot() {
    let mut connections = Connections::new();
    let _device = subscribe_slave(&mut connections, "pair");
    let _mobile = subscribe_master(&mut connections, "pair");
    unregister_client(&mut connections, "pair", ClientType::Slave);
    assert!(connections.contains("pair"));
    assert_eq!(connections.subscribers("pair", ClientType::Slave), 0);
    assert_eq!(connections.subscribers("pair", ClientType::Master), 1);
    assert!(forward_message(&connections, "pair", "to nobody".to_string(), ClientType::Master).is_none());
    unregister_client(&mut connections, "pair", ClientType::Master);
    assert!(!connections.contains("pair"));
}

#[test]
fn identifiers_do_not_mix() {
    let mut connections = Connections::new();
    let mut mobile_a = subscribe_master(&mut connections, "a");
    let mut mobile_b = subscribe_master(&mut connections, "b");
    let _device_a = subscribe_slave(&mut connections, "a");
    let _device_b = subscribe_slave(&mut connections, "b");
    forward_message(&connections, "a", "for a".to_string(), ClientType::Slave).unwrap();
    assert_eq!(mobile_a.try_recv(), Ok("for a".to_string()));
    assert_eq!(mobile_b.try_recv(), Err(TryRecvError::Empty));
    unregister_client(&mut connections, "a", ClientType::Master);
    unregister_client(&mut connections, "a", ClientType::Slave);
    assert!(!connections.contains("a"));
    assert!(connections.contains("b"));
    forward_message(&connections, "b", "for b".to_string(), ClientType::Slave).unwrap();
    assert_eq!(mobile_b.try_recv(), Ok("for b".to_string()));
}

#[test]
fn late_subscriber_sees_only_later_messages() {
    let mut connections = Connections::new();
    let _device = subscribe_slave(&mut connections, "late");
    let mut early = subscribe_master(&mut connections, "late");
    forward_message(&connections, "late", "first".to_string(), ClientType::Slave).unwrap();
    let mut late = subscribe_master(&mut connections, "late");
    forward_message(&connections, "late", "second".to_string(), ClientType::Slave).unwrap();
    assert_eq!(early.try_recv(), Ok("first".to_string()));
    assert_eq!(early.try_recv(), Ok("second".to_string()));
    assert_eq!(late.try_recv(), Ok("second".to_string()));
    assert_eq!(late.try_recv(), Err(TryRecvError::Empty));
}

#[test]
fn message_without_live_receiver_reaches_nobody() {
    let mut connections = Connections::new();
    let rx = subscribe_master(&mut connections, "gone");
    drop(rx);
    let sent = forward_message(&connections, "gone", "into the void".to_string(), ClientType::Slave);
    assert_eq!(sent.unwrap().receivers, 0);
    assert_eq!(connections.subscribers("gone", ClientType::Master), 1);
}

#[test]
fn slow_consumer_loses_the_oldest_messages() {
    let mut connections = Connections::new();
    let mut slow = subscribe_master(&mut connections, "burst");
    for i in 0..100 {
        forward_message(&connections, "burst", format!("m{}", i), ClientType::Slave).unwrap();
    }
    assert_eq!(slow.try_recv(), Ok("m0".to_string()));
    for i in 100..400 {
        let sent = forward_message(&connections, "burst", format!("m{}", i), ClientType::Slave);
        assert_eq!(sent.unwrap().receivers, 1);
    }
    match slow.try_recv() {
        Err(TryRecvError::Lagged(missed)) => assert!(missed >= 1),
        other => panic!("expected a lagging receiver, got {:?}", other),
    }
    let next = slow.try_recv().unwrap();
    assert_ne!(next, "m1".to_string());
    assert_eq!(slow.len() + 1, 128);
    let mut last = next;
    while let Ok(m) = slow.try_recv() {
        last = m;
    }
    assert_eq!(last, "m399".to_string());
}

#[test]
fn new_slot_after_teardown_is_a_new_channel() {
    let mut connections = Connections::new();
    let _device = subscribe_slave(&mut connections, "again");
    let mut old = subscribe_master(&mut connections, "again");
    unregister_client(&mut connections, "again", ClientType::Master);
    assert_eq!(old.try_recv(), Err(TryRecvError::Closed));
    let mut new = subscribe_master(&mut connections, "again");
    forward_message(&connections, "again", "fresh".to_string(), ClientType::Slave).unwrap();
    assert_eq!(new.try_recv(), Ok("fresh".to_string()));
    assert_eq!(old.try_recv(), Err(TryRecvError::Closed));
}

#[test]
fn identifiers_are_taken_as_they_are() {
    let mut connections = Connections::new();
    let mut lower = subscribe_slave(&mut connections, "a");
    let mut upper = subscribe_slave(&mut connections, "A");
    let mut spaced = subscribe_slave(&mut connections, " a");
    assert_eq!(connections.subscribers("a", ClientType::Slave), 1);
    assert_eq!(connections.subscribers("A", ClientType::Slave), 1);
    assert_eq!(connections.subscribers(" a", ClientType::Slave), 1);
    let _mobile = subscribe_master(&mut connections, "a");
    let _other = subscribe_master(&mut connections, "A");
    let sent = forward_message(&connections, "a", "for a".to_string(), ClientType::Master);
    assert_eq!(sent.unwrap().receivers, 1);
    assert_eq!(lower.try_recv(), Ok("for a".to_string()));
    assert_eq!(upper.try_recv(), Err(TryRecvError::Empty));
    assert_eq!(spaced.try_recv(), Err(TryRecvError::Empty));
    assert!(forward_message(&connections, " a", "lost".to_string(), ClientType::Slave).is_none());
    let sent = forward_message(&connections, " a", "for the third".to_string(), ClientType::Master);
    assert_eq!(sent.unwrap().receivers, 1);
    assert_eq!(spaced.try_recv(), Ok("for the third".to_string()));
    assert_eq!(lower.try_recv(), Err(TryRecvError::Empty));
    assert_eq!(upper.try_recv(), Err(TryRecvError::Empty));
}

#[test]
fn each_slot_has_a_channel_of_its_own() {
    let mut connections = Connections::new();
    let mut mobile_a = subscribe_master(&mut connections, "own");
    let mut mobile_b = subscribe_master(&mut connections, "own");
    let mut device = subscribe_slave(&mut connections, "own");
    let sent = forward_message(&connections, "own", "up".to_string(), ClientType::Master);
    assert_eq!(sent.unwrap().receivers, 1);
    assert_eq!(device.try_recv(), Ok("up".to_string()));
    assert_eq!(mobile_a.try_recv(), Err(TryRecvError::Empty));
    assert_eq!(mobile_b.try_recv(), Err(TryRecvError::Empty));
    let sent = forward_message(&connections, "own", "down".to_string(), ClientType::Slave);
    assert_eq!(sent.unwrap().receivers, 2);
    assert_eq!(mobile_a.try_recv(), Ok("down".to_string()));
    assert_eq!(mobile_b.try_recv(), Ok("down".to_string()));
    assert_eq!(device.try_recv(), Err(TryRecvError::Empty));
}
