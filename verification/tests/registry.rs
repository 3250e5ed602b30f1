use std::sync::{Arc, RwLock};

use jojo_server::db::DeviceMap;
use jojo_server::device::{Device, DeviceId};
use jojo_server::room::{RoomAction, RoomEvent};

#[test]
fn test_device_map() {
    let key = DeviceId::new_v4();
    let device = Device::default();

    let mut device_map = DeviceMap::new();

    device_map.insert(key, device);

    let result = device_map.get(&key).unwrap().clone();

    device_map.remove(&key);

    let events = device_map.take_events();
    let insert_event = events[0];
    let remove_event = events[1];

    assert_eq!(result, Device::default());
    assert_eq!(insert_event, RoomEvent::new(key, RoomAction::Join));
    assert_eq!(remove_event, RoomEvent::new(key, RoomAction::Leave));
}

#[test]
fn test_device_map_thread_safe() {
    let key = DeviceId::new_v4();
    let device = Device::default();

    let device_map_lock = Arc::new(RwLock::new(DeviceMap::new()));

    device_map_lock.write().unwrap().insert(key, device);

    let result = device_map_lock.read().unwrap().get(&key).unwrap().clone();

    device_map_lock.write().unwrap().remove(&key);

    let events = device_map_lock.write().unwrap().take_events();
    let insert_event = events[0];
    let remove_event = events[1];

    assert_eq!(result, Device::default());
    assert_eq!(insert_event, RoomEvent::new(key, RoomAction::Join));
    assert_eq!(remove_event, RoomEvent::new(key, RoomAction::Leave));
}

#[test]
fn lookup_returns_registered_record() {
    let mut map = DeviceMap::new();
    let id = DeviceId(7);
    let device = Device::new(id, String::from("pad"), None, Vec::new());
    map.insert(id, device.clone());
    assert_eq!(map.get(&id), Some(&device));
    map.remove(&id);
    assert_eq!(map.get(&id), None);
}

#[test]
fn reregister_replaces_record_and_emits_join_only() {
    let mut map = DeviceMap::new();
    let id = DeviceId(9);
    let first = Device::new(id, String::from("one"), None, Vec::new());
    let second = Device::new(id, String::from("two"), None, Vec::new());
    map.insert(id, first.clone());
    let replaced = map.insert(id, second.clone());
    assert_eq!(replaced, Some(first));
    assert_eq!(map.get(&id), Some(&second));
    let events = map.take_events();
    assert_eq!(events.len(), 2);
    assert_eq!(events[0], RoomEvent::new(id, RoomAction::Join));
    assert_eq!(events[1], RoomEvent::new(id, RoomAction::Join));
}

#[test]
fn unregister_absent_is_noop_and_emits_nothing() {
    let mut map = DeviceMap::new();
    let id = DeviceId(11);
    assert_eq!(map.remove(&id), None);
    assert_eq!(map.take_events().len(), 0);
}

#[test]
fn keys_lists_each_identity_once() {
    let mut map = DeviceMap::new();
    let a = DeviceId(1);
    let b = DeviceId(2);
    map.insert(a, Device::new(a, String::from("a"), None, Vec::new()));
    map.insert(b, Device::new(b, String::from("b"), None, Vec::new()));
    map.insert(a, Device::new(a, String::from("a2"), None, Vec::new()));
    let mut keys = map.keys();
    keys.sort_by_key(|k| k.0);
    assert_eq!(keys, vec![a, b]);
}

#[test]
fn fresh_identities_differ() {
    let a = DeviceId::new_v4();
    let b = DeviceId::new_v4();
    assert_ne!(a, b);
}

#[test]
fn room_event_accessors_and_setters() {
    let mut e = RoomEvent::new(DeviceId(3), RoomAction::Join);
    assert_eq!(e.id(), DeviceId(3));
    assert_eq!(*e.action(), RoomAction::Join);
    e.set_id(DeviceId(4));
    e.set_action(RoomAction::Leave);
    assert_eq!(e.id(), DeviceId(4));
    assert_eq!(*e.action(), RoomAction::Leave);
}
