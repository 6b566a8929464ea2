use ssh_bastion_rs::conn_table::{ConnTable, Dispatch};
use ssh_bastion_rs::user_ids::UserIdAllocator;
use ssh_bastion_rs::wire::{TunnelMessage, TunnelMessageClose, TunnelMessageData};

#[test]
fn close_frame_takes_the_connection_out() {
    let mut t: ConnTable<&str> = ConnTable::new();
    assert_eq!(t.insert(1, "a"), None);
    assert_eq!(t.insert(2, "b"), None);
    match t.dispatch(&TunnelMessage::Close(TunnelMessageClose { user_id: 1 })) {
        Dispatch::Closed(c) => assert_eq!(c, "a"),
        _ => panic!("expected the connection back"),
    }
    assert!(!t.contains(1));
    assert!(t.contains(2));
    assert!(matches!(
        t.dispatch(&TunnelMessage::Close(TunnelMessageClose { user_id: 1 })),
        Dispatch::Ignored(1)
    ));
}

#[test]
fn data_frame_names_its_user() {
    let mut t: ConnTable<u8> = ConnTable::new();
    t.insert(7, 0);
    assert!(matches!(
        t.dispatch(&TunnelMessage::Data(TunnelMessageData { user_id: 7, len: 3 })),
        Dispatch::Deliver(7)
    ));
    assert!(matches!(
        t.dispatch(&TunnelMessage::Data(TunnelMessageData { user_id: 8, len: 0 })),
        Dispatch::Unknown(8)
    ));
    assert_eq!(t.len(), 1);
}

#[test]
fn get_mut_changes_in_place() {
    let mut t: ConnTable<Vec<u8>> = ConnTable::new();
    t.insert(4, vec![]);
    t.get_mut(4).unwrap().push(9);
    assert!(t.get_mut(5).is_none());
    assert_eq!(t.remove(4), Some(vec![9]));
    assert_eq!(t.remove(4), None);
}

#[test]
fn insert_replaces_and_returns_the_old_connection() {
    let mut t: ConnTable<u32> = ConnTable::new();
    t.insert(1, 10);
    assert_eq!(t.insert(1, 11), Some(10));
    assert_eq!(t.remove(1), Some(11));
}

#[test]
fn close_all_hands_back_everything_once() {
    let mut t: ConnTable<u64> = ConnTable::new();
    for id in 1..=50u64 {
        t.insert(id, id * 100);
    }
    let mut out = t.close_all();
    assert_eq!(t.len(), 0);
    out.sort();
    assert_eq!(out.len(), 50);
    for (i, (id, conn)) in out.iter().enumerate() {
        assert_eq!(*id, i as u64 + 1);
        assert_eq!(*conn, *id * 100);
    }
    assert!(t.close_all().is_empty());
}

#[test]
fn user_ids_count_up_from_one() {
    let mut a = UserIdAllocator::new();
    assert!(a.can_issue());
    assert_eq!(a.get_next_user_id(), 1);
    assert_eq!(a.get_next_user_id(), 2);
    assert_eq!(a.get_next_user_id(), 3);
}
