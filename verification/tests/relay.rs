use ssh_bastion_rs::relay::{announce_user, frame_for_read, RelayStep};
use ssh_bastion_rs::wire::{Decoded, TunnelMessage, TunnelMessageClose, TunnelMessageData};

#[test]
fn nothing_read_closes_the_user() {
    let buf = [7u8; 16];
    match frame_for_read(12, &buf, 0) {
        RelayStep::CloseAndStop(f) => assert_eq!(f, vec![2, 0, 0, 0, 0, 0, 0, 0, 12]),
        RelayStep::Forward(_) => panic!("expected a close frame"),
    }
}

#[test]
fn bytes_read_go_out_in_a_data_frame() {
    let buf = [1u8, 2, 3, 4, 5, 6];
    match frame_for_read(300, &buf, 4) {
        RelayStep::Forward(f) => {
            assert_eq!(
                f,
                vec![1, 0, 0, 0, 0, 0, 0, 1, 44, 0, 0, 0, 0, 0, 0, 0, 4, 1, 2, 3, 4]
            );
            match TunnelMessage::decode(&f) {
                Decoded::Frame { message, payload, consumed } => {
                    assert_eq!(
                        message,
                        TunnelMessage::Data(TunnelMessageData { user_id: 300, len: 4 })
                    );
                    assert_eq!(payload, vec![1, 2, 3, 4]);
                    assert_eq!(consumed, f.len());
                }
                _ => panic!("expected a frame"),
            }
        }
        RelayStep::CloseAndStop(_) => panic!("expected a data frame"),
    }
}

#[test]
fn full_buffer_is_relayed_whole() {
    let buf = vec![0xffu8; 1024];
    match frame_for_read(1, &buf, 1024) {
        RelayStep::Forward(f) => assert_eq!(f.len(), 17 + 1024),
        RelayStep::CloseAndStop(_) => panic!("expected a data frame"),
    }
}

#[test]
fn new_user_is_announced_by_an_empty_data_frame() {
    let f = announce_user(9);
    assert_eq!(f, vec![1, 0, 0, 0, 0, 0, 0, 0, 9, 0, 0, 0, 0, 0, 0, 0, 0]);
    match TunnelMessage::decode(&f) {
        Decoded::Frame { message, payload, .. } => {
            assert_eq!(message, TunnelMessage::Data(TunnelMessageData { user_id: 9, len: 0 }));
            assert!(payload.is_empty());
        }
        _ => panic!("expected a frame"),
    }
    assert_ne!(
        TunnelMessage::Close(TunnelMessageClose { user_id: 9 }).encode(&[]),
        f
    );
}
