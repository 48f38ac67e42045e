use zircon_object::channel::{Channel, MessagePacket};
use zircon_object::error::ZxError;
use zircon_object::object::{PEER_CLOSED, READABLE, WRITABLE};

#[test]
fn read_write() {
    let mut channel: Channel = Channel::create();
    // write a message to each other
    channel
        .write(0, MessagePacket { data: Vec::from("hello 1"), handles: Vec::new() })
        .unwrap();
    channel
        .write(1, MessagePacket { data: Vec::from("hello 0"), handles: Vec::new() })
        .unwrap();

    // read message should success
    let recv_msg = channel.read(1).unwrap();
    assert_eq!(recv_msg.data.as_slice(), b"hello 1");
    assert!(recv_msg.handles.is_empty());

    let recv_msg = channel.read(0).unwrap();
    assert_eq!(recv_msg.data.as_slice(), b"hello 0");
    assert!(recv_msg.handles.is_empty());

    // read more message should fail.
    assert_eq!(channel.read(0).err(), Some(ZxError::SHOULD_WAIT));
    assert_eq!(channel.read(1).err(), Some(ZxError::SHOULD_WAIT));
}

#[test]
fn peer_closed() {
    let mut channel: Channel = Channel::create();
    // write a message from peer, then drop it
    channel.write(1, MessagePacket::default()).unwrap();
    channel.close(1);
    // read the first message should success.
    channel.read(0).unwrap();
    // read more message should fail.
    assert_eq!(channel.read(0).err(), Some(ZxError::PEER_CLOSED));
    // write message should fail.
    assert_eq!(channel.write(0, MessagePacket::default()), Err(ZxError::PEER_CLOSED));
}

#[test]
fn signal_bits() {
    let mut channel: Channel = Channel::create();

    // initial status is writable and not readable, not peer-closed.
    let init_signal = channel.signal(0);
    assert!(init_signal & READABLE == 0);
    assert!(init_signal & WRITABLE != 0);
    assert!(init_signal & PEER_CLOSED == 0);
    let init_signal = channel.signal(1);
    assert!(init_signal & READABLE == 0);
    assert!(init_signal & WRITABLE != 0);
    assert!(init_signal & PEER_CLOSED == 0);

    // writing to the peer raises READABLE there.
    channel.write(1, MessagePacket::default()).unwrap();
    assert!(channel.signal(0) & READABLE != 0);

    // draining the queue clears READABLE.
    channel.read(0).unwrap();
    assert!(channel.signal(0) & READABLE == 0);

    // destroying an endpoint raises PEER_CLOSED on the survivor.
    channel.close(1);
    assert!(channel.signal(0) & PEER_CLOSED != 0);
    assert!(channel.signal(0) & WRITABLE != 0);
}

#[test]
fn fifo_order() {
    let mut channel: Channel = Channel::create();
    for payload in [b"m1".to_vec(), b"m2".to_vec(), b"m3".to_vec()] {
        channel
            .write(0, MessagePacket { data: payload, handles: Vec::new() })
            .unwrap();
    }
    assert_eq!(channel.read(1).unwrap().data.as_slice(), b"m1");
    assert_eq!(channel.read(1).unwrap().data.as_slice(), b"m2");
    assert_eq!(channel.read(1).unwrap().data.as_slice(), b"m3");
    assert_eq!(channel.read(1).err(), Some(ZxError::SHOULD_WAIT));
}

#[test]
fn drain_after_close() {
    let mut channel: Channel = Channel::create();
    channel
        .write(1, MessagePacket { data: b"left behind".to_vec(), handles: Vec::new() })
        .unwrap();
    channel.close(1);
    // messages queued before closure are still delivered ...
    assert!(channel.signal(0) & PEER_CLOSED != 0);
    assert_eq!(channel.read(0).unwrap().data.as_slice(), b"left behind");
    // ... and only then does the read report the closed peer.
    assert_eq!(channel.read(0).err(), Some(ZxError::PEER_CLOSED));
}
