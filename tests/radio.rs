use fleet_radio::frame::{seal_frame, RadioPacket};
use fleet_radio::nonce::FleetNonce;
use fleet_radio::prx::FleetRadioPrx;
use fleet_radio::ptx::FleetRadioPtx;
use fleet_radio::Error;

const KEY: [u8; 32] = [0x42; 32];

fn packet(payload: Vec<u8>) -> RadioPacket {
    RadioPacket { pipe: 0, payload }
}

#[test]
fn nonce_to_bytes_is_little_endian() {
    let n = FleetNonce { tick: 0x0000_1000, msg_count: 0x0000_0001 };
    assert_eq!(
        n.to_bytes(),
        [0x01, 0x00, 0x00, 0x00, 0x00, 0x10, 0x00, 0x00, 0x01, 0x70, 0x33, 0xF1]
    );
}

#[test]
fn nonce_parses_back() {
    let n = FleetNonce { tick: 0xDEAD_BEEF, msg_count: 0x0102_0304 };
    let b = n.to_bytes();
    let p = FleetNonce::try_from_bytes(&b).unwrap();
    assert_eq!(p.tick, 0xDEAD_BEEF);
    assert_eq!(p.msg_count, 0x0102_0304);
}

#[test]
fn nonce_with_wrong_magic_is_bad() {
    let mut b = FleetNonce { tick: 5, msg_count: 6 }.to_bytes();
    b[11] ^= 0x80;
    assert!(matches!(FleetNonce::try_from_bytes(&b), Err(Error::BadNonce)));
}

#[test]
fn nonce_with_wrong_length_is_bad() {
    let b = FleetNonce { tick: 5, msg_count: 6 }.to_bytes();
    assert!(matches!(FleetNonce::try_from_bytes(&b[..11]), Err(Error::BadNonce)));
    let mut long = b.to_vec();
    long.push(0);
    assert!(matches!(FleetNonce::try_from_bytes(&long), Err(Error::BadNonce)));
}

/// PTX at tick offset 0x1000 and count 0 sends its first message, which
/// carries tick 0x1000 and count 1.
fn first_exchange() -> (FleetRadioPtx, FleetRadioPrx, RadioPacket) {
    let mut ptx = FleetRadioPtx::new(&KEY, 252, 0x1_0000, 0, 0x1000);
    let mut prx = FleetRadioPrx::new(&KEY, 252);
    let out = ptx.send(&[0x02, 0x01], 0, 0).unwrap();
    assert_eq!(out.payload.len(), 30);
    let got = prx.receive(&out).unwrap().unwrap();
    assert_eq!(got.msg, vec![0x02, 0x01]);
    assert_eq!(got.meta.pipe, 0);
    let reply = prx.send(&[0x02, 0x01], 0).unwrap();
    (ptx, prx, reply)
}

#[test]
fn encrypt_decrypt_round_trip() {
    let (mut ptx, _prx, reply) = first_exchange();
    assert_eq!(reply.payload.len(), 2 + 16 + 12);
    // The reply mirrors the nonce the receiver last saw.
    assert_eq!(
        &reply.payload[18..],
        &FleetNonce { tick: 0x1000, msg_count: 1 }.to_bytes()[..]
    );
    let got = ptx.receive(&reply, 0).unwrap().unwrap();
    assert_eq!(got.msg, vec![0x02, 0x01]);
    assert_eq!(ptx.ticks_since_last_rx(0), 0);
}

#[test]
fn ciphertext_differs_from_plaintext() {
    let n = FleetNonce { tick: 1, msg_count: 2 };
    let msg = [0u8; 8];
    let f = seal_frame(&KEY, &n, &msg, 252).unwrap();
    assert_eq!(f.len(), 8 + 28);
    assert_ne!(&f[..8], &msg[..]);
    assert_eq!(&f[24..], &n.to_bytes()[..]);
}

#[test]
fn replayed_older_frame_is_rejected() {
    let (mut ptx, mut prx, reply1) = first_exchange();
    assert!(ptx.receive(&reply1, 0).unwrap().is_some());
    // A second message moves both sides on to count 2.
    let out2 = ptx.send(&[0x07], 0, 10).unwrap();
    assert!(prx.receive(&out2).unwrap().is_some());
    let reply2 = prx.send(&[0x08], 0).unwrap();
    assert_eq!(ptx.receive(&reply2, 10).unwrap().unwrap().msg, vec![0x08]);
    // The first reply, replayed, is older than the last accepted one.
    assert!(matches!(ptx.receive(&reply1, 10), Err(Error::InvalidNonce)));
}

/// A replay of the very frame last accepted is refused: its count equals
/// the last accepted count, and the bookkeeping stays as it was.
#[test]
fn replayed_frame_is_rejected() {
    let (mut ptx, _prx, reply) = first_exchange();
    assert!(ptx.receive(&reply, 0x10).unwrap().is_some());
    assert_eq!(ptx.ticks_since_last_rx(0x10), 0x10);
    assert!(matches!(ptx.receive(&reply, 0x10), Err(Error::InvalidNonce)));
    assert_eq!(ptx.ticks_since_last_rx(0x10), 0x10);
}

#[test]
fn wraparound_window() {
    let mut ptx = FleetRadioPtx::new(&KEY, 252, 0x1000, 1, 0xFFFF_FF00);
    // One message out, so count 2 is the one reply that can come back.
    ptx.send(&[0], 0, 0x200).unwrap();
    assert_eq!(ptx.current_tick(0x200), 0x100);
    assert!(ptx.check_nonce(&FleetNonce { tick: 0xFFFF_FFF0, msg_count: 2 }, 0x200));
    assert!(ptx.check_nonce(&FleetNonce { tick: 0x0000_0050, msg_count: 2 }, 0x200));
    assert!(!ptx.check_nonce(&FleetNonce { tick: 0x8000_0000, msg_count: 2 }, 0x200));
}

#[test]
fn check_nonce_and_update_moves_window() {
    let mut ptx = FleetRadioPtx::new(&KEY, 252, 0x1000, 5, 100);
    ptx.send(&[0], 0, 0).unwrap();
    let bad = FleetNonce { tick: 99, msg_count: 6 };
    assert!(matches!(ptx.check_nonce_and_update(&bad, 0), Err(Error::InvalidNonce)));
    assert_eq!(ptx.ticks_since_last_rx(0), 0);
    let same = FleetNonce { tick: 100, msg_count: 5 };
    assert!(matches!(ptx.check_nonce_and_update(&same, 0), Err(Error::InvalidNonce)));
    let good = FleetNonce { tick: 100, msg_count: 6 };
    assert!(ptx.check_nonce_and_update(&good, 10).is_ok());
    assert_eq!(ptx.ticks_since_last_rx(10), 10);
}

#[test]
fn stale_tick_outside_window_is_rejected() {
    let mut ptx = FleetRadioPtx::new(&KEY, 252, 10, 0, 0);
    ptx.send(&[0], 0, 0).unwrap();
    assert!(ptx.check_nonce(&FleetNonce { tick: 95, msg_count: 1 }, 100));
    assert!(!ptx.check_nonce(&FleetNonce { tick: 89, msg_count: 1 }, 100));
    assert!(!ptx.check_nonce(&FleetNonce { tick: 101, msg_count: 1 }, 100));
}

#[test]
fn flipped_ciphertext_bit_is_crypt() {
    let (mut ptx, _prx, reply) = first_exchange();
    for i in 0..18 {
        let mut p = reply.payload.clone();
        p[i] ^= 0x01;
        let mut t = FleetRadioPtx::new(&KEY, 252, 0x1_0000, 0, 0x1000);
        // Both nonce checks pass, so only the tag can refuse it.
        t.send(&[0], 0, 0).unwrap();
        assert!(matches!(t.receive(&packet(p), 0), Err(Error::Crypt)));
    }
    assert!(ptx.receive(&reply, 0).unwrap().is_some());
}

#[test]
fn flipped_magic_bit_is_bad_nonce() {
    let (_ptx, mut prx, reply) = first_exchange();
    for i in 26..30 {
        for bit in 0..8 {
            let mut p = reply.payload.clone();
            p[i] ^= 1 << bit;
            assert!(matches!(prx.receive(&packet(p)), Err(Error::BadNonce)));
        }
    }
}

#[test]
fn truncated_frame_is_too_small() {
    let (_ptx, mut prx, reply) = first_exchange();
    for len in 1..=28 {
        let p = reply.payload[..len].to_vec();
        assert!(matches!(prx.receive(&packet(p)), Err(Error::PacketTooSmol)));
    }
}

#[test]
fn empty_payload_is_no_message() {
    let mut prx = FleetRadioPrx::new(&KEY, 252);
    assert!(prx.receive(&packet(Vec::new())).unwrap().is_none());
    assert!(matches!(prx.receive_with(&packet(Vec::new())), Err(Error::NoData)));
    let mut ptx = FleetRadioPtx::new(&KEY, 252, 10, 0, 0);
    assert!(ptx.receive(&packet(Vec::new()), 0).unwrap().is_none());
    assert!(matches!(ptx.just_gimme_frame(&packet(Vec::new()), 0), Err(Error::NoData)));
}

#[test]
fn bad_pipe_is_header_error() {
    let mut ptx = FleetRadioPtx::new(&KEY, 252, 10, 0, 0);
    assert!(matches!(ptx.send(&[1], 8, 0), Err(Error::HeaderError)));
    let mut prx = FleetRadioPrx::new(&KEY, 252);
    assert!(matches!(prx.send(&[1], 8), Err(Error::HeaderError)));
    assert!(prx.send(&[1], 7).is_ok());
}

#[test]
fn oversized_messages_fail() {
    let mut ptx = FleetRadioPtx::new(&KEY, 40, 10, 0, 0);
    // Larger than the buffer itself.
    assert!(matches!(ptx.send(&[0; 41], 0, 0), Err(Error::BufferTooSmol)));
    // The tag does not fit.
    assert!(matches!(ptx.send(&[0; 30], 0, 0), Err(Error::Crypt)));
    // The nonce does not fit.
    assert!(matches!(ptx.send(&[0; 20], 0, 0), Err(Error::BufferTooSmol)));
    // Exactly full.
    assert_eq!(ptx.send(&[0; 12], 0, 0).unwrap().payload.len(), 40);
    // Buffers beyond 255 bytes are capped.
    let mut big = FleetRadioPtx::new(&KEY, 1000, 10, 0, 0);
    assert_eq!(big.send(&[0; 227], 0, 0).unwrap().payload.len(), 255);
    assert!(matches!(big.send(&[0; 228], 0, 0), Err(Error::BufferTooSmol)));
}

#[test]
fn poll_after_quiet_period() {
    let mut ptx = FleetRadioPtx::new(&KEY, 252, 10, 0, 0);
    ptx.send(&[1], 0, 1000).unwrap();
    assert_eq!(ptx.ticks_since_last_tx(1000), 0);
    assert!(!ptx.needs_poll(1000 + 3276));
    assert!(ptx.needs_poll(1000 + 3277));
}

/// Whether the counter window has rolled is judged by comparing the last
/// accepted count with the current tick, not with our own count.
#[test]
fn count_rollover_judged_against_tick() {
    let ptx = FleetRadioPtx::new(&KEY, 252, 1000, 1000, 0);
    // The last count (1000) is above the current tick (100): the window is
    // taken as rolled, and a count far below it passes.
    assert!(ptx.check_nonce(&FleetNonce { tick: 50, msg_count: 5 }, 100));
    // With the tick past the last count, the same count is refused.
    let mut later = FleetRadioPtx::new(&KEY, 252, 1000, 1000, 1500);
    later.send(&[0], 0, 0).unwrap();
    assert!(!later.check_nonce(&FleetNonce { tick: 1540, msg_count: 5 }, 50));
    assert!(!later.check_nonce(&FleetNonce { tick: 1540, msg_count: 1000 }, 50));
    assert!(later.check_nonce(&FleetNonce { tick: 1540, msg_count: 1001 }, 50));
}
