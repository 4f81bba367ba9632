use fleet_radio::ring::ByteRing;
use fleet_radio::uarte::{UarteEvents, UarteIrq, UarteTimer};

fn events(endrx: bool, rxdrdy: bool) -> UarteEvents {
    UarteEvents { endrx, endtx: false, error: false, rxdrdy }
}

#[test]
fn idle_flush() {
    let mut timer = UarteTimer::new();
    timer.init(50_000);
    let mut irq = UarteIrq::new(255).unwrap();
    assert!(irq.init());
    // Three bytes arrive, then the line goes quiet and the timer fires.
    timer.interrupt(&mut irq);
    let ev = events(false, true);
    assert!(irq.idle_flush_due(&ev));
    let out = irq.rx_complete(true, &[0x01, 0x02, 0x03]);
    assert_eq!(out.amount, 3);
    assert!(out.start_rx);
    assert_eq!(irq.read(), vec![0x01, 0x02, 0x03]);
    assert!(irq.read().is_empty());
}

#[test]
fn idle_flush_of_a_partial_block() {
    let mut timer = UarteTimer::new();
    timer.init(50_000);
    let mut irq = UarteIrq::new(255).unwrap();
    assert!(irq.init());
    timer.interrupt(&mut irq);
    assert!(irq.idle_flush_due(&events(false, true)));
    let data: Vec<u8> = (0u8..32).collect();
    assert_eq!(irq.rx_complete(true, &data).amount, 32);
    assert_eq!(irq.read(), data);
}

#[test]
fn no_flush_without_timeout_or_bytes() {
    let mut timer = UarteTimer::new();
    timer.init(50_000);
    let mut irq = UarteIrq::new(32).unwrap();
    assert!(irq.init());
    assert!(!irq.idle_flush_due(&events(false, true)));
    timer.interrupt(&mut irq);
    // A full buffer ends the reception by itself and leaves the flag set.
    assert!(!irq.idle_flush_due(&events(true, true)));
    // No byte arrived: nothing to flush, and the flag is used up.
    assert!(!irq.idle_flush_due(&events(false, false)));
    assert!(!irq.idle_flush_due(&events(false, true)));
}

#[test]
fn amount_ignored_without_rxdrdy() {
    let mut irq = UarteIrq::new(32).unwrap();
    assert!(irq.init());
    let out = irq.rx_complete(false, &[9, 9, 9]);
    assert_eq!(out.amount, 0);
    assert!(!out.start_rx);
    assert!(irq.read().is_empty());
}

#[test]
fn block_size_limits() {
    assert!(UarteIrq::new(0).is_none());
    assert!(UarteIrq::new(256).is_none());
    assert!(UarteIrq::new(255).is_some());
}

#[test]
fn full_blocks_in_order() {
    let mut irq = UarteIrq::new(4).unwrap();
    assert!(irq.init());
    assert!(irq.rx_complete(true, &[1, 2, 3, 4]).start_rx);
    assert!(irq.rx_complete(true, &[5, 6]).start_rx);
    let mut got = Vec::new();
    loop {
        let chunk = irq.read();
        if chunk.is_empty() {
            break;
        }
        got.extend(chunk);
    }
    assert_eq!(got, vec![1, 2, 3, 4, 5, 6]);
}

#[test]
fn outbound_bytes_in_order() {
    let mut irq = UarteIrq::new(32).unwrap();
    assert!(irq.write(&[1, 2, 3]).is_ok());
    assert!(irq.write(&[4]).is_ok());
    assert_eq!(irq.take_tx(), vec![1, 2, 3, 4]);
    assert!(irq.take_tx().is_empty());
}

#[test]
fn ring_grant_and_commit() {
    let mut ring = ByteRing::new();
    assert_eq!(ring.write_grant(8), Ok(8));
    assert!(ring.write_grant(8).is_err());
    ring.commit(&[7, 8]);
    assert_eq!(ring.read(), vec![7, 8]);
    assert!(ring.read().is_empty());
}

#[test]
fn ring_refuses_oversized_grant() {
    let mut ring = ByteRing::new();
    assert!(ring.write_grant(4096).is_err());
    assert_eq!(ring.write_grant(16), Ok(16));
}

#[test]
fn read_all_drains_several_blocks() {
    let mut irq = UarteIrq::new(8).unwrap();
    assert!(irq.init());
    let mut sent = Vec::new();
    for k in 0u8..20 {
        let block: Vec<u8> = (0..8).map(|j| k.wrapping_mul(8).wrapping_add(j)).collect();
        assert!(irq.rx_complete(true, &block).start_rx);
        sent.extend_from_slice(&block);
        if k % 5 == 4 {
            assert_eq!(irq.read(), sent);
            sent.clear();
        }
    }
    assert!(irq.read().is_empty());
}

#[test]
fn write_within_reserves_room_first() {
    let mut irq = UarteIrq::new(32).unwrap();
    assert!(irq.write_within(&[1, 2, 3], 128).is_ok());
    // Too long for the frame: the room is taken but nothing is queued.
    assert!(irq.write_within(&[0; 200], 128).is_ok());
    assert_eq!(irq.take_tx(), vec![1, 2, 3]);
    // No room at all for a frame this size.
    assert!(irq.write_within(&[4], 2000).is_err());
    assert!(irq.take_tx().is_empty());
}

#[test]
fn empty_reception_keeps_grant() {
    let mut irq = UarteIrq::new(255).unwrap();
    assert!(irq.init());
    // An empty reception with a live grant keeps it.
    let out = irq.rx_complete(true, &[]);
    assert_eq!(out.amount, 0);
    assert!(!out.start_rx);
}
