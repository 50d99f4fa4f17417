use pcc_vivace::quic_type::{AckedPacket, LostPacket, HAS_RETRANSMITTABLE_DATA};
use std::time::Instant;

#[test]
fn packet_constructors() {
    let t = Instant::now();
    let a = AckedPacket::new(7, 1200, t);
    assert_eq!((a.packet_number, a.bytes_acked), (7, 1200));
    assert_eq!(a.receive_timestamp, t);
    let l = LostPacket::new(9, 1300);
    assert_eq!((l.packet_number, l.bytes_lost), (9, 1300));
    assert!(HAS_RETRANSMITTABLE_DATA);
}
