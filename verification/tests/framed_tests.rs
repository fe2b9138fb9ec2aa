use bbq2::Error;
use bbq2::framed::LenHeader;
use bbq2::notifier::SyncNotifier;
use bbq2::queue::BBQueue;
use bbq2::storage::BoxedSlice;

#[test]
fn framed_round_trip() {
    let mut q = BBQueue::new(BoxedSlice::new(16), SyncNotifier::new());
    let prod = q.framed_producer();
    let cons = q.framed_consumer();

    let g = prod.grant(&mut q, 5).unwrap();
    g.fill(&mut q, b"hello");
    g.commit(&mut q, 5);

    let r = cons.read(&mut q).unwrap();
    assert_eq!(r.body_len, 5);
    assert_eq!(r.to_vec(&q), b"hello".to_vec());
    r.release(&mut q);

    assert!(matches!(cons.read(&mut q), Err(Error::Busy)));
}

#[test]
fn framed_round_trip_every_len() {
    // Bodies of every length from 0 up to capacity minus the header size.
    let cap = 34usize;
    for n in 0..=(cap - 2) {
        let mut q = BBQueue::new(BoxedSlice::new(cap), SyncNotifier::new());
        let prod = q.framed_producer();
        let cons = q.framed_consumer();
        let body: Vec<u8> = (0..n).map(|i| (i % 251) as u8).collect();

        let g = prod.grant(&mut q, n as u16).unwrap();
        g.fill(&mut q, &body);
        g.commit(&mut q, n as u16);

        let r = cons.read(&mut q).unwrap();
        assert_eq!(r.body_len, n);
        assert_eq!(r.to_vec(&q), body);
        r.release(&mut q);
        assert!(matches!(cons.read(&mut q), Err(Error::Busy)));
    }
}

#[test]
fn framed_commit_clamps() {
    let mut q = BBQueue::new(BoxedSlice::new(16), SyncNotifier::new());
    let prod = q.framed_producer();
    let cons = q.framed_consumer();

    let g = prod.grant(&mut q, 4).unwrap();
    g.fill(&mut q, b"abcd");
    g.commit(&mut q, 9);

    let r = cons.read(&mut q).unwrap();
    assert_eq!(r.body_len, 4);
    assert_eq!(r.to_vec(&q), b"abcd".to_vec());
    r.release(&mut q);
}

#[test]
fn framed_empty_frame() {
    let mut q = BBQueue::new(BoxedSlice::new(8), SyncNotifier::new());
    let prod = q.framed_producer();
    let cons = q.framed_consumer();

    let g = prod.grant(&mut q, 0).unwrap();
    g.commit(&mut q, 0);

    let r = cons.read(&mut q).unwrap();
    assert_eq!(r.body_len, 0);
    assert_eq!(r.to_vec(&q), Vec::<u8>::new());
    r.release(&mut q);
    assert!(matches!(cons.read(&mut q), Err(Error::Busy)));
}

#[test]
fn framed_abort_publishes_nothing() {
    let mut q = BBQueue::new(BoxedSlice::new(8), SyncNotifier::new());
    let prod = q.framed_producer();
    let cons = q.framed_consumer();

    let g = prod.grant(&mut q, 4).unwrap();
    g.fill(&mut q, b"wxyz");
    g.abort(&mut q);
    assert!(matches!(cons.read(&mut q), Err(Error::Busy)));

    // The reservation was rolled back: the full frame fits again.
    let g = prod.grant(&mut q, 6).unwrap();
    g.abort(&mut q);
}

#[test]
fn framed_keep_leaves_frame_readable() {
    let mut q = BBQueue::new(BoxedSlice::new(8), SyncNotifier::new());
    let prod = q.framed_producer();
    let cons = q.framed_consumer();

    let g = prod.grant(&mut q, 3).unwrap();
    g.fill(&mut q, b"abc");
    g.commit(&mut q, 3);

    let r = cons.read(&mut q).unwrap();
    assert_eq!(r.to_vec(&q), b"abc".to_vec());
    r.keep(&mut q);

    let r = cons.read(&mut q).unwrap();
    assert_eq!(r.to_vec(&q), b"abc".to_vec());
    r.release(&mut q);
}

#[test]
fn framed_grant_too_large_is_busy() {
    let mut q = BBQueue::new(BoxedSlice::new(8), SyncNotifier::new());
    let prod = q.framed_producer();
    // 7 body bytes + 2 header bytes do not fit in 8.
    assert!(matches!(prod.grant(&mut q, 7), Err(Error::Busy)));
    let g = prod.grant(&mut q, 6).unwrap();
    g.abort(&mut q);
}

#[test]
fn framed_read_of_short_span_is_malformed() {
    let mut q = BBQueue::new(BoxedSlice::new(8), SyncNotifier::new());
    let stream_prod = q.stream_producer();
    let framed_cons = q.framed_consumer();
    let stream_cons = q.stream_consumer();

    // An unframed producer commits a single byte: too short for a header.
    let g = stream_prod.grant_exact(&mut q, 1).unwrap();
    g.fill(&mut q, &[9]);
    g.commit(&mut q, 1);

    assert!(matches!(framed_cons.read(&mut q), Err(Error::MalformedFrame)));

    // The cursor did not advance: the byte is still there for an unframed
    // reader.
    let r = stream_cons.read(&mut q).unwrap();
    assert_eq!(r.to_vec(&q), vec![9]);
    r.release(&mut q, 1);
}

#[test]
fn framed_read_of_overlong_header_is_malformed() {
    let mut q = BBQueue::new(BoxedSlice::new(8), SyncNotifier::new());
    let stream_prod = q.stream_producer();
    let framed_cons = q.framed_consumer();

    // Bytes that parse as header value 0x0303 = 771, far longer than the
    // three-byte span.
    let g = stream_prod.grant_exact(&mut q, 3).unwrap();
    g.fill(&mut q, &[3, 3, 3]);
    g.commit(&mut q, 3);

    assert!(matches!(framed_cons.read(&mut q), Err(Error::MalformedFrame)));
    // Repeating the attempt reports the same error and never advances.
    assert!(matches!(framed_cons.read(&mut q), Err(Error::MalformedFrame)));
}

#[test]
fn framed_two_frames_in_sequence() {
    let mut q = BBQueue::new(BoxedSlice::new(16), SyncNotifier::new());
    let prod = q.framed_producer();
    let cons = q.framed_consumer();

    let g = prod.grant(&mut q, 2).unwrap();
    g.fill(&mut q, b"ab");
    g.commit(&mut q, 2);
    let g = prod.grant(&mut q, 3).unwrap();
    g.fill(&mut q, b"cde");
    g.commit(&mut q, 3);

    let r = cons.read(&mut q).unwrap();
    assert_eq!(r.to_vec(&q), b"ab".to_vec());
    r.release(&mut q);
    let r = cons.read(&mut q).unwrap();
    assert_eq!(r.to_vec(&q), b"cde".to_vec());
    r.release(&mut q);
}

#[test]
fn header_u16_encoding() {
    let h: u16 = 0x1234;
    let v = <u16 as LenHeader>::to_le_bytes(&h);
    assert_eq!(v, vec![0x34, 0x12]);
    let back = <u16 as LenHeader>::from_le_bytes(&v);
    assert_eq!(back, 0x1234);
    assert_eq!(<u16 as LenHeader>::width_exec(), 2);
    assert_eq!(LenHeader::to_usize(h), 0x1234usize);
}

#[test]
fn header_u16_extremes() {
    for h in [0u16, 1, 255, 256, 65535] {
        let v = <u16 as LenHeader>::to_le_bytes(&h);
        assert_eq!(v.len(), 2);
        assert_eq!(v[0], (h % 256) as u8);
        assert_eq!(v[1], (h / 256) as u8);
        assert_eq!(<u16 as LenHeader>::from_le_bytes(&v), h);
    }
}

#[test]
fn header_usize_encoding() {
    let h: usize = 0x0102_0304;
    let v = <usize as LenHeader>::to_le_bytes(&h);
    assert_eq!(v, vec![4, 3, 2, 1, 0, 0, 0, 0]);
    let back = <usize as LenHeader>::from_le_bytes(&v);
    assert_eq!(back, h);
    assert_eq!(<usize as LenHeader>::width_exec(), 8);
    assert_eq!(LenHeader::to_usize(h), h);
}
