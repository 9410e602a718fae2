use librivox_streamer::receiver::ReadableReceiver;

#[test]
fn round_trip_two_blocks() {
    let (tx, rx) = flume::unbounded::<Vec<u8>>();
    tx.send(b"AAAA".to_vec()).unwrap();
    tx.send(b"BBB".to_vec()).unwrap();
    drop(tx);

    let mut adapter = ReadableReceiver::new(rx, 8192);
    let first = adapter.read(4);
    assert_eq!(first, b"AAAA".to_vec());
    let second = adapter.read(5);
    assert_eq!(second, b"BBB".to_vec());
    let third = adapter.read(5);
    assert_eq!(third.len(), 0);
}

#[test]
fn eof_stays_eof() {
    let (tx, rx) = flume::unbounded::<Vec<u8>>();
    tx.send(vec![1, 2]).unwrap();
    drop(tx);

    let mut adapter = ReadableReceiver::new(rx, 16);
    assert_eq!(adapter.read(10), vec![1, 2]);
    assert_eq!(adapter.read(10).len(), 0);
    assert_eq!(adapter.read(1).len(), 0);
    assert_eq!(adapter.read(10).len(), 0);
}

#[test]
fn block_larger_than_nominal_buffer() {
    let (tx, rx) = flume::unbounded::<Vec<u8>>();
    let big: Vec<u8> = (0..200u8).collect();
    tx.send(big.clone()).unwrap();
    drop(tx);

    let mut adapter = ReadableReceiver::new(rx, 4);
    let mut got: Vec<u8> = Vec::new();
    loop {
        let part = adapter.read(7);
        if part.is_empty() {
            break;
        }
        got.extend_from_slice(&part);
    }
    assert_eq!(got, big);
}

#[test]
fn no_bytes_lost_or_reordered_any_sizes() {
    let blocks: Vec<Vec<u8>> = vec![
        vec![10, 11, 12, 13, 14],
        vec![20],
        vec![30, 31, 32, 33, 34, 35, 36, 37, 38, 39, 40, 41],
        vec![50, 51],
        vec![60, 61, 62, 63, 64, 65, 66],
    ];
    let mut expected: Vec<u8> = Vec::new();
    for b in blocks.iter() {
        expected.extend_from_slice(b);
    }
    for read_size in [1usize, 2, 3, 5, 8, 64] {
        for buffer_size in [0usize, 1, 4, 1024] {
            let (tx, rx) = flume::unbounded::<Vec<u8>>();
            for b in blocks.iter() {
                tx.send(b.clone()).unwrap();
            }
            drop(tx);
            let mut adapter = ReadableReceiver::new(rx, buffer_size);
            let mut got: Vec<u8> = Vec::new();
            loop {
                let part = adapter.read(read_size);
                if part.is_empty() {
                    break;
                }
                got.extend_from_slice(&part);
            }
            assert_eq!(got, expected);
        }
    }
}

#[test]
fn empty_blocks_carry_no_data() {
    let (tx, rx) = flume::unbounded::<Vec<u8>>();
    tx.send(Vec::new()).unwrap();
    tx.send(vec![7, 8, 9]).unwrap();
    tx.send(Vec::new()).unwrap();
    drop(tx);

    let mut adapter = ReadableReceiver::new(rx, 8);
    assert_eq!(adapter.read(2), vec![7, 8]);
    assert_eq!(adapter.read(2), vec![9]);
    assert_eq!(adapter.read(2).len(), 0);
}

#[test]
fn zero_length_read_is_not_eof() {
    let (tx, rx) = flume::unbounded::<Vec<u8>>();
    tx.send(vec![42]).unwrap();
    drop(tx);

    let mut adapter = ReadableReceiver::new(rx, 8);
    assert_eq!(adapter.read(0).len(), 0);
    assert_eq!(adapter.read(4), vec![42]);
}
