use ssz_nif::bls::{check_message, check_public_keys, check_signatures, InputError};
use ssz_nif::stream::{ReadError, StreamIterator, CHUNK_SIZE};

#[test]
fn empty_stream_asks_to_come_back() {
    let mut stream = StreamIterator::new();
    assert_eq!(stream.read(16), Err(ReadError::WouldBlock));
    assert_eq!(stream.read_exact(1), Err(ReadError::WouldBlock));
    assert_eq!(stream.read_exact(0), Ok(vec![]));
}

#[test]
fn fed_bytes_come_out_in_order() {
    let mut stream = StreamIterator::new();
    stream.feed(&[1, 2, 3]);
    stream.feed(&[4, 5]);
    assert_eq!(stream.read(2), Ok(vec![1, 2]));
    assert_eq!(stream.read(10), Ok(vec![3, 4, 5]));
    assert_eq!(stream.read(10), Err(ReadError::WouldBlock));
    stream.feed(&[6]);
    assert_eq!(stream.read(10), Ok(vec![6]));
}

#[test]
fn read_of_no_bytes_asks_to_come_back_until_the_end() {
    let mut stream = StreamIterator::new();
    stream.feed(&[1]);
    assert_eq!(stream.read(0), Err(ReadError::WouldBlock));
    stream.feed(&[]);
    assert_eq!(stream.read(0), Ok(vec![]));
    assert_eq!(stream.read(4), Ok(vec![1]));
}

#[test]
fn no_bytes_signal_the_end() {
    let mut stream = StreamIterator::new();
    stream.feed(&[7, 8]);
    assert!(!stream.eof);
    stream.feed(&[]);
    assert!(stream.eof);
    assert_eq!(stream.read(1), Ok(vec![7]));
    assert_eq!(stream.read(5), Ok(vec![8]));
    assert_eq!(stream.read(5), Ok(vec![]));
}

#[test]
fn exact_read_takes_all_or_nothing() {
    let mut stream = StreamIterator::new();
    stream.feed(&[1, 2, 3]);
    assert_eq!(stream.read_exact(4), Err(ReadError::WouldBlock));
    assert_eq!(stream.buffer.len(), 3);
    assert_eq!(stream.read_exact(2), Ok(vec![1, 2]));
    stream.feed(&[]);
    assert_eq!(stream.read_exact(2), Err(ReadError::UnexpectedEof));
    assert_eq!(stream.read_exact(1), Ok(vec![3]));
    assert_eq!(stream.read_exact(1), Err(ReadError::UnexpectedEof));
}

#[test]
fn chunk_size_is_that_of_the_framing_format() {
    assert_eq!(CHUNK_SIZE, 1 << 16);
}

#[test]
fn message_must_be_thirty_two_bytes() {
    assert_eq!(check_message(&[0u8; 32]), Ok(()));
    assert_eq!(check_message(&[0u8; 31]), Err(InputError::MessageLength));
    assert_eq!(check_message(&[0u8; 33]), Err(InputError::MessageLength));
    assert_eq!(check_message(&[]), Err(InputError::MessageLength));
    assert_eq!(InputError::MessageLength.message(), "Message must be 32 bytes long");
}

#[test]
fn aggregates_need_at_least_one_input() {
    assert_eq!(check_signatures(0), Err(InputError::NoSignatures));
    assert_eq!(check_signatures(1), Ok(()));
    assert_eq!(check_public_keys(0), Err(InputError::NoPublicKeys));
    assert_eq!(check_public_keys(3), Ok(()));
    assert_eq!(InputError::NoSignatures.message(), "Empty signature vector");
    assert_eq!(InputError::NoPublicKeys.message(), "Empty public key vector");
}
