use bytes::Bytes;
use fast_rustup::chunks::ChunkReader;
use fast_rustup::chunks::ReadStep;

#[test]
fn new_reader_needs_a_chunk() {
    let mut reader = ChunkReader::new();
    let mut buf = [7u8; 4];
    assert_eq!(reader.read(&mut buf), ReadStep::NeedChunk);
    assert_eq!(buf, [7u8; 4]);
}

#[test]
fn chunk_that_fits_is_copied_whole() {
    let mut reader = ChunkReader::new();
    assert_eq!(reader.feed(Bytes::from_static(b"abc")), None);
    let mut buf = [0u8; 5];
    assert_eq!(reader.read(&mut buf), ReadStep::Copied(3));
    assert_eq!(&buf, b"abc\0\0");
    assert_eq!(reader.read(&mut buf), ReadStep::NeedChunk);
    assert_eq!(&buf, b"abc\0\0");
}

#[test]
fn long_chunk_is_read_in_pieces() {
    let mut reader = ChunkReader::new();
    assert_eq!(reader.feed(Bytes::from(b"hello world".to_vec())), None);
    let mut buf = [0u8; 4];
    assert_eq!(reader.read(&mut buf), ReadStep::Copied(4));
    assert_eq!(&buf, b"hell");
    assert_eq!(reader.read(&mut buf), ReadStep::Copied(4));
    assert_eq!(&buf, b"o wo");
    assert_eq!(reader.read(&mut buf), ReadStep::Copied(3));
    assert_eq!(&buf, b"rldo");
    assert_eq!(reader.read(&mut buf), ReadStep::NeedChunk);
}

#[test]
fn chunks_come_out_in_order() {
    let mut reader = ChunkReader::new();
    let mut out: Vec<u8> = Vec::new();
    let chunks: [&'static [u8]; 4] = [b"one,", b"", b"two,", b"three"];
    for chunk in chunks {
        assert_eq!(reader.feed(Bytes::from_static(chunk)), None);
        loop {
            let mut buf = [0u8; 3];
            match reader.read(&mut buf) {
                ReadStep::Copied(n) => out.extend_from_slice(&buf[..n]),
                ReadStep::NeedChunk => break,
                ReadStep::EndOfStream => panic!("the stream is open"),
            }
        }
    }
    assert_eq!(out, b"one,two,three".to_vec());
}

#[test]
fn empty_buffer_copies_nothing() {
    let mut reader = ChunkReader::new();
    assert_eq!(reader.feed(Bytes::from_static(b"abc")), None);
    let mut none: [u8; 0] = [];
    assert_eq!(reader.read(&mut none), ReadStep::Copied(0));
    let mut buf = [0u8; 3];
    assert_eq!(reader.read(&mut buf), ReadStep::Copied(3));
    assert_eq!(&buf, b"abc");
}

#[test]
fn chunk_is_refused_while_one_is_unread() {
    let mut reader = ChunkReader::new();
    assert_eq!(reader.feed(Bytes::from_static(b"abc")), None);
    assert_eq!(
        reader.feed(Bytes::from_static(b"xyz")),
        Some(Bytes::from_static(b"xyz"))
    );
    let mut buf = [0u8; 8];
    assert_eq!(reader.read(&mut buf), ReadStep::Copied(3));
    assert_eq!(&buf[..3], b"abc");
    assert_eq!(reader.feed(Bytes::from_static(b"xyz")), None);
    assert_eq!(reader.read(&mut buf), ReadStep::Copied(3));
    assert_eq!(&buf[..3], b"xyz");
}

#[test]
fn closed_stream_ends() {
    let mut reader = ChunkReader::new();
    reader.close();
    let mut buf = [9u8; 4];
    assert_eq!(reader.read(&mut buf), ReadStep::EndOfStream);
    assert_eq!(reader.read(&mut buf), ReadStep::EndOfStream);
    assert_eq!(buf, [9u8; 4]);
}

#[test]
fn unread_bytes_survive_the_close() {
    let mut reader = ChunkReader::new();
    assert_eq!(reader.feed(Bytes::from_static(b"tail")), None);
    reader.close();
    let mut buf = [0u8; 3];
    assert_eq!(reader.read(&mut buf), ReadStep::Copied(3));
    assert_eq!(&buf, b"tai");
    assert_eq!(reader.read(&mut buf), ReadStep::Copied(1));
    assert_eq!(&buf, b"lai");
    assert_eq!(reader.read(&mut buf), ReadStep::EndOfStream);
}

#[test]
fn chunk_is_refused_after_the_close() {
    let mut reader = ChunkReader::new();
    reader.close();
    assert_eq!(
        reader.feed(Bytes::from_static(b"late")),
        Some(Bytes::from_static(b"late"))
    );
    let mut buf = [0u8; 4];
    assert_eq!(reader.read(&mut buf), ReadStep::EndOfStream);
}

#[test]
fn empty_chunk_asks_for_the_next() {
    let mut reader = ChunkReader::new();
    assert_eq!(reader.feed(Bytes::new()), None);
    let mut buf = [0u8; 4];
    assert_eq!(reader.read(&mut buf), ReadStep::NeedChunk);
    assert_eq!(reader.feed(Bytes::from_static(b"x")), None);
    assert_eq!(reader.read(&mut buf), ReadStep::Copied(1));
}
