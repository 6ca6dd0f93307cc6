use bytes::Bytes;
use fast_rustup::archive::plan_entry;
use fast_rustup::archive::EntryAction;
use fast_rustup::archive::EntryKind;
use fast_rustup::chunks::ChunkReader;
use fast_rustup::chunks::ReadStep;
use std::collections::BTreeMap;
use std::collections::VecDeque;
use std::io::Read;
use std::io::Write;

struct Chunks {
    cursor: ChunkReader,
    rest: VecDeque<Bytes>,
}

impl Read for Chunks {
    fn read(&mut self, buf: &mut [u8]) -> std::io::Result<usize> {
        loop {
            match self.cursor.read(buf) {
                ReadStep::Copied(n) => return Ok(n),
                ReadStep::EndOfStream => return Ok(0),
                ReadStep::NeedChunk => match self.rest.pop_front() {
                    Some(chunk) => assert_eq!(self.cursor.feed(chunk), None),
                    None => self.cursor.close(),
                },
            }
        }
    }
}

fn chunked(data: &[u8], size: usize) -> Chunks {
    let mut rest: VecDeque<Bytes> = VecDeque::new();
    for piece in data.chunks(size) {
        rest.push_back(Bytes::copy_from_slice(piece));
        rest.push_back(Bytes::new());
    }
    Chunks { cursor: ChunkReader::new(), rest }
}

fn add_file(builder: &mut tar::Builder<Vec<u8>>, path: &str, content: &[u8]) {
    let mut header = tar::Header::new_gnu();
    header.set_entry_type(tar::EntryType::Regular);
    header.set_size(content.len() as u64);
    header.set_mode(0o644);
    header.set_cksum();
    builder.append_data(&mut header, path, content).unwrap();
}

fn add_dir(builder: &mut tar::Builder<Vec<u8>>, path: &str) {
    let mut header = tar::Header::new_gnu();
    header.set_entry_type(tar::EntryType::Directory);
    header.set_size(0);
    header.set_mode(0o755);
    header.set_cksum();
    builder.append_data(&mut header, path, std::io::empty()).unwrap();
}

fn big_content() -> Vec<u8> {
    (0..200_000u32).map(|i| (i.wrapping_mul(2654435761) >> 13) as u8).collect()
}

fn archive() -> Vec<u8> {
    let mut builder = tar::Builder::new(Vec::new());
    add_file(&mut builder, "cargo-nightly-x/version", b"1.0\n");
    add_dir(&mut builder, "cargo-nightly-x/cargo/");
    add_file(&mut builder, "cargo-nightly-x/cargo/manifest.in", b"file:bin/cargo\n");
    add_dir(&mut builder, "cargo-nightly-x/cargo/bin/");
    add_file(&mut builder, "cargo-nightly-x/cargo/bin/cargo", &big_content());
    add_file(&mut builder, "cargo-nightly-x/cargo/share/doc/README", b"read me");
    add_file(&mut builder, "cargo-nightly-x/other/bin/tool", b"not ours");
    add_file(&mut builder, "cargo-nightly-x/cargo/empty", b"");
    let tar = builder.into_inner().unwrap();
    let mut encoder = xz2::write::XzEncoder::new(Vec::new(), 6);
    encoder.write_all(&tar).unwrap();
    encoder.finish().unwrap()
}

fn joined(segments: &[Vec<u8>]) -> String {
    let names: Vec<String> =
        segments.iter().map(|s| String::from_utf8(s.clone()).unwrap()).collect();
    names.join("/")
}

fn extract(
    source: Chunks,
    subtree: &str,
) -> std::io::Result<(Vec<String>, BTreeMap<String, Vec<u8>>)> {
    let mut dirs: Vec<String> = Vec::new();
    let mut files: BTreeMap<String, Vec<u8>> = BTreeMap::new();
    let mut archive = tar::Archive::new(xz2::read::XzDecoder::new(source));
    for entry in archive.entries()? {
        let mut entry = entry?;
        let kind = if entry.header().entry_type() == tar::EntryType::Directory {
            EntryKind::Directory
        } else {
            EntryKind::File
        };
        let path = entry.path_bytes().into_owned();
        match plan_entry(&path, kind, subtree) {
            EntryAction::Skip => {},
            EntryAction::CreateDir(dest) => dirs.push(joined(&dest)),
            EntryAction::Unpack(dest) => {
                let mut content: Vec<u8> = Vec::new();
                entry.read_to_end(&mut content)?;
                files.insert(joined(&dest), content);
            },
        }
    }
    Ok((dirs, files))
}

#[test]
fn chunked_archive_is_extracted_byte_for_byte() {
    let data = archive();
    for size in [1usize, 7, 4096, 1 << 20] {
        let (dirs, files) = extract(chunked(&data, size), "cargo").unwrap();
        assert_eq!(dirs, vec!["".to_string(), "bin".to_string()]);
        let names: Vec<&str> = files.keys().map(|k| k.as_str()).collect();
        assert_eq!(names, vec!["bin/cargo", "empty", "share/doc/README"]);
        assert_eq!(files["bin/cargo"], big_content());
        assert_eq!(files["share/doc/README"], b"read me".to_vec());
        assert_eq!(files["empty"], Vec::<u8>::new());
    }
}

#[test]
fn other_subtree_of_the_same_archive() {
    let data = archive();
    let (dirs, files) = extract(chunked(&data, 1000), "other").unwrap();
    assert_eq!(dirs, Vec::<String>::new());
    let names: Vec<&str> = files.keys().map(|k| k.as_str()).collect();
    assert_eq!(names, vec!["bin/tool"]);
    assert_eq!(files["bin/tool"], b"not ours".to_vec());
}

#[test]
fn truncated_stream_fails_the_extraction() {
    let data = archive();
    let cut = &data[..data.len() / 2];
    assert!(extract(chunked(cut, 1000), "cargo").is_err());
}

#[test]
fn corrupted_stream_fails_the_extraction() {
    let mut data = archive();
    let middle = data.len() / 2;
    for byte in &mut data[middle..middle + 64] {
        *byte ^= 0x5a;
    }
    assert!(extract(chunked(&data, 1000), "cargo").is_err());
}

#[test]
fn reader_passes_every_byte_through() {
    let data = big_content();
    let mut source = chunked(&data, 333);
    let mut out: Vec<u8> = Vec::new();
    source.read_to_end(&mut out).unwrap();
    assert_eq!(out, data);
}
