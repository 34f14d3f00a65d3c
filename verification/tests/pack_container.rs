use std::io::Write;

use jsbsim_harness::pack::{decode_pack, parse_pack, PackError, PackFile};

fn pack_bytes(manifest: &[u8], files: &[(&[u8], &[u8])]) -> Vec<u8> {
    let mut b = Vec::new();
    b.extend_from_slice(b"JSBP");
    b.extend_from_slice(&[9, 9, 9, 9]);
    b.extend_from_slice(&(manifest.len() as u32).to_le_bytes());
    b.extend_from_slice(manifest);
    b.extend_from_slice(&(files.len() as u32).to_le_bytes());
    for (p, d) in files {
        b.extend_from_slice(&(p.len() as u16).to_le_bytes());
        b.extend_from_slice(p);
        b.extend_from_slice(&(d.len() as u32).to_le_bytes());
    }
    for (_, d) in files {
        b.extend_from_slice(d);
    }
    b
}

fn gzip(b: &[u8]) -> Vec<u8> {
    let mut e = flate2::write::GzEncoder::new(Vec::new(), flate2::Compression::default());
    e.write_all(b).unwrap();
    e.finish().unwrap()
}

fn names(v: &[PackFile]) -> Vec<(String, Vec<u8>)> {
    v.iter().map(|f| (f.path.clone(), f.data.clone())).collect()
}

#[test]
fn plain_pack_reads_back_files_in_order() {
    let raw = pack_bytes(b"{\"id\":\"c172\"}", &[
        (b"aircraft/c172p/c172p.xml", b"<fdm_config/>"),
        (b"engine/eng_io320.xml", b""),
        (b"systems/x.xml", b"abc"),
    ]);
    let files = parse_pack(&raw).unwrap();
    assert_eq!(names(&files), vec![
        ("aircraft/c172p/c172p.xml".to_string(), b"<fdm_config/>".to_vec()),
        ("engine/eng_io320.xml".to_string(), Vec::new()),
        ("systems/x.xml".to_string(), b"abc".to_vec()),
    ]);
    assert_eq!(names(&decode_pack(&raw).unwrap()), names(&files));
}

#[test]
fn gzip_pack_is_inflated_first() {
    let raw = pack_bytes(b"m", &[(b"a.xml", b"hello"), (b"b.xml", b"world")]);
    let files = decode_pack(&gzip(&raw)).unwrap();
    assert_eq!(names(&files), vec![
        ("a.xml".to_string(), b"hello".to_vec()),
        ("b.xml".to_string(), b"world".to_vec()),
    ]);
}

#[test]
fn empty_pack_has_no_files() {
    let raw = pack_bytes(b"", &[]);
    assert_eq!(raw.len(), 16);
    assert!(decode_pack(&raw).unwrap().is_empty());
}

#[test]
fn non_ascii_path_is_decoded() {
    let raw = pack_bytes(b"", &[("données/é.xml".as_bytes(), b"x")]);
    let files = decode_pack(&raw).unwrap();
    assert_eq!(files[0].path, "données/é.xml");
}

#[test]
fn bad_magic_is_refused() {
    let mut raw = pack_bytes(b"", &[(b"a", b"b")]);
    raw[3] = b'Q';
    assert_eq!(decode_pack(&raw).err(), Some(PackError::BadMagic));
    assert_eq!(decode_pack(b"XY").err(), Some(PackError::Truncated));
    assert_eq!(decode_pack(b"ABCD").err(), Some(PackError::BadMagic));
}

#[test]
fn invalid_utf8_path_is_refused() {
    let raw = pack_bytes(b"", &[(b"ok", b"1"), (&[0x66, 0xff, 0x66], b"2")]);
    assert_eq!(decode_pack(&raw).err(), Some(PackError::BadPath));
    // a surrogate encoded in UTF-8 form is not UTF-8
    let raw = pack_bytes(b"", &[(&[0xed, 0xa0, 0x80], b"")]);
    assert_eq!(parse_pack(&raw).err(), Some(PackError::BadPath));
}

#[test]
fn short_containers_are_truncated() {
    let raw = pack_bytes(b"manifest", &[(b"a.xml", b"hello")]);
    // cut inside the header, the index and the data
    for cut in [6usize, 11, 20, 24, 27, 30, raw.len() - 1] {
        assert_eq!(decode_pack(&raw[..cut]).err(), Some(PackError::Truncated), "cut {cut}");
    }
    // a manifest length past the end
    let mut bad = pack_bytes(b"", &[]);
    bad[8] = 200;
    assert_eq!(decode_pack(&bad).err(), Some(PackError::Truncated));
}

#[test]
fn path_error_comes_before_later_truncation() {
    let mut raw = pack_bytes(b"", &[(&[0xff], b"data")]);
    raw.truncate(raw.len() - 2);
    assert_eq!(decode_pack(&raw).err(), Some(PackError::BadPath));
}

#[test]
fn broken_gzip_is_refused() {
    let raw = pack_bytes(b"", &[(b"a", b"b")]);
    let mut z = gzip(&raw);
    let n = z.len();
    z.truncate(n / 2);
    assert_eq!(decode_pack(&z).err(), Some(PackError::Inflate));
    assert_eq!(decode_pack(&[0x1f, 0x8b]).err(), Some(PackError::Inflate));
}

#[test]
fn trailing_bytes_after_data_are_ignored() {
    let mut raw = pack_bytes(b"", &[(b"a", b"b")]);
    raw.extend_from_slice(b"tail");
    assert_eq!(names(&decode_pack(&raw).unwrap()), vec![("a".to_string(), b"b".to_vec())]);
}
