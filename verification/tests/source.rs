use fixtojson::config::get_args;
use fixtojson::source::{open, source_kind, SourceKind};
use flate2::write::GzEncoder;
use flate2::Compression;
use std::io::Write;

fn gzip(content: &[u8]) -> Vec<u8> {
    let mut encoder = GzEncoder::new(Vec::new(), Compression::default());
    encoder.write_all(content).unwrap();
    encoder.finish().unwrap()
}

#[test]
fn dash_is_standard_input() {
    assert_eq!(source_kind("-"), SourceKind::Stdin);
    assert_eq!(source_kind("--"), SourceKind::Plain);
    assert_eq!(source_kind("./-"), SourceKind::Plain);
    assert_eq!(source_kind(""), SourceKind::Plain);
}

#[test]
fn gz_suffix_selects_gzip() {
    assert_eq!(source_kind("messages.txt.gz"), SourceKind::Gzip);
    assert_eq!(source_kind("logs/2020/04/24.gz"), SourceKind::Gzip);
    assert_eq!(source_kind("\u{65e5}\u{672c}.gz"), SourceKind::Gzip);
    assert_eq!(source_kind(".gz"), SourceKind::Gzip);
}

#[test]
fn other_names_are_plain_files() {
    assert_eq!(source_kind("messages.txt"), SourceKind::Plain);
    assert_eq!(source_kind("messages.gz.txt"), SourceKind::Plain);
    assert_eq!(source_kind("messages.GZ"), SourceKind::Plain);
    assert_eq!(source_kind("messagesgz"), SourceKind::Plain);
    assert_eq!(source_kind("gz"), SourceKind::Plain);
    assert_eq!(source_kind("a.g"), SourceKind::Plain);
    assert_eq!(source_kind("a.gzip"), SourceKind::Plain);
}

#[test]
fn plain_source_is_its_bytes() {
    let raw = b"8=FIX.4.4|10=209\n".to_vec();
    assert_eq!(open("messages.txt", raw.clone()), Ok(raw.clone()));
    assert_eq!(open("-", raw.clone()), Ok(raw));
    // Bytes that happen to be gzip stay as they are under a plain name.
    let packed = gzip(b"text");
    assert_eq!(open("packed.bin", packed.clone()), Ok(packed));
}

#[test]
fn gzip_source_is_inflated() {
    let content = b"8=FIX.4.4|10=209\n8=FIX.4.4|35=0|10=000\n".to_vec();
    let packed = gzip(&content);
    assert_ne!(packed, content);
    assert_eq!(open("messages.txt.gz", packed), Ok(content));
    assert_eq!(open("empty.gz", gzip(b"")), Ok(Vec::new()));
}

#[test]
fn gzip_source_without_gzip_header_has_no_content() {
    let raw = b"8=FIX.4.4|10=209\n".to_vec();
    assert_eq!(open("bad_gzip.txt.gz", raw), Err("invalid gzip header".to_string()));
}

#[test]
fn gzip_source_with_damaged_body_has_no_content() {
    let mut packed = gzip(b"8=FIX.4.4|10=209\n");
    let last = packed.len() - 1;
    packed[last - 5] ^= 0x55;
    assert!(open("damaged.gz", packed).is_err());
    assert!(open("none.gz", Vec::new()).is_err());
}

#[test]
fn arguments_become_the_sources() {
    let config = get_args(vec!["a".to_string(), "-".to_string(), "b.gz".to_string()]).unwrap();
    assert_eq!(
        config.files(),
        &vec!["a".to_string(), "-".to_string(), "b.gz".to_string()]
    );
}

#[test]
fn no_arguments_mean_standard_input() {
    let config = get_args(Vec::new()).unwrap();
    assert_eq!(config.files(), &vec!["-".to_string()]);
    assert_eq!(config.into_files(), vec!["-".to_string()]);
}
