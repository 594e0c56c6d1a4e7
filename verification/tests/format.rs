//! The narinfo text format and the per-path pipeline.

use magic_nix_cache::backend::{CacheId, Error, FileAllocation};
use magic_nix_cache::narinfo::{parse_narinfo, NarInfo};
use magic_nix_cache::pipeline::{
    basename, nar_key, nar_url, narinfo_key, path_info_to_nar_info, upload_path_events,
    PipelineEvent, ValidPathInfo,
};

fn sample_narinfo() -> NarInfo {
    NarInfo {
        store_path: b"/nix/store/abc123-hello-1.0".to_vec(),
        url: b"nar/deadbeef.nar.zstd".to_vec(),
        compression: b"zstd".to_vec(),
        nar_hash: b"sha256:deadbeef".to_vec(),
        nar_size: 4096,
        references: vec![b"abc123-hello-1.0".to_vec(), b"xyz789-libc-2.38".to_vec()],
        ca: None,
    }
}

fn sample_path_info() -> ValidPathInfo {
    ValidPathInfo {
        store_path: b"/nix/store/abc123-hello-1.0".to_vec(),
        store_path_hash: b"abc123".to_vec(),
        nar_hash_base32: b"deadbeef".to_vec(),
        nar_size: 4096,
        references: vec![
            b"/nix/store/abc123-hello-1.0".to_vec(),
            b"/nix/store/xyz789-libc-2.38".to_vec(),
        ],
        ca: None,
    }
}

#[test]
fn narinfo_serializes_to_key_value_lines() {
    let text = sample_narinfo().serialize();
    let expected = b"StorePath: /nix/store/abc123-hello-1.0\n\
URL: nar/deadbeef.nar.zstd\n\
Compression: zstd\n\
NarHash: sha256:deadbeef\n\
NarSize: 4096\n\
References: abc123-hello-1.0 xyz789-libc-2.38\n";
    assert_eq!(text, expected.to_vec());
}

#[test]
fn narinfo_with_ca_gets_a_final_line() {
    let mut ni = sample_narinfo();
    ni.ca = Some(b"fixed:r:sha256:abcd".to_vec());
    let text = ni.serialize();
    assert!(text.ends_with(b"CA: fixed:r:sha256:abcd\n"));
}

#[test]
fn narinfo_round_trips() {
    let ni = sample_narinfo();
    let parsed = parse_narinfo(ni.serialize().as_slice()).expect("must parse");
    assert_eq!(parsed.store_path, ni.store_path);
    assert_eq!(parsed.url, ni.url);
    assert_eq!(parsed.compression, ni.compression);
    assert_eq!(parsed.nar_hash, ni.nar_hash);
    assert_eq!(parsed.nar_size, ni.nar_size);
    assert_eq!(parsed.references, ni.references);
    assert_eq!(parsed.ca, ni.ca);
}

#[test]
fn narinfo_round_trips_with_ca_and_no_references() {
    let ni = NarInfo {
        store_path: b"/nix/store/q-x".to_vec(),
        url: b"nar/q.nar.zstd".to_vec(),
        compression: b"zstd".to_vec(),
        nar_hash: b"sha256:q".to_vec(),
        nar_size: 0,
        references: Vec::new(),
        ca: Some(b"text:sha256:z".to_vec()),
    };
    let parsed = parse_narinfo(ni.serialize().as_slice()).expect("must parse");
    assert_eq!(parsed.references, Vec::<Vec<u8>>::new());
    assert_eq!(parsed.ca, ni.ca);
    assert_eq!(parsed.nar_size, 0);
}

#[test]
fn narinfo_parse_rejects_wrong_shapes() {
    assert!(parse_narinfo(b"").is_none());
    assert!(parse_narinfo(b"StorePath: x\n").is_none());
    let mut text = sample_narinfo().serialize();
    text.extend_from_slice(b"Trailing: junk\n");
    assert!(parse_narinfo(text.as_slice()).is_none());
}

#[test]
fn narinfo_parse_rejects_bad_sizes() {
    let make = |size: &[u8]| {
        let mut t = b"StorePath: p\nURL: u\nCompression: zstd\nNarHash: h\nNarSize: ".to_vec();
        t.extend_from_slice(size);
        t.extend_from_slice(b"\nReferences: \n");
        t
    };
    assert!(parse_narinfo(make(b"007").as_slice()).is_none());
    assert!(parse_narinfo(make(b"").as_slice()).is_none());
    assert!(parse_narinfo(make(b"12x").as_slice()).is_none());
    assert!(parse_narinfo(make(b"99999999999999999999999").as_slice()).is_none());
    assert!(parse_narinfo(make(b"12").as_slice()).is_some());
}

#[test]
fn keys_and_urls() {
    assert_eq!(nar_key(b"deadbeef"), b"deadbeef.nar.zstd".to_vec());
    assert_eq!(narinfo_key(b"abc123"), b"abc123.narinfo".to_vec());
    assert_eq!(nar_url(b"deadbeef"), b"nar/deadbeef.nar.zstd".to_vec());
}

#[test]
fn basename_takes_the_last_component() {
    assert_eq!(basename(b"/nix/store/abc-x"), b"abc-x".to_vec());
    assert_eq!(basename(b"abc-x"), b"abc-x".to_vec());
    assert_eq!(basename(b""), Vec::<u8>::new());
}

#[test]
fn descriptor_built_from_path_info() {
    let info = sample_path_info();
    let ni = path_info_to_nar_info(&info, nar_url(b"deadbeef"));
    assert_eq!(ni.store_path, b"/nix/store/abc123-hello-1.0".to_vec());
    assert_eq!(ni.url, b"nar/deadbeef.nar.zstd".to_vec());
    assert_eq!(ni.compression, b"zstd".to_vec());
    assert_eq!(ni.nar_hash, b"sha256:deadbeef".to_vec());
    assert_eq!(ni.nar_size, 4096);
    assert_eq!(
        ni.references,
        vec![b"abc123-hello-1.0".to_vec(), b"xyz789-libc-2.38".to_vec()]
    );
}

#[test]
fn pipeline_uploads_descriptor_after_nar() {
    let info = sample_path_info();
    let (events, result) = upload_path_events(
        &info,
        Ok(FileAllocation::V1(CacheId(1))),
        Ok(900),
        Ok(FileAllocation::V1(CacheId(2))),
        Ok(200),
    );
    assert!(result.is_ok());
    assert_eq!(events.len(), 3);
    assert!(matches!(&events[0], PipelineEvent::NarUploaded(k) if k == b"deadbeef.nar.zstd"));
    assert!(matches!(&events[1], PipelineEvent::NarInfoUploaded(k) if k == b"abc123.narinfo"));
    assert!(matches!(&events[2], PipelineEvent::NegativeCacheCleared(h) if h == b"abc123"));
}

#[test]
fn pipeline_skips_descriptor_when_nar_fails() {
    let info = sample_path_info();
    let (events, result) = upload_path_events(
        &info,
        Ok(FileAllocation::V1(CacheId(1))),
        Err(Error::RequestError),
        Ok(FileAllocation::V1(CacheId(2))),
        Ok(200),
    );
    assert!(events.is_empty());
    assert!(matches!(result, Err(Error::RequestError)));
}

#[test]
fn pipeline_stops_at_failed_reservation() {
    let info = sample_path_info();
    let (events, result) = upload_path_events(
        &info,
        Err(Error::CircuitBreakerTripped),
        Ok(0),
        Ok(FileAllocation::V1(CacheId(2))),
        Ok(200),
    );
    assert!(events.is_empty());
    assert!(matches!(result, Err(Error::CircuitBreakerTripped)));
}

#[test]
fn pipeline_reports_descriptor_failure_after_nar() {
    let info = sample_path_info();
    let (events, result) = upload_path_events(
        &info,
        Ok(FileAllocation::V1(CacheId(1))),
        Ok(900),
        Err(Error::RequestError),
        Ok(200),
    );
    assert_eq!(events.len(), 1);
    assert!(matches!(&events[0], PipelineEvent::NarUploaded(_)));
    assert!(result.is_err());
}
