use std::io::Write;

use sha2::Digest;

use fapt::Hashes;
use fapt::checksum::ChecksumAlgorithm;
use fapt::checksum::validate;
use fapt::fetch::FetchAction;
use fapt::fetch::classify_status;
use fapt::lists::AcquireError;
use fapt::lists::Compression;
use fapt::lists::List;
use fapt::lists::VerifyStage;
use fapt::lists::find_file;
use fapt::lists::find_files;
use fapt::lists::plan_downloads;
use fapt::lists::prepare_list_content;
use fapt::lists::url_join;
use fapt::release::Release;
use fapt::release::ReleaseContent;

fn hashes_of(data: &[u8]) -> Hashes {
    let md5 = md5::compute(data).0;
    let sha256: [u8; 32] = sha2::Sha256::digest(data).into();
    Hashes { md5, sha256 }
}

fn gzip(data: &[u8]) -> Vec<u8> {
    let mut enc = flate2::write::GzEncoder::new(Vec::new(), flate2::Compression::default());
    enc.write_all(data).unwrap();
    enc.finish().unwrap()
}

#[test]
fn validate_accepts_and_rejects() {
    let data = b"Packages file contents";
    let good = hashes_of(data);
    assert!(validate(data, &good).is_ok());

    let mut corrupted = data.to_vec();
    corrupted[3] ^= 1;
    let report = validate(&corrupted, &good).unwrap_err();
    assert_eq!(ChecksumAlgorithm::Md5, report.algorithm);
    assert_eq!(good.md5.to_vec(), report.expected);

    let mut wrong_sha = good;
    wrong_sha.md5 = md5::compute(&corrupted).0;
    let report = validate(&corrupted, &wrong_sha).unwrap_err();
    assert_eq!(ChecksumAlgorithm::Sha256, report.algorithm);
}

#[test]
fn local_name_is_lowercase_hex() {
    let mut sha256 = [0u8; 32];
    for (i, b) in sha256.iter_mut().enumerate() {
        *b = (i * 8) as u8;
    }
    let list = List {
        url: "http://example.org/Packages".to_string(),
        codec: Compression::Plain,
        compressed_hashes: Hashes { md5: [0; 16], sha256 },
        decompressed_hashes: Hashes { md5: [0; 16], sha256 },
    };
    assert_eq!(hex::encode(sha256), list.local_name());
}

#[test]
fn find_file_prefers_gzip() {
    let data = b"uncompressed index";
    let h1 = hashes_of(data);
    let h2 = hashes_of(&gzip(data));
    let contents = vec![
        ReleaseContent { name: "Packages".to_string(), hashes: h1 },
        ReleaseContent { name: "Packages.gz".to_string(), hashes: h2 },
    ];
    let list = find_file("http://example.org/dists/sid/", &contents, "Packages").unwrap();
    assert!(matches!(list.codec, Compression::Gz));
    assert_eq!("http://example.org/dists/sid/Packages.gz", list.url);
    assert_eq!(h2.sha256, list.compressed_hashes.sha256);
    assert_eq!(h1.sha256, list.decompressed_hashes.sha256);
}

#[test]
fn find_file_falls_back_to_raw() {
    let data = b"uncompressed index";
    let h1 = hashes_of(data);
    let contents = vec![ReleaseContent { name: "Packages".to_string(), hashes: h1 }];
    let list = find_file("http://example.org/dists/sid/", &contents, "Packages").unwrap();
    assert!(matches!(list.codec, Compression::Plain));
    assert_eq!("http://example.org/dists/sid/Packages", list.url);
    assert_eq!(h1.sha256, list.compressed_hashes.sha256);
    assert_eq!(h1.sha256, list.decompressed_hashes.sha256);

    let missing = find_file("http://example.org/", &contents, "Sources");
    assert!(matches!(
        missing.unwrap_err(),
        AcquireError::FileNotFoundInRelease { .. }
    ));
}

#[test]
fn find_files_resolves_each_release() {
    let data = b"index";
    let h = hashes_of(data);
    let release = Release {
        dists_url: "http://example.org/dists/sid/".to_string(),
        contents: vec![ReleaseContent { name: "Sources".to_string(), hashes: h }],
        file_names: vec!["Sources".to_string()],
    };
    let lists = find_files(&vec![release.clone()]).unwrap();
    assert_eq!(1, lists.len());
    assert_eq!("http://example.org/dists/sid/Sources", lists[0].url);

    let mut broken = release;
    broken.file_names.push("Packages".to_string());
    assert!(find_files(&vec![broken]).is_err());
}

#[test]
fn prepare_plain_content() {
    let data = b"plain index data".to_vec();
    let h = hashes_of(&data);
    let list = List {
        url: "http://example.org/Packages".to_string(),
        codec: Compression::Plain,
        compressed_hashes: h,
        decompressed_hashes: h,
    };
    let stored = prepare_list_content(&list, &data).unwrap();
    assert_eq!(data, stored);
    assert_eq!(hex::encode(h.sha256), list.local_name());
}

#[test]
fn prepare_gzip_content() {
    let data = b"gzip index data".to_vec();
    let compressed = gzip(&data);
    let list = List {
        url: "http://example.org/Packages.gz".to_string(),
        codec: Compression::Gz,
        compressed_hashes: hashes_of(&compressed),
        decompressed_hashes: hashes_of(&data),
    };
    let stored = prepare_list_content(&list, &compressed).unwrap();
    assert_eq!(data, stored);
    // the stored bytes re-hash to the declared strong decompressed digest
    let rehash: [u8; 32] = sha2::Sha256::digest(&stored).into();
    assert_eq!(list.decompressed_hashes.sha256, rehash);
    assert_eq!(hex::encode(rehash), list.local_name());
}

#[test]
fn download_pairs_paths() {
    let d = fapt::fetch::Download::from_to("http://example.org/Packages.gz", "/tmp/stage/x");
    assert_eq!("http://example.org/Packages.gz", d.from);
    assert_eq!("/tmp/stage/x", d.to);
}

#[test]
fn corrupted_download_is_rejected() {
    let data = b"bytes that will be corrupted in flight".to_vec();
    let compressed = gzip(&data);
    let list = List {
        url: "http://example.org/Packages.gz".to_string(),
        codec: Compression::Gz,
        compressed_hashes: hashes_of(&compressed),
        decompressed_hashes: hashes_of(&data),
    };
    let mut tampered = compressed.clone();
    tampered[5] ^= 0x40;
    match prepare_list_content(&list, &tampered) {
        Err(AcquireError::Integrity { stage, .. }) => assert_eq!(VerifyStage::Compressed, stage),
        other => panic!("expected a compressed-stage integrity error, got {:?}", other),
    }

    // stated decompressed digest wrong: the file never reaches the store
    let mut wrong = list.clone();
    wrong.decompressed_hashes = hashes_of(b"something else");
    match prepare_list_content(&wrong, &compressed) {
        Err(AcquireError::Integrity { stage, .. }) => {
            assert_eq!(VerifyStage::Decompressed, stage)
        }
        other => panic!("expected a decompressed-stage integrity error, got {:?}", other),
    }
}

#[test]
fn second_acquisition_plans_nothing() {
    let data = b"cache me".to_vec();
    let h = hashes_of(&data);
    let list = List {
        url: "http://example.org/Packages".to_string(),
        codec: Compression::Plain,
        compressed_hashes: h,
        decompressed_hashes: h,
    };
    let fresh = plan_downloads(&vec![list.clone()], &Vec::new(), "/tmp/stage");
    assert_eq!(1, fresh.len());
    assert_eq!(list.url, fresh[0].from);
    assert_eq!(format!("/tmp/stage/{}", list.local_name()), fresh[0].to);

    let present = vec![list.local_name()];
    let again = plan_downloads(&vec![list], &present, "/tmp/stage");
    assert_eq!(0, again.len());
}

#[test]
fn status_classification() {
    assert_eq!(FetchAction::AlreadyCurrent, classify_status(304));
    assert_eq!(FetchAction::Store, classify_status(200));
    assert_eq!(FetchAction::Store, classify_status(206));
    assert_eq!(FetchAction::Fail, classify_status(404));
    assert_eq!(FetchAction::Fail, classify_status(500));
}

#[test]
fn url_join_segments() {
    assert_eq!("http://a/b", url_join("http://a/", "b"));
    assert_eq!("http://a/b", url_join("http://a", "b"));
    // a relative reference replaces the base's last segment
    assert_eq!("http://a/x/b", url_join("http://a/x/y", "b"));
    assert_eq!("http://a/x/y/b", url_join("http://a/x/y/", "b"));
}
