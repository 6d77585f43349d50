use lattica::compression::{
    compress_data, decompress_data, get_min_compress_size, should_compress, CompressionAlgorithm,
    CompressionLevel,
};

fn sample(len: usize) -> Vec<u8> {
    (0..len).map(|i| (i % 7) as u8 + b'a').collect()
}

const ALL: [CompressionAlgorithm; 5] = [
    CompressionAlgorithm::NoCompression,
    CompressionAlgorithm::Gzip,
    CompressionAlgorithm::Zstd,
    CompressionAlgorithm::Lz4,
    CompressionAlgorithm::Brotli,
];

#[test]
fn min_compress_sizes_per_algorithm() {
    assert_eq!(get_min_compress_size(CompressionAlgorithm::NoCompression), usize::MAX);
    assert_eq!(get_min_compress_size(CompressionAlgorithm::Lz4), 256);
    assert_eq!(get_min_compress_size(CompressionAlgorithm::Zstd), 512);
    assert_eq!(get_min_compress_size(CompressionAlgorithm::Gzip), 512);
    assert_eq!(get_min_compress_size(CompressionAlgorithm::Brotli), 1024);
}

#[test]
fn should_compress_thresholds() {
    assert!(!should_compress(usize::MAX, CompressionAlgorithm::NoCompression));
    assert!(!should_compress(255, CompressionAlgorithm::Lz4));
    assert!(should_compress(256, CompressionAlgorithm::Lz4));
    assert!(!should_compress(511, CompressionAlgorithm::Gzip));
    assert!(should_compress(512, CompressionAlgorithm::Gzip));
    assert!(should_compress(512, CompressionAlgorithm::Zstd));
    assert!(!should_compress(1023, CompressionAlgorithm::Brotli));
    assert!(should_compress(1024, CompressionAlgorithm::Brotli));
    assert!(!should_compress(0, CompressionAlgorithm::Gzip));
}

#[test]
fn algorithm_names_and_default() {
    let names: Vec<String> = ALL.iter().map(|a| a.to_string()).collect();
    assert_eq!(names, vec!["none", "gzip", "zstd", "lz4", "brotli"]);
    assert_eq!(CompressionAlgorithm::default(), CompressionAlgorithm::NoCompression);
    assert_eq!(CompressionLevel::default(), CompressionLevel::Default);
}

#[test]
fn small_payloads_pass_through_unchanged() {
    for a in ALL {
        let data = sample(100);
        assert_eq!(compress_data(&data, a, CompressionLevel::Default).unwrap(), data);
    }
}

#[test]
fn compression_roundtrip_every_algorithm() {
    let data = sample(4096);
    for a in ALL {
        for level in [CompressionLevel::Fastest, CompressionLevel::Best, CompressionLevel::Default, CompressionLevel::Precise(3)] {
            let c = compress_data(&data, a, level).unwrap();
            if a != CompressionAlgorithm::NoCompression {
                assert_ne!(c, data, "{:?} should change the payload", a);
                assert!(c.len() < data.len());
            }
            assert_eq!(decompress_data(&c, a).unwrap(), data);
        }
    }
}

#[test]
fn compression_off_decompresses_to_itself() {
    let data = sample(10);
    assert_eq!(decompress_data(&data, CompressionAlgorithm::NoCompression).unwrap(), data);
}

#[test]
fn decompressing_garbage_fails() {
    let garbage = vec![1u8, 2, 3, 4, 5, 6, 7, 8, 9, 10];
    for a in [CompressionAlgorithm::Gzip, CompressionAlgorithm::Zstd, CompressionAlgorithm::Lz4, CompressionAlgorithm::Brotli] {
        assert!(decompress_data(&garbage, a).is_err(), "{:?}", a);
    }
}

#[test]
fn same_input_compresses_the_same() {
    let data = sample(2048);
    let a = compress_data(&data, CompressionAlgorithm::Zstd, CompressionLevel::Default).unwrap();
    let b = compress_data(&data, CompressionAlgorithm::Zstd, CompressionLevel::Default).unwrap();
    assert_eq!(a, b);
}
