use codec_bench::bench::{bench_slice, bench_vec_backing, sample, SerDeBench, SliceSerDeBench};
use codec_bench::bincode_bencher::BincodeBench;
use codec_bench::corpus::load;
use codec_bench::error::{BenchError, CodecFailure};
use codec_bench::model::{Element, EyeColor};
use codec_bench::serde_bencher::SerdeBench;
use codec_bench::stats::{DeStats, RunInfo, SerStats};
use std::collections::HashMap;

/// A codec whose encoding of any byte is that byte ten times.
struct TenBytes;

impl SerDeBench<u8> for TenBytes {
    fn ser(i: &u8, w: &mut Vec<u8>) -> Result<(), CodecFailure> {
        for _ in 0..10 {
            w.push(*i);
        }
        Ok(())
    }

    fn de(r: &[u8]) -> Result<u8, CodecFailure> {
        if r.len() < 10 {
            Err(CodecFailure::Rejected)
        } else {
            Ok(r[0])
        }
    }
}

impl SliceSerDeBench<u8> for TenBytes {
    fn ser_vec(i: &u8) -> Result<Vec<u8>, CodecFailure> {
        Ok(vec![*i; 10])
    }

    fn de_slice(r: &[u8]) -> Result<u8, CodecFailure> {
        Self::de(r)
    }
}

/// A codec that cannot write.
struct Mute;

impl SliceSerDeBench<u8> for Mute {
    fn ser_vec(_: &u8) -> Result<Vec<u8>, CodecFailure> {
        Err(CodecFailure::Rejected)
    }

    fn de_slice(_: &[u8]) -> Result<u8, CodecFailure> {
        Ok(0)
    }
}

/// A codec that writes and cannot read.
struct Deaf;

impl SerDeBench<u8> for Deaf {
    fn ser(i: &u8, w: &mut Vec<u8>) -> Result<(), CodecFailure> {
        w.push(*i);
        Ok(())
    }

    fn de(_: &[u8]) -> Result<u8, CodecFailure> {
        Err(CodecFailure::BadFrame)
    }
}

fn info(iterations: u64) -> RunInfo {
    RunInfo { strategy: "ten", version: "1", output: "vec", debug: true, iterations }
}

fn record(index: usize) -> Element {
    let mut name = HashMap::new();
    name.insert("first".to_string(), "Grace".to_string());
    name.insert("last".to_string(), "Hopper".to_string());
    Element {
        _id: format!("id-{}", index),
        index,
        isActive: true,
        balance: "$0.00".to_string(),
        picture: String::new(),
        age: 37,
        eyeColor: EyeColor::blue,
        name,
        company: "Navy".to_string(),
        email: "grace@navy.example".to_string(),
        phone: String::new(),
        address: String::new(),
        about: "compilers".to_string(),
        registered: String::new(),
        latitude: "0".to_string(),
        longitude: "0".to_string(),
        tags: vec!["cobol".to_string()],
        greeting: "Hello".to_string(),
        favoriteFruit: "banana".to_string(),
    }
}

fn check_full(ser: &SerStats, de: &DeStats, info: RunInfo, size: u64) {
    let n = info.iterations;
    assert_eq!(ser.info, info);
    assert_eq!(de.info, info);
    assert_eq!(ser.size, size);
    assert_eq!(ser.total_bytes, size as u128 * n as u128);
    assert_eq!(de.total_bytes, size as u128 * n as u128);
    for (total, avg, spread) in [(ser.total_ns, ser.avg_ns, &ser.spread), (de.total_ns, de.avg_ns, &de.spread)] {
        let spread = spread.as_ref().unwrap();
        assert_eq!(spread.runs.len() as u64, n);
        assert_eq!(total, spread.runs.iter().map(|r| *r as u128).sum::<u128>());
        assert_eq!(avg as u128, total / n as u128);
        assert!(avg as u128 * n as u128 <= total);
        assert!(total < avg as u128 * n as u128 + n as u128);
        assert_eq!(spread.min_ns, *spread.runs.iter().min().unwrap());
        assert_eq!(spread.max_ns, *spread.runs.iter().max().unwrap());
        assert!(spread.runs.iter().all(|r| spread.min_ns <= *r && *r <= spread.max_ns));
    }
}

#[test]
fn reuse_variant_reports_final_length_times_iterations() {
    let (ser, de) = bench_vec_backing::<TenBytes, u8>(&7, info(3)).unwrap();
    assert_eq!(ser.size, 30);
    assert_eq!(ser.total_bytes, 90);
    assert_eq!(de.total_bytes, 90);
    assert_eq!(ser.info, info(3));
    assert_eq!(de.info, info(3));
}

#[test]
fn reuse_variant_keeps_aggregates_only() {
    let (ser, de) = bench_vec_backing::<TenBytes, u8>(&7, info(4)).unwrap();
    assert_eq!(ser.spread, None);
    assert_eq!(de.spread, None);
    assert_eq!(ser.avg_ns as u128, ser.total_ns / 4);
    assert_eq!(de.avg_ns as u128, de.total_ns / 4);
}

#[test]
fn reuse_variant_appends_with_a_real_codec() {
    let data = vec![record(0)];
    let one = <BincodeBench as SliceSerDeBench<Vec<Element>>>::ser_vec(&data).unwrap().len() as u64;
    let (ser, de) = bench_vec_backing::<BincodeBench, Vec<Element>>(&data, info(3)).unwrap();
    assert_eq!(ser.size, 3 * one);
    assert_eq!(ser.total_bytes, 9 * one as u128);
    assert_eq!(de.total_bytes, 9 * one as u128);
}

#[test]
fn fresh_variant_retains_one_measurement_per_iteration() {
    for n in [1u64, 2, 17] {
        let (ser, de) = bench_slice::<TenBytes, u8>(&7, info(n)).unwrap();
        check_full(&ser, &de, info(n), 10);
    }
}

#[test]
fn fresh_variant_with_both_codecs() {
    let corpus = vec![record(0), record(1), record(2)];
    let data = load(&corpus, 50);
    let little = <BincodeBench as SliceSerDeBench<Vec<Element>>>::ser_vec(&data).unwrap().len() as u64;
    let (ser, de) = bench_slice::<BincodeBench, Vec<Element>>(&data, info(5)).unwrap();
    check_full(&ser, &de, info(5), little);
    let native = SerdeBench::ser_vec(&data).unwrap().len() as u64;
    let (ser, de) = bench_slice::<SerdeBench, Vec<Element>>(&data, info(5)).unwrap();
    check_full(&ser, &de, info(5), native);
}

#[test]
fn zero_iterations_are_rejected() {
    assert_eq!(bench_vec_backing::<TenBytes, u8>(&7, info(0)), Err(BenchError::ZeroIterations));
    assert_eq!(bench_slice::<TenBytes, u8>(&7, info(0)), Err(BenchError::ZeroIterations));
    assert_eq!(bench_slice::<Mute, u8>(&7, info(0)), Err(BenchError::ZeroIterations));
}

#[test]
fn a_failing_codec_ends_the_run() {
    assert_eq!(bench_slice::<Mute, u8>(&7, info(3)), Err(BenchError::Codec(CodecFailure::Rejected)));
    assert_eq!(
        bench_vec_backing::<Deaf, u8>(&7, info(3)),
        Err(BenchError::Codec(CodecFailure::BadFrame))
    );
}

#[test]
fn what_a_timed_call_comes_to() {
    assert_eq!(sample((Some(12), Ok::<u8, CodecFailure>(3))), Ok((12, 3)));
    assert_eq!(sample((None, Ok::<u8, CodecFailure>(3))), Err(BenchError::ElapsedOutOfRange));
    assert_eq!(
        sample::<u8>((Some(12), Err(CodecFailure::BadField))),
        Err(BenchError::Codec(CodecFailure::BadField))
    );
    assert_eq!(
        sample::<u8>((None, Err(CodecFailure::Rejected))),
        Err(BenchError::Codec(CodecFailure::Rejected))
    );
}
