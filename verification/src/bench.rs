//! The benchmark runners: a number of timed serializations of a dataset,
//! then as many timed deserializations of the bytes they left behind.

use crate::error::BenchError;
use crate::error::CodecFailure;
use crate::stats::DeStats;
use crate::stats::RunInfo;
use crate::stats::SerStats;
use crate::stats::Tally;
use crate::timing::duration_ns;
use vstd::prelude::*;

verus! {

/// A codec that writes into a growable byte sink and reads from a byte
/// source.
pub trait SerDeBench<T> {
    /// Appends an encoded form of `i` to `w`.
    fn ser(i: &T, w: &mut Vec<u8>) -> Result<(), CodecFailure>;

    /// Reads one full value from the start of `r`.
    fn de(r: &[u8]) -> Result<T, CodecFailure>;
}

/// A codec that serializes to an owned buffer and reads from a borrowed
/// slice.
pub trait SliceSerDeBench<T> {
    /// The encoded form of `i` in a buffer of its own.
    fn ser_vec(i: &T) -> Result<Vec<u8>, CodecFailure>;

    /// Reads one full value from the start of `r`.
    fn de_slice(r: &[u8]) -> Result<T, CodecFailure>;
}

/// What one timed call came to: the measurement, or the reason the run
/// stops here.
pub fn sample<R>(timed: (Option<u64>, Result<R, CodecFailure>)) -> (res: Result<(u64, R), BenchError>)
    ensures
        res == match timed {
            (_, Err(failure)) => Err::<(u64, R), BenchError>(BenchError::Codec(failure)),
            (None, Ok(_)) => Err(BenchError::ElapsedOutOfRange),
            (Some(nanos), Ok(value)) => Ok((nanos, value)),
        },
{
    match timed {
        (_, Err(failure)) => Err(BenchError::Codec(failure)),
        (None, Ok(_)) => Err(BenchError::ElapsedOutOfRange),
        (Some(nanos), Ok(value)) => Ok((nanos, value)),
    }
}

/// Benchmarks the slice capability of `B` on `t`, with a fresh buffer for
/// every serialization.
///
/// After one untimed serialization, `info.iterations` timed ones follow, each
/// into a buffer of its own; the last buffer is the serialized form. After one
/// untimed deserialization of it, as many timed ones follow. Both phases
/// retain every measurement.
///
/// A run of zero iterations is refused before any work is done. A run that
/// succeeds hands back, for each phase, one measurement per iteration with
/// their sum, truncated average and extremes; the size reported is the
/// length of a buffer that the codec returned for `t` and read back. A codec
/// failure passed on is one that the codec returned, for `t` or for such a
/// buffer.
pub fn bench_slice<B: SliceSerDeBench<T>, T>(t: &T, info: RunInfo) -> (res: Result<
    (SerStats, DeStats),
    BenchError,
>)
    ensures
        info.iterations == 0 <==> res matches Err(BenchError::ZeroIterations),
        !(res matches Err(BenchError::Incomplete)),
        res matches Ok((ser, de)) ==> {
            &&& ser.spread matches Some(s) && s.runs@.len() == info.iterations && ser.summarizes(
                info,
                s.runs@,
                ser.size,
                true,
            )
            &&& de.spread matches Some(s) && s.runs@.len() == info.iterations && de.summarizes(
                info,
                s.runs@,
                ser.size,
                true,
            )
            &&& exists|buffer: Vec<u8>, bytes: &[u8], read: T|
                {
                    &&& #[trigger] call_ensures(B::ser_vec, (t,), Ok(buffer))
                    &&& buffer@.len() == ser.size
                    &&& bytes@ == buffer@
                    &&& #[trigger] call_ensures(B::de_slice, (bytes,), Ok(read))
                }
        },
        res matches Err(BenchError::Codec(failure)) ==> {
            ||| call_ensures(B::ser_vec, (t,), Err(failure))
            ||| exists|buffer: Vec<u8>, bytes: &[u8]|
                {
                    &&& #[trigger] call_ensures(B::ser_vec, (t,), Ok(buffer))
                    &&& bytes@ == buffer@
                    &&& #[trigger] call_ensures(B::de_slice, (bytes,), Err(failure))
                }
        },
{
    if info.iterations == 0 {
        return Err(BenchError::ZeroIterations);
    }
    let mut out: Vec<u8> = match B::ser_vec(t) {
        Ok(warm) => warm,
        Err(failure) => {
            return Err(BenchError::Codec(failure));
        },
    };
    let mut tally = Tally::new(true);
    let mut i: u64 = 0;
    while i < info.iterations
        invariant
            i <= info.iterations,
            tally.wf(),
            tally.keeps_runs(),
            tally.seen().len() == i,
            call_ensures(B::ser_vec, (t,), Ok(out)),
        decreases info.iterations - i,
    {
        let work = || -> (r: Result<Vec<u8>, CodecFailure>)
            ensures
                call_ensures(B::ser_vec, (t,), r),
            { B::ser_vec(t) };
        let timed = duration_ns(work);
        match sample(timed) {
            Ok((nanos, buffer)) => {
                out = buffer;
                tally.record(nanos);
            },
            Err(e) => {
                return Err(e);
            },
        }
        i = i + 1;
    }
    let size = out.len() as u64;
    let ser_stats = match SerStats::new(info, size, tally) {
        Ok(stats) => stats,
        Err(e) => {
            return Err(e);
        },
    };

    let bytes = out.as_slice();
    let ghost read: T;
    match B::de_slice(bytes) {
        Ok(value) => {
            proof {
                read = value;
            }
        },
        Err(failure) => {
            return Err(BenchError::Codec(failure));
        },
    }
    let mut tally = Tally::new(true);
    let mut i: u64 = 0;
    while i < info.iterations
        invariant
            i <= info.iterations,
            tally.wf(),
            tally.keeps_runs(),
            tally.seen().len() == i,
            bytes@ == out@,
            call_ensures(B::ser_vec, (t,), Ok(out)),
            call_ensures(B::de_slice, (bytes,), Ok(read)),
        decreases info.iterations - i,
    {
        let work = || -> (r: Result<T, CodecFailure>)
            ensures
                call_ensures(B::de_slice, (bytes,), r),
            { B::de_slice(bytes) };
        let timed = duration_ns(work);
        match sample(timed) {
            Ok((nanos, _)) => {
                tally.record(nanos);
            },
            Err(e) => {
                return Err(e);
            },
        }
        i = i + 1;
    }
    let de_stats = match DeStats::new(info, size, tally) {
        Ok(stats) => stats,
        Err(e) => {
            return Err(e);
        },
    };
    Ok((ser_stats, de_stats))
}

/// Benchmarks the stream capability of `B` on `t`, with one buffer for the
/// whole run.
///
/// One untimed serialization brings the buffer to its working capacity; it is
/// then emptied, and `info.iterations` timed serializations follow, each into
/// the same buffer, which nothing empties in between. After one untimed
/// deserialization from that buffer, as many timed ones follow, each from its
/// start. Both phases keep the aggregates and drop the single measurements.
/// The byte volume of each phase is the final length of the buffer times the
/// number of iterations.
///
/// The contract follows the buffer: `buffers` holds what it held before the
/// first timed serialization, which is nothing, and after each one; every
/// serialization found what the one before had left, and the size reported is
/// the length of what the last one left.
pub fn bench_vec_backing<B: SerDeBench<T>, T>(t: &T, info: RunInfo) -> (res: Result<
    (SerStats, DeStats),
    BenchError,
>)
    ensures
        info.iterations == 0 <==> res matches Err(BenchError::ZeroIterations),
        !(res matches Err(BenchError::Incomplete)),
        res matches Ok((ser, de)) ==> {
            &&& exists|seen: Seq<u64>| #[trigger] ser.summarizes(info, seen, ser.size, false)
            &&& exists|seen: Seq<u64>| #[trigger] de.summarizes(info, seen, ser.size, false)
            &&& exists|buffers: Seq<Vec<u8>>|
                {
                    &&& buffers.len() == info.iterations + 1
                    &&& buffers[0]@.len() == 0
                    &&& #[trigger] buffers[info.iterations as int]@.len() == ser.size
                    &&& exists|bytes: &[u8], read: T|
                        bytes@ == buffers[info.iterations as int]@ && #[trigger] call_ensures(
                            B::de,
                            (bytes,),
                            Ok(read),
                        )
                    &&& forall|k: int|
                        #![trigger buffers[k]]
                        0 <= k < info.iterations ==> exists|
                            w: &mut Vec<u8>,
                            done: Result<(), CodecFailure>,
                        |
                            #![trigger call_ensures(B::ser, (t, w), done)]
                            {
                                &&& *w == buffers[k]
                                &&& *final(w) == buffers[k + 1]
                                &&& done is Ok
                                &&& call_ensures(B::ser, (t, w), done)
                            }
                }
        },
        res matches Err(BenchError::Codec(failure)) ==> {
            ||| exists|w: &mut Vec<u8>, done: Result<(), CodecFailure>|
                done == Err::<(), CodecFailure>(failure) && #[trigger] call_ensures(
                    B::ser,
                    (t, w),
                    done,
                )
            ||| exists|bytes: &[u8]| #[trigger] call_ensures(B::de, (bytes,), Err(failure))
        },
{
    if info.iterations == 0 {
        return Err(BenchError::ZeroIterations);
    }
    let mut out: Vec<u8> = Vec::new();
    match B::ser(t, &mut out) {
        Ok(()) => {},
        Err(failure) => {
            return Err(BenchError::Codec(failure));
        },
    }
    out.clear();
    let ghost mut buffers: Seq<Vec<u8>> = seq![out];
    let mut tally = Tally::new(false);
    let mut i: u64 = 0;
    while i < info.iterations
        invariant
            i <= info.iterations,
            tally.wf(),
            !tally.keeps_runs(),
            tally.seen().len() == i,
            buffers.len() == i + 1,
            buffers[0]@.len() == 0,
            buffers[i as int] == out,
            forall|k: int|
                #![trigger buffers[k]]
                0 <= k < i ==> exists|w: &mut Vec<u8>, done: Result<(), CodecFailure>|
                    #![trigger call_ensures(B::ser, (t, w), done)]
                    {
                        &&& *w == buffers[k]
                        &&& *final(w) == buffers[k + 1]
                        &&& done is Ok
                        &&& call_ensures(B::ser, (t, w), done)
                    },
        decreases info.iterations - i,
    {
        let ghost before = out;
        let work = move || -> (r: Result<Vec<u8>, CodecFailure>)
            ensures
                exists|w: &mut Vec<u8>, done: Result<(), CodecFailure>|
                    #![trigger call_ensures(B::ser, (t, w), done)]
                    {
                        &&& *w == before
                        &&& call_ensures(B::ser, (t, w), done)
                        &&& match r {
                            Ok(sink) => done is Ok && *final(w) == sink,
                            Err(failure) => done == Err::<(), CodecFailure>(failure),
                        }
                    },
            {
                let mut sink = out;
                match B::ser(t, &mut sink) {
                    Ok(()) => Ok(sink),
                    Err(failure) => Err(failure),
                }
            };
        let timed = duration_ns(work);
        match sample(timed) {
            Ok((nanos, sink)) => {
                out = sink;
                tally.record(nanos);
            },
            Err(e) => {
                return Err(e);
            },
        }
        proof {
            let ghost earlier = buffers;
            buffers = buffers.push(out);
            assert forall|k: int| #![trigger buffers[k]] 0 <= k < i + 1 implies exists|
                w: &mut Vec<u8>,
                done: Result<(), CodecFailure>,
            |
                #![trigger call_ensures(B::ser, (t, w), done)]
                {
                    &&& *w == buffers[k]
                    &&& *final(w) == buffers[k + 1]
                    &&& done is Ok
                    &&& call_ensures(B::ser, (t, w), done)
                } by {
                if k < i {
                    assert(earlier[k] == buffers[k]);
                    assert(earlier[k + 1] == buffers[k + 1]);
                }
            }
        }
        i = i + 1;
    }
    let size = out.len() as u64;
    let ghost ser_seen = tally.seen();
    let ser_stats = match SerStats::new(info, size, tally) {
        Ok(stats) => stats,
        Err(e) => {
            return Err(e);
        },
    };
    assert(ser_stats.summarizes(info, ser_seen, size, false));

    let bytes = out.as_slice();
    let ghost read: T;
    match B::de(bytes) {
        Ok(value) => {
            proof {
                read = value;
            }
        },
        Err(failure) => {
            return Err(BenchError::Codec(failure));
        },
    }
    let mut tally = Tally::new(false);
    let mut i: u64 = 0;
    while i < info.iterations
        invariant
            i <= info.iterations,
            tally.wf(),
            !tally.keeps_runs(),
            tally.seen().len() == i,
        decreases info.iterations - i,
    {
        let work = || -> (r: Result<T, CodecFailure>)
            ensures
                call_ensures(B::de, (bytes,), r),
            { B::de(bytes) };
        let timed = duration_ns(work);
        match sample(timed) {
            Ok((nanos, _)) => {
                tally.record(nanos);
            },
            Err(e) => {
                return Err(e);
            },
        }
        i = i + 1;
    }
    let ghost de_seen = tally.seen();
    let de_stats = match DeStats::new(info, size, tally) {
        Ok(stats) => stats,
        Err(e) => {
            return Err(e);
        },
    };
    assert(de_stats.summarizes(info, de_seen, size, false));
    assert(buffers[info.iterations as int]@.len() == ser_stats.size);
    assert(call_ensures(B::de, (bytes,), Ok::<T, CodecFailure>(read)));
    Ok((ser_stats, de_stats))
}

} // verus!
