//! The adapter for serde-bench, which offers the slice capability only.

use crate::bench::SliceSerDeBench;
use crate::error::CodecFailure;
use crate::frame::appended;
use crate::frame::framed;
use crate::frame::is_framed;
use crate::frame::native_is_big;
use crate::frame::WordOrder;
use crate::model::Dataset;
use crate::model::ElementView;
use crate::wire::dataset_from_rows;
use crate::wire::lemma_rows_round_trip;
use crate::wire::outcome_view;
use crate::wire::reading;
use crate::wire::row_refs;
use crate::wire::row_refs_view;
use crate::wire::rows_of;
use crate::wire::rows_view;
use crate::wire::Row;
use crate::wire::RowRef;
use crate::wire::RowView;
use serde_bench::Error;
use vstd::prelude::*;

verus! {

/// The error of serde-bench. Nothing is known of what it holds.
#[verifier::external_type_specification]
#[verifier::external_body]
pub struct ExError(Error);

/// `serde_bench::serialize`, which writes to a vector. It only ever appends
/// to the vector: what the vector held stays at its start. The call
/// succeeds: serde-bench has no error of its own on writing, it only passes
/// on those of the sink, and a vector reports none; a `Vec` and a `HashMap`
/// always tell their length, which it asks for. What it has appended is one
/// whole dataset, every length word with what it announces, in the byte
/// order of the machine, and from those bytes `serde_bench::deserialize`
/// makes the rows that were written: its reader takes each field as the
/// writer put it. The bytes themselves are not claimed, since the order in
/// which a map's entries are written is not fixed.
#[verifier::external_body]
fn serialize(sink: &mut Vec<u8>, rows: &Vec<RowRef>) -> (res: Result<(), Error>)
    ensures
        old(sink)@.is_prefix_of(final(sink)@),
        res is Ok,
        framed(appended(old(sink)@, final(sink)@), WordOrder::Native),
        serde_bench_rows(appended(old(sink)@, final(sink)@), native_is_big()) == Some(
            row_refs_view(rows@),
        ),
{
    serde_bench::serialize(sink, rows)
}

/// The rows that `serde_bench::deserialize` makes of `bytes` on a machine
/// that puts the most significant byte first (`big_endian`) or last, or `None`
/// where it reports an error.
pub uninterp spec fn serde_bench_rows(bytes: Seq<u8>, big_endian: bool) -> Option<Seq<RowView>>;

/// `serde_bench::deserialize`. It cuts a text out of the bytes by its length
/// without looking whether the bytes reach that far, which fails hard where
/// they do not: only bytes whose lengths all lie within them are admitted.
/// It reads integers in the byte order of the machine; what it returns
/// depends on the bytes and on that order, and on nothing else, so it has a
/// name that takes both.
#[verifier::external_body]
fn deserialize(bytes: &[u8]) -> (res: Result<Vec<Row>, Error>)
    requires
        framed(bytes@, WordOrder::Native),
    ensures
        serde_bench_rows(bytes@, native_is_big()) == match res {
            Ok(rows) => Some(rows_view(rows@)),
            Err(_) => None,
        },
{
    serde_bench::deserialize(bytes)
}

/// The adapter that encodes a dataset with serde-bench: integers of fixed
/// width in the byte order of the machine.
#[derive(Debug)]
pub struct SerdeBench;

impl SliceSerDeBench<Dataset> for SerdeBench {
    /// The encoded dataset in a buffer of its own. The call succeeds, and
    /// the bytes are an encoded form of `i`: they are framed, and the codec's
    /// reader makes the rows of `i` of them, so that
    /// [`de_slice`](SliceSerDeBench::de_slice) on them gives `i` back.
    fn ser_vec(i: &Dataset) -> (res: Result<Vec<u8>, CodecFailure>)
        ensures
            res is Ok,
            res matches Ok(bytes) ==> {
                &&& framed(bytes@, WordOrder::Native)
                &&& serde_bench_rows(bytes@, native_is_big()) == Some(rows_of(i.deep_view()))
            },
    {
        let rows = row_refs(i);
        let mut out: Vec<u8> = Vec::new();
        match serialize(&mut out, &rows) {
            Ok(()) => {
                assert(appended(Seq::<u8>::empty(), out@) =~= out@);
                Ok(out)
            },
            Err(_) => Err(CodecFailure::Rejected),
        }
    }

    /// Reads a dataset from the start of `r`: `BadFrame` where `r` is not
    /// framed, else `Rejected` where the codec reports an error, else
    /// `BadField` where a row stands for no record, else the dataset that the
    /// codec's rows stand for.
    fn de_slice(r: &[u8]) -> (res: Result<Dataset, CodecFailure>)
        ensures
            outcome_view(res) == reading(
                framed(r@, WordOrder::Native),
                serde_bench_rows(r@, native_is_big()),
            ),
    {
        if !is_framed(r, WordOrder::Native) {
            return Err(CodecFailure::BadFrame);
        }
        match deserialize(r) {
            Ok(rows) => dataset_from_rows(rows),
            Err(_) => Err(CodecFailure::Rejected),
        }
    }
}

/// Round trip: bytes that `ser_vec` returned for a dataset are read by
/// `de_slice` as that dataset.
pub proof fn lemma_round_trip(data: Seq<ElementView>, bytes: Seq<u8>)
    requires
        framed(bytes, WordOrder::Native),
        serde_bench_rows(bytes, native_is_big()) == Some(rows_of(data)),
    ensures
        reading(
            framed(bytes, WordOrder::Native),
            serde_bench_rows(bytes, native_is_big()),
        ) == Ok::<Seq<ElementView>, CodecFailure>(data),
{
    lemma_rows_round_trip(data);
}

} // verus!
