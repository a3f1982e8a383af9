//! The adapter for bincode, which offers both capabilities.

use crate::bench::SerDeBench;
use crate::bench::SliceSerDeBench;
use crate::error::CodecFailure;
use crate::frame::appended;
use crate::frame::framed;
use crate::frame::is_framed;
use crate::frame::lemma_framed_extends;
use crate::frame::WordOrder;
use crate::model::Dataset;
use crate::model::ElementView;
use crate::wire::dataset_from_rows;
use crate::wire::lemma_rows_round_trip;
use crate::wire::outcome_view;
use crate::wire::reading;
use crate::wire::row_refs;
use crate::wire::row_refs_view;
use crate::wire::rows_of;
use crate::wire::rows_view;
use crate::wire::Row;
use crate::wire::RowRef;
use crate::wire::RowView;
use bincode::ErrorKind;
use bincode::Infinite;
use vstd::prelude::*;

verus! {

/// The error of bincode. Nothing is known of what it holds.
#[verifier::external_type_specification]
#[verifier::external_body]
pub struct ExErrorKind(ErrorKind);

/// The rows that `bincode::deserialize` makes of `bytes`, or `None` where it
/// reports an error.
pub uninterp spec fn bincode_rows(bytes: Seq<u8>) -> Option<Seq<RowView>>;

/// The rows that `bincode::deserialize_from` makes of a source that holds
/// `bytes`, read without a size limit, or `None` where it reports an error.
pub uninterp spec fn bincode_stream_rows(bytes: Seq<u8>) -> Option<Seq<RowView>>;

/// `bincode::serialize` without a size limit. The call succeeds: without a
/// limit no size is tested, the only error of bincode's own is for a
/// collection that cannot tell its length, which a `Vec` and a `HashMap`
/// always can, and the vector that is written to reports no write error.
/// bincode is an encoder and a decoder that belong together: from the bytes
/// that this call returns, `bincode::deserialize` makes the rows that were
/// written. The bytes themselves are not claimed, since the order in which a
/// map's entries are written is not fixed.
#[verifier::external_body]
fn serialize(rows: &Vec<RowRef>) -> (res: Result<Vec<u8>, Box<ErrorKind>>)
    ensures
        res is Ok,
        res matches Ok(bytes) ==> bincode_rows(bytes@) == Some(row_refs_view(rows@)),
{
    bincode::serialize(rows, Infinite)
}

/// `bincode::serialize_into` without a size limit, writing to a vector. It
/// only ever appends to the vector: what the vector held stays at its start.
/// The call succeeds, for the reasons given for `serialize`. What it has
/// appended is one whole dataset, every length word with what it announces.
/// From those bytes `bincode::deserialize_from` makes the rows that were
/// written, and so it does whatever follows them: its reader takes the bytes
/// that it asks for and leaves the others alone.
#[verifier::external_body]
fn serialize_into(sink: &mut Vec<u8>, rows: &Vec<RowRef>) -> (res: Result<(), Box<ErrorKind>>)
    ensures
        old(sink)@.is_prefix_of(final(sink)@),
        res is Ok,
        framed(appended(old(sink)@, final(sink)@), WordOrder::Little),
        forall|rest: Seq<u8>| #[trigger]
            bincode_stream_rows(appended(old(sink)@, final(sink)@) + rest) == Some(
                row_refs_view(rows@),
            ),
{
    bincode::serialize_into(sink, rows, Infinite)
}

/// `bincode::deserialize`. What it returns depends on the bytes alone, so it
/// has a name. Its slice reader refuses a length that passes the end of the
/// bytes, so every input is admitted.
#[verifier::external_body]
fn deserialize(bytes: &[u8]) -> (res: Result<Vec<Row>, Box<ErrorKind>>)
    ensures
        bincode_rows(bytes@) == match res {
            Ok(rows) => Some(rows_view(rows@)),
            Err(_) => None,
        },
{
    bincode::deserialize(bytes)
}

/// `bincode::deserialize_from` without a size limit, reading from a slice.
/// What it returns depends on the bytes alone, so it has a name. Its reader
/// makes room for a text before it looks for the bytes, which fails hard on a
/// length beyond what memory can address: only bytes whose lengths all lie
/// within them are admitted.
#[verifier::external_body]
fn deserialize_from(bytes: &[u8]) -> (res: Result<Vec<Row>, Box<ErrorKind>>)
    requires
        framed(bytes@, WordOrder::Little),
    ensures
        bincode_stream_rows(bytes@) == match res {
            Ok(rows) => Some(rows_view(rows@)),
            Err(_) => None,
        },
{
    let mut source = bytes;
    bincode::deserialize_from(&mut source, Infinite)
}

/// The adapter that encodes a dataset with bincode: integers of fixed width,
/// least significant byte first.
#[derive(Debug)]
pub struct BincodeBench;

impl SerDeBench<Dataset> for BincodeBench {
    /// Appends the encoded dataset to `w`, and succeeds. What `w` held stays
    /// at its start. What `w` has gained is an encoded form of `i`: it is
    /// framed, and the codec's stream reader makes the rows of `i` of it,
    /// whatever follows it, so that [`de`](SerDeBench::de) gives `i` back
    /// from those bytes and from any buffer that starts with them.
    fn ser(i: &Dataset, w: &mut Vec<u8>) -> (res: Result<(), CodecFailure>)
        ensures
            res is Ok,
            old(w)@.is_prefix_of(final(w)@),
            framed(appended(old(w)@, final(w)@), WordOrder::Little),
            bincode_stream_rows(appended(old(w)@, final(w)@)) == Some(rows_of(i.deep_view())),
            forall|rest: Seq<u8>| #[trigger]
                bincode_stream_rows(appended(old(w)@, final(w)@) + rest) == Some(
                    rows_of(i.deep_view()),
                ),
    {
        let rows = row_refs(i);
        let res = match serialize_into(w, &rows) {
            Ok(()) => Ok(()),
            Err(_) => Err(CodecFailure::Rejected),
        };
        proof {
            let gained = appended(old(w)@, w@);
            assert(gained + Seq::<u8>::empty() =~= gained);
        }
        res
    }

    /// Reads a dataset from the start of `r`: `BadFrame` where `r` is not
    /// framed, else `Rejected` where the codec reports an error, else
    /// `BadField` where a row stands for no record, else the dataset that the
    /// codec's rows stand for.
    fn de(r: &[u8]) -> (res: Result<Dataset, CodecFailure>)
        ensures
            outcome_view(res) == reading(
                framed(r@, WordOrder::Little),
                bincode_stream_rows(r@),
            ),
    {
        if !is_framed(r, WordOrder::Little) {
            return Err(CodecFailure::BadFrame);
        }
        match deserialize_from(r) {
            Ok(rows) => dataset_from_rows(rows),
            Err(_) => Err(CodecFailure::Rejected),
        }
    }
}

impl SliceSerDeBench<Dataset> for BincodeBench {
    /// The encoded dataset in a buffer of its own. The call succeeds, and
    /// the bytes are an encoded form of `i`: the codec's slice reader makes
    /// the rows of `i` of them, so that
    /// [`de_slice`](SliceSerDeBench::de_slice) on them gives `i` back.
    fn ser_vec(i: &Dataset) -> (res: Result<Vec<u8>, CodecFailure>)
        ensures
            res is Ok,
            res matches Ok(bytes) ==> bincode_rows(bytes@) == Some(rows_of(i.deep_view())),
    {
        let rows = row_refs(i);
        match serialize(&rows) {
            Ok(bytes) => Ok(bytes),
            Err(_) => Err(CodecFailure::Rejected),
        }
    }

    /// Reads a dataset from the start of `r`: `Rejected` where the codec
    /// reports an error, else `BadField` where a row stands for no record,
    /// else the dataset that the codec's rows stand for.
    fn de_slice(r: &[u8]) -> (res: Result<Dataset, CodecFailure>)
        ensures
            outcome_view(res) == reading(true, bincode_rows(r@)),
    {
        match deserialize(r) {
            Ok(rows) => dataset_from_rows(rows),
            Err(_) => Err(CodecFailure::Rejected),
        }
    }
}

/// Round trip of the slice capability: bytes that `ser_vec` returned for a
/// dataset are read by `de_slice` as that dataset.
pub proof fn lemma_slice_round_trip(data: Seq<ElementView>, bytes: Seq<u8>)
    requires
        bincode_rows(bytes) == Some(rows_of(data)),
    ensures
        reading(true, bincode_rows(bytes)) == Ok::<Seq<ElementView>, CodecFailure>(data),
{
    lemma_rows_round_trip(data);
}

/// Round trip of the stream capability: bytes that `ser` appended for a
/// dataset are read by `de` as that dataset, also where more bytes follow
/// them, as in a buffer that has been written to several times.
pub proof fn lemma_stream_round_trip(data: Seq<ElementView>, bytes: Seq<u8>, rest: Seq<u8>)
    requires
        framed(bytes, WordOrder::Little),
        bincode_stream_rows(bytes + rest) == Some(rows_of(data)),
    ensures
        reading(framed(bytes + rest, WordOrder::Little), bincode_stream_rows(bytes + rest))
            == Ok::<Seq<ElementView>, CodecFailure>(data),
{
    lemma_framed_extends(bytes, rest, WordOrder::Little);
    lemma_rows_round_trip(data);
}

} // verus!
