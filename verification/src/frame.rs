//! The framing of a dataset in bytes: where each field of each record starts
//! and ends, going by the length words that precede texts and collections.
//!
//! A dataset is a count word followed by that many records. A record is its
//! fields in order. A text is a length word followed by that many bytes; the
//! name parts are a count word followed by that many pairs of texts; the tags
//! are a count word followed by that many texts. The record index is one
//! word, the flag one byte, the age and the variant index four bytes each.
//! A word is eight bytes. Nothing here looks at what the bytes of a text or
//! of a fixed field hold.

use vstd::endian::endianness;
use vstd::endian::Endian;
use vstd::prelude::*;

verus! {

/// The byte order in which length and count words are written.
#[derive(Debug, Clone, Copy, PartialEq, Eq, Structural)]
pub enum WordOrder {
    /// Least significant byte first.
    Little,
    /// The order of the machine that runs the program.
    Native,
}

/// The number that eight bytes hold with the least significant byte first.
pub open spec fn little_value(w: Seq<u8>) -> int {
    w[0] + w[1] * 0x100 + w[2] * 0x1_0000 + w[3] * 0x100_0000 + w[4] * 0x1_0000_0000 + w[5]
        * 0x100_0000_0000 + w[6] * 0x1_0000_0000_0000 + w[7] * 0x100_0000_0000_0000
}

/// The number that eight bytes hold with the most significant byte first.
pub open spec fn big_value(w: Seq<u8>) -> int {
    w[7] + w[6] * 0x100 + w[5] * 0x1_0000 + w[4] * 0x100_0000 + w[3] * 0x1_0000_0000 + w[2]
        * 0x100_0000_0000 + w[1] * 0x1_0000_0000_0000 + w[0] * 0x100_0000_0000_0000
}

/// Whether the machine that runs the program puts the most significant byte
/// of a word first.
pub open spec fn native_is_big() -> bool {
    endianness() is Big
}

/// The number that eight bytes hold in the byte order of the machine.
pub open spec fn native_value(w: Seq<u8>) -> int {
    match endianness() {
        Endian::Little => little_value(w),
        Endian::Big => big_value(w),
    }
}

/// The number held by the word that starts at `at`.
pub open spec fn word(bytes: Seq<u8>, at: int, order: WordOrder) -> int {
    match order {
        WordOrder::Little => little_value(bytes.subrange(at, at + 8)),
        WordOrder::Native => native_value(bytes.subrange(at, at + 8)),
    }
}

/// The position `width` bytes after `at`, if the bytes reach that far.
pub open spec fn skip(bytes: Seq<u8>, at: int, width: int) -> Option<int> {
    if 0 <= at && 0 <= width && at + width <= bytes.len() {
        Some(at + width)
    } else {
        None
    }
}

/// The position after the text that starts at `at`.
pub open spec fn after_text(bytes: Seq<u8>, at: int, order: WordOrder) -> Option<int> {
    match skip(bytes, at, 8) {
        Some(body) => skip(bytes, body, word(bytes, at, order)),
        None => None,
    }
}

/// The position after `count` texts in a row, the first at `at`.
pub open spec fn after_texts(bytes: Seq<u8>, at: int, order: WordOrder, count: nat) -> Option<int>
    decreases count,
{
    if count == 0 {
        Some(at)
    } else {
        match after_text(bytes, at, order) {
            Some(next) => after_texts(bytes, next, order, (count - 1) as nat),
            None => None,
        }
    }
}

/// The position after `count` pairs of texts in a row, the first at `at`.
pub open spec fn after_pairs(bytes: Seq<u8>, at: int, order: WordOrder, count: nat) -> Option<int>
    decreases count,
{
    if count == 0 {
        Some(at)
    } else {
        match after_text(bytes, at, order) {
            Some(value) => match after_text(bytes, value, order) {
                Some(next) => after_pairs(bytes, next, order, (count - 1) as nat),
                None => None,
            },
            None => None,
        }
    }
}

/// The position after the list of texts that starts at `at`.
pub open spec fn after_list(bytes: Seq<u8>, at: int, order: WordOrder) -> Option<int> {
    match skip(bytes, at, 8) {
        Some(first) => after_texts(bytes, first, order, word(bytes, at, order) as nat),
        None => None,
    }
}

/// The position after the map of texts that starts at `at`.
pub open spec fn after_map(bytes: Seq<u8>, at: int, order: WordOrder) -> Option<int> {
    match skip(bytes, at, 8) {
        Some(first) => after_pairs(bytes, first, order, word(bytes, at, order) as nat),
        None => None,
    }
}

/// `skip` from a position that may already be lost.
pub open spec fn then_skip(bytes: Seq<u8>, at: Option<int>, width: int) -> Option<int> {
    match at {
        Some(at) => skip(bytes, at, width),
        None => None,
    }
}

/// `after_text` from a position that may already be lost.
pub open spec fn then_text(bytes: Seq<u8>, at: Option<int>, order: WordOrder) -> Option<int> {
    match at {
        Some(at) => after_text(bytes, at, order),
        None => None,
    }
}

/// `after_list` from a position that may already be lost.
pub open spec fn then_list(bytes: Seq<u8>, at: Option<int>, order: WordOrder) -> Option<int> {
    match at {
        Some(at) => after_list(bytes, at, order),
        None => None,
    }
}

/// `after_map` from a position that may already be lost.
pub open spec fn then_map(bytes: Seq<u8>, at: Option<int>, order: WordOrder) -> Option<int> {
    match at {
        Some(at) => after_map(bytes, at, order),
        None => None,
    }
}

/// The position after the record that starts at `at`.
pub open spec fn after_record(bytes: Seq<u8>, at: int, order: WordOrder) -> Option<int> {
    let id = after_text(bytes, at, order);
    let index = then_skip(bytes, id, 8);
    let is_active = then_skip(bytes, index, 1);
    let balance = then_text(bytes, is_active, order);
    let picture = then_text(bytes, balance, order);
    let age = then_skip(bytes, picture, 4);
    let eye_color = then_skip(bytes, age, 4);
    let name = then_map(bytes, eye_color, order);
    let company = then_text(bytes, name, order);
    let email = then_text(bytes, company, order);
    let phone = then_text(bytes, email, order);
    let address = then_text(bytes, phone, order);
    let about = then_text(bytes, address, order);
    let registered = then_text(bytes, about, order);
    let latitude = then_text(bytes, registered, order);
    let longitude = then_text(bytes, latitude, order);
    let tags = then_list(bytes, longitude, order);
    let greeting = then_text(bytes, tags, order);
    then_text(bytes, greeting, order)
}

/// The position after `count` records in a row, the first at `at`.
pub open spec fn after_records(bytes: Seq<u8>, at: int, order: WordOrder, count: nat) -> Option<
    int,
>
    decreases count,
{
    if count == 0 {
        Some(at)
    } else {
        match after_record(bytes, at, order) {
            Some(next) => after_records(bytes, next, order, (count - 1) as nat),
            None => None,
        }
    }
}

/// The position after the dataset that starts the bytes.
pub open spec fn after_dataset(bytes: Seq<u8>, order: WordOrder) -> Option<int> {
    match skip(bytes, 0, 8) {
        Some(first) => after_records(bytes, first, order, word(bytes, 0, order) as nat),
        None => None,
    }
}

/// The bytes start with a whole dataset: every length and count word lies
/// within the bytes, and so does everything that it announces.
#[verifier::opaque]
pub open spec fn framed(bytes: Seq<u8>, order: WordOrder) -> bool {
    after_dataset(bytes, order) is Some
}

/// What a sink that held `before` and now holds `after` has gained at its
/// end.
pub open spec fn appended(before: Seq<u8>, after: Seq<u8>) -> Seq<u8> {
    after.subrange(before.len() as int, after.len() as int)
}

/// An executable position as a mathematical one.
pub open spec fn at_int(at: Option<usize>) -> Option<int> {
    match at {
        Some(at) => Some(at as int),
        None => None,
    }
}

/// `u64::from_ne_bytes` of std: the number that eight bytes hold in the byte
/// order of the machine, as std documents it.
#[verifier::external_body]
fn native_word(w: [u8; 8]) -> (value: u64)
    ensures
        value == native_value(w@),
{
    u64::from_ne_bytes(w)
}

/// Reads the word that starts at `at`.
pub fn word_at(bytes: &[u8], at: usize, order: WordOrder) -> (value: u64)
    requires
        at + 8 <= bytes.len(),
    ensures
        value == word(bytes@, at as int, order),
{
    let ghost w = bytes@.subrange(at as int, at + 8);
    match order {
        WordOrder::Little => {
            let value = bytes[at] as u64 + bytes[at + 1] as u64 * 0x100 + bytes[at + 2] as u64
                * 0x1_0000 + bytes[at + 3] as u64 * 0x100_0000 + bytes[at + 4] as u64
                * 0x1_0000_0000 + bytes[at + 5] as u64 * 0x100_0000_0000 + bytes[at + 6] as u64
                * 0x1_0000_0000_0000 + bytes[at + 7] as u64 * 0x100_0000_0000_0000;
            assert(value == little_value(w));
            value
        },
        WordOrder::Native => {
            let array: [u8; 8] = [
                bytes[at],
                bytes[at + 1],
                bytes[at + 2],
                bytes[at + 3],
                bytes[at + 4],
                bytes[at + 5],
                bytes[at + 6],
                bytes[at + 7],
            ];
            assert(array@ =~= w);
            native_word(array)
        },
    }
}

/// The position `width` bytes after `at`, if the bytes reach that far.
pub fn skip_from(bytes: &[u8], at: Option<usize>, width: u64) -> (end: Option<usize>)
    ensures
        at_int(end) == then_skip(bytes@, at_int(at), width as int),
{
    match at {
        Some(at) => {
            if at <= bytes.len() && width <= (bytes.len() - at) as u64 {
                Some(at + width as usize)
            } else {
                None
            }
        },
        None => None,
    }
}

/// The position after the text that starts at `at`.
pub fn text_from(bytes: &[u8], at: Option<usize>, order: WordOrder) -> (end: Option<usize>)
    ensures
        at_int(end) == then_text(bytes@, at_int(at), order),
{
    match skip_from(bytes, at, 8) {
        Some(body) => skip_from(bytes, Some(body), word_at(bytes, body - 8, order)),
        None => None,
    }
}

/// The position after the list of texts that starts at `at`.
pub fn list_from(bytes: &[u8], at: Option<usize>, order: WordOrder) -> (end: Option<usize>)
    ensures
        at_int(end) == then_list(bytes@, at_int(at), order),
{
    let first = match skip_from(bytes, at, 8) {
        Some(first) => first,
        None => {
            return None;
        },
    };
    let count = word_at(bytes, first - 8, order);
    let mut here = first;
    let mut left = count;
    while left > 0
        invariant
            then_list(bytes@, at_int(at), order) == after_texts(
                bytes@,
                first as int,
                order,
                count as nat,
            ),
            after_texts(bytes@, first as int, order, count as nat) == after_texts(
                bytes@,
                here as int,
                order,
                left as nat,
            ),
        decreases left,
    {
        match text_from(bytes, Some(here), order) {
            Some(next) => {
                here = next;
            },
            None => {
                return None;
            },
        }
        left = left - 1;
    }
    Some(here)
}

/// The position after the map of texts that starts at `at`.
pub fn map_from(bytes: &[u8], at: Option<usize>, order: WordOrder) -> (end: Option<usize>)
    ensures
        at_int(end) == then_map(bytes@, at_int(at), order),
{
    let first = match skip_from(bytes, at, 8) {
        Some(first) => first,
        None => {
            return None;
        },
    };
    let count = word_at(bytes, first - 8, order);
    let mut here = first;
    let mut left = count;
    while left > 0
        invariant
            then_map(bytes@, at_int(at), order) == after_pairs(
                bytes@,
                first as int,
                order,
                count as nat,
            ),
            after_pairs(bytes@, first as int, order, count as nat) == after_pairs(
                bytes@,
                here as int,
                order,
                left as nat,
            ),
        decreases left,
    {
        let value = text_from(bytes, Some(here), order);
        match text_from(bytes, value, order) {
            Some(next) => {
                here = next;
            },
            None => {
                return None;
            },
        }
        left = left - 1;
    }
    Some(here)
}

/// The position after the record that starts at `at`.
pub fn record_from(bytes: &[u8], at: usize, order: WordOrder) -> (end: Option<usize>)
    ensures
        at_int(end) == after_record(bytes@, at as int, order),
{
    let id = text_from(bytes, Some(at), order);
    let index = skip_from(bytes, id, 8);
    let is_active = skip_from(bytes, index, 1);
    let balance = text_from(bytes, is_active, order);
    let picture = text_from(bytes, balance, order);
    let age = skip_from(bytes, picture, 4);
    let eye_color = skip_from(bytes, age, 4);
    let name = map_from(bytes, eye_color, order);
    let company = text_from(bytes, name, order);
    let email = text_from(bytes, company, order);
    let phone = text_from(bytes, email, order);
    let address = text_from(bytes, phone, order);
    let about = text_from(bytes, address, order);
    let registered = text_from(bytes, about, order);
    let latitude = text_from(bytes, registered, order);
    let longitude = text_from(bytes, latitude, order);
    let tags = list_from(bytes, longitude, order);
    let greeting = text_from(bytes, tags, order);
    text_from(bytes, greeting, order)
}

/// Whether the bytes start with a whole dataset.
pub fn is_framed(bytes: &[u8], order: WordOrder) -> (whole: bool)
    ensures
        whole == framed(bytes@, order),
{
    reveal(framed);
    let first = match skip_from(bytes, Some(0), 8) {
        Some(first) => first,
        None => {
            return false;
        },
    };
    let count = word_at(bytes, 0, order);
    let mut here = first;
    let mut left = count;
    while left > 0
        invariant
            framed(bytes@, order) == (after_dataset(bytes@, order) is Some),
            after_dataset(bytes@, order) == after_records(
                bytes@,
                first as int,
                order,
                count as nat,
            ),
            after_records(bytes@, first as int, order, count as nat) == after_records(
                bytes@,
                here as int,
                order,
                left as nat,
            ),
        decreases left,
    {
        match record_from(bytes, here, order) {
            Some(next) => {
                here = next;
            },
            None => {
                return false;
            },
        }
        left = left - 1;
    }
    true
}

/// A word that lies within the bytes holds the same number whatever
/// follows the bytes.
proof fn lemma_word_extends(bytes: Seq<u8>, rest: Seq<u8>, at: int, order: WordOrder)
    requires
        0 <= at,
        at + 8 <= bytes.len(),
    ensures
        word(bytes + rest, at, order) == word(bytes, at, order),
{
    assert((bytes + rest).subrange(at, at + 8) =~= bytes.subrange(at, at + 8));
}

/// A skip that stays within the bytes ends at the same place whatever
/// follows the bytes.
proof fn lemma_skip_extends(bytes: Seq<u8>, rest: Seq<u8>, at: Option<int>, width: int)
    requires
        then_skip(bytes, at, width) is Some,
    ensures
        then_skip(bytes + rest, at, width) == then_skip(bytes, at, width),
{
}

/// A text that lies within the bytes ends at the same place whatever
/// follows the bytes.
proof fn lemma_text_extends(bytes: Seq<u8>, rest: Seq<u8>, at: Option<int>, order: WordOrder)
    requires
        then_text(bytes, at, order) is Some,
    ensures
        then_text(bytes + rest, at, order) == then_text(bytes, at, order),
{
    lemma_word_extends(bytes, rest, at->Some_0, order);
}

/// Texts in a row that lie within the bytes end at the same place whatever
/// follows the bytes.
proof fn lemma_texts_extend(
    bytes: Seq<u8>,
    rest: Seq<u8>,
    at: int,
    order: WordOrder,
    count: nat,
)
    requires
        after_texts(bytes, at, order, count) is Some,
    ensures
        after_texts(bytes + rest, at, order, count) == after_texts(bytes, at, order, count),
    decreases count,
{
    if count > 0 {
        lemma_text_extends(bytes, rest, Some(at), order);
        lemma_texts_extend(
            bytes,
            rest,
            after_text(bytes, at, order)->Some_0,
            order,
            (count - 1) as nat,
        );
    }
}

/// Pairs of texts in a row that lie within the bytes end at the same place
/// whatever follows the bytes.
proof fn lemma_pairs_extend(
    bytes: Seq<u8>,
    rest: Seq<u8>,
    at: int,
    order: WordOrder,
    count: nat,
)
    requires
        after_pairs(bytes, at, order, count) is Some,
    ensures
        after_pairs(bytes + rest, at, order, count) == after_pairs(bytes, at, order, count),
    decreases count,
{
    if count > 0 {
        let value = after_text(bytes, at, order);
        lemma_text_extends(bytes, rest, Some(at), order);
        lemma_text_extends(bytes, rest, value, order);
        lemma_pairs_extend(
            bytes,
            rest,
            then_text(bytes, value, order)->Some_0,
            order,
            (count - 1) as nat,
        );
    }
}

/// A list of texts that lies within the bytes ends at the same place
/// whatever follows the bytes.
proof fn lemma_list_extends(bytes: Seq<u8>, rest: Seq<u8>, at: Option<int>, order: WordOrder)
    requires
        then_list(bytes, at, order) is Some,
    ensures
        then_list(bytes + rest, at, order) == then_list(bytes, at, order),
{
    let at = at->Some_0;
    lemma_word_extends(bytes, rest, at, order);
    lemma_texts_extend(bytes, rest, at + 8, order, word(bytes, at, order) as nat);
}

/// A map of texts that lies within the bytes ends at the same place whatever
/// follows the bytes.
proof fn lemma_map_extends(bytes: Seq<u8>, rest: Seq<u8>, at: Option<int>, order: WordOrder)
    requires
        then_map(bytes, at, order) is Some,
    ensures
        then_map(bytes + rest, at, order) == then_map(bytes, at, order),
{
    let at = at->Some_0;
    lemma_word_extends(bytes, rest, at, order);
    lemma_pairs_extend(bytes, rest, at + 8, order, word(bytes, at, order) as nat);
}

/// A record that lies within the bytes ends at the same place whatever
/// follows the bytes.
proof fn lemma_record_extends(bytes: Seq<u8>, rest: Seq<u8>, at: int, order: WordOrder)
    requires
        after_record(bytes, at, order) is Some,
    ensures
        after_record(bytes + rest, at, order) == after_record(bytes, at, order),
{
    let id = after_text(bytes, at, order);
    let index = then_skip(bytes, id, 8);
    let is_active = then_skip(bytes, index, 1);
    let balance = then_text(bytes, is_active, order);
    let picture = then_text(bytes, balance, order);
    let age = then_skip(bytes, picture, 4);
    let eye_color = then_skip(bytes, age, 4);
    let name = then_map(bytes, eye_color, order);
    let company = then_text(bytes, name, order);
    let email = then_text(bytes, company, order);
    let phone = then_text(bytes, email, order);
    let address = then_text(bytes, phone, order);
    let about = then_text(bytes, address, order);
    let registered = then_text(bytes, about, order);
    let latitude = then_text(bytes, registered, order);
    let longitude = then_text(bytes, latitude, order);
    let tags = then_list(bytes, longitude, order);
    let greeting = then_text(bytes, tags, order);
    lemma_text_extends(bytes, rest, Some(at), order);
    lemma_skip_extends(bytes, rest, id, 8);
    lemma_skip_extends(bytes, rest, index, 1);
    lemma_text_extends(bytes, rest, is_active, order);
    lemma_text_extends(bytes, rest, balance, order);
    lemma_skip_extends(bytes, rest, picture, 4);
    lemma_skip_extends(bytes, rest, age, 4);
    lemma_map_extends(bytes, rest, eye_color, order);
    lemma_text_extends(bytes, rest, name, order);
    lemma_text_extends(bytes, rest, company, order);
    lemma_text_extends(bytes, rest, email, order);
    lemma_text_extends(bytes, rest, phone, order);
    lemma_text_extends(bytes, rest, address, order);
    lemma_text_extends(bytes, rest, about, order);
    lemma_text_extends(bytes, rest, registered, order);
    lemma_text_extends(bytes, rest, latitude, order);
    lemma_list_extends(bytes, rest, longitude, order);
    lemma_text_extends(bytes, rest, tags, order);
    lemma_text_extends(bytes, rest, greeting, order);
}

/// Records in a row that lie within the bytes end at the same place whatever
/// follows the bytes.
proof fn lemma_records_extend(
    bytes: Seq<u8>,
    rest: Seq<u8>,
    at: int,
    order: WordOrder,
    count: nat,
)
    requires
        after_records(bytes, at, order, count) is Some,
    ensures
        after_records(bytes + rest, at, order, count) == after_records(bytes, at, order, count),
    decreases count,
{
    if count > 0 {
        lemma_record_extends(bytes, rest, at, order);
        lemma_records_extend(
            bytes,
            rest,
            after_record(bytes, at, order)->Some_0,
            order,
            (count - 1) as nat,
        );
    }
}

/// Bytes that start with a whole dataset still do when more bytes follow
/// them, and the dataset ends at the same place.
pub proof fn lemma_framed_extends(bytes: Seq<u8>, rest: Seq<u8>, order: WordOrder)
    requires
        framed(bytes, order),
    ensures
        framed(bytes + rest, order),
        after_dataset(bytes + rest, order) == after_dataset(bytes, order),
{
    reveal(framed);
    lemma_word_extends(bytes, rest, 0, order);
    lemma_records_extend(bytes, rest, 8, order, word(bytes, 0, order) as nat);
}

} // verus!
