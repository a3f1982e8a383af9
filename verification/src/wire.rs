//! The field layout in which a record is handed to a codec: its fields in
//! their order, as plain values that every codec knows how to write.
#![allow(non_snake_case)]

use crate::error::CodecFailure;
use crate::model::Element;
use crate::model::ElementView;
use crate::model::EyeColor;
use std::collections::HashMap;
use vstd::prelude::*;

verus! {

/// The first eight fields of a record, borrowed: `_id`, `index`, `isActive`,
/// `balance`, `picture`, `age`, the index of `eyeColor`, `name`.
pub type HeadRef<'a> = (
    &'a String,
    u64,
    bool,
    &'a String,
    &'a String,
    u32,
    u32,
    &'a HashMap<String, String>,
);

/// The last eleven fields of a record, borrowed: `company`, `email`, `phone`,
/// `address`, `about`, `registered`, `latitude`, `longitude`, `tags`,
/// `greeting`, `favoriteFruit`.
pub type TailRef<'a> = (
    &'a String,
    &'a String,
    &'a String,
    &'a String,
    &'a String,
    &'a String,
    &'a String,
    &'a String,
    &'a Vec<String>,
    &'a String,
    &'a String,
);

/// A record as a codec writes it: all nineteen fields, borrowed.
pub type RowRef<'a> = (HeadRef<'a>, TailRef<'a>);

/// The first eight fields of a record, owned.
pub type Head = (String, u64, bool, String, String, u32, u32, HashMap<String, String>);

/// The last eleven fields of a record, owned.
pub type Tail = (
    String,
    String,
    String,
    String,
    String,
    String,
    String,
    String,
    Vec<String>,
    String,
    String,
);

/// A record as a codec reads it: all nineteen fields, owned.
pub type Row = (Head, Tail);

/// What a row holds, as mathematical values. It differs from a record in
/// two fields: `index` is 64 bits wide whatever the machine, and `eyeColor`
/// is the index of a variant, which need not name one.
pub struct RowView {
    pub _id: Seq<char>,
    pub index: u64,
    pub isActive: bool,
    pub balance: Seq<char>,
    pub picture: Seq<char>,
    pub age: u32,
    pub eyeColor: u32,
    pub name: Map<Seq<char>, Seq<char>>,
    pub company: Seq<char>,
    pub email: Seq<char>,
    pub phone: Seq<char>,
    pub address: Seq<char>,
    pub about: Seq<char>,
    pub registered: Seq<char>,
    pub latitude: Seq<char>,
    pub longitude: Seq<char>,
    pub tags: Seq<Seq<char>>,
    pub greeting: Seq<char>,
    pub favoriteFruit: Seq<char>,
}

/// The index under which a variant is written: its place in the declaration.
pub open spec fn eye_color_index(color: EyeColor) -> u32 {
    match color {
        EyeColor::brown => 0,
        EyeColor::blue => 1,
    }
}

/// The variant that an index names, if any.
pub open spec fn eye_color_at(index: u32) -> Option<EyeColor> {
    if index == 0 {
        Some(EyeColor::brown)
    } else if index == 1 {
        Some(EyeColor::blue)
    } else {
        None
    }
}

/// The row in which a record is written.
pub open spec fn row_of(e: ElementView) -> RowView {
    RowView {
        _id: e._id,
        index: e.index as u64,
        isActive: e.isActive,
        balance: e.balance,
        picture: e.picture,
        age: e.age,
        eyeColor: eye_color_index(e.eyeColor),
        name: e.name,
        company: e.company,
        email: e.email,
        phone: e.phone,
        address: e.address,
        about: e.about,
        registered: e.registered,
        latitude: e.latitude,
        longitude: e.longitude,
        tags: e.tags,
        greeting: e.greeting,
        favoriteFruit: e.favoriteFruit,
    }
}

/// The record that a row stands for. There is none where the row's
/// `eyeColor` names no variant or its `index` is beyond `usize`.
pub open spec fn element_of(r: RowView) -> Option<ElementView> {
    match eye_color_at(r.eyeColor) {
        Some(color) if r.index <= usize::MAX => Some(
            ElementView {
                _id: r._id,
                index: r.index as usize,
                isActive: r.isActive,
                balance: r.balance,
                picture: r.picture,
                age: r.age,
                eyeColor: color,
                name: r.name,
                company: r.company,
                email: r.email,
                phone: r.phone,
                address: r.address,
                about: r.about,
                registered: r.registered,
                latitude: r.latitude,
                longitude: r.longitude,
                tags: r.tags,
                greeting: r.greeting,
                favoriteFruit: r.favoriteFruit,
            },
        ),
        _ => None,
    }
}

/// What a borrowed row holds.
pub open spec fn row_ref_view(row: RowRef) -> RowView {
    RowView {
        _id: row.0.0@,
        index: row.0.1,
        isActive: row.0.2,
        balance: row.0.3@,
        picture: row.0.4@,
        age: row.0.5,
        eyeColor: row.0.6,
        name: row.0.7.deep_view(),
        company: row.1.0@,
        email: row.1.1@,
        phone: row.1.2@,
        address: row.1.3@,
        about: row.1.4@,
        registered: row.1.5@,
        latitude: row.1.6@,
        longitude: row.1.7@,
        tags: row.1.8.deep_view(),
        greeting: row.1.9@,
        favoriteFruit: row.1.10@,
    }
}

/// What an owned row holds.
pub open spec fn row_view(row: Row) -> RowView {
    RowView {
        _id: row.0.0@,
        index: row.0.1,
        isActive: row.0.2,
        balance: row.0.3@,
        picture: row.0.4@,
        age: row.0.5,
        eyeColor: row.0.6,
        name: row.0.7.deep_view(),
        company: row.1.0@,
        email: row.1.1@,
        phone: row.1.2@,
        address: row.1.3@,
        about: row.1.4@,
        registered: row.1.5@,
        latitude: row.1.6@,
        longitude: row.1.7@,
        tags: row.1.8.deep_view(),
        greeting: row.1.9@,
        favoriteFruit: row.1.10@,
    }
}

/// What a sequence of owned rows holds.
pub open spec fn rows_view(rows: Seq<Row>) -> Seq<RowView> {
    Seq::new(rows.len(), |i: int| row_view(rows[i]))
}

/// What a sequence of borrowed rows holds.
pub open spec fn row_refs_view(rows: Seq<RowRef>) -> Seq<RowView> {
    Seq::new(rows.len(), |i: int| row_ref_view(rows[i]))
}

/// The rows in which a dataset is written, record by record.
pub open spec fn rows_of(data: Seq<ElementView>) -> Seq<RowView> {
    Seq::new(data.len(), |i: int| row_of(data[i]))
}

/// The dataset that a sequence of rows stands for: each row's record, in
/// order. There is none where some row stands for no record.
pub open spec fn dataset_of(rows: Seq<RowView>) -> Option<Seq<ElementView>> {
    if forall|i: int| 0 <= i < rows.len() ==> (#[trigger] element_of(rows[i])) is Some {
        Some(Seq::new(rows.len(), |i: int| element_of(rows[i])->Some_0))
    } else {
        None
    }
}

/// Writing a record as a row and reading the row back gives the record.
pub proof fn lemma_row_round_trip(e: ElementView)
    ensures
        element_of(row_of(e)) == Some(e),
{
}

/// Writing a dataset as rows and reading the rows back gives the dataset.
pub proof fn lemma_rows_round_trip(data: Seq<ElementView>)
    ensures
        dataset_of(rows_of(data)) == Some(data),
{
    let rows = rows_of(data);
    assert forall|i: int| 0 <= i < rows.len() implies (#[trigger] element_of(rows[i])) == Some(
        data[i],
    ) by {
        lemma_row_round_trip(data[i]);
    }
    assert(dataset_of(rows)->Some_0 =~= data);
}

/// The index under which `color` is written.
pub fn index_of_eye_color(color: EyeColor) -> (index: u32)
    ensures
        index == eye_color_index(color),
{
    match color {
        EyeColor::brown => 0,
        EyeColor::blue => 1,
    }
}

/// The variant that `index` names, if any.
pub fn eye_color_from_index(index: u32) -> (color: Option<EyeColor>)
    ensures
        color == eye_color_at(index),
{
    if index == 0 {
        Some(EyeColor::brown)
    } else if index == 1 {
        Some(EyeColor::blue)
    } else {
        None
    }
}

/// Borrows the fields of a record in the order in which they are written.
pub fn row_ref<'a>(e: &'a Element) -> (row: RowRef<'a>)
    ensures
        row_ref_view(row) == row_of(e@),
{
    (
        (
            &e._id,
            e.index as u64,
            e.isActive,
            &e.balance,
            &e.picture,
            e.age,
            index_of_eye_color(e.eyeColor),
            &e.name,
        ),
        (
            &e.company,
            &e.email,
            &e.phone,
            &e.address,
            &e.about,
            &e.registered,
            &e.latitude,
            &e.longitude,
            &e.tags,
            &e.greeting,
            &e.favoriteFruit,
        ),
    )
}

/// Borrows a dataset as the rows in which it is written.
pub fn row_refs<'a>(data: &'a Vec<Element>) -> (rows: Vec<RowRef<'a>>)
    ensures
        row_refs_view(rows@) == rows_of(data.deep_view()),
{
    let mut rows: Vec<RowRef<'a>> = Vec::new();
    let mut i: usize = 0;
    while i < data.len()
        invariant
            i <= data.len(),
            rows.len() == i,
            forall|j: int| 0 <= j < i ==> row_ref_view(#[trigger] rows[j]) == row_of(data[j]@),
        decreases data.len() - i,
    {
        rows.push(row_ref(&data[i]));
        i = i + 1;
    }
    assert(row_refs_view(rows@) =~= rows_of(data.deep_view()));
    rows
}

/// Builds the record that a row stands for.
///
/// Fails with `BadField` where the row stands for none.
pub fn element_from_row(row: Row) -> (res: Result<Element, CodecFailure>)
    ensures
        match res {
            Ok(e) => element_of(row_view(row)) == Some(e@),
            Err(failure) => failure == CodecFailure::BadField && element_of(row_view(row)) is None,
        },
{
    let (head, tail) = row;
    let (_id, index, isActive, balance, picture, age, eye, name) = head;
    let (
        company,
        email,
        phone,
        address,
        about,
        registered,
        latitude,
        longitude,
        tags,
        greeting,
        favoriteFruit,
    ) = tail;
    let eyeColor = match eye_color_from_index(eye) {
        Some(color) => color,
        None => {
            return Err(CodecFailure::BadField);
        },
    };
    if index > usize::MAX as u64 {
        return Err(CodecFailure::BadField);
    }
    Ok(
        Element {
            _id,
            index: index as usize,
            isActive,
            balance,
            picture,
            age,
            eyeColor,
            name,
            company,
            email,
            phone,
            address,
            about,
            registered,
            latitude,
            longitude,
            tags,
            greeting,
            favoriteFruit,
        },
    )
}

/// Builds the dataset that a sequence of rows stands for.
///
/// Fails with `BadField` where some row stands for no record.
pub fn dataset_from_rows(rows: Vec<Row>) -> (res: Result<Vec<Element>, CodecFailure>)
    ensures
        match res {
            Ok(data) => dataset_of(rows_view(rows@)) == Some(data.deep_view()),
            Err(failure) => failure == CodecFailure::BadField && dataset_of(rows_view(rows@)) is None,
        },
{
    let ghost source = rows@;
    let ghost all = rows_view(source);
    let mut data: Vec<Element> = Vec::new();
    for row in it: rows
        invariant
            it.seq() == source,
            all == rows_view(source),
            data.len() == it.index(),
            forall|j: int|
                0 <= j < it.index() ==> element_of(all[j]) == Some((#[trigger] data[j])@),
    {
        assert(row_view(row) == all[it.index() as int]);
        match element_from_row(row) {
            Ok(e) => data.push(e),
            Err(failure) => {
                assert(element_of(all[it.index() as int]) is None);
                return Err(failure);
            },
        }
    }
    assert forall|i: int| 0 <= i < all.len() implies (#[trigger] element_of(all[i])) == Some(
        data[i]@,
    ) by {}
    assert(dataset_of(all)->Some_0 =~= data.deep_view());
    Ok(data)
}

/// What reading a dataset from bytes comes to, given whether the bytes are
/// framed well enough to be handed to the codec, and the rows that the codec
/// makes of them, if it makes any.
pub open spec fn reading(framed: bool, rows: Option<Seq<RowView>>) -> Result<
    Seq<ElementView>,
    CodecFailure,
> {
    if !framed {
        Err(CodecFailure::BadFrame)
    } else {
        match rows {
            None => Err(CodecFailure::Rejected),
            Some(rows) => match dataset_of(rows) {
                Some(data) => Ok(data),
                None => Err(CodecFailure::BadField),
            },
        }
    }
}

/// The outcome of a read with the dataset taken by its view.
pub open spec fn outcome_view(res: Result<Vec<Element>, CodecFailure>) -> Result<
    Seq<ElementView>,
    CodecFailure,
> {
    match res {
        Ok(data) => Ok(data.deep_view()),
        Err(failure) => Err(failure),
    }
}

} // verus!
