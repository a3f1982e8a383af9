//! The sample record that the benchmarks carry as payload.
#![allow(non_camel_case_types, non_snake_case)]

use std::collections::HashMap;
use vstd::prelude::*;
use vstd::std_specs::hash::hash_map_deep_view_impl;

verus! {

/// The enumerated field of a record.
#[derive(Debug, Clone, Copy, PartialEq, Eq, Structural)]
pub enum EyeColor {
    brown,
    blue,
}

/// One record of the sample corpus.
#[derive(Debug, PartialEq, Eq)]
pub struct Element {
    pub _id: String,
    pub index: usize,
    pub isActive: bool,
    pub balance: String,
    pub picture: String,
    pub age: u32,
    pub eyeColor: EyeColor,
    pub name: HashMap<String, String>,
    pub company: String,
    pub email: String,
    pub phone: String,
    pub address: String,
    pub about: String,
    pub registered: String,
    pub latitude: String,
    pub longitude: String,
    pub tags: Vec<String>,
    pub greeting: String,
    pub favoriteFruit: String,
}

/// The payload of a benchmark: sample records in their order.
pub type Dataset = Vec<Element>;

/// What a record holds, as mathematical values: texts as sequences of
/// characters, the name parts as a finite map, the tags in their order.
pub struct ElementView {
    pub _id: Seq<char>,
    pub index: usize,
    pub isActive: bool,
    pub balance: Seq<char>,
    pub picture: Seq<char>,
    pub age: u32,
    pub eyeColor: EyeColor,
    pub name: Map<Seq<char>, Seq<char>>,
    pub company: Seq<char>,
    pub email: Seq<char>,
    pub phone: Seq<char>,
    pub address: Seq<char>,
    pub about: Seq<char>,
    pub registered: Seq<char>,
    pub latitude: Seq<char>,
    pub longitude: Seq<char>,
    pub tags: Seq<Seq<char>>,
    pub greeting: Seq<char>,
    pub favoriteFruit: Seq<char>,
}

impl View for Element {
    type V = ElementView;

    open spec fn view(&self) -> ElementView {
        ElementView {
            _id: self._id@,
            index: self.index,
            isActive: self.isActive,
            balance: self.balance@,
            picture: self.picture@,
            age: self.age,
            eyeColor: self.eyeColor,
            name: self.name.deep_view(),
            company: self.company@,
            email: self.email@,
            phone: self.phone@,
            address: self.address@,
            about: self.about@,
            registered: self.registered@,
            latitude: self.latitude@,
            longitude: self.longitude@,
            tags: self.tags.deep_view(),
            greeting: self.greeting@,
            favoriteFruit: self.favoriteFruit@,
        }
    }
}

impl DeepView for Element {
    type V = ElementView;

    open spec fn deep_view(&self) -> ElementView {
        self@
    }
}

impl Clone for Element {
    /// A copy that holds the same values, field for field.
    fn clone(&self) -> (copy: Self)
        ensures
            copy@ == self@,
    {
        let name = self.name.clone();
        let tags = self.tags.clone();
        proof {
            reveal(hash_map_deep_view_impl);
            assert(name.deep_view() =~= self.name.deep_view());
            assert(tags.deep_view() =~= self.tags.deep_view());
        }
        Element {
            _id: self._id.clone(),
            index: self.index,
            isActive: self.isActive,
            balance: self.balance.clone(),
            picture: self.picture.clone(),
            age: self.age,
            eyeColor: self.eyeColor,
            name,
            company: self.company.clone(),
            email: self.email.clone(),
            phone: self.phone.clone(),
            address: self.address.clone(),
            about: self.about.clone(),
            registered: self.registered.clone(),
            latitude: self.latitude.clone(),
            longitude: self.longitude.clone(),
            tags,
            greeting: self.greeting.clone(),
            favoriteFruit: self.favoriteFruit.clone(),
        }
    }
}

} // verus!
