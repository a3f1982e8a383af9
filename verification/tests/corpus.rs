use codec_bench::corpus::load;
use codec_bench::model::{Element, EyeColor};
use std::collections::HashMap;

fn record(index: usize) -> Element {
    let mut name = HashMap::new();
    name.insert("first".to_string(), format!("n{}", index));
    Element {
        _id: format!("id-{}", index),
        index,
        isActive: index % 3 == 0,
        balance: String::new(),
        picture: String::new(),
        age: index as u32,
        eyeColor: if index % 2 == 0 { EyeColor::brown } else { EyeColor::blue },
        name,
        company: String::new(),
        email: String::new(),
        phone: String::new(),
        address: String::new(),
        about: String::new(),
        registered: String::new(),
        latitude: String::new(),
        longitude: String::new(),
        tags: vec![format!("t{}", index)],
        greeting: String::new(),
        favoriteFruit: String::new(),
    }
}

fn corpus(n: usize) -> Vec<Element> {
    (0..n).map(record).collect()
}

#[test]
fn whole_rounds_repeat_the_corpus_in_order() {
    let c = corpus(4);
    let data = load(&c, 12);
    assert_eq!(data.len(), 12);
    let mut expected = c.clone();
    expected.extend(c.clone());
    expected.extend(c.clone());
    assert_eq!(data, expected);
}

#[test]
fn a_smaller_count_truncates() {
    let c = corpus(5);
    assert_eq!(load(&c, 3), c[..3].to_vec());
    assert_eq!(load(&c, 5), c);
    assert_eq!(load(&c, 0), Vec::new());
}

#[test]
fn a_count_between_rounds_ends_mid_corpus() {
    let c = corpus(3);
    let data = load(&c, 7);
    let indices: Vec<usize> = data.iter().map(|e| e.index).collect();
    assert_eq!(indices, vec![0, 1, 2, 0, 1, 2, 0]);
    assert_eq!(data[6], c[0]);
}

#[test]
fn a_corpus_of_one_record() {
    let c = corpus(1);
    let data = load(&c, 4);
    assert_eq!(data, vec![c[0].clone(), c[0].clone(), c[0].clone(), c[0].clone()]);
}

#[test]
fn an_empty_corpus_gives_nothing() {
    assert_eq!(load(&Vec::new(), 10), Vec::new());
    assert_eq!(load(&Vec::new(), 0), Vec::new());
}

#[test]
fn clone_keeps_every_field() {
    let e = record(9);
    let copy = e.clone();
    assert_eq!(copy, e);
    assert_eq!(copy.name.get("first"), Some(&"n9".to_string()));
    assert_eq!(copy.tags, vec!["t9".to_string()]);
}
