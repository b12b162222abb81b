use plonk_core::field::BlsScalar;
use plonk_core::lookup::multiset::MultiSet;

fn s(x: u64) -> BlsScalar {
    BlsScalar::from_u64(x)
}

fn ms(values: &[u64]) -> MultiSet {
    MultiSet {
        elements: values.iter().map(|x| s(*x)).collect(),
    }
}

#[test]
fn new_multiset_is_empty() {
    let m = MultiSet::new();
    assert_eq!(m.len(), 0);
    assert!(m.is_empty());
    assert_eq!(m.get(0), None);
    assert_eq!(m.to_vec(), Vec::<BlsScalar>::new());
}

#[test]
fn push_appends_in_row_order() {
    let mut m = MultiSet::new();
    m.push(s(3));
    m.push(s(1));
    m.push(s(3));
    assert_eq!(m, ms(&[3, 1, 3]));
    assert_eq!(m.len(), 3);
    assert!(!m.is_empty());
    assert_eq!(m.get(1), Some(s(1)));
    assert_eq!(m.get(3), None);
    assert_eq!(m.to_vec(), vec![s(3), s(1), s(3)]);
    assert_eq!(m.clone(), m);
}

#[test]
fn pad_repeats_the_last_element() {
    let mut m = ms(&[1, 2, 3]);
    m.pad(8);
    assert_eq!(m, ms(&[1, 2, 3, 3, 3, 3, 3, 3]));
}

#[test]
fn pad_leaves_a_long_enough_multiset_alone() {
    let mut m = ms(&[1, 2, 3, 4]);
    m.pad(4);
    assert_eq!(m, ms(&[1, 2, 3, 4]));
    m.pad(2);
    assert_eq!(m, ms(&[1, 2, 3, 4]));
    m.pad(0);
    assert_eq!(m, ms(&[1, 2, 3, 4]));
}

#[test]
fn pad_fills_an_empty_multiset_with_zero() {
    let mut m = MultiSet::new();
    m.pad(0);
    assert_eq!(m, ms(&[]));
    m.pad(2);
    assert_eq!(m, ms(&[0, 0]));
}

#[test]
fn contains_finds_what_is_there() {
    let m = ms(&[5, 9, 5]);
    assert!(m.contains(s(5)));
    assert!(m.contains(s(9)));
    assert!(!m.contains(s(4)));
    assert!(!MultiSet::new().contains(s(0)));
}

#[test]
fn contains_all_checks_every_query_value() {
    let table = ms(&[1, 2, 3, 4]);
    assert!(table.contains_all(&ms(&[2])));
    assert!(table.contains_all(&ms(&[2, 2, 4, 1])));
    assert!(table.contains_all(&ms(&[])));
    assert!(!table.contains_all(&ms(&[5])));
    assert!(!table.contains_all(&ms(&[1, 2, 5, 3])));
    assert!(!MultiSet::new().contains_all(&ms(&[0])));
}

#[test]
fn concat_keeps_both_orders() {
    assert_eq!(ms(&[3, 1]).concat(&ms(&[2, 3])), ms(&[3, 1, 2, 3]));
    assert_eq!(ms(&[]).concat(&ms(&[2])), ms(&[2]));
    assert_eq!(ms(&[2]).concat(&ms(&[])), ms(&[2]));
}

#[test]
fn sort_orders_by_representative() {
    assert_eq!(ms(&[3, 1, 2, 3, 0, 1]).sort(), ms(&[0, 1, 1, 2, 3, 3]));
    assert_eq!(ms(&[]).sort(), ms(&[]));
    assert_eq!(ms(&[7]).sort(), ms(&[7]));
    let mut m = ms(&[5]);
    m.push(s(1).neg());
    m.push(s(2));
    let sorted = m.sort();
    assert_eq!(sorted.to_vec(), vec![s(2), s(5), s(1).neg()]);
}

#[test]
fn halve_shares_the_middle_element() {
    let (h1, h2) = ms(&[1, 2, 3, 4, 5]).halve();
    assert_eq!(h1, ms(&[1, 2, 3]));
    assert_eq!(h2, ms(&[3, 4, 5]));
    let (h1, h2) = ms(&[1, 2, 3, 4]).halve();
    assert_eq!(h1, ms(&[1, 2, 3]));
    assert_eq!(h2, ms(&[3, 4]));
    let (h1, h2) = ms(&[9]).halve();
    assert_eq!(h1, ms(&[9]));
    assert_eq!(h2, ms(&[9]));
    let (h1, h2) = ms(&[]).halve();
    assert_eq!(h1, ms(&[]));
    assert_eq!(h2, ms(&[]));
}

#[test]
fn combine_split_of_table_and_query() {
    let table = ms(&[1, 2, 3, 4]);
    let query = ms(&[2]);
    let (h1, h2) = table.combine_split(&query);
    assert_eq!(h1, ms(&[1, 2, 2]));
    assert_eq!(h2, ms(&[2, 3, 4]));
}

#[test]
fn combine_split_keeps_every_value_and_overlaps_in_one() {
    let table = ms(&[4, 1, 3, 2, 9, 9]);
    let query = ms(&[9, 1, 1, 3]);
    let (h1, h2) = table.combine_split(&query);
    assert_eq!(h1.to_vec().last(), h2.to_vec().first());
    let mut joined = h1.to_vec();
    joined.extend(h2.to_vec().into_iter().skip(1));
    assert_eq!(joined, query.concat(&table).sort().to_vec());
    assert_eq!(
        MultiSet { elements: joined },
        ms(&[1, 1, 1, 2, 3, 3, 4, 9, 9, 9])
    );
}

#[test]
fn combine_split_of_nothing_is_empty() {
    let (h1, h2) = MultiSet::new().combine_split(&MultiSet::new());
    assert!(h1.is_empty());
    assert!(h2.is_empty());
}
