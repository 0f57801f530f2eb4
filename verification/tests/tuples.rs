use sparql_eval::term::EncodedTerm;
use sparql_eval::tuple::combine_tuples;
use sparql_eval::tuple::get_tuple_value;
use sparql_eval::tuple::put_value;

#[test]
fn get_tuple_value_past_the_end_is_unbound() {
    let tuple = vec![Some(EncodedTerm::IntegerLiteral(1))];
    assert_eq!(get_tuple_value(0, &tuple), Some(EncodedTerm::IntegerLiteral(1)));
    assert_eq!(get_tuple_value(1, &tuple), None);
    assert_eq!(get_tuple_value(100, &tuple), None);
}

#[test]
fn put_value_grows_the_tuple_with_unbound_slots() {
    let mut tuple = vec![Some(EncodedTerm::IntegerLiteral(1))];
    put_value(3, EncodedTerm::BooleanLiteral(true), &mut tuple);
    assert_eq!(
        tuple,
        vec![
            Some(EncodedTerm::IntegerLiteral(1)),
            None,
            None,
            Some(EncodedTerm::BooleanLiteral(true)),
        ]
    );
}

#[test]
fn combine_tuples_merges_compatible_rows() {
    let a = vec![Some(EncodedTerm::IntegerLiteral(1)), None];
    let b = vec![None, Some(EncodedTerm::IntegerLiteral(2)), None];
    assert_eq!(
        combine_tuples(&a, &b),
        Some(vec![
            Some(EncodedTerm::IntegerLiteral(1)),
            Some(EncodedTerm::IntegerLiteral(2)),
            None,
        ])
    );
    let c = vec![Some(EncodedTerm::IntegerLiteral(3))];
    assert_eq!(combine_tuples(&a, &c), None);
}
