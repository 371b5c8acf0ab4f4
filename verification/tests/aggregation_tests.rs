use gitql::aggregation::aggregate;
use gitql::aggregation::aggregation_average;
use gitql::aggregation::aggregation_count;
use gitql::aggregation::aggregation_max;
use gitql::aggregation::aggregation_min;
use gitql::aggregation::aggregation_prototype;
use gitql::aggregation::aggregation_sum;
use gitql::aggregation::lacks_column;
use gitql::object::GQLObject;
use gitql::types::DataType;
use gitql::value::Value;

fn rows(numbers: &[i64]) -> Vec<GQLObject> {
    numbers
        .iter()
        .map(|n| {
            let mut row = GQLObject::new();
            row.insert("n".to_string(), Value::Integer(*n));
            row
        })
        .collect()
}

fn field() -> String {
    "n".to_string()
}

#[test]
fn aggregates_of_no_rows() {
    let none = rows(&[]);
    assert!(aggregation_count(&field(), &none).equals(&Value::Integer(0)));
    assert!(aggregation_sum(&field(), &none).equals(&Value::Integer(0)));
    assert!(aggregation_max(&field(), &none).is_null());
    assert!(aggregation_min(&field(), &none).is_null());
    assert!(aggregation_average(&field(), &none).is_null());
}

#[test]
fn maximum_and_minimum() {
    let some = rows(&[3, 9, -2, 9, 0]);
    assert!(aggregation_max(&field(), &some).equals(&Value::Integer(9)));
    assert!(aggregation_min(&field(), &some).equals(&Value::Integer(-2)));
    let negative = rows(&[-3, -9, -2]);
    assert!(aggregation_max(&field(), &negative).equals(&Value::Integer(-2)));
    assert!(aggregation_min(&field(), &negative).equals(&Value::Integer(-9)));
    let positive = rows(&[5, 7]);
    assert!(aggregation_min(&field(), &positive).equals(&Value::Integer(5)));
    let one = rows(&[4]);
    assert!(aggregation_max(&field(), &one).equals(&Value::Integer(4)));
    assert!(aggregation_min(&field(), &one).equals(&Value::Integer(4)));
}

#[test]
fn sum_of_a_column() {
    assert!(aggregation_sum(&field(), &rows(&[1, 2, 3, -10])).equals(&Value::Integer(-4)));
    assert!(aggregation_sum(&field(), &rows(&[i64::MAX, 1]))
        .equals(&Value::Integer(i64::MIN)));
    assert!(aggregation_sum(&field(), &rows(&[i64::MAX, 1, -1]))
        .equals(&Value::Integer(i64::MAX)));
}

#[test]
fn average_is_rounded_towards_zero() {
    assert!(aggregation_average(&field(), &rows(&[1, 2, 4])).equals(&Value::Integer(2)));
    assert!(aggregation_average(&field(), &rows(&[-1, -2, -4])).equals(&Value::Integer(-2)));
    assert!(aggregation_average(&field(), &rows(&[-7, 0])).equals(&Value::Integer(-3)));
    assert!(aggregation_average(&field(), &rows(&[i64::MAX, i64::MAX]))
        .equals(&Value::Integer(i64::MAX)));
    assert!(aggregation_average(&field(), &rows(&[i64::MIN, i64::MIN, i64::MIN]))
        .equals(&Value::Integer(i64::MIN)));
}

#[test]
fn count_of_rows() {
    assert!(aggregation_count(&field(), &rows(&[7, 7, 7, 7])).equals(&Value::Integer(4)));
    assert!(aggregation_count(&"other".to_string(), &rows(&[1])).equals(&Value::Integer(1)));
    assert!(aggregation_count(&"other".to_string(), &rows(&[])).equals(&Value::Integer(0)));
}

#[test]
fn what_is_no_number_counts_as_zero() {
    let mut text = GQLObject::new();
    text.insert("n".to_string(), Value::Text("12".to_string()));
    let mut null = GQLObject::new();
    null.insert("n".to_string(), Value::Null);
    let mut five = GQLObject::new();
    five.insert("n".to_string(), Value::Integer(-5));
    let mixed = vec![text, null, five];
    assert!(!lacks_column(&field(), &mixed));
    assert!(aggregation_sum(&field(), &mixed).equals(&Value::Integer(-5)));
    assert!(aggregation_max(&field(), &mixed).equals(&Value::Integer(0)));
    assert!(aggregation_min(&field(), &mixed).equals(&Value::Integer(-5)));
    assert!(aggregation_average(&field(), &mixed).equals(&Value::Integer(-1)));
}

#[test]
fn a_row_without_the_column_makes_the_value_null() {
    let mut other = GQLObject::new();
    other.insert("m".to_string(), Value::Integer(100));
    let mut rows = rows(&[1, 2]);
    rows.insert(1, other);
    assert!(lacks_column(&field(), &rows));
    assert!(!lacks_column(&"at".to_string(), &vec![]));
    assert!(aggregation_sum(&field(), &rows).is_null());
    assert!(aggregation_max(&field(), &rows).is_null());
    assert!(aggregation_min(&field(), &rows).is_null());
    assert!(aggregation_average(&field(), &rows).is_null());
    assert!(aggregation_count(&field(), &rows).equals(&Value::Integer(3)));
    assert!(aggregate("sum", &field(), &rows).unwrap().is_null());
    assert!(aggregate("max", &field(), &rows).unwrap().is_null());
    assert!(aggregate("count", &field(), &rows).unwrap().equals(&Value::Integer(3)));
    assert!(aggregate("median", &field(), &rows).is_none());
}

#[test]
fn the_sum_does_not_depend_on_the_order() {
    let a = [5, -3, i64::MAX, 8];
    let b = [i64::MIN, 4];
    let both = [5, -3, i64::MAX, 8, i64::MIN, 4];
    let mixed = [4, i64::MAX, 5, i64::MIN, 8, -3];
    let sum = |numbers: &[i64]| aggregation_sum(&field(), &rows(numbers)).as_number();
    assert_eq!(sum(&both), 13);
    assert_eq!(sum(&mixed), 13);
    assert_eq!(sum(&a).wrapping_add(sum(&b)), sum(&both));
    assert_eq!(sum(&[i64::MAX, i64::MAX, i64::MIN, i64::MIN]), -2);
}

#[test]
fn aggregate_functions_by_name() {
    let some = rows(&[2, 4, 9]);
    assert!(aggregate("max", &field(), &some).unwrap().equals(&Value::Integer(9)));
    assert!(aggregate("min", &field(), &some).unwrap().equals(&Value::Integer(2)));
    assert!(aggregate("sum", &field(), &some).unwrap().equals(&Value::Integer(15)));
    assert!(aggregate("avg", &field(), &some).unwrap().equals(&Value::Integer(5)));
    assert!(aggregate("count", &field(), &some).unwrap().equals(&Value::Integer(3)));
    assert!(aggregate("median", &field(), &some).is_none());
    assert!(aggregate("MAX", &field(), &some).is_none());
}

#[test]
fn prototypes_of_the_aggregate_functions() {
    for name in ["max", "min"] {
        let prototype = aggregation_prototype(name).unwrap();
        assert!(prototype.parameter.equals(&DataType::Number));
        assert!(prototype.result.equals(&DataType::Number));
    }
    for name in ["sum", "avg", "count"] {
        let prototype = aggregation_prototype(name).unwrap();
        assert!(prototype.parameter.equals(&DataType::Any));
        assert!(prototype.result.equals(&DataType::Number));
    }
    assert!(aggregation_prototype("total").is_none());
}
