use tpcc_report::cfg::TransactionType;
use tpcc_report::util::{format_num_parse_error, parse_nums, try_parse_num, Error};

#[test]
fn parse_empty_list() {
    assert_eq!(*parse_nums("").unwrap(), Vec::<u32>::new());
}

#[test]
fn parse_single_number() {
    assert_eq!(*parse_nums("5").unwrap(), vec![5]);
    assert_eq!(*parse_nums("+7").unwrap(), vec![7]);
    assert_eq!(*parse_nums("4294967295").unwrap(), vec![u32::MAX]);
}

#[test]
fn parse_comma_list() {
    assert_eq!(*parse_nums("1,2,3").unwrap(), vec![1, 2, 3]);
    assert_eq!(*parse_nums("10,007").unwrap(), vec![10, 7]);
}

#[test]
fn parse_range_includes_both_ends() {
    assert_eq!(*parse_nums("1..5").unwrap(), vec![1, 2, 3, 4, 5]);
    assert_eq!(*parse_nums("4..4").unwrap(), vec![4]);
    assert_eq!(*parse_nums("3..1").unwrap(), Vec::<u32>::new());
    assert_eq!(*parse_nums("1..3..9").unwrap(), vec![1, 2, 3]);
}

#[test]
fn parse_bad_number() {
    let e = parse_nums("a").unwrap_err();
    assert_eq!(e.to_string(), "Number has an incorrect format 'a'");
    let e = parse_nums("4294967296").unwrap_err();
    assert_eq!(e.to_string(), "Number has an incorrect format '4294967296'");
    let e = parse_nums("-1").unwrap_err();
    assert_eq!(e.to_string(), "Number has an incorrect format '-1'");
}

#[test]
fn parse_bad_list_names_first_bad_piece() {
    let e = parse_nums("1,x,y").unwrap_err();
    assert_eq!(e.to_string(), "Number has an incorrect format 'x'");
    let e = parse_nums("1,,2").unwrap_err();
    assert_eq!(e.to_string(), "Number has an incorrect format ''");
}

#[test]
fn parse_bad_range() {
    let e = parse_nums("1..x").unwrap_err();
    assert_eq!(e.to_string(), "Range boundaries have an incorrect format '1..x'");
    let e = parse_nums("1..").unwrap_err();
    assert_eq!(e.to_string(), "Range boundaries have an incorrect format '1..'");
    let e = parse_nums("1...5").unwrap_err();
    assert_eq!(e.to_string(), "Range boundaries have an incorrect format '1...5'");
}

#[test]
fn try_parse_num_reads_u32() {
    assert_eq!(try_parse_num("42").unwrap(), 42);
    assert_eq!(try_parse_num("").unwrap_err().to_string(), "Number has an incorrect format ''");
    assert_eq!(try_parse_num("+").unwrap_err().to_string(), "Number has an incorrect format '+'");
    assert_eq!(try_parse_num(" 1").unwrap_err().to_string(), "Number has an incorrect format ' 1'");
}

#[test]
fn num_parse_error_message() {
    assert_eq!(format_num_parse_error("x1"), "Number has an incorrect format 'x1'");
    let e = Error { err_msg: "boom".to_string() };
    assert_eq!(e.to_string(), "boom");
}

#[test]
fn transaction_types_in_report_order() {
    assert_eq!(
        TransactionType::iter(),
        vec![
            TransactionType::NewOrder,
            TransactionType::Payment,
            TransactionType::OrderStatus,
            TransactionType::Delivery,
            TransactionType::StockLevel,
        ]
    );
}
