use ctklr::pec::{parse_pec, PecError};

#[test]
fn empty_table() {
    let m = parse_pec(&String::new()).unwrap();
    assert!(m.is_empty());
    let m = parse_pec(&"\n\n".to_string()).unwrap();
    assert!(m.is_empty());
}

#[test]
fn entries_of_each_kind() {
    let m = parse_pec(&"1>e3\n2>g5\n3>t7\n".to_string()).unwrap();
    assert_eq!(m.len(), 3);
    assert_eq!(m[&1], 3 << 20);
    assert_eq!(m[&2], 5 << 18);
    assert_eq!(m[&3], 7 << 16);
}

#[test]
fn unknown_type_gives_zero() {
    let m = parse_pec(&"9>x4".to_string()).unwrap();
    assert_eq!(m[&9], 0);
}

#[test]
fn later_line_wins() {
    let m = parse_pec(&"4>e1\n4>t2".to_string()).unwrap();
    assert_eq!(m.len(), 1);
    assert_eq!(m[&4], 2 << 16);
}

#[test]
fn plus_sign_and_largest_values() {
    let m = parse_pec(&"+255>e+4095".to_string()).unwrap();
    assert_eq!(m[&255], 4095 << 20);
    let m = parse_pec(&"0>t4294967295".to_string()).unwrap();
    assert_eq!(m[&0], 0xFFFF_0000);
}

#[test]
fn malformed_lines() {
    for text in [
        "1e3",
        "1>e3>4",
        "1>",
        "a>e3",
        ">e3",
        "256>e3",
        "1>e",
        "1>ex",
        "1>e-3",
        "1>e4294967296",
        "1>e3\nbad",
        "1>e3\r\n",
    ] {
        assert_eq!(parse_pec(&text.to_string()), Err(PecError::MalformedLine), "{}", text);
    }
}
