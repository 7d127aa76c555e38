use netscan::ports::{format_port_ranges, parse_ports};

#[test]
fn ports_are_sorted_and_deduplicated() {
    assert_eq!(parse_ports("80,22,443,22"), vec![22, 80, 443]);
}

#[test]
fn ranges_expand_inclusively() {
    assert_eq!(parse_ports("1000-1003,22"), vec![22, 1000, 1001, 1002, 1003]);
}

#[test]
fn malformed_tokens_are_skipped() {
    assert_eq!(parse_ports(" 25 ,abc,5-3,70000,+7,1-2-3,-4"), vec![7, 25]);
    assert_eq!(parse_ports(""), Vec::<u16>::new());
}

#[test]
fn range_with_spaces_and_full_span() {
    assert_eq!(parse_ports("65534 - 65535"), vec![65534, 65535]);
    assert_eq!(parse_ports("0-65535").len(), 65536);
}

#[test]
fn format_compacts_runs() {
    assert_eq!(format_port_ranges(&[1, 2, 3, 4, 5, 7, 9, 10, 11]), "1-5,7,9-11");
    assert_eq!(format_port_ranges(&[]), "");
    assert_eq!(format_port_ranges(&[80]), "80");
    assert_eq!(format_port_ranges(&[65534, 65535]), "65534-65535");
}

#[test]
fn formatted_ranges_expand_back() {
    let ports: Vec<u16> = vec![0, 1, 2, 22, 80, 443, 444, 8080, 65535];
    let text = format_port_ranges(&ports);
    assert_eq!(text, "0-2,22,80,443-444,8080,65535");
    assert_eq!(parse_ports(&text), ports);
}
