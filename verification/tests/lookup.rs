use http_fo::{finish_lookup, sorted_unique_addresses, Error, IpAddress};

fn entry(ip: IpAddress, text: &str) -> (IpAddress, Vec<u8>) {
    (ip, text.as_bytes().to_vec())
}

#[test]
fn lookup_sorts_by_text_and_dedups() {
    let a = IpAddress::V4(u32::from_be_bytes([10, 0, 0, 2]));
    let b = IpAddress::V4(u32::from_be_bytes([10, 0, 0, 10]));
    let c = IpAddress::V6(1);
    let found = vec![entry(a, "10.0.0.2"), entry(c, "::1"), entry(b, "10.0.0.10"), entry(a, "10.0.0.2")];
    assert_eq!(sorted_unique_addresses(&found), vec![b, a, c]);
    assert_eq!(finish_lookup("h", 1, &found).unwrap(), vec![b, a, c]);
}

#[test]
fn empty_lookup_is_no_addresses() {
    match finish_lookup("example.com", 443, &Vec::new()) {
        Err(Error::NoAddresses { host, port }) => {
            assert_eq!(host, "example.com");
            assert_eq!(port, 443);
        },
        other => panic!("unexpected {:?}", other),
    }
}
