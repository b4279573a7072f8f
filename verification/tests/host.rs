use auth_core::config::MainConfig;
use auth_core::host::parse_host_addr;

fn expected(host: &str) -> Option<[u8; 4]> {
    let parts: Option<Vec<u8>> = host.split('.').map(|x| x.parse::<u8>().ok()).collect();
    parts?.try_into().ok()
}

#[test]
fn dotted_addresses_parse() {
    assert_eq!(parse_host_addr("127.0.0.1"), Some([127, 0, 0, 1]));
    assert_eq!(parse_host_addr("0.0.0.0"), Some([0, 0, 0, 0]));
    assert_eq!(parse_host_addr("255.255.255.255"), Some([255, 255, 255, 255]));
    assert_eq!(parse_host_addr("192.168.1.20"), Some([192, 168, 1, 20]));
}

#[test]
fn leading_zeros_and_plus_signs_are_read_as_numbers() {
    assert_eq!(parse_host_addr("010.001.000.0255"), Some([10, 1, 0, 255]));
    assert_eq!(parse_host_addr("+1.+2.+3.+4"), Some([1, 2, 3, 4]));
    assert_eq!(parse_host_addr("0000000000000000000000001.2.3.4"), Some([1, 2, 3, 4]));
}

#[test]
fn numbers_above_255_are_refused() {
    assert_eq!(parse_host_addr("256.0.0.1"), None);
    assert_eq!(parse_host_addr("1.2.3.1000"), None);
    assert_eq!(parse_host_addr("1.2.3.99999999999999999999999"), None);
}

#[test]
fn wrong_number_of_fields_is_refused() {
    assert_eq!(parse_host_addr(""), None);
    assert_eq!(parse_host_addr("1"), None);
    assert_eq!(parse_host_addr("1.2.3"), None);
    assert_eq!(parse_host_addr("1.2.3.4.5"), None);
    assert_eq!(parse_host_addr("1.2.3.4."), None);
    assert_eq!(parse_host_addr(".1.2.3.4"), None);
    assert_eq!(parse_host_addr("..."), None);
    assert_eq!(parse_host_addr("1..2.3"), None);
}

#[test]
fn other_characters_are_refused() {
    assert_eq!(parse_host_addr("localhost"), None);
    assert_eq!(parse_host_addr("1.2.3.a"), None);
    assert_eq!(parse_host_addr("1.2.3.-4"), None);
    assert_eq!(parse_host_addr("1.2.3.+"), None);
    assert_eq!(parse_host_addr("1.2.3.++4"), None);
    assert_eq!(parse_host_addr("1.2.3.4+"), None);
    assert_eq!(parse_host_addr(" 1.2.3.4"), None);
    assert_eq!(parse_host_addr("1.2.3.4 "), None);
    assert_eq!(parse_host_addr("1.2.3.٤"), None);
    assert_eq!(parse_host_addr("1,2,3,4"), None);
}

#[test]
fn address_agrees_with_the_standard_library() {
    let samples = [
        "127.0.0.1", "1.2.3", "1.2.3.4.5", "", ".", "....", "+0.0.0.0", "-0.0.0.0", "00.00.00.00",
        "255.256.1.1", "1.2.3.4\n", "１.2.3.4", "9.9.9.9", "+.1.1.1", "1.+.1.1", "25 5.1.1.1",
        "300.1.1.1", "1.1.1.0x1", "1e1.1.1.1",
    ];
    for sample in samples {
        assert_eq!(parse_host_addr(sample), expected(sample), "{:?}", sample);
    }
}

#[test]
fn main_config_gives_the_listen_address() {
    let main = MainConfig { host: "10.0.0.7".into(), port: 3000 };
    assert_eq!(main.host_addr(), Some([10, 0, 0, 7]));
    let bad = MainConfig { host: "example.org".into(), port: 3000 };
    assert_eq!(bad.host_addr(), None);
}
