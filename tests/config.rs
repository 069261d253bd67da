use benefice::config::{collect_listen_ports, parse_ports};
use benefice::error::Rejection;

#[test]
fn listen_ports_are_read_from_config() {
    let text = "[[files]]\nkind = \"stdin\"\n\n[[files]]\nkind = \"listen\"\nname = \"web\"\nport = 5000\nprot = \"tcp\"\n\n[[files]]\nkind = \"connect\"\nhost = \"example.com\"\nport = 443\n\n[[files]]\nkind = \"listen\"\nname = \"api\"\nport = 8080\n";
    match parse_ports(text) {
        Ok(ports) => assert_eq!(ports, vec![5000, 8080]),
        Err(e) => panic!("unexpected {:?}", e),
    }
}

#[test]
fn config_without_files_declares_no_ports() {
    match parse_ports("args = [\"a\"]\n") {
        Ok(ports) => assert!(ports.is_empty()),
        Err(e) => panic!("unexpected {:?}", e),
    }
}

#[test]
fn malformed_config_is_rejected() {
    assert!(matches!(parse_ports("[[files]\nkind ="), Err(Rejection::MalformedConfig)));
}

#[test]
fn collect_keeps_listen_ports_in_order() {
    assert_eq!(
        collect_listen_ports(&vec![None, Some(7000), None, Some(80)]),
        vec![7000, 80]
    );
    assert_eq!(collect_listen_ports(&vec![]), Vec::<u16>::new());
}

#[test]
fn deeply_nested_config_is_rejected_before_decoding() {
    let text = format!("a = {}{}", "[".repeat(100_000), "]".repeat(100_000));
    assert!(matches!(parse_ports(&text), Err(Rejection::MalformedConfig)));
}

#[test]
fn deep_dotted_key_is_rejected_before_decoding() {
    let text = format!("{} = 1", vec!["k"; 50_000].join("."));
    assert!(matches!(parse_ports(&text), Err(Rejection::MalformedConfig)));
}

#[test]
fn nesting_marks_are_counted() {
    assert_eq!(benefice::config::count_nesting_marks("[[files]]\nkind = \"stdin\"\n"), 2);
    assert_eq!(benefice::config::count_nesting_marks("a = { b = [1.5] }"), 3);
    assert_eq!(benefice::config::count_nesting_marks(""), 0);
}
