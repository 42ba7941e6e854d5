use kernel::echo::recv;

fn reply(input: &[u8]) -> (usize, Vec<u8>) {
    recv(input)
}

#[test]
fn every_line_is_reversed() {
    assert_eq!(reply(b"ab\ncd"), (5, b"ba\ndc".to_vec()));
    assert_eq!(reply(b"hello"), (5, b"olleh".to_vec()));
}

#[test]
fn empty_input_gives_an_empty_reply() {
    assert_eq!(reply(b""), (0, Vec::new()));
}

#[test]
fn newlines_stay_in_place() {
    assert_eq!(reply(b"\n"), (1, b"\n".to_vec()));
    assert_eq!(reply(b"abc\n"), (4, b"cba\n".to_vec()));
    assert_eq!(reply(b"\nxy\n\nz"), (6, b"\nyx\n\nz".to_vec()));
}

#[test]
fn replying_twice_gives_the_input_back() {
    let input = b"GET / HTTP/1.1\r\nHost: x\r\n\r\n";
    let (n, once) = reply(input);
    assert_eq!(n, input.len());
    let (m, twice) = reply(&once);
    assert_eq!(m, once.len());
    assert_eq!(twice, input.to_vec());
}
