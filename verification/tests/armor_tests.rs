use sel::armor::read_pubkey;

#[test]
fn read_pubkey_crlf_block() {
    let text = "-----BEGIN PUBLIC KEY-----\r\nABCD\r\nEF+/\r\n-----END PUBLIC KEY-----\r\n";
    assert_eq!(read_pubkey(text), "ABCDEF+/");
}

#[test]
fn read_pubkey_lf_block() {
    let text = "-----BEGIN PUBLIC KEY-----\nMIGf\nMA0G\n-----END PUBLIC KEY-----\n";
    assert_eq!(read_pubkey(text), "MIGfMA0G");
}

#[test]
fn read_pubkey_empty_text() {
    assert_eq!(read_pubkey(""), "");
}

#[test]
fn read_pubkey_last_line_without_newline() {
    assert_eq!(read_pubkey("-----BEGIN X-----\nAB\nCD"), "ABCD");
}

#[test]
fn read_pubkey_keeps_bare_carriage_return_of_last_line() {
    // `str::lines` only drops a carriage return that stands before a line feed.
    assert_eq!(read_pubkey("AB\r\nCD\r"), "ABCD\r");
}

#[test]
fn read_pubkey_drops_every_dash_line() {
    assert_eq!(read_pubkey("-a\nb\n--\n-\nc\n\n"), "bc");
}

#[test]
fn read_pubkey_keeps_dashes_inside_lines() {
    assert_eq!(read_pubkey("a-b\n x-\n"), "a-b x-");
}

#[test]
fn read_pubkey_unicode_lines() {
    assert_eq!(read_pubkey("é\r\n-é\n漢字"), "é漢字");
}

#[test]
fn read_pubkey_same_for_crlf_and_lf() {
    let crlf = "-----BEGIN PUBLIC KEY-----\r\nMIIB\r\n\r\nIjAN\r\n-----END PUBLIC KEY-----\r\n";
    let lf = crlf.replace("\r\n", "\n");
    assert_eq!(read_pubkey(crlf), read_pubkey(&lf));
    assert_eq!(read_pubkey(&lf), "MIIBIjAN");
}
