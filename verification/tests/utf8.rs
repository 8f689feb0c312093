use splix::utf8::Utf8Decoder;

fn decode_all(decoder: &mut Utf8Decoder, bytes: &[u8]) -> Vec<char> {
    decoder.decode(&bytes.to_vec())
}

fn decode_in_one_call(bytes: &[u8]) -> Vec<char> {
    let mut decoder = Utf8Decoder::new();
    decode_all(&mut decoder, bytes)
}

#[test]
fn decodes_ascii() {
    assert_eq!(decode_in_one_call(b"Hello"), vec!['H', 'e', 'l', 'l', 'o']);
}

#[test]
fn decodes_multibyte_characters() {
    let text = "h\u{e9}llo \u{20ac} \u{1f600}";
    assert_eq!(
        decode_in_one_call(text.as_bytes()),
        text.chars().collect::<Vec<char>>()
    );
}

#[test]
fn fragmentation_is_decode_transparent() {
    // Chunking invariance: any split of the byte stream yields the same
    // characters as decoding it in one call.
    let text = "a\u{e9}\u{20ac}\u{1f600}z";
    let bytes = text.as_bytes();
    let whole = decode_in_one_call(bytes);
    for split in 0..=bytes.len() {
        let mut decoder = Utf8Decoder::new();
        let mut chars = decode_all(&mut decoder, &bytes[..split]);
        chars.extend(decode_all(&mut decoder, &bytes[split..]));
        assert_eq!(chars, whole);
    }
}

#[test]
fn fragmentation_byte_by_byte() {
    let text = "\u{1f600}\u{e9}x";
    let bytes = text.as_bytes();
    let whole = decode_in_one_call(bytes);
    let mut decoder = Utf8Decoder::new();
    let mut chars = Vec::new();
    for b in bytes {
        chars.extend(decode_all(&mut decoder, &[*b]));
    }
    assert_eq!(chars, whole);
}

#[test]
fn incomplete_tail_is_carried_to_the_next_call() {
    // A three-byte character split after its second byte: nothing comes
    // out until the final byte arrives.
    let euro = "\u{20ac}".as_bytes(); // three bytes
    let mut decoder = Utf8Decoder::new();
    assert_eq!(decode_all(&mut decoder, &euro[..2]), Vec::<char>::new());
    assert_eq!(decode_all(&mut decoder, &euro[2..]), vec!['\u{20ac}']);
}

#[test]
fn undecodable_bytes_are_dropped() {
    // A byte that can begin no character is dropped and decoding
    // resynchronises on the next byte.
    assert_eq!(decode_in_one_call(&[0xff, b'a']), vec!['a']);
    // A leading byte abandoned by a non-continuation byte is dropped too.
    assert_eq!(decode_in_one_call(&[0xc3, b'b']), vec!['b']);
}
