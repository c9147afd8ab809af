use bytes::BytesMut;
use csgo_console::reader::{read_lines, LineReader};

fn chunks(parts: &[&[u8]]) -> Vec<BytesMut> {
    parts.iter().map(|p| BytesMut::from(*p)).collect()
}

#[test]
fn lines_do_not_depend_on_chunk_boundaries() {
    let whole: &[u8] = b"Map: de_dust2\nEVERYONE CAN BUY!\nDamage Given to \"Bob\" - 25 in 2 hits\npartial";
    let single = read_lines(chunks(&[whole]));
    for cut in 0..whole.len() {
        let split = read_lines(chunks(&[&whole[..cut], &whole[cut..]]));
        assert_eq!(split, single);
    }
    let bytewise: Vec<&[u8]> = whole.chunks(1).collect();
    assert_eq!(read_lines(chunks(&bytewise)), single);
    assert_eq!(
        single,
        vec![
            "Map: de_dust2".to_string(),
            "EVERYONE CAN BUY!".to_string(),
            "Damage Given to \"Bob\" - 25 in 2 hits".to_string(),
        ]
    );
}

#[test]
fn multibyte_character_split_across_chunks() {
    let whole = "caf\u{e9} \u{263a}\nnext\n".as_bytes();
    let single = read_lines(chunks(&[whole]));
    assert_eq!(single, vec!["caf\u{e9} \u{263a}".to_string(), "next".to_string()]);
    for cut in 0..whole.len() {
        assert_eq!(read_lines(chunks(&[&whole[..cut], &whole[cut..]])), single);
    }
}

#[test]
fn invalid_bytes_are_replaced() {
    let lines = read_lines(chunks(&[b"a\xffb\n"]));
    assert_eq!(lines, vec!["a\u{fffd}b".to_string()]);
}

#[test]
fn reader_waits_for_a_complete_line() {
    let mut reader = LineReader::new();
    assert_eq!(reader.read_line(), None);
    reader.push_buffer(BytesMut::from(&b"hello "[..]));
    assert_eq!(reader.read_line(), None);
    reader.push_buffer(BytesMut::new());
    reader.push_buffer(BytesMut::from(&b"world\nsecond"[..]));
    assert_eq!(reader.read_line(), Some("hello world".to_string()));
    assert_eq!(reader.read_line(), None);
    reader.push_buffer(BytesMut::from(&b"\n\nthird\n"[..]));
    assert_eq!(reader.read_line(), Some("second".to_string()));
    assert_eq!(reader.read_line(), Some("".to_string()));
    assert_eq!(reader.read_line(), Some("third".to_string()));
    assert_eq!(reader.read_line(), None);
}

#[test]
fn empty_stream_has_no_lines() {
    assert!(read_lines(Vec::new()).is_empty());
    assert!(read_lines(chunks(&[b"no newline"])).is_empty());
}
