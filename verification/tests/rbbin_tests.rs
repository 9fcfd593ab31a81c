use ethdec::rbbin::{
    key_kind, value_kind, Deserializer, DeserializerState, Error, KeyKind, ValueKind,
};

#[test]
fn reader_walks_through_bytes() {
    let data = [7u8, 8, 9];
    let mut de = Deserializer::from_bytes(&data);
    assert_eq!(de.position(), 0);
    assert_eq!(de.state(), DeserializerState::Typed);
    assert_eq!(de.peek_byte(), Ok(7));
    assert_eq!(de.peek_byte(), Ok(7));
    assert_eq!(de.next_byte(), Ok(7));
    assert_eq!(de.next_byte(), Ok(8));
    assert_eq!(de.position(), 2);
    assert_eq!(de.peek_byte(), Ok(9));
    assert_eq!(de.next_byte(), Ok(9));
    assert_eq!(de.peek_byte(), Err(Error::Eof));
    assert_eq!(de.next_byte(), Err(Error::Eof));
    assert_eq!(de.position(), 3);
    de.set_state(DeserializerState::ValueToken);
    assert_eq!(de.state(), DeserializerState::ValueToken);
}

#[test]
fn integers_are_little_endian() {
    let data = [1u8, 2, 3, 4, 0xff, 0xff, 0xff, 0xff, 0xfe, 0xff, 0xff, 0xff, 0, 0, 0, 0x80, 5];
    let mut de = Deserializer::from_bytes(&data);
    assert_eq!(de.read_u32(), Ok(0x0403_0201));
    assert_eq!(de.read_u32(), Ok(0xffff_ffff));
    assert_eq!(de.read_i32(), Ok(-2));
    assert_eq!(de.read_i32(), Ok(i32::MIN));
    assert_eq!(de.position(), 16);
    // fewer than four bytes are left: nothing is read
    assert_eq!(de.read_u32(), Err(Error::Eof));
    assert_eq!(de.read_i32(), Err(Error::Eof));
    assert_eq!(de.position(), 16);
    assert_eq!(de.next_byte(), Ok(5));
}

#[test]
fn positive_i32() {
    let data = [0x40u8, 0x42, 0x0f, 0x00];
    let mut de = Deserializer::from_bytes(&data);
    assert_eq!(de.read_i32(), Ok(1_000_000));
}

#[test]
fn texts_are_read_by_size() {
    let data = "abžc".as_bytes();
    let mut de = Deserializer::from_bytes(data);
    assert_eq!(de.read_str(2), Ok("ab"));
    assert_eq!(de.read_str(0), Ok(""));
    assert_eq!(de.read_str(4), Err(Error::Eof));
    assert_eq!(de.position(), 2);
    // half a character is no text, and is read all the same
    assert_eq!(de.read_str(1), Err(Error::Message("Bad string".to_owned())));
    assert_eq!(de.position(), 3);
    let mut de = Deserializer::from_bytes(data);
    assert_eq!(de.read_str(5), Ok("abžc"));
    assert_eq!(de.peek_byte(), Err(Error::Eof));
}

#[test]
fn texts_stand_behind_their_length() {
    let data = [2u8, 0, 0, 0, b'h', b'i', 0, 0, 0, 0, 3, 0, 0, 0, b'x'];
    let mut de = Deserializer::from_bytes(&data);
    assert_eq!(de.read_str_size(), Ok("hi"));
    assert_eq!(de.read_str_size(), Ok(""));
    assert_eq!(de.read_str_size(), Err(Error::Eof));
    let short = [2u8, 0, 0];
    assert_eq!(Deserializer::from_bytes(&short).read_str_size(), Err(Error::Eof));
}

#[test]
fn numbers_are_written_as_texts() {
    let data = [1u8, 0, 0, 0, b'5', 2, 0, 0, 0, b'-', b'5', 2, 0, 0, 0, b'5', b'4'];
    let mut de = Deserializer::from_bytes(&data);
    assert_eq!(de.read_str_int(), Ok(5));
    assert_eq!(de.read_str_int(), Ok(-5));
    assert_eq!(de.read_str_int(), Ok(54));
    assert_eq!(de.read_str_int(), Err(Error::Eof));

    let bad = [3u8, 0, 0, 0, b'1', b'x', b'2'];
    assert_eq!(Deserializer::from_bytes(&bad).read_str_int(), Err(Error::Syntax));
    let empty = [0u8, 0, 0, 0];
    assert_eq!(Deserializer::from_bytes(&empty).read_str_int(), Err(Error::Syntax));
    let not_text = [1u8, 0, 0, 0, 0xff];
    assert_eq!(
        Deserializer::from_bytes(&not_text).read_str_int(),
        Err(Error::Message("Bad string".to_owned()))
    );
}

#[test]
fn errors_describe_themselves() {
    assert_eq!(Error::custom("odd".to_owned()), Error::Message("odd".to_owned()));
    assert_eq!(Error::custom("odd".to_owned()).description(), "odd");
    assert_eq!(Error::Eof.description(), "unexpected end of input");
    assert_eq!(Error::Syntax.description(), "Syntax error");
    assert_eq!(Error::TrailingCharacters.description(), "Trailing characters");
}

#[test]
fn first_byte_tells_the_kind_of_a_value() {
    assert_eq!(value_kind(1), ValueKind::Table);
    assert_eq!(value_kind(2), ValueKind::Table);
    assert_eq!(value_kind(b'c'), ValueKind::Table);
    assert_eq!(value_kind(3), ValueKind::List);
    assert_eq!(value_kind(0), ValueKind::Unknown);
    assert_eq!(value_kind(4), ValueKind::Unknown);
    assert_eq!(value_kind(b'd'), ValueKind::Unknown);
}

#[test]
fn mark_tells_the_kind_of_a_key() {
    assert_eq!(key_kind(b'c'), KeyKind::End);
    assert_eq!(key_kind(1), KeyKind::Key(DeserializerState::ValueToken));
    assert_eq!(key_kind(2), KeyKind::Key(DeserializerState::Typed));
    assert_eq!(key_kind(3), KeyKind::Invalid);
    assert_eq!(key_kind(0), KeyKind::Invalid);
}

#[test]
fn refused_text_is_read_with_its_length() {
    let data = [1u8, 0, 0, 0, 0xff, 7];
    let mut de = Deserializer::from_bytes(&data);
    assert_eq!(
        de.read_str_size(),
        Err(Error::Message("Bad string".to_owned()))
    );
    assert_eq!(de.position(), 5);
    assert_eq!(de.next_byte(), Ok(7));
    // a length without its text: the length is read
    let data = [9u8, 0, 0, 0, b'a'];
    let mut de = Deserializer::from_bytes(&data);
    assert_eq!(de.read_str_size(), Err(Error::Eof));
    assert_eq!(de.position(), 4);
    // a number that is none: the text is read
    let data = [1u8, 0, 0, 0, b'x', 7];
    let mut de = Deserializer::from_bytes(&data);
    assert_eq!(de.read_str_int(), Err(Error::Syntax));
    assert_eq!(de.position(), 5);
}

#[test]
fn unsigned_numbers_take_no_minus_sign() {
    let data = [
        1u8, 0, 0, 0, b'5', 2, 0, 0, 0, b'+', b'7', 3, 0, 0, 0, b'2', b'5', b'6', 2, 0, 0, 0, b'-',
        b'0', 2, 0, 0, 0, b'-', b'5', 1, 0, 0, 0, b'-', 0, 0, 0, 0, 9,
    ];
    let mut de = Deserializer::from_bytes(&data);
    assert_eq!(de.read_str_uint(), Ok(5));
    assert_eq!(de.read_str_uint(), Ok(7));
    assert_eq!(de.read_str_uint(), Ok(256));
    assert_eq!(de.read_str_uint(), Err(Error::Syntax));
    assert_eq!(de.position(), 24);
    assert_eq!(de.read_str_uint(), Err(Error::Syntax));
    assert_eq!(de.read_str_uint(), Err(Error::Syntax));
    assert_eq!(de.read_str_uint(), Err(Error::Syntax));
    assert_eq!(de.next_byte(), Ok(9));
    assert_eq!(de.read_str_uint(), Err(Error::Eof));

    // the same texts as signed numbers
    let mut de = Deserializer::from_bytes(&data[18..30]);
    assert_eq!(de.read_str_int(), Ok(0));
    assert_eq!(de.read_str_int(), Ok(-5));

    let big = [20u8, 0, 0, 0];
    let mut text = big.to_vec();
    text.extend_from_slice(b"18446744073709551615");
    assert_eq!(
        Deserializer::from_bytes(&text).read_str_uint(),
        Ok(u64::MAX as u128)
    );
    let not_text = [1u8, 0, 0, 0, 0xff];
    assert_eq!(
        Deserializer::from_bytes(&not_text).read_str_uint(),
        Err(Error::Message("Bad string".to_owned()))
    );
}
