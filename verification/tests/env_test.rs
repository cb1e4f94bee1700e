use schematic::config::HandlerError;
use schematic::env::{
    ignore_empty, parse_bool, split_colon, split_comma, split_parsed, split_pieces, split_semicolon,
    split_space,
};

#[test]
fn ignores_empty_values() {
    assert_eq!(ignore_empty::<usize>("   ".to_string()), Ok(None));
    assert_eq!(ignore_empty::<usize>(" 12 ".to_string()), Ok(Some(12)));
    assert_eq!(
        ignore_empty::<usize>(" nope ".to_string()),
        Err(HandlerError(
            "Failed to parse \"nope\" into the correct type.".to_string()
        ))
    );
}

#[test]
fn parses_truthy_words() {
    for word in ["1", "true", "TRUE", "Yes", "on", "enabled", "ENABLED"] {
        assert_eq!(parse_bool(word.to_string()), Ok(Some(true)), "{word}");
    }
    for word in ["0", "false", "off", "", "truthy", "enable"] {
        assert_eq!(parse_bool(word.to_string()), Ok(Some(false)), "{word}");
    }
}

#[test]
fn splits_and_trims_pieces() {
    // Every piece is kept as it is; the parsers trim them and skip empty ones
    assert_eq!(
        split_pieces(" a, b ,,c ", ','),
        vec![" a".to_string(), " b ".to_string(), String::new(), "c ".to_string()]
    );
    assert_eq!(split_pieces("", ','), vec![String::new()]);
    assert_eq!(split_comma::<String>(" a, b ,,c ".to_string()), Ok(Some(vec!["a".to_string(), "b".to_string(), "c".to_string()])));
    assert_eq!(split_comma::<u8>(" ,, ".to_string()), Ok(Some(vec![])));
}

#[test]
fn splits_on_each_delimiter() {
    assert_eq!(split_comma::<usize>("1,2, 3".to_string()), Ok(Some(vec![1, 2, 3])));
    assert_eq!(split_colon::<usize>("1:2".to_string()), Ok(Some(vec![1, 2])));
    assert_eq!(split_semicolon::<usize>("1;;2".to_string()), Ok(Some(vec![1, 2])));
    assert_eq!(split_space::<String>("a  b".to_string()), Ok(Some(vec!["a".to_string(), "b".to_string()])));
}

#[test]
fn split_fails_on_an_unparsable_piece() {
    assert_eq!(
        split_comma::<usize>("1,x".to_string()),
        Err(HandlerError(
            "Failed to parse \"x\" into the correct type.".to_string()
        ))
    );
}

#[test]
fn parsed_pieces_are_collected_in_order() {
    assert_eq!(
        split_parsed(" 3, ,1,2 ", ',', vec![Some(3u8), Some(1), Some(2)]),
        Ok(Some(vec![3, 1, 2]))
    );
    assert_eq!(
        split_parsed("a,b,c", ',', vec![Some(1u8), None, None]),
        Err(HandlerError(
            "Failed to parse \"b\" into the correct type.".to_string()
        ))
    );
    assert_eq!(split_parsed::<u8>(" , ", ',', vec![]), Ok(Some(vec![])));
    assert_eq!(split_comma::<u8>(" 3, ,1,2 ".to_string()), Ok(Some(vec![3, 1, 2])));
    assert_eq!(ignore_empty::<u16>(" \t\n\u{a0}\u{3000} ".to_string()), Ok(None));
}
