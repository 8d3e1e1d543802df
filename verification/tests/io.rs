use fractal_core::io::{collect_parsed_flames, find_flame_by_name, flame_blocks, ParseError};

fn slices<'a>(text: &'a str) -> Vec<&'a str> {
    flame_blocks(text).into_iter().map(|(a, b)| &text[a..b]).collect()
}

#[test]
fn finds_each_flame_block() {
    let text = "<flames>\n<flame name=\"a\"><xform/></flame>\n<flame name=\"b\">x</flame></flames>";
    let blocks = slices(text);
    assert_eq!(blocks, vec!["<flame name=\"a\"><xform/></flame>", "<flame name=\"b\">x</flame>"]);
}

#[test]
fn stops_at_an_unterminated_block() {
    let text = "<flame name=\"a\"></flame><flame name=\"b\">no end";
    assert_eq!(slices(text), vec!["<flame name=\"a\"></flame>"]);
    assert_eq!(flame_blocks("<flame name=\"x\""), vec![]);
    assert_eq!(flame_blocks(""), vec![]);
    assert_eq!(flame_blocks("<flames></flames>"), vec![]);
}

#[test]
fn block_ranges_are_byte_offsets() {
    let text = "é<flame a=\"ü\"></flame>";
    assert_eq!(flame_blocks(text), vec![(2, 24)]);
    assert_eq!(&text[2..24], "<flame a=\"ü\"></flame>");
}

#[test]
fn collects_only_parsed_blocks() {
    let results: Vec<Result<u32, ParseError>> =
        vec![Ok(1), Err(ParseError::InvalidData("bad".to_string())), Ok(3)];
    assert_eq!(collect_parsed_flames(results).unwrap(), vec![1, 3]);
    let none: Vec<Result<u32, ParseError>> = vec![Err(ParseError::Xml("x".to_string()))];
    match collect_parsed_flames(none) {
        Err(ParseError::InvalidData(m)) => assert_eq!(m, "No valid flames found in file"),
        other => panic!("unexpected {:?}", other),
    }
    match collect_parsed_flames::<u32>(Vec::new()) {
        Err(ParseError::InvalidData(m)) => assert_eq!(m, "No valid flames found in file"),
        other => panic!("unexpected {:?}", other),
    }
}

#[test]
fn finds_flame_by_name_or_lists_names() {
    let flames = vec![("a".to_string(), 1), ("b".to_string(), 2), ("b".to_string(), 3)];
    assert_eq!(find_flame_by_name(flames.clone(), "b"), Ok(2));
    assert_eq!(
        find_flame_by_name(flames, "c"),
        Err("Flame 'c' not found in file. Available: a, b, b".to_string())
    );
    assert_eq!(
        find_flame_by_name(Vec::<(String, u8)>::new(), "c"),
        Err("Flame 'c' not found in file. Available: ".to_string())
    );
}
