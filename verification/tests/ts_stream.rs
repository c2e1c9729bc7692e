use tarmac::typescript::ts_stream::TSStream;

#[test]
fn new_stream_is_empty_at_line_start() {
    let stream = TSStream::new();
    assert_eq!(stream.indent_level(), 0);
    assert!(stream.is_start_of_line());
    assert_eq!(stream.as_str(), "");
}

#[test]
fn indentation_is_written_once_per_line() {
    let mut stream = TSStream::new();
    stream.indent();
    stream.indent();
    stream.write_str("a");
    stream.write_str("b");
    stream.write_str("c\nd");
    assert_eq!(stream.as_str(), "\t\tabc\n\t\td");
    assert!(!stream.is_start_of_line());
}

#[test]
fn empty_lines_are_not_indented() {
    let mut stream = TSStream::new();
    stream.indent();
    stream.write_str("a\n\n\nb\n");
    assert_eq!(stream.as_str(), "\ta\n\n\n\tb\n");
    assert!(stream.is_start_of_line());
    stream.write_str("");
    assert_eq!(stream.as_str(), "\ta\n\n\n\tb\n");
}

#[test]
fn unindent_takes_back_one_level() {
    let mut stream = TSStream::new();
    stream.indent();
    stream.write_str("{\n");
    stream.indent();
    assert_eq!(stream.indent_level(), 2);
    stream.write_str("x\n");
    stream.unindent();
    stream.write_str("}\n");
    stream.unindent();
    stream.write_str("end");
    assert_eq!(stream.indent_level(), 0);
    assert_eq!(stream.into_string(), "\t{\n\t\tx\n\t}\nend");
}

#[test]
fn line_ends_the_line_without_indenting() {
    let mut stream = TSStream::new();
    stream.indent();
    stream.line();
    stream.write_char('x');
    stream.line();
    assert_eq!(stream.as_str(), "\n\tx\n");
}

#[test]
fn writing_in_pieces_is_writing_the_whole() {
    let whole = "interface A {\n\tx: string;\n\n}\n";
    let mut at_once = TSStream::new();
    at_once.indent();
    at_once.write_str(whole);
    for cut in 0..whole.len() {
        let mut pieces = TSStream::new();
        pieces.indent();
        pieces.write_str(&whole[..cut]);
        pieces.write_str(&whole[cut..]);
        assert_eq!(pieces.as_str(), at_once.as_str());
    }
}
