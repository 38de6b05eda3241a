use batpu2::assembly::{parse_line, parse_lines, AsmError, Token};

#[test]
fn ast_parses() {
    let code = r"
		.start
		  MOV 1 2 3  # comment text
		  LDI r1 ' '
		  TEST < .start";

    let ast: Vec<_> = parse_lines(code);
    assert_eq!(ast.len(), 4);
    let first = ast[0].as_ref().unwrap();
    assert_eq!(first.line_number, 2);
    assert_eq!(first.label.unwrap().span, ".start");
    assert_eq!(first.label.unwrap().char_number, 3);
    assert!(first.mnemonic.is_none());
    let second = ast[1].as_ref().unwrap();
    assert_eq!(second.line_number, 3);
    assert_eq!(second.mnemonic.unwrap().span, "MOV");
    assert_eq!(second.mnemonic.unwrap().char_number, 5);
    assert_eq!(second.args.len(), 3);
    assert_eq!(second.args[2].span, "3");
    assert_eq!(second.comment.unwrap().span, "# comment text");
    assert_eq!(second.comment.unwrap().char_number, 16);
    let third = ast[2].as_ref().unwrap();
    assert_eq!(third.args[1].span, "' '");
    let fourth = ast[3].as_ref().unwrap();
    assert_eq!(fourth.args[1].span, ".start");
}

#[test]
fn assembler_assembles() {
    let code = r"
		.start
		  MOV 1 5 # comment text
	    .second
		  LDI r1 ' '
		  BRH < .start";

    let ast: Vec<_> = parse_lines(code);
    assert_eq!(ast.len(), 5);
    assert!(ast.iter().all(|line| line.is_ok()));
    assert_eq!(ast[2].as_ref().unwrap().label.unwrap().span, ".second");
}

#[test]
fn assembler_assembles_2() {
    let code = r"
		ldi r15 buffer_chars
		define write -1
		LDI r4 'D'
		STR r15 r4 write";

    let ast: Vec<_> = parse_lines(code);
    assert_eq!(ast.len(), 4);
    assert_eq!(ast[1].as_ref().unwrap().mnemonic.unwrap().span, "define");
    assert_eq!(ast[1].as_ref().unwrap().args[1].span, "-1");
}

#[test]
fn fourth_operand_is_refused() {
    match parse_line(7, "ADD r1 r2 r3 r4 r5") {
        Err(AsmError::TooManyTokens { line_number, token }) => {
            assert_eq!(line_number, 7);
            assert_eq!(token.span, "r4");
            assert_eq!(token.char_number, 14);
        }
        _ => panic!("expected TooManyTokens"),
    }
}

#[test]
fn blank_and_comment_lines_are_counted_and_left_out() {
    let lines = parse_lines("\n  \t\n; only a comment\nNOP\r\n\nHLT ; stop");
    assert_eq!(lines.len(), 2);
    assert_eq!(lines[0].as_ref().unwrap().line_number, 4);
    assert_eq!(lines[0].as_ref().unwrap().mnemonic.unwrap().span, "NOP");
    assert!(lines[0].as_ref().unwrap().comment.is_none());
    assert_eq!(lines[1].as_ref().unwrap().line_number, 6);
    assert_eq!(lines[1].as_ref().unwrap().comment.unwrap().span, "; stop");
}

#[test]
fn quoted_space_is_one_token() {
    let line = parse_line(1, "LDI r1 \"  \" / x").unwrap();
    assert_eq!(line.args.len(), 2);
    assert_eq!(line.args[1].span, "\"  \"");
    assert_eq!(line.args[1].char_number, 8);
    assert_eq!(line.comment.unwrap().span, "/ x");
    // quotes that do not match are two tokens
    let line = parse_line(1, "LDI ' \"").unwrap();
    assert_eq!(line.args.len(), 2);
    assert_eq!(line.args[0].span, "'");
    assert_eq!(line.args[1].span, "\"");
}

#[test]
fn columns_are_byte_offsets_from_one() {
    let line = parse_line(1, "é ADD é").unwrap();
    assert_eq!(line.mnemonic.unwrap().span, "é");
    assert_eq!(line.mnemonic.unwrap().char_number, 1);
    assert_eq!(line.args[0].span, "ADD");
    assert_eq!(line.args[0].char_number, 4);
    assert_eq!(line.args[1].span, "é");
    assert_eq!(line.args[1].char_number, 8);
}

#[test]
fn tokens_compare_by_text_and_column() {
    let text = String::from("ADD ADD");
    let first = Token::new(1, &text[0..3]);
    let second = Token::new(5, &text[4..7]);
    assert!(first == Token::new(1, "ADD"));
    assert!(first != second);
    assert!(first == *"ADD");
    assert!(second == *"ADD");
    assert!(second.eq_str("ADD"));
    assert!(!second.eq_str("ADDD"));
    assert_eq!(second.as_str(), "ADD");
    assert_eq!(second.len(), 3);
    assert!(second.starts_with('A'));
}
