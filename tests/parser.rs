use lean_checker::environment::{InfoAnnotation, IntegrityError, NotFoundError};
use lean_checker::parser::{
    check_eol, command_tag, index_tag, parse_info_annotation, Added, CommandTag, Expected,
    IndexTag, LineError, ParseError, Parser,
};

fn run(lines: &[&str]) -> Parser {
    let mut p = Parser::new();
    for l in lines {
        p.parse_line(l).unwrap();
    }
    p
}

fn base() -> Parser {
    run(&["1 #NS 0 foo", "2 #NS 0 x", "0 #ES 0", "1 #EV 0"])
}

#[test]
fn identity_definition_round_trip() {
    let mut p = base();
    assert_eq!(p.parse_line("2 #EL #BD 2 0 1"), Ok(Added::Expr(2)));
    assert_eq!(p.parse_line("#DEF 1 0 2"), Ok(Added::Decl(1)));
    let env = p.get_environment();
    assert_eq!(
        env.decl_to_string(1),
        Ok("definition foo Sort 0 := (x : Sort 0), x".to_string())
    );
}

#[test]
fn whole_program_of_lines() {
    let p = run(&[
        "1 #NS 0 Nat",
        "2 #NS 1 zero",
        "3 #NS 1 succ",
        "4 #NS 0 u",
        "5 #NI 1 7",
        "1 #US 0",
        "2 #UP 4",
        "3 #UM 1 2",
        "4 #UIM 3 2",
        "0 #ES 1",
        "1 #EC 1",
        "2 #EP #BD 4 1 1",
        "3 #EC 1 2 4",
        "4 #EA 2 3",
        "#IND 0 1 0 2 2 1 3 2",
        "#DEF 5 0 1 4",
    ]);
    let env = p.get_environment();
    assert_eq!(env.name_to_string(5), Ok("Nat.7".to_string()));
    assert_eq!(env.level_to_string(4), Ok("(imax (max (succ 0) u) u)".to_string()));
    assert_eq!(env.expr_to_string(3), Ok("Nat.{u,(imax (max (succ 0) u) u)}".to_string()));
    assert_eq!(
        env.expr_to_string(4),
        Ok("((u : Nat), Nat Nat.{u,(imax (max (succ 0) u) u)})".to_string())
    );
    assert_eq!(
        env.decl_to_string(1),
        Ok("inductive Nat Sort (succ 0)\n| Nat.zero : Nat \n| Nat.succ : (u : Nat), Nat".to_string())
    );
    assert_eq!(env.decl_to_string(5), Ok("definition Nat.7.{u} Sort (succ 0) := Nat".to_string()));
}

#[test]
fn added_entities() {
    let mut p = Parser::new();
    assert_eq!(p.parse_line("  3 #NS 0 a  "), Ok(Added::Name(3)));
    assert_eq!(p.parse_line("4 #NI 3 2"), Ok(Added::Name(4)));
    assert_eq!(p.parse_line("1 #UP 3"), Ok(Added::Level(1)));
    assert_eq!(p.parse_line("7 #ES 1"), Ok(Added::Expr(7)));
    assert_eq!(p.parse_line("#IND 0 4 7 0"), Ok(Added::Decl(4)));
}

#[test]
fn trailing_token_is_refused_and_nothing_added() {
    let mut p = Parser::new();
    assert_eq!(p.parse_line("1 #NS 0 foo bar"), Err(LineError::Grammar(Expected::Eol)));
    assert_eq!(p.parse_line("1 #NI 0 5 6"), Err(LineError::Grammar(Expected::Eol)));
    assert_eq!(p.parse_line("1 #US 0 0"), Err(LineError::Grammar(Expected::Eol)));
    assert_eq!(p.parse_line("1 #UM 0 0 x"), Err(LineError::Grammar(Expected::Eol)));
    assert_eq!(p.parse_line("0 #ES 0 0"), Err(LineError::Grammar(Expected::Eol)));
    assert_eq!(p.parse_line("0 #EV 0 1"), Err(LineError::Grammar(Expected::Eol)));
    assert_eq!(p.parse_line("0 #EV 0"), Ok(Added::Expr(0)));
    assert_eq!(p.parse_line("1 #EA 0 0 0"), Err(LineError::Grammar(Expected::Eol)));
    let env = p.get_environment();
    assert_eq!(env.name_to_string(1), Err(NotFoundError));
    assert_eq!(env.level_to_string(1), Err(NotFoundError));
    assert_eq!(env.expr_to_string(1), Err(NotFoundError));
}

#[test]
fn trailing_word_after_index_list_is_refused() {
    let mut p = base();
    assert_eq!(p.parse_line("3 #EC 1 0 x"), Err(LineError::Grammar(Expected::Eol)));
    assert_eq!(p.parse_line("#DEF 1 0 0 2 end"), Err(LineError::Grammar(Expected::Eol)));
    assert_eq!(p.parse_line("#IND 0 1 0 1 2 0 z"), Err(LineError::Grammar(Expected::Eol)));
    let env = p.get_environment();
    assert_eq!(env.expr_to_string(3), Err(NotFoundError));
    assert_eq!(env.decl_to_string(1), Err(NotFoundError));
}

#[test]
fn grammar_errors() {
    let mut p = base();
    assert_eq!(p.parse_line(""), Err(LineError::Grammar(Expected::IndexOrCommand)));
    assert_eq!(p.parse_line("   "), Err(LineError::Grammar(Expected::IndexOrCommand)));
    assert_eq!(p.parse_line("5"), Err(LineError::Grammar(Expected::IndexCommand)));
    assert_eq!(p.parse_line("5 #NS x foo"), Err(LineError::Grammar(Expected::Index)));
    assert_eq!(p.parse_line("5 #NS 0"), Err(LineError::Grammar(Expected::Identifier)));
    assert_eq!(p.parse_line("5 #NI 0 y"), Err(LineError::Grammar(Expected::Integer)));
    assert_eq!(p.parse_line("5 #EV -1"), Err(LineError::Grammar(Expected::Integer)));
    assert_eq!(p.parse_line("5 #EL"), Err(LineError::Grammar(Expected::Info)));
    assert_eq!(p.parse_line("5 #EL #BX 1 0 0"), Err(LineError::Grammar(Expected::InfoTag)));
    assert_eq!(p.parse_line("5 #EP #BI 1 0"), Err(LineError::Grammar(Expected::Index)));
    assert_eq!(p.parse_line("#IND"), Err(LineError::Grammar(Expected::Number)));
    assert_eq!(p.parse_line("#IND 0 1 0"), Err(LineError::Grammar(Expected::Number)));
    assert_eq!(p.parse_line("#IND 0 1 0 2 1 0"), Err(LineError::Grammar(Expected::Index)));
    assert_eq!(p.parse_line("#DEF 1 0"), Err(LineError::Grammar(Expected::Index)));
}

#[test]
fn unknown_and_unsupported_tags() {
    let mut p = Parser::new();
    assert_eq!(p.parse_line("1 #ZZ 0"), Err(LineError::UnknownIndexCommand));
    assert_eq!(p.parse_line("#ZZ 0"), Err(LineError::UnknownCommand));
    assert_eq!(p.parse_line("1 #EJ 1 2 3"), Err(LineError::UnsupportedIndexCommand(IndexTag::Ej)));
    assert_eq!(p.parse_line("1 #ELN 4"), Err(LineError::UnsupportedIndexCommand(IndexTag::Eln)));
    assert_eq!(p.parse_line("1 #ELS 61"), Err(LineError::UnsupportedIndexCommand(IndexTag::Els)));
    assert_eq!(p.parse_line("1 #EZ 1 2 3 4"), Err(LineError::UnsupportedIndexCommand(IndexTag::Ez)));
    assert_eq!(p.parse_line("#AX 1 2"), Err(LineError::UnsupportedCommand(CommandTag::Ax)));
    assert_eq!(p.parse_line("#QUOT"), Err(LineError::UnsupportedCommand(CommandTag::Quot)));
    assert_eq!(p.parse_line("#PREFIX 1 2 3"), Err(LineError::UnsupportedCommand(CommandTag::Prefix)));
    assert_eq!(p.parse_line("#POSTFIX 1 2 3"), Err(LineError::UnsupportedCommand(CommandTag::Postfix)));
    assert_eq!(p.parse_line("#INFIX 1 2 3"), Err(LineError::UnsupportedCommand(CommandTag::Infix)));
}

#[test]
fn integrity_errors_from_lines() {
    let mut p = base();
    assert_eq!(p.parse_line("1 #NS 0 bar"), Err(LineError::Integrity(IntegrityError::Occupied)));
    assert_eq!(p.parse_line("0 #NS 0 bar"), Err(LineError::Integrity(IntegrityError::Reserved)));
    assert_eq!(p.parse_line("3 #NS 9 bar"), Err(LineError::Integrity(IntegrityError::Missing)));
    assert_eq!(p.parse_line("0 #US 0"), Err(LineError::Integrity(IntegrityError::Occupied)));
    assert_eq!(p.parse_line("5 #EA 0 8"), Err(LineError::Integrity(IntegrityError::Missing)));
    assert_eq!(p.parse_line("#DEF 1 0 9"), Err(LineError::Integrity(IntegrityError::Missing)));
    let env = p.get_environment();
    assert_eq!(env.name_to_string(1), Ok("foo".to_string()));
    assert_eq!(env.name_to_string(3), Err(NotFoundError));
}

#[test]
fn tags_and_annotations() {
    assert_eq!(parse_info_annotation("#BD"), Ok(InfoAnnotation::Default));
    assert_eq!(parse_info_annotation("#BI"), Ok(InfoAnnotation::Implicit));
    assert_eq!(parse_info_annotation("#BS"), Ok(InfoAnnotation::StrictImplicit));
    assert_eq!(parse_info_annotation("#BC"), Ok(InfoAnnotation::InstImplicit));
    assert_eq!(parse_info_annotation("#B"), Err(LineError::Grammar(Expected::InfoTag)));
    assert_eq!(index_tag("#UIM"), Some(IndexTag::Uim));
    assert_eq!(index_tag("#UI"), None);
    assert_eq!(command_tag("#DEF"), Some(CommandTag::Def));
    assert_eq!(command_tag("DEF"), None);
    assert_eq!(check_eol("  \t"), Ok(()));
    assert_eq!(check_eol(" x "), Err(LineError::Grammar(Expected::Eol)));
}

#[test]
fn error_messages() {
    let e = ParseError::new(LineError::Grammar(Expected::Eol), 3);
    assert_eq!(e.message(), "Parse error at line 3: Expecting EOL");
    let e = ParseError::new(LineError::UnsupportedCommand(CommandTag::Quot), 12);
    assert_eq!(e.message(), "Parse error at line 12: Not implemented: #QUOT");
    assert_eq!(LineError::Io("broken pipe".to_string()).message(), "broken pipe");
    assert_eq!(
        LineError::Integrity(IntegrityError::Missing).message(),
        "Reference to a missing index"
    );
    assert_eq!(LineError::UnknownIndexCommand.message(), "Unsupported index command");
    assert_eq!(LineError::Grammar(Expected::IndexOrCommand).message(), "Expecting index or command");
}

#[test]
fn lines_are_numbered_from_one() {
    let mut p = Parser::new();
    assert_eq!(p.line_no(), 1);
    assert_eq!(p.parse_next_line("1 #NS 0 a"), Ok(Added::Name(1)));
    assert_eq!(p.parse_next_line("1 #US 0"), Ok(Added::Level(1)));
    assert_eq!(p.line_no(), 3);
    assert_eq!(
        p.parse_next_line("1 #NS 0 b"),
        Err(ParseError::new(LineError::Integrity(IntegrityError::Occupied), 3))
    );
    assert_eq!(p.line_no(), 3);
    let e = p.read_failure("disk gone".to_string());
    assert_eq!(e, ParseError::new(LineError::Io("disk gone".to_string()), 3));
    assert_eq!(e.message(), "Parse error at line 3: disk gone");
}
