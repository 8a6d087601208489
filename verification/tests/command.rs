use hcwatch::command::{tokenize, CommandError, CommandSpec};

fn owned(tokens: &[&str]) -> Vec<String> {
    tokens.iter().map(|t| t.to_string()).collect()
}

#[test]
fn tokenize_cuts_at_every_space() {
    assert_eq!(tokenize("ls -l /tmp"), owned(&["ls", "-l", "/tmp"]));
    assert_eq!(tokenize("backup"), owned(&["backup"]));
}

#[test]
fn tokenize_keeps_empty_tokens_between_spaces() {
    assert_eq!(tokenize("a  b"), owned(&["a", "", "b"]));
    assert_eq!(tokenize(" a"), owned(&["", "a"]));
    assert_eq!(tokenize("a "), owned(&["a", ""]));
}

#[test]
fn tokenize_of_blank_lines_gives_empty_tokens() {
    assert_eq!(tokenize(""), owned(&[""]));
    assert_eq!(tokenize(" "), owned(&["", ""]));
    assert_eq!(tokenize("   "), owned(&["", "", "", ""]));
}

#[test]
fn tokenize_agrees_with_split_of_std() {
    for line in ["", " ", "a", "a b", "a  b ", " x\ty z", "päng ünï códe", "echo 'a b'"] {
        let expected: Vec<String> = line.split(' ').map(|t| t.to_string()).collect();
        assert_eq!(tokenize(line), expected, "line {:?}", line);
    }
}

#[test]
fn tokenize_does_not_read_quotes_or_other_whitespace() {
    assert_eq!(tokenize("echo \"a b\""), owned(&["echo", "\"a", "b\""]));
    assert_eq!(tokenize("a\tb\nc"), owned(&["a\tb\nc"]));
    assert_eq!(tokenize("echo $HOME"), owned(&["echo", "$HOME"]));
}

#[test]
fn joining_the_tokens_gives_the_line_back() {
    for line in ["ls -l /tmp", "a  b", " a ", "", "   ", "x"] {
        assert_eq!(tokenize(line).join(" "), line);
    }
}

#[test]
fn tokens_hold_no_space_and_count_one_more_than_the_spaces() {
    for line in ["ls -l /tmp", "a  b", " a ", "", "   ", "x"] {
        let tokens = tokenize(line);
        assert!(tokens.iter().all(|t| !t.contains(' ')));
        assert_eq!(tokens.len(), line.matches(' ').count() + 1);
    }
}

#[test]
fn parse_turns_down_blank_lines() {
    assert_eq!(CommandSpec::parse("").err(), Some(CommandError::MissingCommand));
    assert_eq!(CommandSpec::parse(" ").err(), Some(CommandError::MissingCommand));
    assert_eq!(CommandSpec::parse("     ").err(), Some(CommandError::MissingCommand));
}

#[test]
fn parse_takes_any_line_with_another_character() {
    let command = CommandSpec::parse("rsync -a src dst").unwrap();
    assert_eq!(command.program(), "rsync");
    assert_eq!(command.tokens(), &owned(&["rsync", "-a", "src", "dst"]));

    let tab = CommandSpec::parse("\t").unwrap();
    assert_eq!(tab.tokens(), &owned(&["\t"]));

    let leading = CommandSpec::parse(" ls").unwrap();
    assert_eq!(leading.program(), "");
    assert_eq!(leading.tokens(), &owned(&["", "ls"]));
}

#[test]
fn arguments_are_the_tokens_after_the_first() {
    let command = CommandSpec::parse("rsync -a  src dst").unwrap();
    assert_eq!(command.arguments(), owned(&["-a", "", "src", "dst"]));
    assert_eq!(CommandSpec::parse("true").unwrap().arguments(), Vec::<String>::new());
    assert_eq!(CommandSpec::parse(" ls").unwrap().arguments(), owned(&["ls"]));
}

#[test]
fn program_and_arguments_joined_give_the_line_back() {
    for line in ["rsync -a src dst", "a  b ", " x", "one"] {
        let command = CommandSpec::parse(line).unwrap();
        let mut tokens = vec![command.program().clone()];
        tokens.extend(command.arguments());
        assert_eq!(tokens.join(" "), line);
    }
}
