use chumsky::prelude::{end, filter, just, text, Parser, Simple};
use chumsky::text::TextParser;
use veloren_logic::chat_command::parse_cmd;

#[test]
fn parse_cmds() {
    let expected: Result<(String, Vec<String>), String> = Ok(("help".to_string(), vec![]));
    assert_eq!(parse_cmd(r"help"), expected);

    let expected: Result<(String, Vec<String>), String> =
        Ok(("say".to_string(), vec!["foo".to_string(), "bar".to_string()]));
    assert_eq!(parse_cmd(r"say foo bar"), expected);
    assert_eq!(parse_cmd(r#"say "foo" "bar""#), expected);

    let expected: Result<(String, Vec<String>), String> =
        Ok(("say".to_string(), vec!["Hello World".to_string()]));
    assert_eq!(parse_cmd(r#"say "Hello World""#), expected);

    // Note: \n in the expected gets expanded by rust to a newline character, that's
    // why we must not use a raw string in the expected
    let expected: Result<(String, Vec<String>), String> =
        Ok(("say".to_string(), vec!["Hello\nWorld".to_string()]));
    assert_eq!(parse_cmd(r#"say "Hello\nWorld""#), expected);
}

#[test]
fn parse_cmd_all_escapes() {
    let r = parse_cmd(r#"x "\\\/\"\b\f\n\r\t""#).unwrap();
    assert_eq!(r.0, "x");
    assert_eq!(r.1, vec!["\\/\"\x08\x0C\n\r\t".to_string()]);
}

#[test]
fn parse_cmd_errors() {
    assert_eq!(parse_cmd(""), Err("found end of input".to_string()));
    assert_eq!(parse_cmd(" help"), Err("found \" \"".to_string()));
    assert_eq!(parse_cmd("1abc"), Err("found \"1\"".to_string()));
    // Only white space after the name: an argument could have followed at the end.
    assert_eq!(parse_cmd("help "), Err(r#"found end of input but expected "\"""#.to_string()));
    // An unterminated quote is reported at the end of the input.
    assert_eq!(
        parse_cmd(r#"say foo "bar"#),
        Err(r#"found end of input but expected one of "\"", "\\""#.to_string())
    );
    // An unknown escape is reported at the character after the backslash.
    assert_eq!(
        parse_cmd(r#"say "a\qb""#),
        Err(r#"found "q" but expected one of "\\", "/", "\"", "b", "f", "n", "r", "t""#.to_string())
    );
    // A quote found where the name should start is escaped.
    assert_eq!(parse_cmd("\"x"), Err(r#"found "\"""#.to_string()));
}

#[test]
fn parse_cmd_argument_shapes() {
    // Arguments may follow the name without white space and end at quotes.
    assert_eq!(
        parse_cmd(r#"say-x foo"bar" baz  "#),
        Ok(("say".to_string(), vec!["-x".to_string(), "foo".to_string(), "bar".to_string(), "baz".to_string()]))
    );
    assert_eq!(parse_cmd("tp_2\u{3000}a"), Ok(("tp_2".to_string(), vec!["a".to_string()])));
    assert_eq!(parse_cmd(r#"g """#), Ok(("g".to_string(), vec!["".to_string()])));
}

fn chumsky_parse(msg: &str) -> Result<(String, Vec<String>), String> {
    let escape = just::<_, _, Simple<char>>('\\').ignore_then(
        just('\\')
            .or(just('/'))
            .or(just('"'))
            .or(just('b').to('\x08'))
            .or(just('f').to('\x0C'))
            .or(just('n').to('\n'))
            .or(just('r').to('\r'))
            .or(just('t').to('\t')),
    );
    let string = just('"')
        .ignore_then(filter(|c| *c != '\\' && *c != '"').or(escape).repeated())
        .then_ignore(just('"'))
        .labelled("quoted argument");
    let arg = string
        .or(filter(|c: &char| !c.is_whitespace() && *c != '"')
            .repeated()
            .at_least(1)
            .labelled("argument"))
        .collect::<String>();
    let cmd = text::ident().then(arg.padded().repeated()).then_ignore(end());
    cmd.parse(msg).map_err(|errs| errs.into_iter().map(|e| e.to_string()).collect::<Vec<_>>().join(", "))
}

/// An error text split into what was found and the set of what was expected
/// (chumsky lists the expected items in no fixed order).
fn error_parts(e: &str) -> (String, Vec<String>) {
    match e.split_once(" but expected ") {
        None => (e.to_string(), vec![]),
        Some((found, rest)) => {
            let rest = rest.strip_prefix("one of ").unwrap_or(rest);
            let mut items: Vec<String> = rest.split(", ").map(|s| s.to_string()).collect();
            items.sort();
            (found.to_string(), items)
        },
    }
}

#[test]
fn parse_cmd_agrees_with_combinator_grammar() {
    let alphabet = ['a', 'Z', '_', '1', ' ', '"', '\\', 'n', 'q', '\t', '-', '\u{a0}'];
    let mut inputs: Vec<String> = vec![String::new()];
    for len in 1..=4usize {
        let mut idx = vec![0usize; len];
        loop {
            inputs.push(idx.iter().map(|&i| alphabet[i]).collect());
            let mut k = 0;
            while k < len {
                idx[k] += 1;
                if idx[k] < alphabet.len() {
                    break;
                }
                idx[k] = 0;
                k += 1;
            }
            if k == len {
                break;
            }
        }
    }
    for input in &inputs {
        let ours = parse_cmd(input);
        let theirs = chumsky_parse(input);
        match (&ours, &theirs) {
            (Ok(a), Ok(b)) => assert_eq!(a, b, "input {:?}", input),
            (Err(a), Err(b)) => assert_eq!(error_parts(a), error_parts(b), "input {:?}", input),
            _ => panic!("input {:?}: {:?} vs {:?}", input, ours, theirs),
        }
    }
}
