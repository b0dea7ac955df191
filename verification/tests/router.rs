use notebot::router::{command_words, parse_command};

#[test]
fn parses_simple_command() {
    assert_eq!(
        parse_command("@bot ping"),
        Some(("ping".to_string(), vec![]))
    );
}

#[test]
fn parses_full_acct_mention_and_args() {
    assert_eq!(
        parse_command("@bot@misskey.example dice 6 2"),
        Some(("dice".to_string(), vec!["6".to_string(), "2".to_string()]))
    );
}

#[test]
fn skips_reply_chain_mentions() {
    assert_eq!(
        parse_command("@alice @bot ping"),
        Some(("ping".to_string(), vec![]))
    );
}

#[test]
fn command_lookup_is_case_insensitive() {
    assert_eq!(
        parse_command("@bot PING"),
        Some(("ping".to_string(), vec![]))
    );
}

#[test]
fn mention_only_is_not_a_command() {
    assert_eq!(parse_command("@bot"), None);
    assert_eq!(parse_command("@bot @alice"), None);
    assert_eq!(parse_command("  "), None);
}

#[test]
fn empty_text_is_not_a_command() {
    assert_eq!(parse_command(""), None);
    assert_eq!(parse_command("\t\n\u{3000}"), None);
}

#[test]
fn text_without_mention_is_a_command() {
    assert_eq!(
        parse_command("ping now"),
        Some(("ping".to_string(), vec!["now".to_string()]))
    );
}

#[test]
fn arguments_keep_their_case() {
    assert_eq!(
        parse_command("@bot Echo Hello WORLD"),
        Some((
            "echo".to_string(),
            vec!["Hello".to_string(), "WORLD".to_string()]
        ))
    );
}

#[test]
fn any_whitespace_separates_tokens() {
    assert_eq!(
        parse_command("\n @bot\u{3000}dice\t6\u{00A0}\u{00A0}2  "),
        Some(("dice".to_string(), vec!["6".to_string(), "2".to_string()]))
    );
}

#[test]
fn at_sign_inside_a_command_is_kept() {
    assert_eq!(
        parse_command("@bot mail@x @y"),
        Some(("mail@x".to_string(), vec!["@y".to_string()]))
    );
}

#[test]
fn lone_at_sign_is_a_mention() {
    assert_eq!(
        parse_command("@ ping"),
        Some(("ping".to_string(), vec![]))
    );
}

#[test]
fn leading_mention_changes_nothing() {
    let texts = ["ping", "dice 6 2", "", "  @x hi", "Echo A"];
    for t in texts {
        let with_mention = format!("@someone@host.example {t}");
        assert_eq!(command_words(&with_mention), command_words(t));
        assert_eq!(parse_command(&with_mention), parse_command(t));
    }
}

#[test]
fn words_are_nonempty_tokens() {
    let words = command_words("@a  b   c\u{2003}d ");
    assert_eq!(words, vec!["b".to_string(), "c".to_string(), "d".to_string()]);
    for w in &words {
        assert!(!w.is_empty());
        assert!(!w.chars().any(char::is_whitespace));
    }
}

#[test]
fn command_name_is_lowercased_beyond_ascii() {
    assert_eq!(
        parse_command("@bot ÄBC"),
        Some(("äbc".to_string(), vec![]))
    );
}

#[test]
fn splitting_at_whitespace_splits_the_words() {
    let (a, b) = ("@bot dice", "6  2");
    let joined = format!("{a}\t{b}");
    let mut expected = command_words(a);
    expected.extend(command_words(b));
    assert_eq!(command_words(&joined), expected);
}
