use git_publish::domain::ParsedCommit;
use regex::Regex;

/// Reads a message with the three header expressions, tried in order on
/// its first line.
fn by_expressions(scoped: &Regex, marked: &Regex, plain: &Regex, message: &str) -> ParsedCommit {
    let line = message.split('\n').next().unwrap_or("");
    if let Some(c) = scoped.captures(line) {
        return ParsedCommit {
            commit_type: c[1].to_string(),
            scope: Some(c[2].to_string()),
            description: c[4].to_string(),
            is_breaking_change: &c[3] == "!" || message.contains("BREAKING CHANGE:"),
        };
    }
    if let Some(c) = marked.captures(line) {
        return ParsedCommit {
            commit_type: c[1].to_string(),
            scope: None,
            description: c[2].to_string(),
            is_breaking_change: true,
        };
    }
    if let Some(c) = plain.captures(line) {
        return ParsedCommit {
            commit_type: c[1].to_string(),
            scope: None,
            description: c[2].to_string(),
            is_breaking_change: message.contains("BREAKING CHANGE:"),
        };
    }
    ParsedCommit {
        commit_type: "chore".to_string(),
        scope: None,
        description: message.to_string(),
        is_breaking_change: false,
    }
}

fn corpus(heads: &[&str]) -> Vec<String> {
    let scopes = [
        "", "()", "(a)", "(api-v2)", "(a b)", "(a\nb)", "((a)", "(a))", "(", ")", "(a", "(é)",
        "(!)", "(:)",
    ];
    let marks = ["", "!", "!!", " !"];
    let colons = ["", ":", "::", " :"];
    let tails = [
        "", " ", "x", " add login", "\tTabbed", "\nnext line", " \n next", "\r\nwindows",
        "\u{a0}nbsp", "\u{3000}wide", "\u{200b}zero width", " a\n\nBREAKING CHANGE: b",
        "BREAKING CHANGE:", " breaking change: x", "\u{85}next", "\u{2028}line", " é",
    ];
    let mut all = Vec::new();
    for h in heads.iter() {
        for s in scopes.iter() {
            for m in marks.iter() {
                for c in colons.iter() {
                    for t in tails.iter() {
                        all.push(format!("{}{}{}{}{}", h, s, m, c, t));
                    }
                }
            }
        }
    }
    all
}

fn check_agreement(heads: &[&str]) {
    let scoped = Regex::new(r"^([a-z]+)\(([^)]+)\)(!?):\s*(.*)").unwrap();
    let marked = Regex::new(r"^([a-z]+)!:\s*(.*)").unwrap();
    let plain = Regex::new(r"^([a-z]+):\s*(.*)").unwrap();
    let messages = corpus(heads);
    assert_eq!(messages.len(), heads.len() * 14 * 4 * 4 * 17);
    for message in messages.iter() {
        assert_eq!(
            ParsedCommit::parse(message),
            by_expressions(&scoped, &marked, &plain, message),
            "message: {:?}",
            message
        );
    }
}

#[test]
fn test_scanner_agrees_with_header_expressions_on_types() {
    check_agreement(&["feat", "fix", "f"]);
}

#[test]
fn test_scanner_agrees_with_header_expressions_on_other_heads() {
    check_agreement(&["", "Feat", "fEat", "feat1"]);
}

#[test]
fn test_scanner_agrees_with_header_expressions_on_odd_heads() {
    check_agreement(&["1feat", " feat", "\nfeat", "fé"]);
}

#[test]
fn test_header_stays_on_the_first_line() {
    let commit = ParsedCommit::parse("feat(a\nb): x");
    assert_eq!(commit.commit_type, "chore");
    assert_eq!(commit.scope, None);
    assert_eq!(commit.description, "feat(a\nb): x");
    let commit = ParsedCommit::parse("docs\nfeat: x");
    assert_eq!(commit.commit_type, "chore");
    let commit = ParsedCommit::parse("\nfeat: x");
    assert_eq!(commit.commit_type, "chore");
}

#[test]
fn test_description_is_the_rest_of_the_first_line() {
    let commit = ParsedCommit::parse("fix:\n\n  body text\nmore");
    assert_eq!(commit.commit_type, "fix");
    assert_eq!(commit.description, "");
    let commit = ParsedCommit::parse("fix: \t first line \nsecond line");
    assert_eq!(commit.description, "first line ");
    let commit = ParsedCommit::parse("fix:\u{3000}\u{a0}wide");
    assert_eq!(commit.description, "wide");
    let commit = ParsedCommit::parse("fix:\u{200b}zero");
    assert_eq!(commit.description, "\u{200b}zero");
    let commit = ParsedCommit::parse("fix: windows\r\nbody");
    assert_eq!(commit.description, "windows\r");
}

#[test]
fn test_empty_scope_is_not_conventional() {
    let commit = ParsedCommit::parse("feat(): x");
    assert_eq!(commit.commit_type, "chore");
    assert_eq!(commit.scope, None);
    assert_eq!(commit.description, "feat(): x");
    assert!(!commit.is_breaking_change);
}

#[test]
fn test_capital_type_is_not_conventional() {
    let commit = ParsedCommit::parse("Feat!: x");
    assert_eq!(commit.commit_type, "chore");
    assert_eq!(commit.description, "Feat!: x");
    assert!(!commit.is_breaking_change);
}

#[test]
fn test_footer_in_unconventional_message_breaks_nothing() {
    let commit = ParsedCommit::parse("Merge branch\n\nBREAKING CHANGE: all of it");
    assert_eq!(commit.commit_type, "chore");
    assert!(!commit.is_breaking_change);
}

#[test]
fn test_footer_with_hyphen_does_not_break() {
    let commit = ParsedCommit::parse("fix: x\n\nBREAKING-CHANGE: y");
    assert!(!commit.is_breaking_change);
}

#[test]
fn test_mark_must_touch_the_colon() {
    assert_eq!(ParsedCommit::parse("feat! : x").commit_type, "chore");
    assert_eq!(ParsedCommit::parse("feat!!: x").commit_type, "chore");
    assert_eq!(ParsedCommit::parse("feat(a)! : x").commit_type, "chore");
    let commit = ParsedCommit::parse("feat(a)!:x");
    assert_eq!(commit.commit_type, "feat");
    assert_eq!(commit.description, "x");
    assert!(commit.is_breaking_change);
}

#[test]
fn test_empty_message() {
    let commit = ParsedCommit::parse("");
    assert_eq!(commit.commit_type, "chore");
    assert_eq!(commit.scope, None);
    assert_eq!(commit.description, "");
    assert!(!commit.is_breaking_change);
}
