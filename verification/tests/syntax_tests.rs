use statusphere::login::{accept_login_form, LoginInput, LoginStep};
use statusphere::types::Did;

fn alnum(c: char) -> bool {
    c.is_ascii_alphanumeric()
}

fn did_by_the_rule(s: &str) -> bool {
    let chars: Vec<char> = s.chars().collect();
    if chars.len() > 2048 || chars.len() < 7 || chars[..4] != ['d', 'i', 'd', ':'] {
        return false;
    }
    let Some(colon) = (4..chars.len()).find(|&i| !chars[i].is_ascii_lowercase()) else {
        return false;
    };
    if colon < 5 || chars[colon] != ':' || colon + 1 >= chars.len() {
        return false;
    }
    let last = chars[chars.len() - 1];
    chars[colon + 1..chars.len() - 1]
        .iter()
        .all(|&c| alnum(c) || ".:_%-".contains(c))
        && (alnum(last) || "._-".contains(last))
}

fn handle_by_the_rule(s: &str) -> bool {
    if s.chars().count() > 253 {
        return false;
    }
    let labels: Vec<Vec<char>> = s.split('.').map(|l| l.chars().collect()).collect();
    labels.len() >= 2
        && labels.iter().all(|l| {
            (1..=63).contains(&l.len())
                && alnum(l[0])
                && alnum(l[l.len() - 1])
                && l.iter().all(|&c| alnum(c) || c == '-')
        })
        && labels[labels.len() - 1][0].is_ascii_alphabetic()
}

fn words(alphabet: &[char], longest: usize) -> Vec<String> {
    let mut all = vec![String::new()];
    let mut last = vec![String::new()];
    for _ in 0..longest {
        let mut next = Vec::new();
        for word in &last {
            for &c in alphabet {
                let mut longer = word.clone();
                longer.push(c);
                next.push(longer);
            }
        }
        all.extend(next.iter().cloned());
        last = next;
    }
    all
}

fn accepted_as_handle(s: &str) -> bool {
    matches!(
        accept_login_form(LoginInput { handle: s.to_owned() }),
        LoginStep::Authorize(_)
    )
}

#[test]
fn did_syntax_is_the_stated_rule_on_short_words() {
    let tails = words(&['a', 'Z', '7', ':', '%', '.', '-', '_', ' ', 'é'], 4);
    for tail in &tails {
        for head in ["did:", "did:x", "did:ab:", "did:a:b", "Did:a:", "did:a1:", "di:a:", ""] {
            let text = format!("{head}{tail}");
            assert_eq!(
                Did::new(text.clone()).is_ok(),
                did_by_the_rule(&text),
                "{text:?}"
            );
        }
    }
}

#[test]
fn did_syntax_is_the_stated_rule_at_the_length_limit() {
    for len in [2047usize, 2048, 2049, 2050] {
        let text = format!("did:plc:{}", "a".repeat(len - 8));
        assert_eq!(text.len(), len);
        assert_eq!(Did::new(text.clone()).is_ok(), did_by_the_rule(&text), "{len}");
        assert_eq!(Did::new(text).is_ok(), len <= 2048);
    }
    let wide = format!("did:plc:{}", "é".repeat(1030));
    assert!(!did_by_the_rule(&wide));
    assert!(Did::new(wide).is_err());
}

#[test]
fn handle_syntax_is_the_stated_rule_on_short_words() {
    for word in words(&['a', 'B', '1', '-', '.', '_', ' '], 6) {
        assert_eq!(accepted_as_handle(&word), handle_by_the_rule(&word), "{word:?}");
    }
    for word in words(&['a', '1', '-', '.'], 8) {
        assert_eq!(accepted_as_handle(&word), handle_by_the_rule(&word), "{word:?}");
    }
}

#[test]
fn handle_syntax_is_the_stated_rule_at_the_limits() {
    for len in [62usize, 63, 64, 65] {
        let first = format!("{}.com", "a".repeat(len));
        assert_eq!(accepted_as_handle(&first), handle_by_the_rule(&first), "{len}");
        assert_eq!(accepted_as_handle(&first), len <= 63);
        let last = format!("a.{}", "b".repeat(len));
        assert_eq!(accepted_as_handle(&last), handle_by_the_rule(&last), "{len}");
        assert_eq!(accepted_as_handle(&last), len <= 63);
        let hyphens = format!("a{}a.com", "-".repeat(len - 2));
        assert_eq!(accepted_as_handle(&hyphens), handle_by_the_rule(&hyphens), "{len}");
    }
    let label = "a".repeat(61);
    for extra in [4usize, 5, 6, 7, 8] {
        let text = format!("{label}.{label}.{label}.{label}.{}", "c".repeat(extra));
        assert_eq!(accepted_as_handle(&text), handle_by_the_rule(&text), "{}", text.len());
        assert_eq!(accepted_as_handle(&text), text.len() <= 253);
    }
    let wide = format!("{}.com", "é".repeat(10));
    assert!(!handle_by_the_rule(&wide));
    assert!(!accepted_as_handle(&wide));
}
