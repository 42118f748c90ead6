use zeropass::display::{
    avatar_letter, count_label, count_words, entry_card, filter_label,
    format_timestamp_ago, format_timestamp_ago_at, hint_label, hue_index, last_opened_text, lines,
    new_password_hint, note_card, note_preview, toast_text, truncate_display, update_banner,
    PasswordHint, HUES,
};
use zeropass::generator::{
    charset_chars, count_points, generate_password, password_from_places, password_strength,
    rate_points, strength_label, GeneratorPage, Strength,
};
use zeropass::model::{Entry, PasswordHistoryEntry, SecureNote};
use zeropass::update::{
    check_for_updates, evaluate_releases, is_newer_version, normalize_version_tag,
    parse_version_parts, releases_url, GithubRelease, ReleaseFetch, UpdateStatus, APP_VERSION,
};

#[test]
fn truncation() {
    assert_eq!(truncate_display("short", 10), "short");
    assert_eq!(truncate_display("exactly10!", 10), "exactly10!");
    assert_eq!(truncate_display("a longer text", 5), "a lo…");
    assert_eq!(truncate_display("ñandú über", 4), "ñan…");
    assert_eq!(truncate_display("x", 0), "…");
    assert_eq!(truncate_display("", 0), "");
    let once = truncate_display("a longer text", 5);
    assert_eq!(truncate_display(&once, 5), once);
    assert!(once.chars().count() <= 5);
}

#[test]
fn ages_in_words() {
    let now = Some(10_000_000_000u64);
    let ago = |s: u64| format_timestamp_ago_at(10_000_000_000 - s, now);
    assert_eq!(ago(0), "just now");
    assert_eq!(ago(59), "just now");
    assert_eq!(ago(60), "1 minute ago");
    assert_eq!(ago(3599), "59 minutes ago");
    assert_eq!(ago(3600), "1 hour ago");
    assert_eq!(ago(86_399), "23 hours ago");
    assert_eq!(ago(86_400), "1 day ago");
    assert_eq!(ago(86_400 * 3), "3 days ago");
    assert_eq!(ago(86_400 * 30), "1 month ago");
    assert_eq!(ago(86_400 * 364), "12 months ago");
    assert_eq!(ago(86_400 * 365), "1 year ago");
    assert_eq!(ago(86_400 * 365 * 7), "7 years ago");
    assert_eq!(format_timestamp_ago_at(10_000_000_001, now), "just now");
    assert_eq!(format_timestamp_ago_at(5, None), "just now");
}

#[test]
fn age_by_the_clock() {
    assert!(format_timestamp_ago(0).ends_with(" years ago"));
    assert_eq!(format_timestamp_ago(u64::MAX), "just now");
}

#[test]
fn last_opened_lines() {
    assert_eq!(last_opened_text(0, Some(5)), None);
    assert_eq!(last_opened_text(100, Some(130)).unwrap(), "Last opened just now");
    assert_eq!(last_opened_text(100, Some(100 + 125)).unwrap(), "Last opened 2 min ago");
    assert_eq!(last_opened_text(100, Some(100 + 7200)).unwrap(), "Last opened 2 hr ago");
    assert_eq!(last_opened_text(100, Some(100 + 86_400)).unwrap(), "Last opened 1 days ago");
    assert_eq!(last_opened_text(100, None).unwrap(), "Last opened just now");
}

#[test]
fn avatars() {
    assert_eq!(avatar_letter("github"), "G");
    assert_eq!(avatar_letter("ünit"), "Ü");
    assert_eq!(avatar_letter("ßx"), "SS");
    assert_eq!(avatar_letter(""), "?");
    assert_eq!(hue_index(""), 0);
    assert_eq!(hue_index("a"), 97 % HUES);
    assert_eq!(hue_index("ab"), (97 + 98) % HUES);
    assert_eq!(hue_index("é"), (0xc3 + 0xa9) % HUES);
}

#[test]
fn words_and_lines() {
    assert_eq!(count_words(""), 0);
    assert_eq!(count_words("  one\ttwo\nthree "), 3);
    for s in ["", "a", "a\n", "a\nb", "a\r\nb\r\n", "\n\n", "a\r", "a\n\r"] {
        let want: Vec<String> = s.lines().map(|l| l.to_string()).collect();
        assert_eq!(lines(s), want, "{:?}", s);
        assert_eq!(count_words(s), s.split_whitespace().count());
    }
}

#[test]
fn note_previews() {
    assert_eq!(note_preview("one line"), "one line");
    assert_eq!(note_preview("first\nsecond"), "first…");
    assert_eq!(note_preview("\n  \nthird"), "third…");
    assert_eq!(note_preview("   "), "");
    let long = "x".repeat(73);
    assert_eq!(note_preview(&long), format!("{}…", "x".repeat(72)));
    assert_eq!(note_preview(&"x".repeat(72)), "x".repeat(72));
}

#[test]
fn labels() {
    assert_eq!(count_label(false, 2, 5), "5");
    assert_eq!(count_label(true, 2, 5), "2/5");
    assert_eq!(filter_label("Work", true), "● Work");
    assert_eq!(filter_label("Work", false), "  Work");
    assert_eq!(filter_label(&"w".repeat(30), false), format!("  {}…", "w".repeat(23)));
}

#[test]
fn cards() {
    let entry = Entry {
        id: "1".to_string(),
        service: "GitHub".to_string(),
        username: "me".to_string(),
        password: "secret".to_string(),
        totp_secret: None,
        category: Some("Work".to_string()),
        tags: vec!["a".to_string(), String::new(), "b".to_string()],
        pinned: true,
        password_history: vec![PasswordHistoryEntry { password: "old".to_string(), changed_at: 1 }],
    };
    let hidden = entry_card(&entry, false);
    assert_eq!(hidden.title, "GitHub");
    assert_eq!(hidden.letter, "G");
    assert_eq!(hidden.category.unwrap(), "📁 Work");
    assert_eq!(hidden.tags, vec!["🏷 a", "🏷 b"]);
    assert_eq!(hidden.password, None);
    assert!(hidden.pinned && hidden.has_history);
    assert_eq!(entry_card(&entry, true).password.unwrap(), "secret");
    let mut note = SecureNote {
        id: "n".to_string(),
        title: "T".to_string(),
        content: "two words".to_string(),
        category: Some(String::new()),
        tags: Vec::new(),
    };
    let card = note_card(&note);
    assert_eq!(card.words.unwrap(), "2 w");
    assert_eq!(card.preview.unwrap(), "two words");
    assert_eq!(card.category, None);
    note.content = String::new();
    assert_eq!(note_card(&note).words, None);
    assert_eq!(note_card(&note).preview, None);
}

#[test]
fn toast_cutting() {
    assert_eq!(toast_text("short"), "short");
    let exact = "x".repeat(38);
    assert_eq!(toast_text(&exact), exact);
    assert_eq!(toast_text(&"x".repeat(39)), format!("{}…", exact));
    // Characters are counted, so that none is cut in two.
    let accents = "é".repeat(38);
    assert_eq!(toast_text(&accents), accents);
    assert_eq!(toast_text(&"é".repeat(39)), format!("{}…", accents));
    let long = format!("{}é{}", "x".repeat(37), "yy");
    assert_eq!(toast_text(&long), format!("{}é…", "x".repeat(37)));
}

#[test]
fn hints_on_new_passwords() {
    let h = |p: &str, c: &str| new_password_hint(&p.to_string(), &c.to_string());
    assert_eq!(h("", ""), PasswordHint::Empty);
    assert_eq!(h("", "x"), PasswordHint::Empty);
    assert_eq!(h("seven77", ""), PasswordHint::TooShort);
    assert_eq!(h("eight888", ""), PasswordHint::Fair);
    assert_eq!(h("elevenchars", "elevenchars"), PasswordHint::Fair);
    assert_eq!(h("twelve chars", ""), PasswordHint::Strong);
    assert_eq!(h("abc", "abd"), PasswordHint::Mismatch);
    assert_eq!(hint_label(PasswordHint::Strong), "Strong password");
    assert_eq!(hint_label(PasswordHint::Empty), "");
}

#[test]
fn generated_passwords() {
    let p = generate_password(64, false, false, false);
    assert_eq!(p.chars().count(), 64);
    assert!(p.chars().all(|c| c.is_ascii_lowercase()));
    let q = generate_password(400, true, true, true);
    assert!(q.chars().any(|c| c.is_ascii_uppercase()));
    assert!(q.chars().any(|c| c.is_ascii_digit()));
    assert!(q.chars().any(|c| !c.is_ascii_alphanumeric()));
    assert_ne!(generate_password(64, true, true, true), generate_password(64, true, true, true));
    assert_eq!(generate_password(0, true, true, true), "");
}

#[test]
fn passwords_by_place() {
    let set = charset_chars(true, true, true);
    assert_eq!(set.len(), 26 + 26 + 10 + 26);
    assert_eq!(charset_chars(false, true, false).len(), 36);
    assert_eq!(password_from_places(&set, &vec![0, 25, 26, 52, 61, 62, 87]), "azA09!?");
}

#[test]
fn strength_of_passwords() {
    assert_eq!(password_strength("abc"), Strength::Weak);
    assert_eq!(password_strength("abcdefghijkl"), Strength::Weak);
    assert_eq!(password_strength("Abcdefghijk1"), Strength::Fair);
    assert_eq!(password_strength("Abcdefghijklmn1!"), Strength::Strong);
    assert_eq!(password_strength("Abcdefghijklmnopqr1!"), Strength::VeryStrong);
    // Capital letters and letters beyond ASCII count as what they are.
    assert_eq!(password_strength("éééééé"), Strength::Weak);
    assert_eq!(password_strength("ÉÉÉÉÉÉ1"), Strength::Fair);
    assert_eq!(count_points(20, true, true, true), 6);
    assert_eq!(count_points(0, false, false, false), 0);
    assert_eq!(rate_points(5), Strength::Strong);
    assert_eq!(strength_label(Strength::VeryStrong), "Very Strong");
    assert_eq!(strength_label(Strength::Weak), "Weak");
}

#[test]
fn generator_page() {
    let mut page = GeneratorPage::new(12, true, false, false);
    page.refresh(false, true);
    assert_eq!(page.result, "");
    page.refresh(true, false);
    assert_eq!(page.result.len(), 12);
    let first = page.result.clone();
    page.refresh(false, false);
    assert_eq!(page.result, first);
    page.length = 30;
    page.refresh(false, true);
    assert_eq!(page.result.len(), 30);
}

#[test]
fn version_tags() {
    assert_eq!(normalize_version_tag("v2.1.0"), "2.1.0");
    assert_eq!(normalize_version_tag("  V2.1.0\n"), "2.1.0");
    assert_eq!(normalize_version_tag("2.1.0"), "2.1.0");
    assert_eq!(normalize_version_tag("v 2.1.0"), "2.1.0");
    assert_eq!(normalize_version_tag(" V\t2.1.0 "), "2.1.0");
}

#[test]
fn version_parts() {
    assert_eq!(parse_version_parts("2.1.0"), (vec![2, 1, 0], String::new()));
    assert_eq!(parse_version_parts("2.0.0-beta.2"), (vec![2, 0, 0], "beta.2".to_string()));
    assert_eq!(parse_version_parts("1.x.3-a-b"), (vec![1, 0, 3], "a-b".to_string()));
    assert_eq!(parse_version_parts(""), (vec![0], String::new()));
}

#[test]
fn newer_versions() {
    assert!(is_newer_version("1.10.0", "1.2.3"));
    assert!(!is_newer_version("1.2.3", "1.10.0"));
    assert!(is_newer_version("2.0.0-beta.2", "2.0.0-beta.1"));
    assert!(is_newer_version("2.0.0", "2.0.0-beta.1"));
    assert!(!is_newer_version("2.0.0-beta.1", "2.0.0"));
    assert!(!is_newer_version("2.0", "2.0.0"));
    assert!(!is_newer_version("2.0.0", "2.0"));
    assert!(is_newer_version("2.0.0.1", "2.0.0"));
    assert!(!is_newer_version("2.0.0", "2.0.0"));
}

fn release(tag: &str, pre: bool, draft: bool) -> GithubRelease {
    GithubRelease {
        tag_name: tag.to_string(),
        html_url: format!("https://example.org/{}", tag),
        prerelease: pre,
        draft,
    }
}

#[test]
fn stable_builds_are_offered_stable_releases() {
    let list = vec![
        release("v1.0.0", false, false),
        release("v3.0.0", false, true),
        release("v2.5.0", false, false),
        release("v4.0.0-beta", true, false),
        release("v2.4.0", false, false),
    ];
    match evaluate_releases(&list, "2.0.0", false) {
        UpdateStatus::StableAvailable { version, url } => {
            assert_eq!(version, "2.5.0");
            assert_eq!(url, "https://example.org/v2.5.0");
        }
        other => panic!("{:?}", other),
    }
    assert!(matches!(evaluate_releases(&list, "2.5.0", false), UpdateStatus::UpToDate));
    assert!(matches!(evaluate_releases(&Vec::new(), "2.5.0", false), UpdateStatus::UpToDate));
}

#[test]
fn beta_builds_are_offered_pre_releases() {
    let list = vec![release("v2.0.0", false, false), release("v3.0.0-beta.1", true, false)];
    match evaluate_releases(&list, "2.0.0", true) {
        UpdateStatus::BetaAvailable { version, .. } => assert_eq!(version, "3.0.0-beta.1"),
        other => panic!("{:?}", other),
    }
    match evaluate_releases(&list, "1.0.0", true) {
        UpdateStatus::StableAvailable { version, .. } => assert_eq!(version, "2.0.0"),
        other => panic!("{:?}", other),
    }
}

#[test]
fn of_equal_releases_the_last_is_offered() {
    let list = vec![release("v3.0", false, false), release("v3.0.0", false, false)];
    match evaluate_releases(&list, "2.0.0", false) {
        UpdateStatus::StableAvailable { version, .. } => assert_eq!(version, "3.0.0"),
        other => panic!("{:?}", other),
    }
}

#[test]
fn outcomes_of_the_check() {
    match check_for_updates(&ReleaseFetch::NetworkError("offline".to_string())) {
        UpdateStatus::CheckFailed(e) => assert_eq!(e, "Network error: offline"),
        other => panic!("{:?}", other),
    }
    match check_for_updates(&ReleaseFetch::BadResponse("html".to_string())) {
        UpdateStatus::CheckFailed(e) => assert_eq!(e, "Bad response: html"),
        other => panic!("{:?}", other),
    }
    let list = vec![release(APP_VERSION, false, false)];
    assert!(matches!(check_for_updates(&ReleaseFetch::Releases(list)), UpdateStatus::UpToDate));
    assert_eq!(releases_url(), "https://api.github.com/repos/makke08/ZeroPass/releases");
}

#[test]
fn banners() {
    let b = update_banner(&UpdateStatus::UpToDate);
    assert_eq!(b.headline, "You're up to date");
    assert_eq!(b.detail, "Running the latest version (v2.0.2-release).");
    assert!(b.action.is_none());
    let b = update_banner(&UpdateStatus::StableAvailable {
        version: "3".to_string(),
        url: "u".to_string(),
    });
    assert_eq!(b.headline, "Update available — v3");
    assert_eq!(b.action.unwrap(), ("View release  ↗".to_string(), "u".to_string()));
    assert_eq!(update_banner(&UpdateStatus::Unknown).headline, "Checking for updates…");
    assert_eq!(
        update_banner(&UpdateStatus::CheckFailed("x".to_string())).headline,
        "Couldn't check for updates"
    );
    let b = update_banner(&UpdateStatus::BetaAvailable {
        version: "4-b".to_string(),
        url: "w".to_string(),
    });
    assert_eq!(b.headline, "Beta update available — v4-b");
}
