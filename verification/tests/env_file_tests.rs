use star_escrow::env_file::{split_lines, starts_with_chars, upsert_env_content};

fn lines_of(s: &str) -> Vec<String> {
    let cs: Vec<char> = s.chars().collect();
    split_lines(&cs).into_iter().map(|l| l.into_iter().collect()).collect()
}

#[test]
fn split_lines_matches_std_lines() {
    for s in ["", "\n", "a", "a\n", "a\r\nb\n", "a\n\n", "a\r", "x\r\r\ny", "\n\nz", "k=v\r\n"] {
        let ours = lines_of(s);
        let std: Vec<String> = s.lines().map(String::from).collect();
        assert_eq!(ours, std, "{:?}", s);
    }
}

#[test]
fn upsert_into_missing_file() {
    assert_eq!(upsert_env_content("", "ESCROW_CONTRACT_ID", "CABC"), "\nESCROW_CONTRACT_ID=CABC\n");
}

#[test]
fn upsert_appends_when_key_absent() {
    assert_eq!(
        upsert_env_content("PAYER_SECRET=S1\n", "ESCROW_CONTRACT_ID", "CNEW"),
        "PAYER_SECRET=S1\n\nESCROW_CONTRACT_ID=CNEW\n"
    );
    assert_eq!(
        upsert_env_content("PAYER_SECRET=S1", "ESCROW_CONTRACT_ID", "CNEW"),
        "PAYER_SECRET=S1\nESCROW_CONTRACT_ID=CNEW\n"
    );
}

#[test]
fn upsert_replaces_existing_assignment() {
    assert_eq!(
        upsert_env_content("A=1\nESCROW_CONTRACT_ID=COLD\nB=2\n", "ESCROW_CONTRACT_ID", "CNEW"),
        "A=1\nESCROW_CONTRACT_ID=CNEW\nB=2\n"
    );
}

#[test]
fn upsert_replaces_every_assignment_of_the_key() {
    assert_eq!(
        upsert_env_content("K=1\nX=0\nK=2", "K", "3"),
        "K=3\nX=0\nK=3\n"
    );
}

#[test]
fn upsert_does_not_touch_similar_keys() {
    assert_eq!(
        upsert_env_content("KEY2=1\nMYKEY=2\n", "KEY", "v"),
        "KEY2=1\nMYKEY=2\n\nKEY=v\n"
    );
}

#[test]
fn upsert_normalises_line_endings_when_rewriting() {
    assert_eq!(upsert_env_content("A=1\r\nK=old\r\n", "K", "new"), "A=1\nK=new\n");
    assert_eq!(upsert_env_content("K=old\n\n\n", "K", "new"), "K=new\n\n");
}

#[test]
fn upsert_result_has_the_assignment_once_for_the_key() {
    for existing in ["", "K=1", "A=b\nK=2\n", "x\r\ny\n\n"] {
        let out = upsert_env_content(existing, "K", "val");
        assert!(out.ends_with('\n'));
        let assigned: Vec<&str> = out.lines().filter(|l| l.starts_with("K=")).collect();
        assert!(!assigned.is_empty());
        assert!(assigned.iter().all(|l| *l == "K=val"));
        for l in existing.lines() {
            if !l.is_empty() && !l.starts_with("K=") {
                assert!(out.lines().any(|o| o == l));
            }
        }
    }
}

#[test]
fn starts_with_chars_checks_prefix() {
    let s: Vec<char> = "KEY=1".chars().collect();
    let p: Vec<char> = "KEY=".chars().collect();
    let q: Vec<char> = "KEYS".chars().collect();
    assert!(starts_with_chars(&s, &p));
    assert!(!starts_with_chars(&s, &q));
    assert!(!starts_with_chars(&p, &s));
}

#[test]
fn upserting_twice_is_upserting_once() {
    for existing in ["", "A=1", "A=1\n", "K=old\nB=2", "A=1\n\nK=x\n", "\n"] {
        let once = upsert_env_content(existing, "K", "v");
        assert_eq!(upsert_env_content(&once, "K", "v"), once, "{:?}", existing);
    }
    // Text that ends with an empty line loses one blank line per rewrite.
    let once = upsert_env_content("K=old\n\n\n", "K", "v");
    assert_eq!(once, "K=v\n\n");
    assert_eq!(upsert_env_content(&once, "K", "v"), "K=v\n");
}
