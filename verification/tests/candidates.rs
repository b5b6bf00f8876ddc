use ramesh::candidates::{load_candidates, Candidate, WorkUnit};

fn words(text: &str) -> Vec<String> {
    let work = load_candidates(text);
    let mut out = Vec::new();
    let mut i = 0;
    while let Some(c) = work.get(i) {
        out.push(c.as_str().to_string());
        i += 1;
    }
    assert_eq!(i, work.len());
    out
}

#[test]
fn empty_text_has_no_candidates() {
    let work = load_candidates("");
    assert_eq!(work.len(), 0);
    assert!(work.is_empty());
    assert!(work.get(0).is_none());
}

#[test]
fn one_line_without_terminator() {
    assert_eq!(words("password"), vec!["password"]);
}

#[test]
fn final_terminator_adds_no_line() {
    assert_eq!(words("password\n"), vec!["password"]);
    assert_eq!(words("one\ntwo\n"), vec!["one", "two"]);
    assert_eq!(words("one\ntwo"), vec!["one", "two"]);
}

#[test]
fn carriage_return_belongs_to_terminator() {
    assert_eq!(words("one\r\ntwo\r\n"), vec!["one", "two"]);
    assert_eq!(words("one\r\ntwo"), vec!["one", "two"]);
}

#[test]
fn only_one_carriage_return_is_dropped() {
    assert_eq!(words("one\r\r\ntwo"), vec!["one\r", "two"]);
}

#[test]
fn bare_carriage_return_is_kept() {
    assert_eq!(words("one\rtwo\n"), vec!["one\rtwo"]);
    assert_eq!(words("one\r"), vec!["one\r"]);
    assert_eq!(words("\r"), vec!["\r"]);
}

#[test]
fn empty_lines_are_empty_candidates() {
    assert_eq!(words("\n"), vec![""]);
    assert_eq!(words("\r\n"), vec![""]);
    assert_eq!(words("a\n\nb"), vec!["a", "", "b"]);
    assert_eq!(words("\n\n\n"), vec!["", "", ""]);
}

#[test]
fn blanks_are_part_of_the_passphrase() {
    assert_eq!(words("  lead\ntrail  \n\ttab\t\n mid dle "), vec!["  lead", "trail  ", "\ttab\t", " mid dle "]);
}

#[test]
fn text_beyond_ascii_is_kept() {
    assert_eq!(
        words("p\u{e4}ssw\u{f6}rd\n\u{43a}\u{43b}\u{44e}\u{447}\r\n\u{1f511}\n\u{5bc6}\u{7801}"),
        vec!["p\u{e4}ssw\u{f6}rd", "\u{43a}\u{43b}\u{44e}\u{447}", "\u{1f511}", "\u{5bc6}\u{7801}"]
    );
}

#[test]
fn agrees_with_std_lines() {
    let texts = [
        "",
        "a",
        "a\n",
        "\na",
        "a\r\nb\rc\n\r\n\r",
        "wrongpass1\ncorrectpass\nwrongpass2",
        " x \r\n\r\ny\n\n",
        "\u{e9}\n\u{e9}\r\n\u{e9}",
    ];
    for text in texts {
        let expected: Vec<String> = text.lines().map(str::to_string).collect();
        assert_eq!(words(text), expected, "{:?}", text);
    }
}

#[test]
fn work_unit_keeps_given_order() {
    let work = WorkUnit::new(vec![
        "wrongpass1".to_string(),
        "correctpass".to_string(),
        "wrongpass2".to_string(),
    ]);
    assert_eq!(work.len(), 3);
    assert!(!work.is_empty());
    assert_eq!(work.get(0).unwrap().as_str(), "wrongpass1");
    assert_eq!(work.get(1).unwrap().as_str(), "correctpass");
    assert_eq!(work.get(2).unwrap().as_str(), "wrongpass2");
    assert!(work.get(3).is_none());
}

#[test]
fn candidate_bytes_are_utf8() {
    let c = Candidate::new("p\u{e4}ss ".to_string());
    assert_eq!(c.as_str(), "p\u{e4}ss ");
    assert_eq!(c.as_bytes(), &[0x70, 0xc3, 0xa4, 0x73, 0x73, 0x20]);
}
