use pwstore::entry::{Entry, EntryData, Error};
use pwstore::parse::parse;
use pwstore::query::{get, list, tally};

fn store() -> String {
    String::from(
        "# accounts\n\
         + Alice web alice pw1\n\
         \n\
         - bob site bob pw2\n\
         * carol shop carol pw3\n\
         + dave mail dave pw4\n",
    )
}

#[test]
fn parse_reads_all_records_in_order() {
    let entries = parse(&store()).unwrap();
    assert_eq!(entries.len(), 4);
    match &entries[0] {
        Entry::Valid(d) => {
            assert_eq!(d.name, "Alice");
            assert_eq!(d.link, "web");
            assert_eq!(d.username, "alice");
            assert_eq!(d.password, "pw1");
        }
        _ => panic!("first record should be current"),
    }
    assert!(matches!(&entries[1], Entry::Invalid(_)));
    assert!(matches!(&entries[2], Entry::Change(_)));
    assert!(matches!(&entries[3], Entry::Valid(_)));
}

#[test]
fn parse_ignores_extra_trailing_tokens() {
    let entries = parse("+ a b c d extra more").unwrap();
    assert_eq!(entries.len(), 1);
    match &entries[0] {
        Entry::Valid(d) => assert_eq!(d.password, "d"),
        _ => panic!("expected a current record"),
    }
}

#[test]
fn parse_handles_crlf_line_endings() {
    let entries = parse("+ a b c d\r\n- e f g h\r\n").unwrap();
    assert_eq!(entries.len(), 2);
    match &entries[1] {
        Entry::Invalid(d) => assert_eq!(d.password, "h"),
        _ => panic!("expected a retired record"),
    }
}

#[test]
fn parse_rejects_unknown_marker_with_line_and_text() {
    let err = parse("+ a b c d\n? a b c d\n").unwrap_err();
    assert_eq!(err, Error::InvalidEntryMarker(2, String::from("?")));
}

#[test]
fn parse_reports_first_missing_field() {
    assert_eq!(parse("+").unwrap_err(), Error::MissingName(1));
    assert_eq!(parse("+ a").unwrap_err(), Error::MissingLink(1));
    assert_eq!(parse("+ a b").unwrap_err(), Error::MissingUsername(1));
    assert_eq!(parse("+ a b c").unwrap_err(), Error::MissingPassword(1));
}

#[test]
fn parse_checks_fields_before_marker_validity() {
    // the field checks run before the marker's validity is judged
    assert_eq!(parse("? a").unwrap_err(), Error::MissingLink(1));
}

#[test]
fn malformed_line_keeps_its_line_number() {
    // blank and comment lines before it still count toward the number,
    // and well-formed later lines do not mask the error
    let text = "# header\n\n+ alice web alice pw\n+ onlyname\n+ ok ok ok ok\n";
    let err = parse(text).unwrap_err();
    assert_eq!(err, Error::MissingLink(4));
}

#[test]
fn mutating_one_line_leaves_other_lines_results_alone() {
    let a = "+ alice web alice pw\n+ onlyname\n";
    let b = "????????\n+ onlyname\n";
    // line 1 differs, line 2 is the same: its result is the same error
    assert_eq!(parse(a).unwrap_err(), Error::MissingLink(2));
    let err_b = parse(b).unwrap_err();
    assert_ne!(err_b, Error::MissingLink(2));
    let c = "+ alice web alice pw\n+ bob site bob pw2\n";
    let d = "+ other place other pw9\n+ bob site bob pw2\n";
    let pc = parse(c).unwrap();
    let pd = parse(d).unwrap();
    match (&pc[1], &pd[1]) {
        (Entry::Valid(x), Entry::Valid(y)) => {
            assert_eq!(x.name, y.name);
            assert_eq!(x.link, y.link);
            assert_eq!(x.username, y.username);
            assert_eq!(x.password, y.password);
        }
        _ => panic!("line 2 should parse the same way in both stores"),
    }
}

#[test]
fn tally_counts_every_status_and_sums_to_effective_lines() {
    let mut data = store();
    let t = tally(&mut data).unwrap();
    assert_eq!(t.valid, 2);
    assert_eq!(t.invalid, 1);
    assert_eq!(t.change, 1);
    // 6 physical lines, 1 comment, 1 blank: 4 effective lines
    assert_eq!(t.valid + t.invalid + t.change, 4);
    assert!(data.is_empty(), "the store text should be scrubbed");
}

#[test]
fn tally_fails_on_the_first_malformed_line() {
    let mut data = String::from("+ a b c d\n+ short\n");
    assert_eq!(tally(&mut data).unwrap_err(), Error::MissingLink(2));
}

#[test]
fn get_renders_the_unique_match_through_the_template() {
    let mut data = store();
    let line = get(&mut data, &String::from("Alice"), "%N|%L|%U|%P").unwrap();
    assert_eq!(line, "Alice|web|alice|pw1");
    assert!(data.is_empty(), "the store text should be scrubbed");
}

#[test]
fn get_is_case_sensitive_and_exact() {
    let mut data = store();
    let err = get(&mut data, &String::from("alice"), "%N").unwrap_err();
    assert_eq!(err, Error::NoMatches(String::from("alice")));
    let mut data = store();
    let err = get(&mut data, &String::from("Ali"), "%N").unwrap_err();
    assert_eq!(err, Error::NoMatches(String::from("Ali")));
}

#[test]
fn get_reports_ambiguity_for_two_current_records() {
    let mut data = String::from("+ x a b c\n+ x d e f\n");
    let err = get(&mut data, &String::from("x"), "%N").unwrap_err();
    assert_eq!(err, Error::Mismatch(String::from("x")));
}

#[test]
fn get_never_counts_retired_or_changing_records() {
    // a retired and a to-be-changed record with the name do not match
    let mut data = String::from("- x a b c\n* x d e f\n");
    let err = get(&mut data, &String::from("x"), "%N").unwrap_err();
    assert_eq!(err, Error::NoMatches(String::from("x")));
    // one current twin does not become ambiguous through them
    let mut data = String::from("- x a b c\n+ x d e f\n* x g h i\n");
    let line = get(&mut data, &String::from("x"), "%P").unwrap();
    assert_eq!(line, "f");
}

#[test]
fn list_is_case_insensitive_and_substring_based() {
    let mut data = store();
    let lines = list(&mut data, "al").unwrap();
    assert_eq!(lines, vec![String::from("Alice (web) alice pw1")]);
    let mut data = store();
    let lines = list(&mut data, "AL").unwrap();
    assert_eq!(lines, vec![String::from("Alice (web) alice pw1")]);
    assert!(data.is_empty(), "the store text should be scrubbed");
}

#[test]
fn list_with_empty_query_returns_every_current_record() {
    let mut data = store();
    let lines = list(&mut data, "").unwrap();
    assert_eq!(
        lines,
        vec![
            String::from("Alice (web) alice pw1"),
            String::from("dave (mail) dave pw4"),
        ]
    );
}

#[test]
fn list_skips_non_current_records_and_keeps_store_order() {
    let mut data = String::from("+ bab x y z\n- abz q r s\n+ zab u v w\n");
    let lines = list(&mut data, "ab").unwrap();
    assert_eq!(
        lines,
        vec![String::from("bab (x) y z"), String::from("zab (u) v w")]
    );
}

#[test]
fn list_propagates_a_parse_error() {
    let mut data = String::from("+ a b c d\n*\n");
    assert_eq!(list(&mut data, "a").unwrap_err(), Error::MissingName(2));
}

#[test]
fn entry_parse_follows_token_order() {
    let tokens = vec![
        String::from("+"),
        String::from("n"),
        String::from("l"),
        String::from("u"),
        String::from("p"),
    ];
    match Entry::parse(7, &tokens).unwrap() {
        Entry::Valid(d) => {
            assert_eq!(d.name, "n");
            assert_eq!(d.password, "p");
        }
        _ => panic!("expected a current record"),
    }
    let short = vec![String::from("-"), String::from("n")];
    assert_eq!(Entry::parse(3, &short).unwrap_err(), Error::MissingLink(3));
    let entry_tokens = vec![String::from("n"), String::from("l")];
    assert_eq!(
        EntryData::parse(9, &entry_tokens, 0).unwrap_err(),
        Error::MissingUsername(9)
    );
}
