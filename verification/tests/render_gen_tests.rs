use pwstore::entry::{EntryData, Error};
use pwstore::generate::{gen_decide, gen_failure, run_policy, GenDecision};
use pwstore::get_passfile;
use pwstore::template::fmt_entry;

fn record() -> EntryData {
    EntryData {
        name: String::from("Alice"),
        link: String::from("web"),
        username: String::from("alice"),
        password: String::from("pw%N"),
    }
}

#[test]
fn fmt_substitutes_each_field() {
    assert_eq!(fmt_entry("%N (%L) %U %P", record()), "Alice (web) alice pw%N");
}

#[test]
fn fmt_is_identity_without_percent() {
    let plain = "no placeholders here, just text";
    assert_eq!(fmt_entry(plain, record()), plain);
}

#[test]
fn fmt_keeps_a_trailing_lone_percent() {
    assert_eq!(fmt_entry("tail%", record()), "tail%");
    assert_eq!(fmt_entry("%", record()), "%");
}

#[test]
fn fmt_passes_double_percent_through_unchanged() {
    assert_eq!(fmt_entry("%%", record()), "%%");
    assert_eq!(fmt_entry("a%%N", record()), "a%%N");
}

#[test]
fn fmt_passes_unknown_escapes_through_unchanged() {
    assert_eq!(fmt_entry("%x%N%y", record()), "%xAlice%y");
}

#[test]
fn fmt_does_not_reinterpret_substituted_content() {
    // the record's secret contains %N; it must come out verbatim
    assert_eq!(fmt_entry("%P", record()), "pw%N");
}

#[test]
fn gen_accepts_a_candidate_with_a_safe_first_character() {
    match gen_decide("Xabcdefg\n").unwrap() {
        GenDecision::Accept(p) => assert_eq!(p, "Xabcdefg"),
        GenDecision::Retry => panic!("should accept"),
    }
}

#[test]
fn gen_discards_a_punctuation_leading_candidate() {
    assert!(matches!(gen_decide("!abcdefg\n").unwrap(), GenDecision::Retry));
    assert!(matches!(gen_decide("~abcdefg\n").unwrap(), GenDecision::Retry));
}

#[test]
fn gen_rejects_empty_output() {
    assert_eq!(gen_decide("").unwrap_err(), Error::PwGenNoStdout);
    assert_eq!(gen_decide("  \n").unwrap_err(), Error::PwGenNoStdout);
}

#[test]
fn policy_loop_discards_then_emits() {
    let script = vec![String::from("!abcdefgh\n"), String::from("Xabcdefgh\n")];
    assert_eq!(run_policy(&script).unwrap(), Some(String::from("Xabcdefgh")));
}

#[test]
fn policy_loop_never_accepts_punctuation_leading_candidates() {
    let script = vec![String::from("!aaa\n"), String::from("?bbb\n"), String::from(";ccc\n")];
    assert_eq!(run_policy(&script).unwrap(), None);
}

#[test]
fn policy_loop_fails_fast_on_empty_output() {
    let script = vec![String::from("!aaa\n"), String::from("\n"), String::from("Xbb\n")];
    assert_eq!(run_policy(&script).unwrap_err(), Error::PwGenNoStdout);
}

#[test]
fn failure_classification_follows_the_exit_status() {
    assert_eq!(gen_failure(None, None), Error::PwGenDied);
    assert_eq!(gen_failure(None, Some(String::from("noise"))), Error::PwGenDied);
    assert_eq!(gen_failure(Some(3), None), Error::PwGenErr(3));
    assert_eq!(gen_failure(Some(3), Some(String::from("  \n"))), Error::PwGenErr(3));
    assert_eq!(
        gen_failure(Some(3), Some(String::from(" bad flag \n"))),
        Error::PwGenErrMsg(3, String::from("bad flag"))
    );
}

#[test]
fn passfile_resolution_prefers_the_explicit_path() {
    let explicit = get_passfile(Some(String::from("given")), Some(String::from("home")));
    assert_eq!(explicit.unwrap(), "given");
    let fallback = get_passfile(None, Some(String::from("home")));
    assert_eq!(fallback.unwrap(), "home");
    assert_eq!(get_passfile(None, None).unwrap_err(), Error::NoPassFile);
}
