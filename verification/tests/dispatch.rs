//! The lines of the remote-helper protocol.

use inv4_git::error::Error;
use inv4_git::primitives::RepoData;
use inv4_git::protocol::{
    capabilities, fetch_reply, list, parse_command, parse_refspec, parse_url, push_reply,
    unknown_reply, Command, Refspec,
};
use inv4_git::text::{check_oid, split_words, starts_with};

#[test]
fn words_are_runs_between_spaces() {
    assert_eq!(split_words(""), Vec::<String>::new());
    assert_eq!(split_words(" \t\r\n"), Vec::<String>::new());
    assert_eq!(split_words("list\n"), vec!["list"]);
    assert_eq!(split_words("  fetch   abc\tdef \n"), vec!["fetch", "abc", "def"]);
    assert_eq!(split_words("a\x0Cb"), vec!["a", "b"]);
    assert_eq!(split_words("héllo wörld"), vec!["héllo", "wörld"]);
    for line in ["push +a:b\n", " x  y z ", "one", "\n\n"] {
        let expected: Vec<&str> = line.split_ascii_whitespace().collect();
        assert_eq!(split_words(line), expected);
    }
}

#[test]
fn capabilities_command() {
    assert_eq!(parse_command("capabilities\n"), Command::Capabilities);
    assert_eq!(parse_command("capabilities now\n"), Command::Unknown);
}

#[test]
fn list_command_takes_at_most_one_word() {
    assert_eq!(parse_command("list\n"), Command::List);
    assert_eq!(parse_command("list for-push\n"), Command::List);
    assert_eq!(parse_command("list for push\n"), Command::Unknown);
}

#[test]
fn push_command_takes_one_refspec() {
    assert_eq!(
        parse_command("push +refs/heads/main:refs/heads/main\n"),
        Command::Push { refspec: "+refs/heads/main:refs/heads/main".to_string() }
    );
    assert_eq!(parse_command("push\n"), Command::Unknown);
    assert_eq!(parse_command("push a b\n"), Command::Unknown);
}

#[test]
fn fetch_command_takes_a_hash_and_a_name() {
    let sha = "a".repeat(40);
    assert_eq!(
        parse_command(&format!("fetch {} refs/heads/main\n", sha)),
        Command::Fetch { sha: sha.clone(), name: "refs/heads/main".to_string() }
    );
    assert_eq!(
        parse_command(&format!("fetch {} refs/heads/main more\n", sha)),
        Command::Fetch { sha: sha.clone(), name: "refs/heads/main".to_string() }
    );
    assert_eq!(parse_command(&format!("fetch {}\n", sha)), Command::Unknown);
    assert_eq!(parse_command("fetch\n"), Command::Unknown);
}

#[test]
fn blank_line_ends_the_batch() {
    assert_eq!(parse_command("\n"), Command::Nothing);
    assert_eq!(parse_command(""), Command::Nothing);
    assert_eq!(parse_command("   \n"), Command::Nothing);
}

#[test]
fn other_lines_are_no_commands() {
    assert_eq!(parse_command("option verbosity 1\n"), Command::Unknown);
    assert_eq!(parse_command("PUSH a:b\n"), Command::Unknown);
    assert_eq!(parse_command("pushing\n"), Command::Unknown);
}

#[test]
fn refspec_with_source_and_destination() {
    assert_eq!(
        parse_refspec("refs/heads/main:refs/heads/trunk"),
        Refspec {
            src: "refs/heads/main".to_string(),
            dst: "refs/heads/trunk".to_string(),
            force: false
        }
    );
}

#[test]
fn refspec_with_force_marker() {
    assert_eq!(
        parse_refspec("+refs/heads/main:refs/heads/main"),
        Refspec {
            src: "refs/heads/main".to_string(),
            dst: "refs/heads/main".to_string(),
            force: true
        }
    );
    assert_eq!(
        parse_refspec("+"),
        Refspec { src: "".to_string(), dst: "".to_string(), force: true }
    );
}

#[test]
fn refspec_with_empty_source_asks_for_deletion() {
    assert_eq!(
        parse_refspec(":refs/heads/gone"),
        Refspec { src: "".to_string(), dst: "refs/heads/gone".to_string(), force: false }
    );
    assert_eq!(
        parse_refspec("+:refs/heads/gone"),
        Refspec { src: "".to_string(), dst: "refs/heads/gone".to_string(), force: true }
    );
}

#[test]
fn refspec_without_destination_pushes_to_the_same_name() {
    assert_eq!(
        parse_refspec("refs/heads/main"),
        Refspec {
            src: "refs/heads/main".to_string(),
            dst: "refs/heads/main".to_string(),
            force: false
        }
    );
    assert_eq!(
        parse_refspec(""),
        Refspec { src: "".to_string(), dst: "".to_string(), force: false }
    );
}

#[test]
fn refspec_ends_at_the_second_colon() {
    assert_eq!(
        parse_refspec("a:b:c"),
        Refspec { src: "a".to_string(), dst: "b".to_string(), force: false }
    );
    assert_eq!(
        parse_refspec("a:"),
        Refspec { src: "a".to_string(), dst: "".to_string(), force: false }
    );
}

#[test]
fn address_with_repository() {
    assert_eq!(parse_url("inv4://5"), Ok((5, None)));
    assert_eq!(parse_url("inv4://0"), Ok((0, None)));
    assert_eq!(parse_url("inv4://007"), Ok((7, None)));
    assert_eq!(parse_url("inv4://4294967295"), Ok((4294967295, None)));
}

#[test]
fn address_with_repository_and_subasset() {
    assert_eq!(parse_url("inv4://5/7"), Ok((5, Some(7))));
    assert_eq!(parse_url("inv4://12/4294967295"), Ok((12, Some(4294967295))));
    assert_eq!(parse_url("inv4://5/7/ignored"), Ok((5, Some(7))));
    assert_eq!(parse_url("inv4://5/"), Ok((5, None)));
    assert_eq!(parse_url("inv4://5//9"), Ok((5, None)));
}

#[test]
fn address_without_repository_is_refused() {
    assert_eq!(parse_url("inv4://"), Err(Error::Protocol));
    assert_eq!(parse_url("inv4:///7"), Err(Error::Protocol));
    assert_eq!(parse_url(""), Err(Error::Protocol));
}

#[test]
fn malformed_addresses_are_refused() {
    assert_eq!(parse_url("http://5"), Err(Error::Protocol));
    assert_eq!(parse_url("inv4:/5"), Err(Error::Protocol));
    assert_eq!(parse_url("inv4://five"), Err(Error::Protocol));
    assert_eq!(parse_url("inv4://+5"), Err(Error::Protocol));
    assert_eq!(parse_url("inv4://-5"), Err(Error::Protocol));
    assert_eq!(parse_url("inv4://5x"), Err(Error::Protocol));
    assert_eq!(parse_url("inv4://5/x"), Err(Error::Protocol));
    assert_eq!(parse_url("inv4://4294967296"), Err(Error::Protocol));
    assert_eq!(parse_url("inv4://5/4294967296"), Err(Error::Protocol));
    assert_eq!(parse_url("inv4://99999999999999999999999999"), Err(Error::Protocol));
    assert_eq!(parse_url("inv4://٣"), Err(Error::Protocol));
}

#[test]
fn capabilities_reply_names_push_and_fetch() {
    assert_eq!(capabilities(), "push\nfetch\n\n");
}

#[test]
fn list_reply_has_a_line_for_each_ref_in_ascending_order() {
    let mut manifest = RepoData::new();
    assert_eq!(list(&manifest), "\n");
    manifest.refs.insert("refs/tags/v1".to_string(), "c".repeat(40));
    manifest.refs.insert("refs/heads/main".to_string(), "a".repeat(40));
    assert_eq!(
        list(&manifest),
        format!("{} refs/heads/main\n{} refs/tags/v1\n\n", "a".repeat(40), "c".repeat(40))
    );
}

#[test]
fn push_reply_says_ok_or_gives_the_reason() {
    assert_eq!(push_reply("refs/heads/main", Ok(())), "ok refs/heads/main\n\n");
    assert_eq!(
        push_reply("refs/heads/main", Err(Error::Behind)),
        "error refs/heads/main \"local is behind remote; fetch first or use force\"\n\n"
    );
    assert_eq!(
        push_reply("refs/heads/main", Err(Error::Unavailable)),
        "error refs/heads/main \"remote store unavailable\"\n\n"
    );
    assert_eq!(
        push_reply("r", Err(Error::Conflict)),
        "error r \"repository moved on the ledger; read the manifest again\"\n\n"
    );
    assert_eq!(push_reply("r", Err(Error::Unauthorized)), "error r \"signer is not authorized\"\n\n");
}

#[test]
fn fetch_reply_is_a_blank_line() {
    assert_eq!(fetch_reply(), "\n");
}

#[test]
fn unknown_reply_names_the_fault() {
    assert_eq!(unknown_reply(), "unknown command\n\n");
}

#[test]
fn object_names_are_forty_hexadecimal_digits_in_lower_case() {
    assert!(check_oid(&"a".repeat(40)));
    assert!(check_oid("0123456789abcdef0123456789abcdef01234567"));
    assert!(!check_oid(""));
    assert!(!check_oid(&"a".repeat(39)));
    assert!(!check_oid(&"a".repeat(41)));
    assert!(!check_oid("0123456789ABCDEF0123456789abcdef01234567"));
    assert!(!check_oid("0123456789abcdeg0123456789abcdef01234567"));
    assert!(!check_oid(&"é".repeat(40)));
}

#[test]
fn prefix_test() {
    assert!(starts_with("refs/tags/v1", "refs/tags"));
    assert!(starts_with("refs/tags", "refs/tags"));
    assert!(starts_with("anything", ""));
    assert!(!starts_with("refs/tag", "refs/tags"));
    assert!(!starts_with("refs/heads/main", "refs/tags"));
    assert!(!starts_with("", "r"));
}
