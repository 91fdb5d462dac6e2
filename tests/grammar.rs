use rusoto::grammar::{
    extract_continuation, extract_profile, extract_profile_with_profile_prefix, extract_property,
    is_comment_or_empty, remove_comment,
};
use rusoto::text::{check_identifier, str_equal, trim_str};

#[test]
fn test_is_comment_or_empty() {
    assert!(is_comment_or_empty(""));
    assert!(is_comment_or_empty("\t \t"));
    assert!(is_comment_or_empty("; some comment"));
    assert!(is_comment_or_empty("# some comment"));
    assert!(is_comment_or_empty(" ; continuation line"));
    assert!(is_comment_or_empty(" #continuation line"));
    assert!(!is_comment_or_empty(" continuation line"));
    assert!(!is_comment_or_empty("key=#x"));
}

#[test]
fn test_extract_profile() {
    assert_eq!(extract_profile("[default]"), Some(Ok("default")));
    assert_eq!(extract_profile("[abc]"), Some(Ok("abc")));
    assert_eq!(extract_profile("[ abc]"), Some(Ok("abc")));
    assert_eq!(extract_profile("[\tabc\t]"), Some(Ok("abc")));
    assert_eq!(extract_profile("[abc]#comment"), Some(Ok("abc")));
    assert_eq!(extract_profile("[abc]\t #comment"), Some(Ok("abc")));
    assert_eq!(extract_profile("[abc] #comment"), Some(Ok("abc")));
    assert_eq!(extract_profile(" [abc]"), None); // continuation line
    assert_eq!(extract_profile("[profile abc]"), Some(Err(())));
    assert_eq!(extract_profile("[!invalid!]"), Some(Err(())));
    assert_eq!(extract_profile("[unclosed"), Some(Err(())));
}

#[test]
fn test_extract_profile_with_profile_prefix() {
    assert_eq!(extract_profile_with_profile_prefix("[default]"), Some(Ok("default")));
    assert_eq!(extract_profile_with_profile_prefix("[profile abc]"), Some(Ok("abc")));
    assert_eq!(extract_profile_with_profile_prefix("[ profile abc]"), Some(Ok("abc")));
    assert_eq!(extract_profile_with_profile_prefix("[ profile abc ]"), Some(Ok("abc")));
    assert_eq!(extract_profile_with_profile_prefix("[profile abc]#comment"), Some(Ok("abc")));
    assert_eq!(extract_profile_with_profile_prefix("[profile abc]\t #comment"), Some(Ok("abc")));
    assert_eq!(extract_profile_with_profile_prefix("[profile abc] #comment"), Some(Ok("abc")));
    assert_eq!(extract_profile_with_profile_prefix("abc]"), None);
    assert_eq!(extract_profile_with_profile_prefix(" [abc]"), None); // continuation line
    assert_eq!(extract_profile_with_profile_prefix("[profile !invalid!]"), Some(Err(())));
    assert_eq!(extract_profile_with_profile_prefix("[abc]"), Some(Err(())));
    assert_eq!(extract_profile_with_profile_prefix("[unclosed"), Some(Err(())));
}

#[test]
fn test_extract_property() {
    assert_eq!(extract_property("key=val"), Some(("key", "val")));
    assert_eq!(extract_property("key =val"), Some(("key", "val")));
    assert_eq!(extract_property("key = val "), Some(("key", "val")));
    assert_eq!(extract_property("key=val#not a comment"), Some(("key", "val#not a comment")));
    assert_eq!(extract_property("key=val #a comment"), Some(("key", "val")));
    assert_eq!(
        extract_property(
            "ABCDEFGHIJKLMNOPQRSTUVWXYZabcdefghijklmnopqrstuvwxyz0123456789-_=all valid chars"
        ),
        Some((
            "ABCDEFGHIJKLMNOPQRSTUVWXYZabcdefghijklmnopqrstuvwxyz0123456789-_",
            "all valid chars"
        ))
    );
    assert_eq!(extract_property("ïnṽåłǐḑ"), None);
    assert_eq!(extract_property("invalid"), None);
}

#[test]
fn test_extract_continuation() {
    assert_eq!(extract_continuation(" αβχ"), Some("αβχ"));
    assert_eq!(extract_continuation(" continuation line"), Some("continuation line"));
    assert_eq!(extract_continuation("\tcontinuation line"), Some("continuation line"));
    assert_eq!(extract_continuation("invalid"), None);
}

#[test]
fn config_grammar_acceptance() {
    assert_eq!(extract_profile_with_profile_prefix("[default]"), Some(Ok("default")));
    assert_eq!(extract_profile_with_profile_prefix("[profile foo]"), Some(Ok("foo")));
    assert_eq!(extract_profile_with_profile_prefix("[ profile foo ]"), Some(Ok("foo")));
    assert_eq!(extract_profile_with_profile_prefix("[profile\tfoo]"), Some(Ok("foo")));
    assert_eq!(extract_profile_with_profile_prefix("[foo]"), Some(Err(())));
    assert_eq!(extract_profile_with_profile_prefix("[profile !bad!]"), Some(Err(())));
    assert_eq!(extract_profile_with_profile_prefix("[profile  foo]"), Some(Err(())));
    assert_eq!(extract_profile_with_profile_prefix("[profilefoo]"), Some(Err(())));
}

#[test]
fn credentials_grammar_acceptance() {
    assert_eq!(extract_profile("[foo]"), Some(Ok("foo")));
    assert_eq!(extract_profile("[profile foo]"), Some(Err(())));
    assert_eq!(extract_profile("[]"), Some(Ok("")));
    assert_eq!(extract_profile("["), Some(Err(())));
    assert_eq!(extract_profile("[a;b]"), Some(Err(())));
}

#[test]
fn inline_comment_needs_a_blank_before_it() {
    assert_eq!(remove_comment("val ;x"), "val");
    assert_eq!(remove_comment("val\t#x"), "val");
    assert_eq!(remove_comment("val;x"), "val;x");
    assert_eq!(remove_comment(" #all comment"), "");
    assert_eq!(extract_property("key= #c"), Some(("key", "")));
    assert_eq!(extract_property("=v"), Some(("", "v")));
    assert_eq!(extract_property("a b=v"), None);
}

#[test]
fn text_helpers() {
    assert_eq!(trim_str("\u{3000} x y\r\n"), "x y");
    assert_eq!(trim_str(" \t "), "");
    assert!(check_identifier("a-Z_09"));
    assert!(check_identifier(""));
    assert!(!check_identifier("a.b"));
    assert!(str_equal("abc", "abc"));
    assert!(!str_equal("abc", "abd"));
    assert!(!str_equal("abc", "ab"));
}
