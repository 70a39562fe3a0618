use lemme_do_it::matcher::{find_replacement, longest_match, suffix_of};
use lemme_do_it::snippet::Snippet;

fn chars(s: &str) -> Vec<char> {
    s.chars().collect()
}

fn snippet(trigger: &str) -> Snippet {
    Snippet::new(trigger.to_string(), "content".to_string(), None, vec![], false)
}

#[test]
fn longest_trigger_wins() {
    let snippets = vec![snippet("hi"), snippet("ohi")];
    assert_eq!(find_replacement(&chars("sayohi"), &snippets), Some(1));
    let reversed = vec![snippet("ohi"), snippet("hi")];
    assert_eq!(find_replacement(&chars("sayohi"), &reversed), Some(0));
    assert_eq!(find_replacement(&chars("sayhi"), &snippets), Some(0));
}

#[test]
fn equal_length_goes_to_first_in_order() {
    let triggers = vec![chars("ab"), chars("xb"), chars("ab")];
    assert_eq!(longest_match(&chars("zab"), &triggers), Some(0));
}

#[test]
fn no_suffix_no_match() {
    let triggers = vec![chars("btw"), chars("hello")];
    assert_eq!(longest_match(&chars("hellob"), &triggers), None);
    assert_eq!(longest_match(&chars("tw"), &triggers), None);
}

#[test]
fn empty_buffer_never_matches() {
    let triggers = vec![chars(""), chars("a")];
    assert_eq!(longest_match(&chars(""), &triggers), None);
    assert_eq!(longest_match(&chars("b"), &triggers), Some(0));
    assert_eq!(longest_match(&chars("a"), &Vec::new()), None);
}

#[test]
fn whole_buffer_can_be_the_trigger() {
    assert!(suffix_of(&chars("btw"), &chars("btw")));
    assert!(!suffix_of(&chars("tw"), &chars("btw")));
    assert!(suffix_of(&chars("xbtw"), &chars("")));
    assert!(!suffix_of(&chars("btwx"), &chars("btw")));
}
