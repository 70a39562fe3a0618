use vstd::prelude::*;

verus! {

/// What `serde_json::to_string` writes for a list of strings.
pub uninterp spec fn json_of_strings(items: Seq<Seq<char>>) -> Seq<char>;

/// What `serde_json::from_str` reads from a text as a list of strings, or
/// `None` when the text is not such a list.
pub uninterp spec fn strings_of_json(text: Seq<char>) -> Option<Seq<Seq<char>>>;

/// Relies on `serde_json::to_string`: the JSON array of the strings, or its
/// error message.
#[verifier::external_body]
fn strings_to_json(items: &Vec<String>) -> (r: Result<String, String>)
    ensures
        r matches Ok(text) ==> text@ == json_of_strings(items.deep_view()),
{
    serde_json::to_string(items).map_err(|e| e.to_string())
}

/// Relies on `serde_json::from_str`: the strings of a JSON array of strings,
/// or `None` when the text is not one.
#[verifier::external_body]
fn strings_from_json(text: &str) -> (r: Option<Vec<String>>)
    ensures
        r.deep_view() == strings_of_json(text@),
{
    serde_json::from_str::<Vec<String>>(text).ok()
}

/// Stored tags from their JSON text; no tags when the text cannot be read.
pub fn decode_tags(text: &str) -> (r: Vec<String>)
    ensures
        r.deep_view() == match strings_of_json(text@) {
            Some(tags) => tags,
            None => Seq::empty(),
        },
{
    match strings_from_json(text) {
        Some(tags) => tags,
        None => {
            let none: Vec<String> = Vec::new();
            assert(none.deep_view() =~= Seq::<Seq<char>>::empty());
            none
        },
    }
}

/// The JSON text tags are stored as, or an error that says serialising failed.
pub fn encode_tags(tags: &Vec<String>) -> (r: Result<String, String>)
    ensures
        r matches Ok(text) ==> text@ == json_of_strings(tags.deep_view()),
        r matches Err(e) ==> "Failed to serialize tags: "@.is_prefix_of(e@),
{
    match strings_to_json(tags) {
        Ok(text) => Ok(text),
        Err(cause) => {
            let mut e = String::from_str("Failed to serialize tags: ");
            e.append(cause.as_str());
            assert("Failed to serialize tags: "@.is_prefix_of(e@)) by {
                assert(e@.subrange(0, "Failed to serialize tags: "@.len() as int) =~= "Failed to serialize tags: "@);
            }
            Err(e)
        },
    }
}

/// The SQL `LIKE` pattern for a search: the query between two `%`, or `None`
/// for an empty query, which lists every snippet.
pub fn search_pattern(query: &str) -> (r: Option<String>)
    ensures
        r is None <==> query@.len() == 0,
        r matches Some(p) ==> p@ == seq!['%'] + query@ + seq!['%'],
{
    if query.unicode_len() == 0 {
        return None;
    }
    let mut p = String::from_str("%");
    p.append(query);
    p.append("%");
    proof {
        reveal_strlit("%");
        assert(p@ =~= seq!['%'] + query@ + seq!['%']);
    }
    Some(p)
}

} // verus!
