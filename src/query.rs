//! Query parameters of a request, and the name that the greeting page shows.
use vstd::prelude::*;

use crate::text::same_text;

verus! {

/// The key/value pairs that `form_urlencoded` decodes from a query string,
/// in their order of appearance.
pub uninterp spec fn form_pairs(query: Seq<char>) -> Seq<(Seq<char>, Seq<char>)>;

/// Relies on `form_urlencoded::parse`: it splits the query at `&` and `=`
/// and decodes `+` and percent escapes, and the pairs depend on the query's
/// text alone.
#[verifier::external_body]
fn decode_query(query: &str) -> (r: Vec<(String, String)>)
    ensures
        pair_views(r@) == form_pairs(query@),
{
    form_urlencoded::parse(query.as_bytes()).into_owned().collect()
}

/// The text of each pair.
pub open spec fn pair_views(pairs: Seq<(String, String)>) -> Seq<(Seq<char>, Seq<char>)> {
    pairs.map_values(|p: (String, String)| (p.0@, p.1@))
}

/// The value of the last pair with key `key`: a later pair wins over an
/// earlier one.
pub open spec fn last_value(pairs: Seq<(Seq<char>, Seq<char>)>, key: Seq<char>) -> Option<Seq<char>>
    decreases pairs.len(),
{
    if pairs.len() == 0 {
        None
    } else if pairs.last().0 == key {
        Some(pairs.last().1)
    } else {
        last_value(pairs.drop_last(), key)
    }
}

/// The name the greeting page shows: the value of the last `name` parameter,
/// or `World` where there is none or it is empty.
pub open spec fn greeting_name_of(pairs: Seq<(Seq<char>, Seq<char>)>) -> Seq<char> {
    let v = last_value(pairs, "name"@);
    if v is Some && v->0.len() > 0 {
        v->0
    } else {
        "World"@
    }
}

/// Decodes a query string into its pairs, in order.
pub fn parse_query(query: &str) -> (r: Vec<(String, String)>)
    ensures
        pair_views(r@) == form_pairs(query@),
{
    decode_query(query)
}

/// The value of the last pair whose key is `key`.
pub fn query_value(pairs: &Vec<(String, String)>, key: &str) -> (r: Option<String>)
    ensures
        match r {
            None => last_value(pair_views(pairs@), key@) is None,
            Some(v) => last_value(pair_views(pairs@), key@) == Some(v@),
        },
{
    let ghost pv = pair_views(pairs@);
    let mut i: usize = pairs.len();
    assert(pv.subrange(0, i as int) == pv);
    while i > 0
        invariant
            i <= pairs@.len(),
            pv == pair_views(pairs@),
            last_value(pv, key@) == last_value(pv.subrange(0, i as int), key@),
        decreases i,
    {
        let ghost sub = pv.subrange(0, i as int);
        assert(sub.drop_last() == pv.subrange(0, i - 1));
        assert(sub.last() == (pairs@[i - 1].0@, pairs@[i - 1].1@));
        if same_text(pairs[i - 1].0.as_str(), key) {
            return Some(pairs[i - 1].1.clone());
        }
        i = i - 1;
    }
    assert(pv.subrange(0, 0).len() == 0);
    None
}

/// The name to greet, from decoded query pairs: the last `name` value when it
/// is not empty, else `World`. An empty value counts as no value.
pub fn greeting_name(pairs: &Vec<(String, String)>) -> (r: String)
    ensures
        r@ == greeting_name_of(pair_views(pairs@)),
{
    match query_value(pairs, "name") {
        Some(v) => {
            if v.as_str().unicode_len() > 0 {
                v
            } else {
                String::from_str("World")
            }
        },
        None => String::from_str("World"),
    }
}

/// The name to greet for a raw query string (without the `?`).
pub fn greeting_name_for_query(query: &str) -> (r: String)
    ensures
        r@ == greeting_name_of(form_pairs(query@)),
{
    let pairs = decode_query(query);
    greeting_name(&pairs)
}

} // verus!
