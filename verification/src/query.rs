//! Extracting the submitted command from a request's query string.
//!
//! The query string of a `/shell` request carries the command under the
//! `cmd` parameter, encoded as `application/x-www-form-urlencoded` pairs.
//! Decoding those pairs is done by the `url` crate; picking the command
//! out of them is this module's verified logic.

use vstd::prelude::*;

verus! {

broadcast use vstd::string::to_string_from_display_ensures_for_str;

/// The key/value pairs that percent-decoding a query string yields, in
/// the order they stand in the query. What exactly the decoding does to
/// each byte is left to the `url` crate; it is a function of the query
/// characters alone.
pub uninterp spec fn query_pairs_of(query: Seq<char>) -> Seq<(Seq<char>, Seq<char>)>;

/// The views of a vector of string pairs.
pub open spec fn pair_views(pairs: Seq<(String, String)>) -> Seq<(Seq<char>, Seq<char>)> {
    pairs.map_values(|p: (String, String)| (p.0@, p.1@))
}

/// Relies on `url::form_urlencoded::parse` (the `form_urlencoded` crate):
/// it splits its input on `&` and `=`, replaces `+` by a space and
/// percent-decodes names and values, yielding the pairs in order — a
/// function of the input alone.
#[verifier::external_body]
fn parse_query(query: &str) -> (r: Vec<(String, String)>)
    ensures
        pair_views(r@) == query_pairs_of(query@),
{
    url::form_urlencoded::parse(query.as_bytes()).into_owned().collect()
}

/// The value of the last pair carrying `key`: the value a map built from
/// the pairs in order would hold for it.
pub open spec fn last_value_for(
    pairs: Seq<(Seq<char>, Seq<char>)>,
    key: Seq<char>,
) -> Option<Seq<char>>
    decreases pairs.len(),
{
    if pairs.len() == 0 {
        None
    } else if pairs.last().0 == key {
        Some(pairs.last().1)
    } else {
        last_value_for(pairs.drop_last(), key)
    }
}

/// The command a query string names: the value of its last `cmd`
/// parameter, or `None` when it has no such parameter.
pub fn shell_command_of_query(query: &str) -> (r: Option<String>)
    ensures
        match r {
            Some(cmd) => last_value_for(query_pairs_of(query@), "cmd"@) == Some(cmd@),
            None => last_value_for(query_pairs_of(query@), "cmd"@) is None,
        },
{
    let pairs = parse_query(query);
    let key: String = "cmd".to_string();
    let ghost mapped = query_pairs_of(query@);
    proof {
        assert(pair_views(pairs@).take(pairs@.len() as int) =~= pair_views(pairs@));
    }
    let mut i: usize = pairs.len();
    while i > 0
        invariant
            i <= pairs@.len(),
            key@ == "cmd"@,
            mapped == query_pairs_of(query@),
            mapped == pair_views(pairs@),
            last_value_for(mapped, "cmd"@) == last_value_for(
                pair_views(pairs@).take(i as int),
                "cmd"@,
            ),
        decreases i,
    {
        i = i - 1;
        let p = &pairs[i];
        proof {
            assert(pair_views(pairs@).take(i as int + 1).last() == (p.0@, p.1@));
            assert(pair_views(pairs@).take(i as int + 1).drop_last() =~= pair_views(
                pairs@,
            ).take(i as int));
        }
        if p.0 == key {
            proof {
                assert(last_value_for(pair_views(pairs@).take(i as int + 1), "cmd"@) == Some(
                    p.1@,
                ));
            }
            return Some(p.1.clone());
        }
    }
    proof {
        assert(pair_views(pairs@).take(0) =~= Seq::<(Seq<char>, Seq<char>)>::empty());
    }
    None
}

} // verus!
