//! The TURN configuration of realtime peers, from optional text values.

use crate::outside::{split_comma, str_split_commas, str_trim, trimmed};
use crate::strmap::str_eq;
use vstd::prelude::*;

verus! {

/// TURN servers for realtime peers, all with one username and credential,
/// and whether only relayed candidates may be used.
pub struct TurnConfig {
    pub urls: Vec<String>,
    pub username: String,
    pub credential: String,
    pub relay_only: bool,
}

/// The non-empty trimmed pieces of a comma-separated list.
pub open spec fn turn_url_list(urls: Seq<char>) -> Seq<Seq<char>> {
    split_comma(urls).map_values(|p: Seq<char>| trimmed(p)).filter(|p: Seq<char>| p.len() > 0)
}

/// The relay-only switch accepts `1`, `true`, `TRUE`, `yes` and `YES`.
pub open spec fn relay_only_value(v: Seq<char>) -> bool {
    v == "1"@ || v == "true"@ || v == "TRUE"@ || v == "yes"@ || v == "YES"@
}

fn opt_or_empty(v: &Option<String>) -> (r: String)
    ensures
        r@ == match v {
            Some(s) => s@,
            None => Seq::<char>::empty(),
        },
{
    match v {
        Some(s) => s.clone(),
        None => String::new(),
    }
}

/// The TURN configuration from its four optional values: without a
/// non-blank server list there are no servers and no relay-only mode;
/// otherwise every non-empty trimmed piece of the comma-separated list is a
/// server.
pub fn turn_config_from_values(
    turn_urls: Option<String>,
    username: Option<String>,
    credential: Option<String>,
    relay_only: Option<String>,
) -> (c: TurnConfig)
    ensures
        ({
            let urls = match turn_urls {
                Some(s) => s@,
                None => Seq::<char>::empty(),
            };
            &&& urls.len() == 0 ==> c.urls@.len() == 0 && !c.relay_only
            &&& trimmed(urls).len() == 0 ==> c.urls@.len() == 0 && !c.relay_only
            &&& trimmed(urls).len() > 0 ==> c.urls@.map_values(|p: String| p@) == turn_url_list(urls)
                && c.relay_only == (relay_only matches Some(v) && relay_only_value(v@)) && c.username@
                == match username {
                Some(s) => s@,
                None => Seq::<char>::empty(),
            } && c.credential@ == match credential {
                Some(s) => s@,
                None => Seq::<char>::empty(),
            }
        }),
{
    let urls = opt_or_empty(&turn_urls);
    let user = opt_or_empty(&username);
    let cred = opt_or_empty(&credential);
    if str_trim(urls.as_str()).as_bytes().len() == 0 {
        proof {
            lemma_text_empty(trimmed(urls@));
        }
        return TurnConfig { urls: Vec::new(), username: user, credential: cred, relay_only: false };
    }
    proof {
        lemma_text_empty(trimmed(urls@));
    }
    let pieces = str_split_commas(urls.as_str());
    let ghost pv = pieces@.map_values(|p: String| p@);
    let mut out: Vec<String> = Vec::new();
    let mut i: usize = 0;
    while i < pieces.len()
        invariant
            pv == pieces@.map_values(|p: String| p@),
            pv == split_comma(urls@),
            i <= pieces@.len(),
            out@.map_values(|p: String| p@) == pv.take(i as int).map_values(|p: Seq<char>| trimmed(p)).filter(
                |p: Seq<char>| p.len() > 0,
            ),
        decreases pieces@.len() - i,
    {
        let t = str_trim(pieces[i].as_str());
        let ghost before = out@.map_values(|p: String| p@);
        proof {
            let f = |p: Seq<char>| trimmed(p);
            let keep = |p: Seq<char>| p.len() > 0;
            assert(pv.take(i + 1).map_values(f) =~= pv.take(i as int).map_values(f).push(trimmed(pv[i as int])));
            pv.take(i as int).map_values(f).lemma_filter_push(trimmed(pv[i as int]), keep);
            lemma_text_empty(t@);
        }
        if t.as_bytes().len() > 0 {
            out.push(t.to_owned());
            proof {
                assert(out@.map_values(|p: String| p@) =~= before.push(t@));
            }
        }
        i += 1;
    }
    proof {
        assert(pv.take(pieces@.len() as int) =~= pv);
    }
    let ro = match &relay_only {
        Some(v) => str_eq(v.as_str(), "1") || str_eq(v.as_str(), "true") || str_eq(v.as_str(), "TRUE") || str_eq(
            v.as_str(),
            "yes",
        ) || str_eq(v.as_str(), "YES"),
        None => false,
    };
    TurnConfig { urls: out, username: user, credential: cred, relay_only: ro }
}

proof fn lemma_text_empty(s: Seq<char>)
    ensures
        vstd::utf8::encode_utf8(s).len() == 0 <==> s.len() == 0,
{
    vstd::utf8::encode_utf8_decode_utf8(s);
    if vstd::utf8::encode_utf8(s).len() == 0 {
        assert(vstd::utf8::encode_utf8(s) =~= Seq::<u8>::empty());
        assert(vstd::utf8::decode_utf8(Seq::<u8>::empty()) =~= Seq::<char>::empty());
    }
}

} // verus!
