//! What the service's request handlers reply: the routing of the strike
//! request, the shape of each response body, and the standings list that
//! is pushed to the website. The serving itself runs outside the library.

use vstd::prelude::*;
use vstd::string::StringExecFns;
use crate::strikes_db::{
    entities_with_count, sort_strikes_desc, sorted_desc_entities, StrikeEntity,
};
use crate::text::{dec_str, u64_to_string};

verus! {

/// One reply of a request handler: the status sent and the body text.
#[derive(Debug)]
pub struct HttpReply {
    pub status: u16,
    pub body: String,
}

/// The list item that writes one row of the standings.
pub open spec fn li_of(e: StrikeEntity) -> Seq<char> {
    "<li>"@ + e.user_id@ + ": "@ + dec_str(e.strikes as nat) + "</li>"@
}

/// The list items of all rows, in order.
pub open spec fn lis_of(s: Seq<StrikeEntity>) -> Seq<char>
    decreases s.len(),
{
    if s.len() == 0 {
        Seq::empty()
    } else {
        lis_of(s.drop_last()) + li_of(s.last())
    }
}

/// The list that replaces the website's standings.
pub open spec fn ul_of(s: Seq<StrikeEntity>) -> Seq<char> {
    "<ul hx-swap-oob=\"innerHTML:#content\">"@ + lis_of(s) + "</ul>"@
}

/// The HTML list that pushes the given standings to the website.
#[verifier::loop_isolation(false)]
pub fn ul_from_strikes(strikes: Vec<StrikeEntity>) -> (r: String)
    ensures
        r@ == ul_of(strikes@),
{
    let mut items = String::new();
    let mut k: usize = 0;
    while k < strikes.len()
        invariant
            0 <= k <= strikes@.len(),
            items@ == lis_of(strikes@.subrange(0, k as int)),
        decreases strikes@.len() - k,
    {
        items.append("<li>");
        items.append(strikes[k].user_id.as_str());
        items.append(": ");
        let digits = u64_to_string(strikes[k].strikes as u64);
        items.append(digits.as_str());
        items.append("</li>");
        proof {
            let prefix = strikes@.subrange(0, k + 1);
            assert(prefix.drop_last() =~= strikes@.subrange(0, k as int));
            assert(prefix.last() == strikes@[k as int]);
            assert(items@ =~= lis_of(prefix));
        }
        k = k + 1;
    }
    proof {
        assert(strikes@.subrange(0, strikes@.len() as int) =~= strikes@);
    }
    let mut page = String::from_str("<ul hx-swap-oob=\"innerHTML:#content\">");
    page.append(items.as_str());
    page.append("</ul>");
    proof {
        assert(page@ =~= ul_of(strikes@));
    }
    page
}

/// The JSON object that reports one stored strike.
pub open spec fn strike_json_of(name: Seq<char>, count: u8) -> Seq<char> {
    "{\"name\":\""@ + name + "\",\"strike_count\":"@ + dec_str(count as nat) + "}"@
}

/// The JSON array that reports the standings: the rows' objects in order.
pub open spec fn strikes_json_of(s: Seq<StrikeEntity>) -> Seq<char> {
    "["@ + strikes_json_items(s) + "]"@
}

/// The comma-separated objects inside the standings array.
pub open spec fn strikes_json_items(s: Seq<StrikeEntity>) -> Seq<char>
    decreases s.len(),
{
    if s.len() == 0 {
        Seq::empty()
    } else if s.len() == 1 {
        strike_json_of(s[0].user_id@, s[0].strikes)
    } else {
        strikes_json_items(s.drop_last()) + ","@ + strike_json_of(s.last().user_id@, s.last().strikes)
    }
}

/// The reply that rejects a strike request before any table is touched:
/// a missing user parameter, or a name that is empty or longer than
/// twenty characters. A well-formed request gets no reply here and goes
/// on to the table.
pub fn put_strike_route(user: Option<&str>) -> (r: Option<HttpReply>)
    ensures
        user is None ==> (r matches Some(rep) && rep.status == 400 && rep.body@
            == "Missing user parameter"@),
        user matches Some(u) ==> (if 1 <= u@.len() <= 20 {
            r is None
        } else {
            r matches Some(rep) && rep.status == 400 && rep.body@ == "Invalid username"@
        }),
{
    match user {
        None => Some(
            HttpReply { status: 400, body: String::from_str("Missing user parameter") },
        ),
        Some(u) => {
            let n = u.unicode_len();
            if n == 0 || n > 20 {
                Some(HttpReply { status: 400, body: String::from_str("Invalid username") })
            } else {
                None
            }
        },
    }
}

/// The reply that reports a stored strike: the name and its new count.
pub fn put_strike_reply(name: &str, count: u8) -> (r: HttpReply)
    ensures
        r.status == 200,
        r.body@ == strike_json_of(name@, count),
{
    let mut body = String::from_str("{\"name\":\"");
    body.append(name);
    body.append("\",\"strike_count\":");
    let digits = u64_to_string(count as u64);
    body.append(digits.as_str());
    body.append("}");
    proof {
        assert(body@ =~= strike_json_of(name@, count));
    }
    HttpReply { status: 200, body }
}

/// The reply that reports the standings. A caller that accepts HTML gets
/// the website's list, ranked by count descending; any other caller gets
/// the rows as a JSON array, in the scan's order.
pub fn get_strikes_reply(accept: &str, strikes: Vec<StrikeEntity>) -> (r: HttpReply)
    ensures
        r.status == 200,
        accept@ != "text/html"@ ==> r.body@ == strikes_json_of(strikes@),
        accept@ == "text/html"@ ==> exists|s: Seq<StrikeEntity>|
            sorted_desc_entities(s) && s.to_multiset() == strikes@.to_multiset() && (forall|c: u8|
                #[trigger] entities_with_count(s, c) == entities_with_count(strikes@, c))
                && r.body@ == #[trigger] ul_of(s),
{
    if crate::text::str_eq(accept, "text/html") {
        let ranked = sort_strikes_desc(&strikes);
        let ghost witness = ranked@;
        let body = ul_from_strikes(ranked);
        proof {
            assert(sorted_desc_entities(witness) && witness.to_multiset()
                == strikes@.to_multiset() && (forall|c: u8|
                #[trigger] entities_with_count(witness, c) == entities_with_count(strikes@, c))
                && body@ == ul_of(witness));
        }
        HttpReply { status: 200, body }
    } else {
        HttpReply { status: 200, body: strikes_json_body(&strikes) }
    }
}

/// The standings as a JSON array, in the given order.
#[verifier::loop_isolation(false)]
fn strikes_json_body(strikes: &Vec<StrikeEntity>) -> (r: String)
    ensures
        r@ == strikes_json_of(strikes@),
{
    let mut items = String::new();
    let mut k: usize = 0;
    while k < strikes.len()
        invariant
            0 <= k <= strikes@.len(),
            items@ == strikes_json_items(strikes@.subrange(0, k as int)),
        decreases strikes@.len() - k,
    {
        if k > 0 {
            items.append(",");
        }
        items.append("{\"name\":\"");
        items.append(strikes[k].user_id.as_str());
        items.append("\",\"strike_count\":");
        let digits = u64_to_string(strikes[k].strikes as u64);
        items.append(digits.as_str());
        items.append("}");
        proof {
            let prefix = strikes@.subrange(0, k + 1);
            assert(prefix.drop_last() =~= strikes@.subrange(0, k as int));
            assert(prefix.last() == strikes@[k as int]);
            if k == 0 {
                assert(prefix.len() == 1);
                assert(prefix[0] == strikes@[0]);
            }
            assert(items@ =~= strikes_json_items(prefix));
        }
        k = k + 1;
    }
    proof {
        assert(strikes@.subrange(0, strikes@.len() as int) =~= strikes@);
    }
    let mut body = String::from_str("[");
    body.append(items.as_str());
    body.append("]");
    proof {
        assert(body@ =~= strikes_json_of(strikes@));
    }
    body
}

/// The reply of the liveness endpoint: the one defined healthy answer.
pub fn health_reply() -> (r: HttpReply)
    ensures
        r.status == 200,
        r.body@ == "OK"@,
{
    HttpReply { status: 200, body: String::from_str("OK") }
}

} // verus!
