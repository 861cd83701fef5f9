//! The client of the remote strikes service: the addresses it calls, and
//! what it concludes from each response. The HTTP requests themselves are
//! sent outside the library; the library decides what every answer means.

use vstd::prelude::*;
use vstd::string::StringExecFns;
use crate::errors::{ErrorKind, StrikeError};
use crate::tarnished::Tarnished;
use crate::text::{dec_str, u64_to_string};

verus! {

/// One row of the remote service's answer to a strike request.
#[derive(Debug, Clone)]
pub struct StrikesResponse {
    pub name: String,
    pub strike_count: u8,
}

/// The remote backend's client: where the service lives, and the
/// credential sent with every request.
#[derive(Debug, Clone)]
pub struct RemoteClient {
    pub api_key: String,
    pub base_url: String,
}

/// The message that names a response status the client did not expect.
pub open spec fn status_message(status: u16) -> Seq<char> {
    "unexpected response status "@ + dec_str(status as nat)
}

/// The message, built.
fn status_text(status: u16) -> (r: String)
    ensures
        r@ == status_message(status),
{
    let mut s = String::from_str("unexpected response status ");
    let digits = u64_to_string(status as u64);
    s.append(digits.as_str());
    s
}

impl RemoteClient {
    /// The endpoint of the liveness probe.
    pub fn health_url(&self) -> (r: String)
        ensures
            r@ == self.base_url@ + "/health"@,
    {
        let mut url = self.base_url.clone();
        url.append("/health");
        url
    }

    /// The endpoint that holds the strike records: a read lists them all,
    /// and a delete request to the same endpoint clears them all.
    pub fn strikes_url(&self) -> (r: String)
        ensures
            r@ == self.base_url@ + "/strikes"@,
    {
        let mut url = self.base_url.clone();
        url.append("/strikes");
        url
    }

    /// The endpoint that adds one strike for a name.
    pub fn strike_url(&self, username: &str) -> (r: String)
        ensures
            r@ == self.base_url@ + "/strikes/"@ + username@,
    {
        let mut url = self.base_url.clone();
        url.append("/strikes/");
        url.append(username);
        url
    }

    /// What the liveness probe concludes from the response status: healthy
    /// exactly on a 200 answer; any other status is a transport error that
    /// names it.
    pub fn health_outcome(status: u16) -> (r: Result<(), StrikeError>)
        ensures
            status == 200 <==> r is Ok,
            status != 200 ==> (r matches Err(e) && e.kind == ErrorKind::Transport && e.message@
                == status_message(status)),
    {
        if status == 200 {
            Ok(())
        } else {
            Err(StrikeError::transport(status_text(status)))
        }
    }

    /// What `add_strike` concludes from the strike request's response: the
    /// count the service reported on a 200 answer whose body parsed, a
    /// serialization error on a 200 answer whose body did not, and a
    /// transport error naming any other status.
    pub fn put_strike_outcome(status: u16, body: Option<StrikesResponse>) -> (r: Result<
        u8,
        StrikeError,
    >)
        ensures
            status == 200 ==> match body {
                Some(p) => r matches Ok(c) && c == p.strike_count,
                None => r matches Err(e) && e.kind == ErrorKind::Serialization,
            },
            status != 200 ==> (r matches Err(e) && e.kind == ErrorKind::Transport && e.message@
                == status_message(status)),
    {
        if status != 200 {
            Err(StrikeError::transport(status_text(status)))
        } else {
            match body {
                Some(p) => Ok(p.strike_count),
                None => Err(
                    StrikeError::serialization(
                        String::from_str("the strike response is not a strike record"),
                    ),
                ),
            }
        }
    }

    /// What `get_tarnished` concludes from the listing request's response:
    /// the rows as records, in the order the service sent them, on a 200
    /// answer whose body parsed; errors as for the strike request.
    pub fn get_strikes_outcome(status: u16, body: Option<Vec<StrikesResponse>>) -> (r: Result<
        Vec<Tarnished>,
        StrikeError,
    >)
        ensures
            status == 200 ==> match body {
                Some(rows) => r matches Ok(v) && v@.len() == rows@.len() && (forall|i: int|
                    0 <= i < rows@.len() ==> v@[i].name == rows@[i].name && v@[i].strikes
                        == rows@[i].strike_count),
                None => r matches Err(e) && e.kind == ErrorKind::Serialization,
            },
            status != 200 ==> (r matches Err(e) && e.kind == ErrorKind::Transport && e.message@
                == status_message(status)),
    {
        if status != 200 {
            Err(StrikeError::transport(status_text(status)))
        } else {
            match body {
                Some(rows) => Ok(Tarnished::from_vec(rows)),
                None => Err(
                    StrikeError::serialization(
                        String::from_str("the strikes listing is not a list of strike records"),
                    ),
                ),
            }
        }
    }

    /// What `clear_strikes` concludes from the delete request's response:
    /// the service cleared the table exactly on a 200 answer; any other
    /// status is a transport error that names it.
    pub fn clear_outcome(status: u16) -> (r: Result<(), StrikeError>)
        ensures
            status == 200 <==> r is Ok,
            status != 200 ==> (r matches Err(e) && e.kind == ErrorKind::Transport && e.message@
                == status_message(status)),
    {
        if status == 200 {
            Ok(())
        } else {
            Err(StrikeError::transport(status_text(status)))
        }
    }
}

} // verus!
