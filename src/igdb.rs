//! What is sent to the catalog and when: the query for a batch of records,
//! the credentials and token, and the retry of rate-limited requests.

use vstd::prelude::*;

use crate::id::{id_text, GameId, GameIdView};
use crate::text::{decimal, push_decimal};

verus! {

/// Where the access token is obtained.
pub const TOKEN_URL: &'static str = "https://id.twitch.tv/oauth2/token";

/// Where game records are queried.
pub const GAMES_URL: &'static str = "https://api.igdb.com/v4/games";

/// Seconds to wait before the one retry of a rate-limited request.
pub const RATE_LIMIT_COOLDOWN_SECS: u64 = 60;

/// The status with which the catalog refuses a request over its rate limit.
pub const TOO_MANY_REQUESTS: u16 = 429;

/// The fields of a game record that a query asks for.
pub open spec fn game_fields() -> Seq<char> {
    "age_ratings.category,age_ratings.rating,age_ratings.rating_cover_url,aggregated_rating,aggregated_rating_count,cover.url,first_release_date,franchise.name,game_engines.name,game_engines.logo.url,game_modes.name,genres.name,involved_companies.developer,involved_companies.porting,involved_companies.publisher,involved_companies.supporting,involved_companies.company.country,involved_companies.company.logo.url,involved_companies.company.name,involved_companies.company.start_date,keywords.name,multiplayer_modes.campaigncoop,multiplayer_modes.lancoop,multiplayer_modes.offlinecoop,multiplayer_modes.onlinecoop,name,platforms.category,platforms.name,platforms.generation,platforms.platform_logo.url,player_perspectives.name,release_dates.date,themes.name,rating,rating_count,total_rating,total_rating_count"@
}

/// The identities written out and separated by commas.
pub open spec fn joined_ids(ids: Seq<GameIdView>) -> Seq<char>
    decreases ids.len(),
{
    if ids.len() == 0 {
        Seq::empty()
    } else if ids.len() == 1 {
        id_text(ids[0])
    } else {
        joined_ids(ids.drop_last()) + ","@ + id_text(ids.last())
    }
}

/// The body of the query for the records of `ids`: every field, only those
/// identities, as many records as identities.
pub open spec fn games_query_text(ids: Seq<GameIdView>) -> Seq<char> {
    "fields "@ + game_fields() + "; where id=("@ + joined_ids(ids) + "); limit "@ + decimal(
        ids.len(),
    ) + ";"@
}

/// The body of the one query that fetches the records of `ids`.
pub fn games_query(ids: &[GameId]) -> (r: String)
    requires
        ids@.len() <= u64::MAX,
    ensures
        r@ == games_query_text(ids@.map_values(|g: GameId| g@)),
{
    let ghost views = ids@.map_values(|g: GameId| g@);
    let mut r = String::from_str("fields ");
    r.append("age_ratings.category,age_ratings.rating,age_ratings.rating_cover_url,aggregated_rating,aggregated_rating_count,cover.url,first_release_date,franchise.name,game_engines.name,game_engines.logo.url,game_modes.name,genres.name,involved_companies.developer,involved_companies.porting,involved_companies.publisher,involved_companies.supporting,involved_companies.company.country,involved_companies.company.logo.url,involved_companies.company.name,involved_companies.company.start_date,keywords.name,multiplayer_modes.campaigncoop,multiplayer_modes.lancoop,multiplayer_modes.offlinecoop,multiplayer_modes.onlinecoop,name,platforms.category,platforms.name,platforms.generation,platforms.platform_logo.url,player_perspectives.name,release_dates.date,themes.name,rating,rating_count,total_rating,total_rating_count");
    r.append("; where id=(");
    let ghost head = r@;
    let mut i: usize = 0;
    while i < ids.len()
        invariant
            views == ids@.map_values(|g: GameId| g@),
            i <= ids@.len(),
            r@ == head + joined_ids(views.subrange(0, i as int)),
        decreases ids@.len() - i,
    {
        if i > 0 {
            r.append(",");
        }
        let text = ids[i].to_string();
        r.append(text.as_str());
        proof {
            let pre = views.subrange(0, i + 1);
            assert(pre.drop_last() =~= views.subrange(0, i as int));
            assert(pre.last() == ids@[i as int]@);
            if i == 0 {
                assert(joined_ids(views.subrange(0, i as int)) =~= Seq::<char>::empty());
            }
        }
        i += 1;
    }
    proof {
        assert(views.subrange(0, i as int) =~= views);
    }
    r.append("); limit ");
    push_decimal(&mut r, ids.len() as u64);
    r.append(";");
    proof {
        assert(r@ =~= games_query_text(views));
    }
    r
}

/// Credentials for the catalog, and the access token once obtained.
#[derive(Debug)]
pub struct IgdbRequestor {
    client_id: String,
    client_secret: String,
    access_token: Option<String>,
}

impl IgdbRequestor {
    pub closed spec fn spec_client_id(&self) -> Seq<char> {
        self.client_id@
    }

    pub closed spec fn spec_client_secret(&self) -> Seq<char> {
        self.client_secret@
    }

    /// The access token, once obtained.
    pub closed spec fn token(&self) -> Option<Seq<char>> {
        match &self.access_token {
            Some(t) => Some(t@),
            None => None,
        }
    }

    /// A requestor with the given credentials and no token yet.
    pub fn new(client_id: &str, client_secret: &str) -> (r: IgdbRequestor)
        ensures
            r.spec_client_id() == client_id@,
            r.spec_client_secret() == client_secret@,
            r.token() is None,
    {
        IgdbRequestor {
            client_id: String::from_str(client_id),
            client_secret: String::from_str(client_secret),
            access_token: None,
        }
    }

    pub fn client_id(&self) -> (r: &str)
        ensures
            r@ == self.spec_client_id(),
    {
        self.client_id.as_str()
    }

    /// Whether a token must be obtained before the next query.
    pub fn needs_login(&self) -> (r: bool)
        ensures
            r == self.token() is None,
    {
        self.access_token.is_none()
    }

    /// The parameters of the client-credentials exchange for a token.
    pub fn login_query(&self) -> (r: Vec<(String, String)>)
        ensures
            r@.len() == 3,
            r@[0].0@ == "grant_type"@ && r@[0].1@ == "client_credentials"@,
            r@[1].0@ == "client_id"@ && r@[1].1@ == self.spec_client_id(),
            r@[2].0@ == "client_secret"@ && r@[2].1@ == self.spec_client_secret(),
    {
        let mut r: Vec<(String, String)> = Vec::new();
        r.push((String::from_str("grant_type"), String::from_str("client_credentials")));
        r.push((String::from_str("client_id"), self.client_id.clone()));
        r.push((String::from_str("client_secret"), self.client_secret.clone()));
        r
    }

    /// Keeps the token obtained for the rest of the requestor's life.
    pub fn set_access_token(&mut self, token: String)
        ensures
            final(self).token() == Some(token@),
            final(self).spec_client_id() == old(self).spec_client_id(),
            final(self).spec_client_secret() == old(self).spec_client_secret(),
    {
        self.access_token = Some(token);
    }

    /// The token, once obtained.
    pub fn access_token(&self) -> (r: Option<&str>)
        ensures
            r is Some <==> self.token() is Some,
            r matches Some(t) ==> Some(t@) == self.token(),
    {
        match &self.access_token {
            Some(t) => Some(t.as_str()),
            None => None,
        }
    }
}

/// What to do after a response to a request.
#[derive(Debug, Clone, Copy, PartialEq, Eq, Structural)]
pub enum ExchangeStep {
    /// The request succeeded.
    Accept,
    /// Wait this many seconds, then send the same request again.
    Retry { delay_secs: u64 },
    /// The request failed with this status.
    Fail { status: u16 },
}

/// The step after a response with `status`, and whether the request has been
/// retried since: a success is accepted; the first refusal over the rate
/// limit is retried after the cooldown; anything else fails.
pub open spec fn exchange_step(retried: bool, status: u16) -> (ExchangeStep, bool) {
    if 200 <= status <= 299 {
        (ExchangeStep::Accept, retried)
    } else if status == TOO_MANY_REQUESTS && !retried {
        (ExchangeStep::Retry { delay_secs: RATE_LIMIT_COOLDOWN_SECS }, true)
    } else {
        (ExchangeStep::Fail { status }, retried)
    }
}

/// One request to the catalog, which may be sent twice.
#[derive(Debug)]
pub struct Exchange {
    pub retried: bool,
}

impl Exchange {
    /// A request not sent again yet.
    pub fn new() -> (r: Exchange)
        ensures
            !r.retried,
    {
        Exchange { retried: false }
    }

    /// Decides what follows a response with `status`.
    pub fn on_status(&mut self, status: u16) -> (r: ExchangeStep)
        ensures
            (r, final(self).retried) == exchange_step(old(self).retried, status),
    {
        if 200 <= status && status <= 299 {
            ExchangeStep::Accept
        } else if status == TOO_MANY_REQUESTS && !self.retried {
            self.retried = true;
            ExchangeStep::Retry { delay_secs: RATE_LIMIT_COOLDOWN_SECS }
        } else {
            ExchangeStep::Fail { status }
        }
    }
}

/// A request is sent at most twice: after one retry, no response leads to
/// another.
pub proof fn lemma_single_retry(first: u16, second: u16)
    ensures
        exchange_step(false, first).0 is Retry ==> !(exchange_step(
            exchange_step(false, first).1,
            second,
        ).0 is Retry),
{
}

} // verus!
