//! Bank authorization: the token that authenticates the application, the
//! validity of a new session, the code read back from the redirect URL, and
//! the sessions that logging in and out touch.

use vstd::prelude::*;
use vstd::string::*;
use crate::remote::{EnableBankingAccountId, invalid_uuid_message, uuid_parse, uuid_text};
use crate::session::{Session, SessionView, Sessions, first_for_bank_and_app, for_bank_and_app};
use crate::text::{decimal, str_eq, usize_text};
use crate::time::{Span, Timestamp, chrono_checked_add, chrono_display, plus, utc_now, utc_text};

verus! {

/// The claims of the token that authenticates the application to Enable
/// Banking.
pub struct JwtClaims {
    pub iss: String,
    pub aud: String,
    pub iat: i64,
    pub exp: i64,
}

/// How long the application's token is valid, in seconds (one hour).
pub const TOKEN_LIFETIME_SECS: i64 = 3600;

/// The claims of the application's token issued at `now` (seconds since the
/// epoch): issuer `enablebanking.com`, audience `api.enablebanking.com`,
/// valid for an hour.
pub fn app_jwt_claims(now: i64) -> (res: JwtClaims)
    requires
        now + TOKEN_LIFETIME_SECS <= i64::MAX,
    ensures
        res.iss@ == "enablebanking.com"@,
        res.aud@ == "api.enablebanking.com"@,
        res.iat == now,
        res.exp == now + 3600,
{
    JwtClaims {
        iss: "enablebanking.com".to_owned(),
        aud: "api.enablebanking.com".to_owned(),
        iat: now,
        exp: now + TOKEN_LIFETIME_SECS,
    }
}

/// The RS256 JSON Web Token that `jsonwebtoken::encode` makes with the key id
/// `kid` in its header and the claims `iss`, `aud`, `iat` and `exp`, signed
/// with the RSA private key `key_pem` (PEM text); `None` where `key_pem`
/// holds no RSA private key that signs. RSA PKCS#1 v1.5 signatures depend on
/// the message and the key alone.
pub uninterp spec fn rs256_token(kid: Seq<char>, iss: Seq<char>, aud: Seq<char>, iat: i64, exp: i64, key_pem: Seq<u8>) -> Option<
    Seq<char>,
>;

/// Calls `jsonwebtoken::EncodingKey::from_rsa_pem` and `jsonwebtoken::encode`
/// with an RS256 header carrying `kid` and the claims as a JSON object. The
/// contract claims that a token it gives is the named token, and that it
/// fails where there is none. It may also fail where `ring` cannot draw the
/// randomness it blinds the signing with; the text of an error is not claimed.
#[verifier::external_body]
fn sign_rs256(kid: &str, claims: &JwtClaims, key_pem: &[u8]) -> (res: Result<String, String>)
    ensures
        res matches Ok(t) ==> rs256_token(kid@, claims.iss@, claims.aud@, claims.iat, claims.exp, key_pem@) == Some(
            t@,
        ),
        rs256_token(kid@, claims.iss@, claims.aud@, claims.iat, claims.exp, key_pem@) is None ==> res is Err,
{
    let mut payload = serde_json::Map::new();
    payload.insert("iss".to_owned(), claims.iss.clone().into());
    payload.insert("aud".to_owned(), claims.aud.clone().into());
    payload.insert("iat".to_owned(), claims.iat.into());
    payload.insert("exp".to_owned(), claims.exp.into());
    let mut header = jsonwebtoken::Header::new(jsonwebtoken::Algorithm::RS256);
    header.kid = Some(kid.to_owned());
    let key = jsonwebtoken::EncodingKey::from_rsa_pem(key_pem).map_err(|e| e.to_string())?;
    jsonwebtoken::encode(&header, &payload, &key).map_err(|e| e.to_string())
}

/// The token that authenticates the application `app_id` when issued at
/// `now`: RS256, the application id as key id, issuer `enablebanking.com`,
/// audience `api.enablebanking.com`, valid from `now` for an hour.
pub open spec fn app_token(app_id: Seq<char>, now: i64, key_pem: Seq<u8>) -> Option<Seq<char>> {
    rs256_token(app_id, "enablebanking.com"@, "api.enablebanking.com"@, now, (now + 3600) as i64, key_pem)
}

/// Whether `res` is what signing the application's token issued at `now`
/// may give: the token itself, or an error, which is certain where there is
/// no token.
pub open spec fn signed_as(res: Result<String, String>, app_id: Seq<char>, now: i64, key_pem: Seq<u8>) -> bool {
    &&& res matches Ok(t) ==> app_token(app_id, now, key_pem) == Some(t@)
    &&& app_token(app_id, now, key_pem) is None ==> res is Err
}

/// The token that authenticates the application `app_id` to Enable Banking
/// when issued at `now` (seconds since the epoch), signed with the
/// application's private key.
pub fn app_jwt_at(app_id: &str, private_key_pem: &[u8], now: i64) -> (res: Result<String, String>)
    requires
        now + TOKEN_LIFETIME_SECS <= i64::MAX,
    ensures
        signed_as(res, app_id@, now, private_key_pem@),
{
    let claims = app_jwt_claims(now);
    sign_rs256(app_id, &claims, private_key_pem)
}

/// The token that authenticates the application `app_id` to Enable Banking,
/// issued now (whole seconds since the epoch) and valid for an hour.
pub fn build_app_jwt(app_id: &str, private_key_pem: &[u8]) -> (res: Result<String, String>)
    ensures
        exists|now: i64| 0 <= now < 10_000_000_000_000 && #[trigger] signed_as(res, app_id@, now, private_key_pem@),
{
    let now = utc_now().secs;
    let res = app_jwt_at(app_id, private_key_pem, now);
    assert(signed_as(res, app_id@, now, private_key_pem@));
    res
}

/// The seconds in a day.
pub const SECS_PER_DAY: i64 = 86400;

/// The largest number of whole seconds that a `chrono` length of time holds.
pub const MAX_DELTA_SECS: i64 = 9223372036854775;

/// Whether `valid_days` days make a `chrono` length of time.
pub open spec fn days_in_range(valid_days: int) -> bool {
    -MAX_DELTA_SECS <= valid_days * SECS_PER_DAY <= MAX_DELTA_SECS
}

/// Until when a session asked for at `now` for `valid_days` days is valid:
/// `now` plus that many days, where `chrono` can represent the length and the
/// sum (elsewhere the addition would not succeed).
pub fn valid_until(now: Timestamp, valid_days: i64) -> (res: Option<Timestamp>)
    ensures
        match res {
            Some(t) => days_in_range(valid_days as int) && chrono_checked_add(
                now.secs,
                now.nanos,
                (valid_days * SECS_PER_DAY) as i64,
                0,
            ) == Some((t.secs, t.nanos)),
            None => !days_in_range(valid_days as int) || chrono_checked_add(
                now.secs,
                now.nanos,
                (valid_days * SECS_PER_DAY) as i64,
                0,
            ) is None,
        },
{
    if valid_days < -(MAX_DELTA_SECS / SECS_PER_DAY) || valid_days > MAX_DELTA_SECS / SECS_PER_DAY {
        return None;
    }
    let secs = valid_days * SECS_PER_DAY;
    plus(now, Span { secs, nanos: 0 })
}

/// The redirect URL to authorize with, when none is configured: the first
/// one registered on the application.
pub fn first_redirect_url(registered: &Vec<String>) -> (res: Result<String, String>)
    ensures
        registered@.len() > 0 ==> (res matches Ok(u) && u@ == registered@[0]@),
        registered@.len() == 0 ==> (res matches Err(m) && m@
            == "no redirect_url configured and the application has none registered"@),
{
    if registered.len() > 0 {
        Ok(registered[0].clone())
    } else {
        Err("no redirect_url configured and the application has none registered".to_owned())
    }
}

/// The value of the last query parameter named `key`.
pub open spec fn last_value(pairs: Seq<(Seq<char>, Seq<char>)>, key: Seq<char>) -> Option<Seq<char>>
    decreases pairs.len(),
{
    if pairs.len() == 0 {
        None
    } else if pairs.last().0 == key {
        Some(pairs.last().1)
    } else {
        last_value(pairs.drop_last(), key)
    }
}

/// Why the redirect URL does not give an authorization code.
#[derive(Clone, Copy, Debug, PartialEq, Eq, Structural)]
pub enum CallbackError {
    /// The text is not a URL.
    Unparsable,
    /// The URL's `state` is not the one the authorization was started with.
    StateMismatch,
    /// The URL lacks `code` or `state`.
    Missing,
}

impl CallbackError {
    /// The error's text.
    pub open spec fn message_spec(self) -> Seq<char> {
        match self {
            CallbackError::Unparsable => "could not parse the provided URL"@,
            CallbackError::StateMismatch => "state mismatch in callback URL"@,
            CallbackError::Missing => "no code/state found in the given URL"@,
        }
    }

    /// The error's text.
    pub fn message(&self) -> (res: &'static str)
        ensures
            res@ == self.message_spec(),
    {
        match self {
            CallbackError::Unparsable => "could not parse the provided URL",
            CallbackError::StateMismatch => "state mismatch in callback URL",
            CallbackError::Missing => "no code/state found in the given URL",
        }
    }
}

/// The authorization code of a redirect whose query is `pairs`: the last
/// `code`, when there are a `code` and a `state` and the last `state` is
/// `expected_state`.
pub open spec fn code_spec(pairs: Seq<(Seq<char>, Seq<char>)>, expected_state: Seq<char>) -> Result<Seq<char>, CallbackError> {
    match (last_value(pairs, "code"@), last_value(pairs, "state"@)) {
        (Some(c), Some(s)) => if s == expected_state {
            Ok(c)
        } else {
            Err(CallbackError::StateMismatch)
        },
        _ => Err(CallbackError::Missing),
    }
}

/// The texts of query pairs.
pub open spec fn pairs_view(v: Seq<(String, String)>) -> Seq<(Seq<char>, Seq<char>)> {
    v.map_values(|p: (String, String)| (p.0@, p.1@))
}

/// The authorization code of a redirect whose query is `pairs`.
pub fn code_from_query(pairs: &Vec<(String, String)>, expected_state: &str) -> (res: Result<String, CallbackError>)
    ensures
        match code_spec(pairs_view(pairs@), expected_state@) {
            Ok(c) => res matches Ok(r) && r@ == c,
            Err(e) => res == Err::<String, CallbackError>(e),
        },
{
    let ghost all = pairs_view(pairs@);
    let n = pairs.len();
    let mut code: Option<String> = None;
    let mut state: Option<String> = None;
    let mut i: usize = 0;
    while i < n
        invariant
            n == pairs@.len(),
            all == pairs_view(pairs@),
            i <= n,
            match code {
                Some(c) => last_value(all.take(i as int), "code"@) == Some(c@),
                None => last_value(all.take(i as int), "code"@) is None,
            },
            match state {
                Some(s) => last_value(all.take(i as int), "state"@) == Some(s@),
                None => last_value(all.take(i as int), "state"@) is None,
            },
        decreases n - i,
    {
        proof {
            assert(all.take(i + 1).drop_last() =~= all.take(i as int));
            assert(all.take(i + 1).last() == (pairs@[i as int].0@, pairs@[i as int].1@));
            reveal_strlit("code");
            reveal_strlit("state");
            assert("code"@ != "state"@) by {
                assert("code"@.len() != "state"@.len());
            }
        }
        let key = pairs[i].0.as_str();
        if str_eq(key, "code") {
            code = Some(pairs[i].1.clone());
        } else if str_eq(key, "state") {
            state = Some(pairs[i].1.clone());
        }
        i = i + 1;
    }
    assert(all.take(n as int) =~= all);
    match (code, state) {
        (Some(c), Some(s)) => {
            if str_eq(s.as_str(), expected_state) {
                Ok(c)
            } else {
                Err(CallbackError::StateMismatch)
            }
        },
        _ => Err(CallbackError::Missing),
    }
}

/// What the `url` crate parses `text` to, as the names and values of its
/// query (percent-decoded); `None` where `text` is not a URL.
pub uninterp spec fn url_query_pairs(text: Seq<char>) -> Option<Seq<(Seq<char>, Seq<char>)>>;

/// Calls `url::Url::parse` on `text` and collects the pairs of
/// `Url::query_pairs`; the contract claims that the result is the named one.
#[verifier::external_body]
fn query_pairs(text: &str) -> (res: Option<Vec<(String, String)>>)
    ensures
        match res {
            Some(v) => url_query_pairs(text@) == Some(pairs_view(v@)),
            None => url_query_pairs(text@) is None,
        },
{
    let parsed = url::Url::parse(text).ok()?;
    Some(parsed.query_pairs().map(|(k, v)| (k.into_owned(), v.into_owned())).collect())
}

/// The authorization code in the redirect URL that the user pasted: it must
/// parse, carry `code` and `state`, and its `state` must be `expected_state`.
pub fn extract_code_from_url(url_text: &str, expected_state: &str) -> (res: Result<String, CallbackError>)
    ensures
        match url_query_pairs(url_text@) {
            None => res == Err::<String, CallbackError>(CallbackError::Unparsable),
            Some(pairs) => match code_spec(pairs, expected_state@) {
                Ok(c) => res matches Ok(r) && r@ == c,
                Err(e) => res == Err::<String, CallbackError>(e),
            },
        },
{
    match query_pairs(url_text) {
        None => Err(CallbackError::Unparsable),
        Some(pairs) => code_from_query(&pairs, expected_state),
    }
}

/// The accounts of a new session from the account UIDs that the bank
/// returned: each must be present and a UUID.
pub open spec fn account_uids_spec(uids: Seq<Option<String>>) -> Result<Seq<u128>, Seq<char>>
    decreases uids.len(),
{
    if uids.len() == 0 {
        Ok(Seq::empty())
    } else {
        match account_uids_spec(uids.drop_last()) {
            Err(e) => Err(e),
            Ok(ids) => match uids.last() {
                None => Err("authorization returned an account without a UID"@),
                Some(u) => match uuid_parse(u@) {
                    Ok(v) => Ok(ids.push(v)),
                    Err(e) => Err(invalid_uuid_message("account"@, e)),
                },
            },
        }
    }
}

/// The accounts of a new session from the account UIDs that the bank
/// returned; the first missing or malformed UID fails.
pub fn session_accounts(uids: &Vec<Option<String>>) -> (res: Result<Vec<EnableBankingAccountId>, String>)
    ensures
        match account_uids_spec(uids@) {
            Ok(ids) => res matches Ok(v) && v@.map_values(|a: EnableBankingAccountId| a.0) == ids,
            Err(e) => res matches Err(m) && m@ == e,
        },
{
    let n = uids.len();
    let mut out: Vec<EnableBankingAccountId> = Vec::new();
    let mut i: usize = 0;
    while i < n
        invariant
            n == uids@.len(),
            i <= n,
            account_uids_spec(uids@.take(i as int)) matches Ok(ids) && out@.map_values(
                |a: EnableBankingAccountId| a.0,
            ) == ids,
        decreases n - i,
    {
        proof {
            assert(uids@.take(i + 1).drop_last() =~= uids@.take(i as int));
            assert(uids@.take(i + 1).last() == uids@[i as int]);
        }
        match &uids[i] {
            None => {
                proof {
                    assert(account_uids_spec(uids@.take(i + 1)) is Err);
                    lemma_uids_error_persists(uids@, i + 1);
                }
                return Err("authorization returned an account without a UID".to_owned());
            },
            Some(u) => match EnableBankingAccountId::parse(u.as_str()) {
                Ok(id) => {
                    let ghost before = out@;
                    out.push(id);
                    assert(out@.map_values(|a: EnableBankingAccountId| a.0) =~= before.map_values(
                        |a: EnableBankingAccountId| a.0,
                    ).push(id.0));
                },
                Err(e) => {
                    proof {
                        lemma_uids_error_persists(uids@, i + 1);
                    }
                    return Err(e);
                },
            },
        }
        i = i + 1;
    }
    assert(uids@.take(n as int) =~= uids@);
    Ok(out)
}

/// Once a prefix of the UIDs fails, all of them fail with the same error.
proof fn lemma_uids_error_persists(uids: Seq<Option<String>>, k: int)
    requires
        0 <= k <= uids.len(),
        account_uids_spec(uids.take(k)) is Err,
    ensures
        account_uids_spec(uids) == account_uids_spec(uids.take(k)),
    decreases uids.len() - k,
{
    if k < uids.len() {
        assert(uids.take(k + 1).drop_last() =~= uids.take(k));
        lemma_uids_error_persists(uids, k + 1);
    } else {
        assert(uids.take(k) =~= uids);
    }
}

/// The text of a logout for which no session is stored.
pub open spec fn no_session_message(bank: Seq<char>, country: Seq<char>, app_id: Seq<char>) -> Seq<char> {
    "no session found for "@ + bank + " ("@ + country + ") with app "@ + app_id
}

/// The session that a logout revokes: the first stored for the bank and the
/// application, or the text that says there is none.
pub fn logout_session<'a>(sessions: &'a Sessions, bank: &String, country: &String, app_id: &String) -> (res: Result<
    &'a Session,
    String,
>)
    ensures
        match res {
            Ok(s) => exists|i: int|
                #[trigger] first_for_bank_and_app(sessions@, bank@, country@, app_id@, i) && s@ == sessions@[i],
            Err(m) => (forall|i: int|
                0 <= i < sessions@.len() ==> !for_bank_and_app(#[trigger] sessions@[i], bank@, country@, app_id@))
                && m@ == no_session_message(bank@, country@, app_id@),
        },
{
    match sessions.find_by_bank_and_app(bank, country, app_id) {
        Some(s) => Ok(s),
        None => {
            let mut m = "no session found for ".to_owned();
            m.append(bank.as_str());
            m.append(" (");
            m.append(country.as_str());
            m.append(") with app ");
            m.append(app_id.as_str());
            Err(m)
        },
    }
}

/// What `auth status` prints of a stored session: bank, application,
/// session id, number of accounts, validity and creation.
pub open spec fn status_lines_spec(s: SessionView) -> Seq<Seq<char>> {
    seq![
        "Bank:         "@ + s.aspsp_name + " ("@ + s.aspsp_country + ")"@,
        "App ID:       "@ + s.app_id,
        "Session ID:   "@ + uuid_text(s.session_id),
        "Accounts:     "@ + decimal(s.accounts.len()),
        "Valid until:  "@ + chrono_display(s.valid_until.secs, s.valid_until.nanos),
        "Created:      "@ + chrono_display(s.created_at.secs, s.created_at.nanos),
    ]
}

/// What `auth status` prints of a stored session.
pub fn status_lines(s: &Session) -> (res: Vec<String>)
    ensures
        res@.map_values(|l: String| l@) == status_lines_spec(s@),
{
    let mut bank = "Bank:         ".to_owned();
    bank.append(s.aspsp_name.as_str());
    bank.append(" (");
    bank.append(s.aspsp_country.as_str());
    bank.append(")");
    let mut app = "App ID:       ".to_owned();
    app.append(s.app_id.as_str());
    let id_text = s.session_id.to_text();
    let mut id = "Session ID:   ".to_owned();
    id.append(id_text.as_str());
    let count = usize_text(s.accounts.len());
    let mut accounts = "Accounts:     ".to_owned();
    accounts.append(count.as_str());
    let valid_text = utc_text(s.valid_until);
    let mut valid = "Valid until:  ".to_owned();
    valid.append(valid_text.as_str());
    let created_text = utc_text(s.created_at);
    let mut created = "Created:      ".to_owned();
    created.append(created_text.as_str());
    let v = vec![bank, app, id, accounts, valid, created];
    proof {
        assert(s@.accounts.len() == s.accounts@.len());
    }
    assert(v@.map_values(|l: String| l@) =~= status_lines_spec(s@));
    v
}

/// What `auth status` prints after a session's details: the remote answer,
/// a failed check, or the failure to build a client.
pub enum RemoteStatus {
    /// The session is known remotely with this many accounts.
    Known(usize),
    /// The remote check failed with this error.
    CheckFailed(String),
    /// No client could be built, with this error.
    ClientFailed(String),
    /// No configured application has the session's application id.
    NoApplication(String),
}

/// The line that reports a session's remote status.
pub open spec fn remote_status_spec(r: RemoteStatus) -> Seq<char> {
    match r {
        RemoteStatus::Known(n) => "Remote status: OK ("@ + decimal(n as nat) + " account(s))"@,
        RemoteStatus::CheckFailed(e) => "Remote status check failed: "@ + e@,
        RemoteStatus::ClientFailed(e) => "Client init error: "@ + e@,
        RemoteStatus::NoApplication(id) => "  (application not found in config for app_id "@ + id@ + ")"@,
    }
}

/// The line that reports a session's remote status.
pub fn remote_status_line(r: &RemoteStatus) -> (res: String)
    ensures
        res@ == remote_status_spec(*r),
{
    match r {
        RemoteStatus::Known(n) => {
            let count = usize_text(*n);
            let mut s = "Remote status: OK (".to_owned();
            s.append(count.as_str());
            s.append(" account(s))");
            s
        },
        RemoteStatus::CheckFailed(e) => {
            let mut s = "Remote status check failed: ".to_owned();
            s.append(e.as_str());
            s
        },
        RemoteStatus::ClientFailed(e) => {
            let mut s = "Client init error: ".to_owned();
            s.append(e.as_str());
            s
        },
        RemoteStatus::NoApplication(id) => {
            let mut s = "  (application not found in config for app_id ".to_owned();
            s.append(id.as_str());
            s.append(")");
            s
        },
    }
}

/// The line that sends the user to the bank's authorization page.
pub open spec fn authorize_prompt_spec(bank: Seq<char>, country: Seq<char>) -> Seq<char> {
    "Open this URL in your browser to authorize access to "@ + bank + " ("@ + country + "):\n"@
}

/// The line that sends the user to the bank's authorization page.
pub fn authorize_prompt(bank: &str, country: &str) -> (res: String)
    ensures
        res@ == authorize_prompt_spec(bank@, country@),
{
    let mut s = "Open this URL in your browser to authorize access to ".to_owned();
    s.append(bank);
    s.append(" (");
    s.append(country);
    s.append("):\n");
    s
}

/// The line that confirms a logout.
pub open spec fn logged_out_spec(bank: Seq<char>, country: Seq<char>) -> Seq<char> {
    "Logged out and removed the session for "@ + bank + " ("@ + country + ")."@
}

/// The line that confirms a logout.
pub fn logged_out(bank: &str, country: &str) -> (res: String)
    ensures
        res@ == logged_out_spec(bank@, country@),
{
    let mut s = "Logged out and removed the session for ".to_owned();
    s.append(bank);
    s.append(" (");
    s.append(country);
    s.append(").");
    s
}

} // verus!
