//! The provider Yahoo.

use vstd::prelude::*;
use vstd::string::*;
use vstd::utf8::*;
use std::fmt::Write;
use chrono::{DateTime, Utc};
use chrono_tz::Tz;
use crate::date::{bytes_precede_at, text_before, Date};
use crate::entries::{entries_of, Temperature};
use crate::fail::Fail;
use crate::forecast::Forecast;
use crate::provider::encoding::{percent_encode, percent_encoded};
use crate::provider::signing::{can_sign, is_nonce, nonce, sign, signature, unix_time};
use crate::provider::utils::{ProviderRequest, RequestError};
use crate::provider::{ProviderError, ProviderErrorView, WeatherProviderResponse};
use crate::text::{decimal_text, optional_text, write_decimal};

verus! {

/// One day of the forecast: the moment at which it starts, in seconds since
/// the start of 1970, and its lowest and highest temperature.
#[derive(Debug)]
pub struct YahooDay {
    pub date: i64,
    pub low: Temperature,
    pub high: Temperature,
}

/// The place that the forecast is for.
#[derive(Debug)]
pub struct YahooLocation {
    pub timezone_id: String,
}

/// The answer of Yahoo.
#[derive(Debug)]
pub struct YahooResponse {
    pub forecasts: Vec<YahooDay>,
    pub location: YahooLocation,
}

/// What the moment `timestamp`, in seconds since the start of 1970, is called
/// in the time zone `timezone` when written in the form `format`. There is no
/// such text where the time zone is unknown, the moment is out of the range
/// of the calendar or the form is not a valid one.
pub uninterp spec fn local_time_text(timestamp: int, timezone: Seq<char>, format: Seq<char>) -> Option<
    Seq<char>,
>;

/// `Tz::from_str` of the crate `chrono-tz`, and `DateTime::from_timestamp`,
/// `DateTime::with_timezone` and `DateTime::format` of the crate `chrono`: the
/// moment, taken to the time zone of that name and written in the given form.
#[verifier::external_body]
fn local_time(timestamp: i64, timezone: &str, format: &str) -> (text: Option<String>)
    ensures
        match text {
            Some(text) => local_time_text(timestamp as int, timezone@, format@) == Some(text@),
            None => local_time_text(timestamp as int, timezone@, format@) is None,
        },
{
    let zone: Tz = timezone.parse().ok()?;
    let moment = DateTime::<Utc>::from_timestamp(timestamp, 0)?;
    let mut text = String::new();
    write!(text, "{}", moment.with_timezone(&zone).format(format)).ok()?;
    Some(text)
}

/// The temperature halfway from `low` to `high`, rounded towards `low`.
pub open spec fn midpoint(low: int, high: int) -> int {
    if high >= low {
        low + (high - low) / 2
    } else {
        low - (low - high) / 2
    }
}

/// The temperature halfway from `low` to `high`.
fn halfway(low: Temperature, high: Temperature) -> (middle: Temperature)
    ensures
        middle == midpoint(low as int, high as int),
{
    if high >= low {
        let span: u128 = (high as i128 - low as i128) as u128;
        (low as i128 + (span / 2) as i128) as i64
    } else {
        let span: u128 = (low as i128 - high as i128) as u128;
        (low as i128 - (span / 2) as i128) as i64
    }
}

/// The date of a day of the answer, in the time zone of the answer.
pub open spec fn yahoo_date(day: YahooDay, timezone: Seq<char>) -> Option<Seq<char>> {
    local_time_text(day.date as int, timezone, "%Y-%m-%d"@)
}

/// The days of an answer as dated temperatures: the date of each day in the
/// time zone of the answer, with the temperature halfway between its lowest
/// and its highest.
pub open spec fn yahoo_entries(days: Seq<YahooDay>, timezone: Seq<char>) -> Seq<(Seq<char>, int)> {
    Seq::new(
        days.len(),
        |i: int| (yahoo_date(days[i], timezone).unwrap(), midpoint(days[i].low as int, days[i].high as int)),
    )
}

impl WeatherProviderResponse for YahooResponse {
    /// The answer can be read where each of its days has a date in the time
    /// zone of the answer.
    open spec fn readable(&self) -> bool {
        forall|i: int|
            0 <= i < self.forecasts@.len() ==> yahoo_date(
                #[trigger] self.forecasts@[i],
                self.location.timezone_id@,
            ) is Some
    }

    open spec fn entries(&self) -> Seq<(Seq<char>, int)> {
        yahoo_entries(self.forecasts@, self.location.timezone_id@)
    }

    open spec fn provider_name(&self) -> Seq<char> {
        "Yahoo"@
    }

    fn to_forecast(&self) -> (forecast: Option<Forecast>) {
        let days = &self.forecasts;
        let timezone = self.location.timezone_id.as_str();
        let mut raw: Vec<(Date, Temperature)> = Vec::new();
        let mut i: usize = 0;
        while i < days.len()
            invariant
                i <= days.len(),
                raw.len() == i,
                timezone@ == self.location.timezone_id@,
                days@ == self.forecasts@,
                forall|k: int|
                    0 <= k < i ==> yahoo_date(#[trigger] days@[k], timezone@) == Some(raw@[k].0@)
                        && raw@[k].1 == midpoint(days@[k].low as int, days@[k].high as int),
            decreases days.len() - i,
        {
            match local_time(days[i].date, timezone, "%Y-%m-%d") {
                Some(date) => {
                    raw.push((date, halfway(days[i].low, days[i].high)));
                },
                None => {
                    assert(yahoo_date(days@[i as int], timezone@) is None);
                    return None;
                },
            }
            i += 1;
        }
        assert(entries_of(raw@) =~= yahoo_entries(days@, timezone@));
        Some(Forecast::new(raw, String::from_str(YahooProvider::NAME)))
    }
}

/// The parameters of a request in the order of their names, each with its
/// value.
pub open spec fn parameters_of(parameters: Seq<(String, String)>) -> Seq<(Seq<char>, Seq<char>)> {
    Seq::new(parameters.len(), |i: int| (parameters[i].0@, parameters[i].1@))
}

/// The parameters that go into every signature: who asks, a random word, how
/// the request is signed, when it is made, and the version of the protocol.
pub open spec fn oauth_parameters(user_key: Seq<char>, nonce: Seq<char>, timestamp: nat) -> Seq<
    (Seq<char>, Seq<char>),
> {
    seq![
        ("oauth_consumer_key"@, user_key),
        ("oauth_nonce"@, nonce),
        ("oauth_signature_method"@, "HMAC-SHA1"@),
        ("oauth_timestamp"@, decimal_text(timestamp)),
        ("oauth_version"@, "1.0"@),
    ]
}

/// The parameters with the signature among them, at the place of its name.
pub open spec fn signed_parameters(
    parameters: Seq<(Seq<char>, Seq<char>)>,
    signature: Seq<char>,
) -> Seq<(Seq<char>, Seq<char>)> {
    parameters.insert(2, ("oauth_signature"@, signature))
}

/// The parameters as they stand in a query: each as `&name=value`.
pub open spec fn query_text(parameters: Seq<(Seq<char>, Seq<char>)>) -> Seq<char>
    decreases parameters.len(),
{
    if parameters.len() == 0 {
        Seq::empty()
    } else {
        query_text(parameters.drop_last()) + "&"@ + parameters.last().0 + "="@
            + parameters.last().1
    }
}

/// The text that is signed: the method, the address and the query of the
/// request, the last two percent-encoded.
pub open spec fn base_string(parameters: Seq<(Seq<char>, Seq<char>)>, location: Seq<char>) -> Seq<
    char,
> {
    "GET&"@ + percent_encoded("https://weather-ydn-yql.media.yahoo.com/forecastrss"@) + "&"@
        + percent_encoded(
        "format=json&location="@ + location + query_text(parameters) + "&u=c"@,
    )
}

/// The key under which a request is signed.
pub open spec fn signing_key(secret: Seq<char>) -> Seq<char> {
    percent_encoded(secret) + "&"@
}

/// The parameters as they stand in the header: each as `name=value` with the
/// value percent-encoded, a comma and a space between them.
pub open spec fn header_text(parameters: Seq<(Seq<char>, Seq<char>)>) -> Seq<char>
    decreases parameters.len(),
{
    if parameters.len() == 0 {
        Seq::empty()
    } else if parameters.len() == 1 {
        parameters.last().0 + "="@ + percent_encoded(parameters.last().1)
    } else {
        header_text(parameters.drop_last()) + ", "@ + parameters.last().0 + "="@
            + percent_encoded(parameters.last().1)
    }
}

/// The provider Yahoo, asked in the name of an application.
pub struct YahooProvider {
    app_id: String,
    secret: String,
    user_key: String,
}

impl YahooProvider {
    pub const BASE_URI: &'static str = "https://weather-ydn-yql.media.yahoo.com/forecastrss";

    pub const NAME: &'static str = "Yahoo";

    /// The name of the application.
    pub closed spec fn app_id(&self) -> Seq<char> {
        self.app_id@
    }

    /// The secret with which the application signs.
    pub closed spec fn secret(&self) -> Seq<char> {
        self.secret@
    }

    /// The key by which the application is known.
    pub closed spec fn user_key(&self) -> Seq<char> {
        self.user_key@
    }

    /// The address that is asked for the forecast of `location`.
    pub open spec fn forecast_url(location: Seq<char>) -> Seq<char> {
        "https://weather-ydn-yql.media.yahoo.com/forecastrss"@ + "?location="@ + location
            + "&format=json&u=c"@
    }

    /// The text that a request for `location` signs, made with the random
    /// word `nonce` at the time `timestamp`.
    pub open spec fn signed_text(&self, location: Seq<char>, nonce: Seq<char>, timestamp: nat) -> Seq<
        char,
    > {
        base_string(oauth_parameters(self.user_key(), nonce, timestamp), location)
    }

    /// The request for `location` with that word and time can be signed: key
    /// and text are short enough.
    pub open spec fn can_authorize(
        &self,
        location: Seq<char>,
        nonce: Seq<char>,
        timestamp: nat,
    ) -> bool {
        can_sign(signing_key(self.secret()), self.signed_text(location, nonce, timestamp))
    }

    /// The authorization of the request for `location` with that word and
    /// time: the parameters and their signature.
    pub open spec fn authorization(
        &self,
        location: Seq<char>,
        nonce: Seq<char>,
        timestamp: nat,
    ) -> Seq<char> {
        "OAuth "@ + header_text(
            signed_parameters(
                oauth_parameters(self.user_key(), nonce, timestamp),
                signature(
                    signing_key(self.secret()),
                    self.signed_text(location, nonce, timestamp),
                ),
            ),
        )
    }

    /// `token` is what authorizes the request for `location` with that word
    /// and time: the authorization where the request can be signed, else
    /// nothing.
    pub open spec fn authorizes(
        &self,
        location: Seq<char>,
        nonce: Seq<char>,
        timestamp: nat,
        token: Option<Seq<char>>,
    ) -> bool {
        if self.can_authorize(location, nonce, timestamp) {
            token == Some(self.authorization(location, nonce, timestamp))
        } else {
            token is None
        }
    }

    /// Makes the provider that asks in the name of the application `app_id`,
    /// known by `user_key` and signing with `secret`.
    pub fn new(app_id: String, secret: String, user_key: String) -> (provider: Self)
        ensures
            provider.app_id() == app_id@,
            provider.secret() == secret@,
            provider.user_key() == user_key@,
    {
        YahooProvider { app_id, secret, user_key }
    }

    /// The address that is asked for the forecast of `location`.
    pub fn build_forecast_url(&self, location: &str) -> (url: String)
        ensures
            url@ == Self::forecast_url(location@),
    {
        let mut url = String::from_str(Self::BASE_URI);
        url.append("?location=");
        url.append(location);
        url.append("&format=json&u=c");
        url
    }

    /// The parameters that go into the signature of a request made with the
    /// random word `nonce` at the time `timestamp`.
    pub fn oauth_parameters(user_key: &str, nonce: String, timestamp: u64) -> (parameters: Vec<
        (String, String),
    >)
        ensures
            parameters_of(parameters@) == oauth_parameters(user_key@, nonce@, timestamp as nat),
    {
        let mut time = String::new();
        write_decimal(&mut time, timestamp);
        let mut parameters: Vec<(String, String)> = Vec::new();
        parameters.push((String::from_str("oauth_consumer_key"), String::from_str(user_key)));
        parameters.push((String::from_str("oauth_nonce"), nonce));
        parameters.push(
            (String::from_str("oauth_signature_method"), String::from_str("HMAC-SHA1")),
        );
        parameters.push((String::from_str("oauth_timestamp"), time));
        parameters.push((String::from_str("oauth_version"), String::from_str("1.0")));
        assert(time@ =~= decimal_text(timestamp as nat));
        assert(parameters_of(parameters@) =~= oauth_parameters(
            user_key@,
            nonce@,
            timestamp as nat,
        ));
        parameters
    }

    /// The parameters that go into the signature of a request made now, with
    /// a new random word.
    pub fn generate_oauth_parameters(user_key: &str) -> (parameters: Vec<(String, String)>)
        ensures
            exists|nonce: Seq<char>, timestamp: nat|
                is_nonce(nonce) && parameters_of(parameters@)
                    == #[trigger] oauth_parameters(user_key@, nonce, timestamp),
    {
        let word = nonce();
        let now = unix_time();
        let ghost chosen = word@;
        let parameters = Self::oauth_parameters(user_key, word, now);
        assert(parameters_of(parameters@) == oauth_parameters(user_key@, chosen, now as nat));
        parameters
    }

    /// The text that is signed for a request for `location` with the given
    /// parameters.
    pub fn build_base_string(parameters: &Vec<(String, String)>, location: &str) -> (text: String)
        ensures
            text@ == base_string(parameters_of(parameters@), location@),
    {
        let ghost pairs = parameters_of(parameters@);
        let mut query = String::from_str("format=json&location=");
        query.append(location);
        let ghost start = query@;
        let mut i: usize = 0;
        assert(pairs.take(0) =~= Seq::empty());
        assert(query@ =~= start + query_text(pairs.take(0)));
        while i < parameters.len()
            invariant
                i <= parameters.len(),
                pairs == parameters_of(parameters@),
                query@ == start + query_text(pairs.take(i as int)),
            decreases parameters.len() - i,
        {
            proof {
                assert(pairs.take(i + 1).drop_last() =~= pairs.take(i as int));
                assert(pairs.take(i + 1).last() == pairs[i as int]);
            }
            query.append("&");
            query.append(parameters[i].0.as_str());
            query.append("=");
            query.append(parameters[i].1.as_str());
            assert(query@ =~= start + query_text(pairs.take(i + 1)));
            i += 1;
        }
        assert(pairs.take(i as int) =~= pairs);
        query.append("&u=c");
        let mut text = String::from_str("GET&");
        text.append(percent_encode(Self::BASE_URI).as_str());
        text.append("&");
        text.append(percent_encode(query.as_str()).as_str());
        assert(query@ =~= "format=json&location="@ + location@ + query_text(pairs) + "&u=c"@);
        text
    }

    /// The parameters as they stand in the header of a request.
    fn header_fields(parameters: &Vec<(String, String)>) -> (text: String)
        ensures
            text@ == header_text(parameters_of(parameters@)),
    {
        let ghost pairs = parameters_of(parameters@);
        let mut text = String::new();
        let mut i: usize = 0;
        assert(pairs.take(0) =~= Seq::empty());
        while i < parameters.len()
            invariant
                i <= parameters.len(),
                pairs == parameters_of(parameters@),
                text@ == header_text(pairs.take(i as int)),
            decreases parameters.len() - i,
        {
            proof {
                assert(pairs.take(i + 1).drop_last() =~= pairs.take(i as int));
                assert(pairs.take(i + 1).last() == pairs[i as int]);
            }
            if i > 0 {
                text.append(", ");
            }
            text.append(parameters[i].0.as_str());
            text.append("=");
            text.append(percent_encode(parameters[i].1.as_str()).as_str());
            assert(text@ =~= header_text(pairs.take(i + 1)));
            i += 1;
        }
        assert(pairs.take(i as int) =~= pairs);
        text
    }

    /// What authorizes the request for `location` that is made with the
    /// random word `nonce` at the time `timestamp`; nothing where the request
    /// cannot be signed.
    pub fn authorization_token(&self, location: &str, nonce: String, timestamp: u64) -> (token:
        Option<String>)
        ensures
            self.authorizes(location@, nonce@, timestamp as nat, optional_text(token)),
    {
        let mut parameters = Self::oauth_parameters(self.user_key.as_str(), nonce, timestamp);
        let ghost unsigned = parameters_of(parameters@);
        let base = Self::build_base_string(&parameters, location);
        let mut key = percent_encode(self.secret.as_str());
        key.append("&");
        match sign(key.as_str(), base.as_str()) {
            Some(signed) => {
                parameters.insert(2, (String::from_str("oauth_signature"), signed));
                assert(parameters_of(parameters@) =~= signed_parameters(unsigned, signed@));
                let mut token = String::from_str("OAuth ");
                token.append(Self::header_fields(&parameters).as_str());
                Some(token)
            },
            None => None,
        }
    }

    /// What authorizes a request for `location` that is made now, with a new
    /// random word; nothing where the request cannot be signed.
    pub fn build_authorization_token(&self, location: &str) -> (token: Option<String>)
        ensures
            exists|nonce: Seq<char>, timestamp: nat|
                is_nonce(nonce) && #[trigger] self.authorizes(
                    location@,
                    nonce,
                    timestamp,
                    optional_text(token),
                ),
    {
        let word = nonce();
        let now = unix_time();
        let ghost chosen = word@;
        let token = self.authorization_token(location, word, now);
        assert(self.authorizes(location@, chosen, now as nat, optional_text(token)));
        token
    }

    /// `request` is the request for `location` that is made with that word
    /// and time: it goes to the address of the forecast, names the application
    /// and carries the authorization; there is none where the request cannot
    /// be signed.
    pub open spec fn requests(
        &self,
        location: Seq<char>,
        nonce: Seq<char>,
        timestamp: nat,
        request: Option<ProviderRequest>,
    ) -> bool {
        match request {
            Some(request) => {
                &&& request.url@ == Self::forecast_url(location)
                &&& parameters_of(request.headers@) == seq![
                    ("X-Yahoo-App-Id"@, self.app_id()),
                    ("Authorization"@, self.authorization(location, nonce, timestamp)),
                ]
                &&& self.can_authorize(location, nonce, timestamp)
            },
            None => !self.can_authorize(location, nonce, timestamp),
        }
    }

    /// The request for the forecast at `location`, made now; nothing where the
    /// request cannot be signed.
    pub fn build_request(&self, location: &str) -> (request: Option<ProviderRequest>)
        ensures
            exists|nonce: Seq<char>, timestamp: nat|
                is_nonce(nonce) && #[trigger] self.requests(
                    location@,
                    nonce,
                    timestamp,
                    request,
                ),
    {
        let token = self.build_authorization_token(location);
        let ghost (nonce, timestamp) = choose|nonce: Seq<char>, timestamp: nat|
            is_nonce(nonce) && #[trigger] self.authorizes(
                location@,
                nonce,
                timestamp,
                optional_text(token),
            );
        match token {
            Some(token) => {
                let mut headers: Vec<(String, String)> = Vec::new();
                headers.push((String::from_str("X-Yahoo-App-Id"), self.app_id.clone()));
                headers.push((String::from_str("Authorization"), token));
                let request = Some(
                    ProviderRequest { url: self.build_forecast_url(location), headers },
                );
                assert(parameters_of(headers@) =~= seq![
                    ("X-Yahoo-App-Id"@, self.app_id()),
                    ("Authorization"@, self.authorization(location@, nonce, timestamp)),
                ]);
                assert(self.requests(location@, nonce, timestamp, request));
                request
            },
            None => {
                assert(self.requests(location@, nonce, timestamp, None));
                None
            },
        }
    }

    /// What is reported where the request could not even be made.
    pub fn request_refused() -> (error: ProviderError)
        ensures
            error@ == (ProviderErrorView::RequestError {
                reason: "Unknown error!"@,
                provider_name: "Yahoo"@,
            }),
    {
        ProviderError::RequestError {
            reason: String::from_str("Unknown error!"),
            provider_name: String::from_str(Self::NAME),
        }
    }

    /// What is reported where the request failed with `error`.
    pub fn request_failed(error: RequestError) -> (reported: ProviderError)
        ensures
            reported@ == (ProviderErrorView::RequestError {
                reason: error.message(),
                provider_name: "Yahoo"@,
            }),
    {
        ProviderError::RequestError {
            reason: error.to_string(),
            provider_name: String::from_str(Self::NAME),
        }
    }
}

/// The names of the parameters stand in ascending order, as texts.
pub open spec fn names_ascending(parameters: Seq<(Seq<char>, Seq<char>)>) -> bool {
    forall|i: int, j: int|
        0 <= i < j < parameters.len() ==> text_before(
            (#[trigger] parameters[i]).0,
            (#[trigger] parameters[j]).0,
        )
}

/// The text is one of the names of the parameters of a signed request, and
/// `rank` is its place among them.
spec fn ranked_name(name: Seq<char>, rank: int) -> bool {
    ||| rank == 0 && name == "oauth_consumer_key"@
    ||| rank == 1 && name == "oauth_nonce"@
    ||| rank == 2 && name == "oauth_signature"@
    ||| rank == 3 && name == "oauth_signature_method"@
    ||| rank == 4 && name == "oauth_timestamp"@
    ||| rank == 5 && name == "oauth_version"@
}

/// Of two names of parameters the one of lower rank comes first as a text.
proof fn lemma_names_in_order(first: Seq<char>, i: int, second: Seq<char>, j: int)
    requires
        ranked_name(first, i),
        ranked_name(second, j),
        i < j,
    ensures
        text_before(first, second),
{
    reveal_strlit("oauth_consumer_key");
    reveal_strlit("oauth_nonce");
    reveal_strlit("oauth_signature");
    reveal_strlit("oauth_signature_method");
    reveal_strlit("oauth_timestamp");
    reveal_strlit("oauth_version");
    let a = encode_utf8(first);
    let b = encode_utf8(second);
    is_ascii_chars_encode_utf8(first);
    is_ascii_chars_encode_utf8(second);
    let k: int = if i == 2 && j == 3 {
        15
    } else {
        6
    };
    assert forall|m: int| 0 <= m < k implies #[trigger] a[m] == b[m] by {
        assert(first[m] == second[m]);
    }
    assert(k == a.len() || a[k] < b[k]) by {
        if k == 6 {
            assert(first[6] as u8 == a[6]);
            assert(second[6] as u8 == b[6]);
        }
    }
    assert(bytes_precede_at(a, b, k));
}

/// The parameters of a request stand in the ascending order of their names,
/// before the signature has joined them and after: the order in which a map
/// that is sorted by name holds them.
pub proof fn lemma_parameters_in_order(
    user_key: Seq<char>,
    nonce: Seq<char>,
    timestamp: nat,
    signature: Seq<char>,
)
    ensures
        names_ascending(oauth_parameters(user_key, nonce, timestamp)),
        names_ascending(signed_parameters(oauth_parameters(user_key, nonce, timestamp), signature)),
{
    let unsigned = oauth_parameters(user_key, nonce, timestamp);
    let signed = signed_parameters(unsigned, signature);
    assert forall|i: int, j: int| 0 <= i < j < signed.len() implies text_before(
        (#[trigger] signed[i]).0,
        (#[trigger] signed[j]).0,
    ) by {
        assert(ranked_name(signed[i].0, i));
        assert(ranked_name(signed[j].0, j));
        lemma_names_in_order(signed[i].0, i, signed[j].0, j);
    }
    assert forall|i: int, j: int| 0 <= i < j < unsigned.len() implies text_before(
        (#[trigger] unsigned[i]).0,
        (#[trigger] unsigned[j]).0,
    ) by {
        let p = if i < 2 { i } else { i + 1 };
        let q = if j < 2 { j } else { j + 1 };
        assert(ranked_name(unsigned[i].0, p));
        assert(ranked_name(unsigned[j].0, q));
        lemma_names_in_order(unsigned[i].0, p, unsigned[j].0, q);
    }
}

} // verus!
