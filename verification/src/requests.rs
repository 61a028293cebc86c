//! What is asked of Home Assistant: the address, the headers and the body of each request, and the
//! messages when it fails.

use vstd::prelude::*;

use crate::snapshot::LIVING_ROOM_FAN;
use crate::text;
use crate::text::{join2, join3, trim_end_matches};

verus! {

/// Seconds between two refreshes.
pub const POLL_INTERVAL_SECS: u64 = 120;

/// Seconds after which connecting, reading or writing is given up.
pub const REQUEST_TIMEOUT_SECS: u64 = 12;

// ---------------------------------------------------------------------------
// Requests
// ---------------------------------------------------------------------------

/// How a request is sent.
#[derive(Clone, Copy, Debug, PartialEq, Eq, Structural)]
pub enum Method {
    Get,
    Post,
}

/// A value in the body of a request.
#[derive(Debug, PartialEq)]
pub enum FieldValue<T> {
    Text(String),
    Number(T),
}

/// A request: the body is an object with the fields given, and a request that only gets has none.
#[derive(Debug, PartialEq)]
pub struct HttpRequest<T> {
    pub method: Method,
    pub url: String,
    pub query: Vec<(&'static str, String)>,
    pub headers: Vec<(&'static str, String)>,
    pub body: Option<Vec<(&'static str, FieldValue<T>)>>,
    /// What the messages about the request begin with.
    pub label: String,
}

/// What a value in a body is.
#[verifier::ext_equal]
pub enum FieldModel<T> {
    Text(Seq<char>),
    Number(T),
}

/// What a request is.
#[verifier::ext_equal]
pub struct RequestModel<T> {
    pub method: Method,
    pub url: Seq<char>,
    pub query: Seq<(Seq<char>, Seq<char>)>,
    pub headers: Seq<(Seq<char>, Seq<char>)>,
    pub body: Option<Seq<(Seq<char>, FieldModel<T>)>>,
    pub label: Seq<char>,
}

impl<T> View for FieldValue<T> {
    type V = FieldModel<T>;

    open spec fn view(&self) -> FieldModel<T> {
        match *self {
            FieldValue::Text(value) => FieldModel::Text(value@),
            FieldValue::Number(value) => FieldModel::Number(value),
        }
    }
}

/// The characters of a list of names and values.
pub open spec fn pairs(list: Seq<(&'static str, String)>) -> Seq<(Seq<char>, Seq<char>)> {
    list.map_values(|pair: (&'static str, String)| (pair.0@, pair.1@))
}

/// The fields of a body.
pub open spec fn fields<T>(list: Seq<(&'static str, FieldValue<T>)>) -> Seq<
    (Seq<char>, FieldModel<T>),
> {
    list.map_values(|field: (&'static str, FieldValue<T>)| (field.0@, field.1@))
}

impl<T> View for HttpRequest<T> {
    type V = RequestModel<T>;

    open spec fn view(&self) -> RequestModel<T> {
        RequestModel {
            method: self.method,
            url: self.url@,
            query: pairs(self.query@),
            headers: pairs(self.headers@),
            body: match self.body {
                Some(list) => Some(fields(list@)),
                None => None,
            },
            label: self.label@,
        }
    }
}

/// The headers of every request.
pub open spec fn common_headers(token: Seq<char>) -> Seq<(Seq<char>, Seq<char>)> {
    seq![("Authorization"@, "Bearer "@ + token), ("Accept"@, "application/json"@)]
}

/// A request that gets what is at an address.
pub open spec fn get_request<T>(
    client: HaClient,
    path: Seq<char>,
    query: Seq<(Seq<char>, Seq<char>)>,
    label: Seq<char>,
) -> RequestModel<T> {
    RequestModel {
        method: Method::Get,
        url: client.base_url@ + path,
        query,
        headers: common_headers(client.token@),
        body: None,
        label,
    }
}

/// A request that posts an object to an address.
pub open spec fn post_request<T>(
    client: HaClient,
    path: Seq<char>,
    body: Seq<(Seq<char>, FieldModel<T>)>,
    label: Seq<char>,
) -> RequestModel<T> {
    RequestModel {
        method: Method::Post,
        url: client.base_url@ + path,
        query: seq![],
        headers: common_headers(client.token@),
        body: Some(body),
        label,
    }
}

/// A request that calls a service.
pub open spec fn service_request<T>(
    client: HaClient,
    domain: Seq<char>,
    service: Seq<char>,
    body: Seq<(Seq<char>, FieldModel<T>)>,
) -> RequestModel<T> {
    post_request(
        client,
        "/api/services/"@ + domain + "/"@ + service,
        body,
        domain + "."@ + service,
    )
}

/// The service that turns a device on or off.
pub open spec fn turning(on: bool) -> Seq<char> {
    if on {
        "turn_on"@
    } else {
        "turn_off"@
    }
}

impl<T> HttpRequest<T> {
    /// The message when the request could not be made.
    pub fn failed(&self, error: &str) -> (r: String)
        ensures
            r@ == self.label@ + ": "@ + error@,
    {
        join3(&self.label, ": ", error)
    }

    /// The message when the answer could not be read.
    pub fn invalid(&self, error: &str) -> (r: String)
        ensures
            r@ == self.label@ + ": invalid response: "@ + error@,
    {
        join3(&self.label, ": invalid response: ", error)
    }
}

// ---------------------------------------------------------------------------
// The client
// ---------------------------------------------------------------------------

/// Where Home Assistant is, and the token it asks for.
#[derive(Debug, PartialEq)]
pub struct HaClient {
    pub base_url: String,
    pub token: String,
}

impl HaClient {
    /// A path can be appended to the address.
    pub open spec fn well_formed(self) -> bool {
        self.base_url@.len() > 0 ==> self.base_url@.last() != '/'
    }

    /// The client that the environment configures: the address without slashes at its end, and
    /// the token.
    pub fn from_environment(url: Option<String>, token: Option<String>) -> (r: Result<
        HaClient,
        String,
    >)
        ensures
            r is Ok <==> url is Some && token is Some,
            r matches Ok(client) ==> {
                &&& client.base_url@ == text::without_trailing(url->0@, '/')
                &&& client.token@ == token->0@
                &&& client.well_formed()
            },
            r matches Err(error) ==> error@ == if url is None {
                "HASS_URL is not configured"@
            } else {
                "HASS_TOKEN is not configured"@
            },
    {
        let url: String = match url {
            Some(url) => url,
            None => {
                return Err("HASS_URL is not configured".to_owned());
            },
        };
        let base_url = trim_end_matches(&url, '/').to_owned();
        proof {
            text::trimming_leaves_no_mark(url@, '/');
        }
        match token {
            Some(token) => Ok(HaClient { base_url, token }),
            None => Err("HASS_TOKEN is not configured".to_owned()),
        }
    }

    /// The headers of every request.
    fn headers(&self) -> (r: Vec<(&'static str, String)>)
        ensures
            pairs(r@) == common_headers(self.token@),
    {
        let mut headers: Vec<(&'static str, String)> = Vec::new();
        headers.push(("Authorization", join2("Bearer ", &self.token)));
        headers.push(("Accept", "application/json".to_owned()));
        assert(pairs(headers@) =~= common_headers(self.token@));
        headers
    }

    /// A request that gets what is at an address.
    fn get<T>(&self, path: &str, query: Vec<(&'static str, String)>, label: &str) -> (r:
        HttpRequest<T>)
        ensures
            r@ == get_request::<T>(*self, path@, pairs(query@), label@),
    {
        HttpRequest {
            method: Method::Get,
            url: join2(&self.base_url, path),
            query,
            headers: self.headers(),
            body: None,
            label: label.to_owned(),
        }
    }

    /// A request that posts an object to an address.
    fn post<T>(&self, path: &str, body: Vec<(&'static str, FieldValue<T>)>, label: &str) -> (r:
        HttpRequest<T>)
        ensures
            r@ == post_request::<T>(*self, path@, fields(body@), label@),
    {
        let request = HttpRequest {
            method: Method::Post,
            url: join2(&self.base_url, path),
            query: Vec::new(),
            headers: self.headers(),
            body: Some(body),
            label: label.to_owned(),
        };
        assert(request@.query =~= Seq::<(Seq<char>, Seq<char>)>::empty());
        request
    }

    /// The request for the states of all entities.
    pub fn get_all_states<T>(&self) -> (r: HttpRequest<T>)
        ensures
            r@ == get_request::<T>(*self, "/api/states"@, seq![], "states"@),
    {
        let query: Vec<(&'static str, String)> = Vec::new();
        assert(pairs(query@) =~= Seq::<(Seq<char>, Seq<char>)>::empty());
        self.get("/api/states", query, "states")
    }

    /// The request for the list of calendars.
    pub fn get_calendars<T>(&self) -> (r: HttpRequest<T>)
        ensures
            r@ == get_request::<T>(*self, "/api/calendars"@, seq![], "calendars"@),
    {
        let query: Vec<(&'static str, String)> = Vec::new();
        assert(pairs(query@) =~= Seq::<(Seq<char>, Seq<char>)>::empty());
        self.get("/api/calendars", query, "calendars")
    }

    /// The request for the events of a calendar between two times.
    pub fn get_calendar_events<T>(&self, entity_id: &str, start: &str, end: &str) -> (r:
        HttpRequest<T>)
        ensures
            r@ == get_request::<T>(
                *self,
                "/api/calendars/"@ + entity_id@,
                seq![("start"@, start@), ("end"@, end@)],
                entity_id@,
            ),
    {
        let mut query: Vec<(&'static str, String)> = Vec::new();
        query.push(("start", start.to_owned()));
        query.push(("end", end.to_owned()));
        assert(pairs(query@) =~= seq![("start"@, start@), ("end"@, end@)]);
        self.get(&join2("/api/calendars/", entity_id), query, entity_id)
    }

    /// The request for the daily forecast of a weather entity.
    pub fn get_daily_high<T>(&self, entity_id: &str) -> (r: HttpRequest<T>)
        ensures
            r@ == post_request::<T>(
                *self,
                "/api/services/weather/get_forecasts?return_response"@,
                seq![
                    ("entity_id"@, FieldModel::Text(entity_id@)),
                    ("type"@, FieldModel::Text("daily"@)),
                ],
                "weather.get_forecasts"@,
            ),
    {
        let mut body: Vec<(&'static str, FieldValue<T>)> = Vec::new();
        body.push(("entity_id", FieldValue::Text(entity_id.to_owned())));
        body.push(("type", FieldValue::Text("daily".to_owned())));
        assert(fields(body@) =~= seq![
            ("entity_id"@, FieldModel::Text(entity_id@)),
            ("type"@, FieldModel::Text("daily"@)),
        ]);
        self.post(
            "/api/services/weather/get_forecasts?return_response",
            body,
            "weather.get_forecasts",
        )
    }

    /// The request that calls a service with the fields given.
    pub fn call_service<T>(
        &self,
        domain: &str,
        service: &str,
        body: Vec<(&'static str, FieldValue<T>)>,
    ) -> (r: HttpRequest<T>)
        ensures
            r@ == service_request::<T>(*self, domain@, service@, fields(body@)),
    {
        let path = join2(&join3("/api/services/", domain, "/"), service);
        self.post(&path, body, &join3(domain, ".", service))
    }

    /// The request that sets the set point of a thermostat.
    pub fn set_temperature<T>(&self, entity_id: &str, temperature: T) -> (r: HttpRequest<T>)
        ensures
            r@ == service_request::<T>(
                *self,
                "climate"@,
                "set_temperature"@,
                seq![
                    ("entity_id"@, FieldModel::Text(entity_id@)),
                    ("temperature"@, FieldModel::Number(temperature)),
                ],
            ),
    {
        let mut body: Vec<(&'static str, FieldValue<T>)> = Vec::new();
        body.push(("entity_id", FieldValue::Text(entity_id.to_owned())));
        body.push(("temperature", FieldValue::Number(temperature)));
        assert(fields(body@) =~= seq![
            ("entity_id"@, FieldModel::Text(entity_id@)),
            ("temperature"@, FieldModel::Number(temperature)),
        ]);
        self.call_service("climate", "set_temperature", body)
    }

    /// The request that sets the mode of a thermostat.
    pub fn set_mode<T>(&self, entity_id: &str, mode: &str) -> (r: HttpRequest<T>)
        ensures
            r@ == service_request::<T>(
                *self,
                "climate"@,
                "set_hvac_mode"@,
                seq![
                    ("entity_id"@, FieldModel::Text(entity_id@)),
                    ("hvac_mode"@, FieldModel::Text(mode@)),
                ],
            ),
    {
        let mut body: Vec<(&'static str, FieldValue<T>)> = Vec::new();
        body.push(("entity_id", FieldValue::Text(entity_id.to_owned())));
        body.push(("hvac_mode", FieldValue::Text(mode.to_owned())));
        assert(fields(body@) =~= seq![
            ("entity_id"@, FieldModel::Text(entity_id@)),
            ("hvac_mode"@, FieldModel::Text(mode@)),
        ]);
        self.call_service("climate", "set_hvac_mode", body)
    }

    /// The request that sets the fan mode of a thermostat.
    pub fn set_fan_mode<T>(&self, entity_id: &str, fan_mode: &str) -> (r: HttpRequest<T>)
        ensures
            r@ == service_request::<T>(
                *self,
                "climate"@,
                "set_fan_mode"@,
                seq![
                    ("entity_id"@, FieldModel::Text(entity_id@)),
                    ("fan_mode"@, FieldModel::Text(fan_mode@)),
                ],
            ),
    {
        let mut body: Vec<(&'static str, FieldValue<T>)> = Vec::new();
        body.push(("entity_id", FieldValue::Text(entity_id.to_owned())));
        body.push(("fan_mode", FieldValue::Text(fan_mode.to_owned())));
        assert(fields(body@) =~= seq![
            ("entity_id"@, FieldModel::Text(entity_id@)),
            ("fan_mode"@, FieldModel::Text(fan_mode@)),
        ]);
        self.call_service("climate", "set_fan_mode", body)
    }

    /// The request that turns an entity on or off.
    fn turn<T>(&self, domain: &str, entity_id: &str, on: bool) -> (r: HttpRequest<T>)
        ensures
            r@ == service_request::<T>(
                *self,
                domain@,
                turning(on),
                seq![("entity_id"@, FieldModel::Text(entity_id@))],
            ),
    {
        let service: &str = if on {
            "turn_on"
        } else {
            "turn_off"
        };
        let mut body: Vec<(&'static str, FieldValue<T>)> = Vec::new();
        body.push(("entity_id", FieldValue::Text(entity_id.to_owned())));
        assert(fields(body@) =~= seq![("entity_id"@, FieldModel::Text(entity_id@))]);
        self.call_service(domain, service, body)
    }

    /// The request that turns the fan of the living room on or off.
    pub fn set_fan<T>(&self, on: bool) -> (r: HttpRequest<T>)
        ensures
            r@ == service_request::<T>(
                *self,
                "fan"@,
                turning(on),
                seq![("entity_id"@, FieldModel::Text(LIVING_ROOM_FAN@))],
            ),
    {
        self.turn("fan", LIVING_ROOM_FAN, on)
    }

    /// The request that turns a light on or off.
    pub fn set_light<T>(&self, entity_id: &str, on: bool) -> (r: HttpRequest<T>)
        ensures
            r@ == service_request::<T>(
                *self,
                "light"@,
                turning(on),
                seq![("entity_id"@, FieldModel::Text(entity_id@))],
            ),
    {
        self.turn("light", entity_id, on)
    }
}

impl Clone for HaClient {
    fn clone(&self) -> (r: HaClient)
        ensures
            r.base_url@ == self.base_url@,
            r.token@ == self.token@,
    {
        HaClient { base_url: self.base_url.clone(), token: self.token.clone() }
    }
}

// ---------------------------------------------------------------------------
// Laws
// ---------------------------------------------------------------------------

/// Every request goes to a path below the address of the client, carries its token and asks for
/// JSON. One that gets has no body, and one that posts no query.
pub proof fn requests_carry_address_and_token<T>(
    client: HaClient,
    path: Seq<char>,
    query: Seq<(Seq<char>, Seq<char>)>,
    body: Seq<(Seq<char>, FieldModel<T>)>,
    label: Seq<char>,
)
    ensures
        ({
            let got = get_request::<T>(client, path, query, label);
            &&& got.method == Method::Get
            &&& got.url == client.base_url@ + path
            &&& got.query == query
            &&& got.body is None
            &&& got.label == label
            &&& got.headers.len() == 2
            &&& got.headers[0] == ("Authorization"@, "Bearer "@ + client.token@)
            &&& got.headers[1] == ("Accept"@, "application/json"@)
        }),
        ({
            let posted = post_request(client, path, body, label);
            &&& posted.method == Method::Post
            &&& posted.url == client.base_url@ + path
            &&& posted.query.len() == 0
            &&& posted.body == Some(body)
            &&& posted.label == label
            &&& posted.headers.len() == 2
            &&& posted.headers[0] == ("Authorization"@, "Bearer "@ + client.token@)
            &&& posted.headers[1] == ("Accept"@, "application/json"@)
        }),
{
}

/// A service is called by a post to its own path, and messages about it name its domain and it.
pub proof fn services_are_called_by_name<T>(
    client: HaClient,
    domain: Seq<char>,
    service: Seq<char>,
    body: Seq<(Seq<char>, FieldModel<T>)>,
)
    ensures
        ({
            let call = service_request(client, domain, service, body);
            &&& call.method == Method::Post
            &&& call.url == client.base_url@ + ("/api/services/"@ + domain + "/"@ + service)
            &&& call.query.len() == 0
            &&& call.body == Some(body)
            &&& call.label == domain + "."@ + service
            &&& call.headers == get_request::<T>(client, domain, seq![], service).headers
        }),
        turning(true) == "turn_on"@,
        turning(false) == "turn_off"@,
{
}

/// What a request is holds all that is sent.
pub proof fn request_models_leave_nothing_out<T>(request: HttpRequest<T>, i: int)
    ensures
        request@.method == request.method,
        request@.url == request.url@,
        request@.label == request.label@,
        request@.query.len() == request.query@.len(),
        0 <= i < request.query@.len() ==> request@.query[i] == (
            request.query@[i].0@,
            request.query@[i].1@,
        ),
        request@.headers.len() == request.headers@.len(),
        0 <= i < request.headers@.len() ==> request@.headers[i] == (
            request.headers@[i].0@,
            request.headers@[i].1@,
        ),
        request@.body is Some <==> request.body is Some,
        request.body matches Some(list) ==> {
            &&& request@.body->0.len() == list@.len()
            &&& 0 <= i < list@.len() ==> {
                let (name, value) = request@.body->0[i];
                &&& name == list@[i].0@
                &&& list@[i].1 matches FieldValue::Text(text) ==> value == FieldModel::<T>::Text(
                    text@,
                )
                &&& list@[i].1 matches FieldValue::Number(number) ==> value
                    == FieldModel::<T>::Number(number)
            }
        },
{
}

/// A path can be appended to an address if and only if the address does not end in a slash.
pub proof fn addresses_end_in_no_slash(client: HaClient)
    ensures
        client.well_formed() <==> client.base_url@.len() == 0 || client.base_url@.last() != '/',
{
}

} // verus!
