//! Home Assistant sensor access: what a configured connection needs, the
//! request that reads one sensor, and the sensor state it returns.

use vstd::prelude::*;
use vstd::string::StringExecFns;

verus! {

/// The state of one Home Assistant entity, as `/api/states/<entity>` returns it.
#[derive(Debug)]
pub struct HASensor {
    pub entity_id: String,
    pub state: String,
    pub last_changed: String,
    pub last_reported: String,
    pub last_updated: String,
}

impl Clone for HASensor {
    fn clone(&self) -> (c: Self)
        ensures
            c == *self,
    {
        HASensor {
            entity_id: self.entity_id.clone(),
            state: self.state.clone(),
            last_changed: self.last_changed.clone(),
            last_reported: self.last_reported.clone(),
            last_updated: self.last_updated.clone(),
        }
    }
}

impl Default for HASensor {
    fn default() -> (s: Self)
        ensures
            s.entity_id@.len() == 0,
            s.state@.len() == 0,
            s.last_changed@.len() == 0,
            s.last_reported@.len() == 0,
            s.last_updated@.len() == 0,
    {
        HASensor {
            entity_id: String::new(),
            state: String::new(),
            last_changed: String::new(),
            last_reported: String::new(),
            last_updated: String::new(),
        }
    }
}

impl PartialEq for HASensor {
    fn eq(&self, other: &Self) -> (r: bool) {
        self.entity_id == other.entity_id && self.state == other.state && self.last_changed
            == other.last_changed && self.last_reported == other.last_reported
            && self.last_updated == other.last_updated
    }
}

impl vstd::std_specs::cmp::PartialEqSpecImpl for HASensor {
    open spec fn obeys_eq_spec() -> bool {
        true
    }

    open spec fn eq_spec(&self, other: &Self) -> bool {
        &&& self.entity_id@ == other.entity_id@
        &&& self.state@ == other.state@
        &&& self.last_changed@ == other.last_changed@
        &&& self.last_reported@ == other.last_reported@
        &&& self.last_updated@ == other.last_updated@
    }
}

/// Why a sensor could not be read.
#[derive(Debug, Clone, Copy, PartialEq, Eq, Structural)]
pub enum HomeAssistantError {
    /// No Home Assistant URL is configured.
    NoConnection,
}

impl HomeAssistantError {
    /// The message shown for this error.
    pub fn message(&self) -> (m: String)
        ensures
            m@ == "No HA connection"@,
    {
        match self {
            HomeAssistantError::NoConnection => "No HA connection".to_owned(),
        }
    }
}

/// An HTTP GET of `url`, authorized with `bearer_token`.
pub struct SensorRequest {
    pub url: String,
    pub bearer_token: String,
}

/// The address and credentials of a Home Assistant instance.
pub struct HomeAssistantAPI {
    endpoint_url: String,
    auth_token: String,
}

impl HomeAssistantAPI {
    pub closed spec fn spec_endpoint_url(&self) -> Seq<char> {
        self.endpoint_url@
    }

    pub closed spec fn spec_auth_token(&self) -> Seq<char> {
        self.auth_token@
    }

    /// A connection to `endpoint_url` (for instance `http://host:8123`) with
    /// the long-lived access token `auth_token`; either may be empty.
    pub fn new(endpoint_url: String, auth_token: String) -> (api: Self)
        ensures
            api.spec_endpoint_url() == endpoint_url@,
            api.spec_auth_token() == auth_token@,
    {
        HomeAssistantAPI { endpoint_url, auth_token }
    }

    /// Whether both the URL and the token are given.
    pub fn is_configured(&self) -> (b: bool)
        ensures
            b == (self.spec_endpoint_url().len() > 0 && self.spec_auth_token().len() > 0),
    {
        !self.endpoint_url.as_str().is_empty() && !self.auth_token.as_str().is_empty()
    }

    /// The request that reads the state of `sensor_path`:
    /// `<endpoint>/api/states/<sensor_path>` with the token as bearer
    /// authorization; refused when no URL is configured.
    pub fn sensor_request(&self, sensor_path: &str) -> (res: Result<SensorRequest, HomeAssistantError>)
        ensures
            self.spec_endpoint_url().len() == 0 ==> res == Err::<SensorRequest, HomeAssistantError>(
                HomeAssistantError::NoConnection,
            ),
            self.spec_endpoint_url().len() > 0 ==> (res matches Ok(r) && r.url@ == self.spec_endpoint_url()
                + "/api/states/"@ + sensor_path@ && r.bearer_token@ == self.spec_auth_token()),
    {
        if self.endpoint_url.as_str().is_empty() {
            return Err(HomeAssistantError::NoConnection);
        }
        let url = self.endpoint_url.clone().concat("/api/states/").concat(sensor_path);
        Ok(SensorRequest { url, bearer_token: self.auth_token.clone() })
    }
}

} // verus!
