use crate::error::GeminiError;
use crate::request::{prompt_json, request_text};
use std::sync::Arc;
use vstd::prelude::*;

verus! {

/// The public host of the API, used when no proxy host is configured.
pub const API_HOST: &'static str = "generativelanguage.googleapis.com";

/// The model asked when none is named.
pub const DEFAULT_MODEL: &'static str = "gemini-1.5-flash";

/// The media type of a request body.
pub const CONTENT_TYPE: &'static str = "application/json";

/// The HTTP transport, carried through opaque and shared by every call.
#[verifier::external_type_specification]
#[verifier::external_body]
pub struct ExTransport(reqwest::Client);

/// A configured client: credentials, model and target host.
pub struct Gemini {
    client: Arc<reqwest::Client>,
    api_key: String,
    model: String,
    proxy: Option<String>,
}

/// What a client is configured with.
pub ghost struct GeminiView {
    pub api_key: Seq<char>,
    pub model: Seq<char>,
    pub proxy: Option<Seq<char>>,
}

impl View for Gemini {
    type V = GeminiView;

    closed spec fn view(&self) -> GeminiView {
        GeminiView {
            api_key: self.api_key@,
            model: self.model@,
            proxy: match self.proxy {
                Some(p) => Some(p@),
                None => None,
            },
        }
    }
}

/// The text of an optional string argument.
pub open spec fn text_of(s: Option<&str>) -> Option<Seq<char>> {
    match s {
        Some(t) => Some(t@),
        None => None,
    }
}

/// The key in force: the one given first, else the one from the environment.
pub open spec fn resolved_key(given: Option<Seq<char>>, env: Option<Seq<char>>) -> Option<Seq<char>> {
    match given {
        Some(k) => Some(k),
        None => env,
    }
}

/// The host that requests go to.
pub open spec fn host_of(proxy: Option<Seq<char>>) -> Seq<char> {
    match proxy {
        Some(h) => h,
        None => API_HOST@,
    }
}

/// Path and query of a request, which no proxy changes.
pub open spec fn endpoint_of(model: Seq<char>, api_key: Seq<char>) -> Seq<char> {
    "/v1beta/models/"@ + model + ":generateContent?key="@ + api_key
}

/// The URL that a client with this configuration posts to.
pub open spec fn url_of(g: GeminiView) -> Seq<char> {
    "https://"@ + host_of(g.proxy) + endpoint_of(g.model, g.api_key)
}

/// The key to use: the one in force, where it is not empty.
pub open spec fn usable_key(given: Option<Seq<char>>, env: Option<Seq<char>>) -> Option<Seq<char>> {
    match resolved_key(given, env) {
        Some(k) => if k.len() > 0 {
            Some(k)
        } else {
            None
        },
        None => None,
    }
}

/// The key to use: `given` if there is one, else `env`; none where that key
/// is missing or empty.
pub fn resolve_api_key(given: Option<&str>, env: Option<&str>) -> (r: Option<String>)
    ensures
        r is None <==> usable_key(text_of(given), text_of(env)) is None,
        r matches Some(k) ==> Some(k@) == usable_key(text_of(given), text_of(env)),
        r matches Some(k) ==> k@.len() > 0,
{
    let k = match given {
        Some(k) => k,
        None => match env {
            Some(k) => k,
            None => return None,
        },
    };
    if k.is_empty() {
        None
    } else {
        Some(k.to_owned())
    }
}

impl Gemini {
    /// A client always holds a key.
    #[verifier::type_invariant]
    spec fn key_is_set(&self) -> bool {
        self.api_key@.len() > 0
    }

    /// A client over `client`, with the key given or else the one from the
    /// environment (`env_key`), `model` or the default model, and requests
    /// sent to `proxy` in place of the public host. Without any key there is
    /// no client, nor with an empty one.
    pub fn new(
        client: Arc<reqwest::Client>,
        api_key: Option<&str>,
        env_key: Option<&str>,
        model: Option<&str>,
        proxy: Option<&str>,
    ) -> (r: Option<Gemini>)
        ensures
            r is None <==> usable_key(text_of(api_key), text_of(env_key)) is None,
            r matches Some(g) ==> {
                &&& Some(g@.api_key) == usable_key(text_of(api_key), text_of(env_key))
                &&& g@.api_key.len() > 0
                &&& g@.model == match model {
                    Some(m) => m@,
                    None => DEFAULT_MODEL@,
                }
                &&& g@.proxy == text_of(proxy)
            },
    {
        let key = match resolve_api_key(api_key, env_key) {
            Some(k) => k,
            None => return None,
        };
        let model = match model {
            Some(m) => m.to_owned(),
            None => DEFAULT_MODEL.to_owned(),
        };
        let proxy = match proxy {
            Some(p) => Some(p.to_owned()),
            None => None,
        };
        Some(Gemini { client, api_key: key, model, proxy })
    }

    /// The URL that requests post to: the proxy host in place of the public
    /// one where a proxy is set, path and query otherwise the same.
    pub fn url(&self) -> (r: String)
        ensures
            r@ == url_of(self@),
    {
        let mut r = String::from_str("https://");
        match &self.proxy {
            Some(p) => r.append(p.as_str()),
            None => r.append(API_HOST),
        }
        r.append("/v1beta/models/");
        r.append(self.model.as_str());
        r.append(":generateContent?key=");
        r.append(self.api_key.as_str());
        proof {
            assert(r@ =~= url_of(self@));
        }
        r
    }

    /// The shared transport that requests go through.
    pub fn transport(&self) -> &Arc<reqwest::Client> {
        &self.client
    }

    /// What to post for `prompt`: the URL, then the body's JSON text. Nothing
    /// is kept between calls, so each call prepares the same request afresh.
    pub fn prepare(&self, prompt: &str) -> (r: Result<(String, String), GeminiError>)
        ensures
            r matches Ok((url, body)) && url@ == url_of(self@) && body@ == prompt_json(prompt@),
    {
        let body = match request_text(prompt) {
            Ok(b) => b,
            Err(e) => return Err(e),
        };
        Ok((self.url(), body))
    }
}

} // verus!
