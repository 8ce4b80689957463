//! The embedding provider's client: endpoint addresses, request bodies and
//! the reading of response status codes. Sending and receiving is done by
//! the caller over HTTP.
use vstd::prelude::*;

verus! {

#[verifier::external_type_specification]
#[verifier::external_body]
pub struct ExHttpClient(reqwest::Client);

#[verifier::external_type_specification]
#[verifier::external_body]
pub struct ExHttpError(reqwest::Error);

/// Seconds after which a request to the provider is abandoned.
pub const REQUEST_TIMEOUT_SECS: u64 = 60;

/// Why a call to the embedding provider failed.
pub enum ProviderError {
    /// The connection could not be established, timed out, or the client
    /// could not be built.
    Transport { message: String },
    /// The provider answered with a status outside 200..=299.
    Provider { status: u16, body: String },
    /// The provider's success answer could not be read.
    Decode { message: String },
}

/// `s` without the `/` characters at its end.
pub open spec fn trim_trailing_slashes(s: Seq<char>) -> Seq<char>
    decreases s.len(),
{
    if s.len() > 0 && s.last() == '/' {
        trim_trailing_slashes(s.drop_last())
    } else {
        s
    }
}

/// The lower-case hexadecimal digit of `n`, below sixteen.
pub open spec fn hex_digit(n: u32) -> char {
    "0123456789abcdef"@[n as int]
}

/// How `c` is written inside a JSON string: quote and backslash escaped,
/// the five short control escapes, `\u00xx` for the other controls below
/// U+0020, and every other character as it is.
pub open spec fn json_escape_char(c: char) -> Seq<char> {
    if c == '"' {
        seq!['\\', '"']
    } else if c == '\\' {
        seq!['\\', '\\']
    } else if c == '\u{8}' {
        seq!['\\', 'b']
    } else if c == '\t' {
        seq!['\\', 't']
    } else if c == '\n' {
        seq!['\\', 'n']
    } else if c == '\u{c}' {
        seq!['\\', 'f']
    } else if c == '\r' {
        seq!['\\', 'r']
    } else if (c as u32) < 0x20 {
        seq!['\\', 'u', '0', '0', hex_digit((c as u32) / 16), hex_digit((c as u32) % 16)]
    } else {
        seq![c]
    }
}

/// The characters of `s`, each escaped for a JSON string.
pub open spec fn json_escape(s: Seq<char>) -> Seq<char>
    decreases s.len(),
{
    if s.len() == 0 {
        seq![]
    } else {
        json_escape(s.drop_last()) + json_escape_char(s.last())
    }
}

/// The JSON string literal of `s`: its escaped characters between quotes.
pub open spec fn json_string_literal(s: Seq<char>) -> Seq<char> {
    seq!['"'] + json_escape(s) + seq!['"']
}

/// Relies on serde_json's `Value::String` and its compact `Display`, which
/// writes the string between quotes with the escapes of its escape table.
#[verifier::external_body]
fn json_quote(s: &str) -> (r: String)
    ensures
        r@ == json_string_literal(s@),
{
    serde_json::Value::String(s.to_string()).to_string()
}

/// Relies on reqwest's `ClientBuilder::timeout` and `build`: a client whose
/// requests are abandoned after `secs` seconds, or the builder's error.
#[verifier::external_body]
fn build_http_client(secs: u64) -> (r: Result<reqwest::Client, reqwest::Error>) {
    reqwest::Client::builder().timeout(std::time::Duration::from_secs(secs)).build()
}

/// Relies on the `Display` of `reqwest::Error` for a readable message.
#[verifier::external_body]
fn http_error_message(e: &reqwest::Error) -> (r: String) {
    e.to_string()
}

/// The body of a request for the embedding of `text` by `model`.
pub open spec fn embed_body(text: Seq<char>, model: Seq<char>) -> Seq<char> {
    "{\"prompt\":"@ + json_string_literal(text) + ",\"model\":"@ + json_string_literal(model)
        + "}"@
}

/// Whether an HTTP status code reports success.
pub open spec fn is_success(status: u16) -> bool {
    200 <= status <= 299
}

/// Strips the `/` characters at the end of `s`.
pub fn trim_slashes(s: &str) -> (r: String)
    ensures
        r@ == trim_trailing_slashes(s@),
{
    let n = s.unicode_len();
    let mut k: usize = n;
    assert(s@.subrange(0, n as int) =~= s@);
    while k > 0 && s.get_char(k - 1) == '/'
        invariant
            n == s@.len(),
            k <= n,
            trim_trailing_slashes(s@) == trim_trailing_slashes(s@.subrange(0, k as int)),
        decreases k,
    {
        assert(s@.subrange(0, k as int).drop_last() =~= s@.subrange(0, k - 1));
        k = k - 1;
    }
    assert(trim_trailing_slashes(s@.subrange(0, k as int)) == s@.subrange(0, k as int));
    String::from_str(s.substring_char(0, k))
}

/// Reads the status of a provider answer: success, or the provider's error
/// carrying the status and the answer's body as it came.
pub fn check_status(status: u16, body: String) -> (r: Result<(), ProviderError>)
    ensures
        is_success(status) <==> r is Ok,
        !is_success(status) ==> r == Err::<(), ProviderError>(
            ProviderError::Provider { status, body },
        ),
{
    if 200 <= status && status <= 299 {
        Ok(())
    } else {
        Err(ProviderError::Provider { status, body })
    }
}

/// A client of the embedding provider at one base address, for one model.
pub struct OllamaClient {
    client: reqwest::Client,
    base_url: String,
    model: String,
    timeout_secs: u64,
}

impl OllamaClient {
    /// The provider's base address, without a trailing `/`.
    pub closed spec fn base_view(&self) -> Seq<char> {
        self.base_url@
    }

    pub closed spec fn model_view(&self) -> Seq<char> {
        self.model@
    }

    /// The seconds after which the client's requests are abandoned.
    pub closed spec fn timeout_view(&self) -> u64 {
        self.timeout_secs
    }

    /// A client for `base_url` (trailing `/` removed) and `model`, whose
    /// requests time out after sixty seconds.
    pub fn new(base_url: &str, model: &str) -> (r: Result<OllamaClient, ProviderError>)
        ensures
            r matches Ok(c) ==> c.base_view() == trim_trailing_slashes(base_url@)
                && c.model_view() == model@ && c.timeout_view() == REQUEST_TIMEOUT_SECS,
            r matches Err(e) ==> e is Transport,
    {
        let timeout_secs = REQUEST_TIMEOUT_SECS;
        match build_http_client(timeout_secs) {
            Ok(client) => Ok(
                OllamaClient {
                    client,
                    timeout_secs,
                    base_url: trim_slashes(base_url),
                    model: String::from_str(model),
                },
            ),
            Err(e) => Err(ProviderError::Transport { message: http_error_message(&e) }),
        }
    }

    pub fn timeout_secs(&self) -> (r: u64)
        ensures
            r == self.timeout_view(),
    {
        self.timeout_secs
    }

    /// The HTTP client that carries the requests.
    pub fn http(&self) -> &reqwest::Client {
        &self.client
    }

    pub fn model(&self) -> (r: &str)
        ensures
            r@ == self.model_view(),
    {
        self.model.as_str()
    }

    pub fn base_url(&self) -> (r: &str)
        ensures
            r@ == self.base_view(),
    {
        self.base_url.as_str()
    }

    /// The address that embedding requests are posted to.
    pub fn embeddings_url(&self) -> (r: String)
        ensures
            r@ == self.base_view() + "/api/embeddings"@,
    {
        let mut r = self.base_url.clone();
        r.append("/api/embeddings");
        proof {
            reveal_strlit("/api/embeddings");
        }
        r
    }

    /// The address of the reachability probe.
    pub fn tags_url(&self) -> (r: String)
        ensures
            r@ == self.base_view() + "/api/tags"@,
    {
        let mut r = self.base_url.clone();
        r.append("/api/tags");
        proof {
            reveal_strlit("/api/tags");
        }
        r
    }

    /// The JSON body `{"prompt": text, "model": model}` of an embedding request.
    pub fn embed_request_body(&self, text: &str) -> (r: String)
        ensures
            r@ == embed_body(text@, self.model_view()),
    {
        let mut r = String::from_str("{\"prompt\":");
        let t = json_quote(text);
        r.append(t.as_str());
        r.append(",\"model\":");
        let m = json_quote(self.model.as_str());
        r.append(m.as_str());
        r.append("}");
        proof {
            reveal_strlit("{\"prompt\":");
            reveal_strlit(",\"model\":");
            reveal_strlit("}");
        }
        r
    }
}

} // verus!
