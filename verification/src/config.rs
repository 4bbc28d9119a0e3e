//! Where the model is reached, and as whom.
use crate::text::cat;
use crate::split::slice_text;
use crate::text::chars;
use vstd::prelude::*;

verus! {

/// The server that is asked by default.
pub const DEFAULT_API_URL: &'static str = "https://integrate.api.nvidia.com";

/// The model that is asked by default.
pub const DEFAULT_MODEL: &'static str = "z-ai/glm-5.1";

/// What is said where there is no key.
pub const MISSING_KEY: &'static str =
    "API_KEY não encontrada. Defina no ambiente ou crie .env na raiz com:\nAPI_KEY=sua_chave";

/// The first of two settings that is there.
pub open spec fn first_set(a: Option<Seq<char>>, b: Option<Seq<char>>) -> Option<Seq<char>> {
    match a {
        Some(s) => Some(s),
        None => b,
    }
}

/// The settings of the agent, as the environment has them: under the general names, and under those
/// of one provider.
pub struct Settings {
    pub api_key: Option<String>,
    pub nvidia_api_key: Option<String>,
    pub api_url: Option<String>,
    pub model: Option<String>,
    pub nvidia_model: Option<String>,
}

/// The text of a setting.
pub open spec fn setting(s: Option<String>) -> Option<Seq<char>> {
    match s {
        Some(t) => Some(t@),
        None => None,
    }
}

/// A text without the slashes at its end.
pub open spec fn without_slashes(s: Seq<char>) -> Seq<char>
    decreases s.len(),
{
    if s.len() > 0 && s.last() == '/' {
        without_slashes(s.drop_last())
    } else {
        s
    }
}

/// The address to which requests go.
pub open spec fn endpoint_view(url: Option<Seq<char>>) -> Seq<char> {
    without_slashes(
        match url {
            Some(u) => u,
            None => DEFAULT_API_URL@,
        },
    ) + "/v1/chat/completions"@
}

fn cut_slashes(s: &str) -> (r: String)
    ensures
        r@ == without_slashes(s@),
{
    let cs = chars(s);
    let mut n: usize = cs.len();
    assert(s@.take(n as int) =~= s@);
    while n > 0 && cs[n - 1] == '/'
        invariant
            cs@ == s@,
            n <= cs@.len(),
            without_slashes(s@) == without_slashes(s@.take(n as int)),
        decreases n,
    {
        assert(s@.take(n as int).drop_last() =~= s@.take(n - 1));
        n = n - 1;
    }
    let r = slice_text(&cs, 0, n);
    assert(r@ =~= s@.take(n as int));
    r
}

impl Settings {
    /// The key with which the agent shows who it is, or what is said where there is none.
    pub fn key(&self) -> (r: Result<String, String>)
        ensures
            match (r, first_set(setting(self.api_key), setting(self.nvidia_api_key))) {
                (Ok(k), Some(s)) => k@ == s,
                (Err(m), None) => m@ == MISSING_KEY@,
                _ => false,
            },
    {
        match (&self.api_key, &self.nvidia_api_key) {
            (Some(k), _) => Ok(k.clone()),
            (None, Some(k)) => Ok(k.clone()),
            (None, None) => Err(MISSING_KEY.to_owned()),
        }
    }

    /// The model that is asked.
    pub fn model_name(&self) -> (r: String)
        ensures
            r@ == match first_set(setting(self.model), setting(self.nvidia_model)) {
                Some(s) => s,
                None => DEFAULT_MODEL@,
            },
    {
        match (&self.model, &self.nvidia_model) {
            (Some(m), _) => m.clone(),
            (None, Some(m)) => m.clone(),
            (None, None) => DEFAULT_MODEL.to_owned(),
        }
    }

    /// The address to which requests go.
    pub fn endpoint(&self) -> (r: String)
        ensures
            r@ == endpoint_view(setting(self.api_url)),
    {
        let base = match &self.api_url {
            Some(u) => cut_slashes(u.as_str()),
            None => cut_slashes(DEFAULT_API_URL),
        };
        cat(base.as_str(), "/v1/chat/completions")
    }
}

/// A setting under its general name counts before that of the provider.
pub proof fn law_first_setting(a: Seq<char>, b: Option<Seq<char>>)
    ensures
        first_set(Some(a), b) == Some(a),
        first_set(None, b) == b,
{
}

/// Requests go to the server that is set, with or without slashes at its end, and to the default
/// elsewhere.
pub proof fn law_endpoint(url: Seq<char>)
    ensures
        url.len() > 0 && url.last() != '/' ==> endpoint_view(Some(url)) == url
            + "/v1/chat/completions"@,
        endpoint_view(Some(url.push('/'))) == endpoint_view(Some(url)),
        endpoint_view(None) == "https://integrate.api.nvidia.com"@ + "/v1/chat/completions"@,
{
    assert(url.push('/').drop_last() =~= url);
    reveal_strlit("https://integrate.api.nvidia.com");
    assert("https://integrate.api.nvidia.com"@.last() == 'm');
}

} // verus!
