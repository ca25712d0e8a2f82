//! The build server: the request that names a build, and the snapshots it reports.
use vstd::prelude::*;
use crate::number::{decimal, decimal_text, lemma_decimal_round_trip, parse_u64, u64_of_text};
use crate::text::range_equals;

verus! {

/// One observation of a build.
pub struct Build {
    pub status: String,
    pub state: String,
    pub percentage_complete: Option<i64>,
    pub web_url: String,
    pub running_info: Option<RunningInfo>,
}

/// Progress details that the server reports while a build runs.
pub struct RunningInfo {
    pub elapsed_seconds: i64,
    pub estimated_total_seconds: i64,
    pub current_stage_text: String,
}

/// The only terminal build state.
pub open spec fn finished_state() -> Seq<char> {
    "finished"@
}

impl Build {
    pub open spec fn is_finished_spec(&self) -> bool {
        self.state@ == finished_state()
    }

    /// Whether this snapshot reports the terminal state.
    pub fn is_finished(&self) -> (r: bool)
        ensures
            r == self.is_finished_spec(),
    {
        let n = self.state.as_str().unicode_len();
        let r = range_equals(self.state.as_str(), 0, n, "finished");
        assert(self.state@.subrange(0, n as int) =~= self.state@);
        r
    }
}

/// Where a build's data is served, and which build it is.
pub struct BuildRequest {
    pub build_id: u64,
    pub api_url: String,
}

impl View for BuildRequest {
    type V = (Seq<char>, u64);

    open spec fn view(&self) -> (Seq<char>, u64) {
        (self.api_url@, self.build_id)
    }
}

/// Why a build's page address names no build.
#[derive(Debug, Clone, Copy, PartialEq, Eq, Structural)]
pub enum ResolveError {
    InvalidUrl,
    MissingParameter,
    InvalidParameter,
}

/// The parts of a parsed address that name a build: scheme, host and query pairs.
pub struct UrlParts {
    pub scheme: String,
    pub host: Option<String>,
    pub query: Vec<(String, String)>,
}

pub type UrlPartsModel = (Seq<char>, Option<Seq<char>>, Seq<(Seq<char>, Seq<char>)>);

impl View for UrlParts {
    type V = UrlPartsModel;

    open spec fn view(&self) -> UrlPartsModel {
        (
            self.scheme@,
            match self.host {
                Some(h) => Some(h@),
                None => None,
            },
            self.query@.map_values(|p: (String, String)| (p.0@, p.1@)),
        )
    }
}

/// The parts that the URL parser finds in `s`, or `None` where `s` is no URL.
pub uninterp spec fn parsed_url(s: Seq<char>) -> Option<UrlPartsModel>;

/// Relies on `url::Url::parse` (as `reqwest::Url`) and its accessors `scheme`,
/// `host_str` and `query_pairs`: what they give depends on the text alone.
#[verifier::external_body]
fn parse_url(s: &str) -> (r: Option<UrlParts>)
    ensures
        match parsed_url(s@) {
            None => r is None,
            Some(p) => r is Some && r->0@ == p,
        },
{
    match reqwest::Url::parse(s) {
        Ok(u) => Some(UrlParts {
            scheme: u.scheme().to_string(),
            host: u.host_str().map(|h| h.to_string()),
            query: u.query_pairs().map(|(k, v)| (k.into_owned(), v.into_owned())).collect(),
        }),
        Err(_) => None,
    }
}

pub open spec fn build_id_key() -> Seq<char> {
    "buildId"@
}

/// The value of the first `buildId` pair, if any.
pub open spec fn first_build_id(q: Seq<(Seq<char>, Seq<char>)>) -> Option<Seq<char>>
    decreases q.len(),
{
    if q.len() == 0 {
        None
    } else if q[0].0 == build_id_key() {
        Some(q[0].1)
    } else {
        first_build_id(q.drop_first())
    }
}

/// What an address with these parts resolves to: `scheme://host` and the
/// number in the first `buildId` query pair.
pub open spec fn resolve_spec(p: UrlPartsModel) -> Result<(Seq<char>, u64), ResolveError> {
    match p.1 {
        None => Err(ResolveError::InvalidUrl),
        Some(h) => match first_build_id(p.2) {
            None => Err(ResolveError::MissingParameter),
            Some(v) => match u64_of_text(v) {
                None => Err(ResolveError::InvalidParameter),
                Some(n) => Ok((p.0 + "://"@ + h, n)),
            },
        },
    }
}

pub open spec fn request_view(r: Result<BuildRequest, ResolveError>) -> Result<
    (Seq<char>, u64),
    ResolveError,
> {
    match r {
        Ok(b) => Ok(b@),
        Err(e) => Err(e),
    }
}

proof fn lemma_first_build_id_skip(q: Seq<(Seq<char>, Seq<char>)>, k: int)
    requires
        0 <= k <= q.len(),
        forall|j: int| 0 <= j < k ==> (#[trigger] q[j]).0 != build_id_key(),
    ensures
        first_build_id(q) == first_build_id(q.subrange(k, q.len() as int)),
    decreases k,
{
    if k > 0 {
        lemma_first_build_id_skip(q.drop_first(), k - 1);
        assert(q.drop_first().subrange(k - 1, q.len() - 1) =~= q.subrange(k, q.len() as int));
    } else {
        assert(q.subrange(0, q.len() as int) =~= q);
    }
}

/// Resolves parsed address parts into a build request.
pub fn resolve_parts(parts: &UrlParts) -> (r: Result<BuildRequest, ResolveError>)
    ensures
        request_view(r) == resolve_spec(parts@),
{
    let host = match &parts.host {
        Some(h) => h,
        None => return Err(ResolveError::InvalidUrl),
    };
    let api_url = String::from_str(parts.scheme.as_str()).concat("://").concat(host.as_str());
    let ghost q = parts@.2;
    let mut k: usize = 0;
    while k < parts.query.len()
        invariant
            k <= parts.query@.len(),
            q == parts@.2,
            q.len() == parts.query@.len(),
            parts.host == Some(*host),
            api_url@ == parts.scheme@ + "://"@ + host@,
            forall|j: int| 0 <= j < k ==> (#[trigger] q[j]).0 != build_id_key(),
        decreases parts.query@.len() - k,
    {
        let key = parts.query[k].0.as_str();
        let n = key.unicode_len();
        assert(key@.subrange(0, n as int) =~= key@);
        assert(q[k as int] == (parts.query@[k as int].0@, parts.query@[k as int].1@));
        if range_equals(key, 0, n, "buildId") {
            proof {
                lemma_first_build_id_skip(q, k as int);
                assert(q.subrange(k as int, q.len() as int)[0] == q[k as int]);
                assert(first_build_id(q) == Some(q[k as int].1));
            }
            let id = match parse_u64(parts.query[k].1.as_str()) {
                Some(id) => id,
                None => return Err(ResolveError::InvalidParameter),
            };
            return Ok(BuildRequest { build_id: id, api_url });
        }
        k = k + 1;
    }
    proof {
        lemma_first_build_id_skip(q, k as int);
    }
    Err(ResolveError::MissingParameter)
}

impl BuildRequest {
    /// Resolves a build's page address into the server's base address and the build's id.
    pub fn from_ui_url(url: &str) -> (r: Result<BuildRequest, ResolveError>)
        ensures
            match parsed_url(url@) {
                None => r == Err::<BuildRequest, ResolveError>(ResolveError::InvalidUrl),
                Some(p) => request_view(r) == resolve_spec(p),
            },
    {
        match parse_url(url) {
            None => Err(ResolveError::InvalidUrl),
            Some(parts) => resolve_parts(&parts),
        }
    }
}

/// The address of the build resource: `{api_url}/app/rest/builds/id:{build_id}`.
pub fn build_url(api_url: &str, build_id: u64) -> (r: String)
    ensures
        r@ == api_url@ + "/app/rest/builds/id:"@ + decimal(build_id as nat),
{
    let id = decimal_text(build_id);
    String::from_str(api_url).concat("/app/rest/builds/id:").concat(id.as_str())
}

/// An address with scheme `s`, host `h` and a first `buildId` pair whose
/// value is the decimal text of `n` resolves to `s://h` and `n`.
pub proof fn lemma_resolve_well_formed(
    s: Seq<char>,
    h: Seq<char>,
    q: Seq<(Seq<char>, Seq<char>)>,
    n: u64,
)
    requires
        first_build_id(q) == Some(decimal(n as nat)),
    ensures
        resolve_spec((s, Some(h), q)) == Ok::<(Seq<char>, u64), ResolveError>((s + "://"@ + h, n)),
{
    lemma_decimal_round_trip(n);
}

/// An address with a host and no `buildId` pair names no build.
pub proof fn lemma_resolve_missing_parameter(
    s: Seq<char>,
    h: Seq<char>,
    q: Seq<(Seq<char>, Seq<char>)>,
)
    requires
        forall|j: int| 0 <= j < q.len() ==> (#[trigger] q[j]).0 != build_id_key(),
    ensures
        resolve_spec((s, Some(h), q)) == Err::<(Seq<char>, u64), ResolveError>(
            ResolveError::MissingParameter,
        ),
{
    lemma_first_build_id_skip(q, q.len() as int);
    assert(q.subrange(q.len() as int, q.len() as int).len() == 0);
}

/// An address whose first `buildId` value is not a `u64` in decimal is refused
/// with `InvalidParameter`.
pub proof fn lemma_resolve_invalid_parameter(
    s: Seq<char>,
    h: Seq<char>,
    q: Seq<(Seq<char>, Seq<char>)>,
    v: Seq<char>,
)
    requires
        first_build_id(q) == Some(v),
        u64_of_text(v) is None,
    ensures
        resolve_spec((s, Some(h), q)) == Err::<(Seq<char>, u64), ResolveError>(
            ResolveError::InvalidParameter,
        ),
{
}

} // verus!
