//! Resolution of an application key into an ingestion endpoint.
//!
//! An application key has three dash-delimited segments; the middle one names
//! the region that hosts the ingestion endpoint. A malformed key, an unknown
//! region, or a self-hosted key without a host override all disable tracking:
//! the configuration falls back to its default, whose empty key the client
//! reads as "tracking off".

use vstd::prelude::*;
use vstd::string::StrSliceExecFns;
use vstd::string::StringExecFns;

verus! {

/// Flush interval used when the options name none, in seconds.
pub const DEFAULT_FLUSH_INTERVAL_SECS: u64 = 60;

/// Options the embedding application may set before the client is built.
#[derive(Debug, Clone)]
pub struct InitOptions {
    /// Ingestion host override, required for self-hosted keys.
    pub host: Option<String>,
    /// Seconds between two background flushes.
    pub flush_interval: Option<u64>,
}

impl Default for InitOptions {
    fn default() -> (o: Self)
        ensures
            o.host is None,
            o.flush_interval is None,
    {
        InitOptions { host: None, flush_interval: None }
    }
}

/// Resolved configuration: the key sent with every request, the endpoint the
/// batches go to, and the cadence of the background flush.
#[derive(Debug, Clone)]
pub struct Config {
    pub app_key: String,
    pub ingest_api_url: String,
    pub flush_interval: u64,
}

/// Index of the first dash, or the length when there is none.
pub open spec fn first_dash(s: Seq<char>) -> int
    decreases s.len(),
{
    if s.len() == 0 {
        0
    } else if s[0] == '-' {
        0
    } else {
        1 + first_dash(s.drop_first())
    }
}

proof fn lemma_first_dash_bounds(s: Seq<char>)
    ensures
        0 <= first_dash(s) <= s.len(),
        first_dash(s) < s.len() ==> s[first_dash(s)] == '-',
        forall|k: int| 0 <= k < first_dash(s) ==> s[k] != '-',
    decreases s.len(),
{
    if s.len() > 0 && s[0] != '-' {
        lemma_first_dash_bounds(s.drop_first());
        assert forall|k: int| 0 <= k < first_dash(s) implies s[k] != '-' by {
            if k > 0 {
                assert(s.drop_first()[k - 1] != '-');
            }
        }
    }
}

/// `first_dash` is exactly the least dash position.
proof fn lemma_first_dash_at(s: Seq<char>, i: int)
    requires
        0 <= i <= s.len(),
        forall|k: int| 0 <= k < i ==> s[k] != '-',
        i < s.len() ==> s[i] == '-',
    ensures
        first_dash(s) == i,
    decreases i,
{
    if s.len() == 0 {
    } else if i == 0 {
    } else {
        assert forall|k: int| 0 <= k < i - 1 implies s.drop_first()[k] != '-' by {
            assert(s.drop_first()[k] == s[k + 1]);
        }
        lemma_first_dash_at(s.drop_first(), i - 1);
    }
}

/// The key splits into exactly three dash-delimited segments: it holds a
/// first dash, a second one, and none after that.
pub open spec fn key_has_three_parts(key: Seq<char>) -> bool {
    let i = first_dash(key);
    i < key.len() && {
        let rest = key.skip(i + 1);
        let j = first_dash(rest);
        j < rest.len() && first_dash(rest.skip(j + 1)) == rest.len() - j - 1
    }
}

/// The middle segment of a three-part key: the characters between the first
/// and the second dash.
pub open spec fn key_region(key: Seq<char>) -> Seq<char> {
    let i = first_dash(key);
    let rest = key.skip(i + 1);
    key.subrange(i + 1, i + 1 + first_dash(rest))
}

/// The endpoint base a region names; `None` disables tracking. A self-hosted
/// region requires the host override.
pub open spec fn region_base_url(region: Seq<char>, host: Option<Seq<char>>) -> Option<Seq<char>> {
    if region == "US"@ {
        Some("https://us.aptabase.com"@)
    } else if region == "EU"@ {
        Some("https://eu.aptabase.com"@)
    } else if region == "DEV"@ {
        Some("http://localhost:3000"@)
    } else if region == "SH"@ {
        host
    } else {
        None
    }
}

/// The ingestion URL a key and options resolve to, or `None` when tracking
/// must be disabled.
pub open spec fn spec_ingest_url(key: Seq<char>, host: Option<Seq<char>>) -> Option<Seq<char>> {
    if key_has_three_parts(key) {
        match region_base_url(key_region(key), host) {
            Some(base) => Some(base + "/api/v0/events"@),
            None => None,
        }
    } else {
        None
    }
}

/// The view of an optional host string.
pub open spec fn host_view(host: Option<String>) -> Option<Seq<char>> {
    match host {
        Some(h) => Some(h@),
        None => None,
    }
}

/// What a configuration built from `key` and `opts` must hold.
pub open spec fn config_resolves(c: Config, key: Seq<char>, opts: InitOptions) -> bool {
    match spec_ingest_url(key, host_view(opts.host)) {
        Some(url) => c.app_key@ == key && c.ingest_api_url@ == url && c.flush_interval == (
        match opts.flush_interval {
            Some(f) => f,
            None => DEFAULT_FLUSH_INTERVAL_SECS,
        }),
        None => c.app_key@ == Seq::<char>::empty() && c.ingest_api_url@ == "http://localhost:3000"@
            && c.flush_interval == DEFAULT_FLUSH_INTERVAL_SECS,
    }
}

impl Config {
    /// Resolves an application key and options. A key without exactly three
    /// dash-delimited segments, an unknown region, or a self-hosted key
    /// without a host override yields the disabled default configuration.
    pub fn new(app_key: String, opts: InitOptions) -> (c: Config)
        ensures
            config_resolves(c, app_key@, opts),
    {
        let key = app_key.as_str();
        let n = key.unicode_len();
        let mut i: usize = 0;
        let mut count: usize = 0;
        let mut d1: usize = n;
        let mut d2: usize = n;
        while i < n
            invariant
                n == key@.len(),
                i <= n,
                count <= i,
                count == 0 ==> (forall|k: int| 0 <= k < i ==> key@[k] != '-') && d1 == n && d2
                    == n,
                count >= 1 ==> d1 < i && key@[d1 as int] == '-' && (forall|k: int|
                    0 <= k < d1 ==> key@[k] != '-'),
                count == 1 ==> (forall|k: int| d1 < k < i ==> key@[k] != '-') && d2 == n,
                count >= 2 ==> d1 < d2 < i && key@[d2 as int] == '-' && (forall|k: int|
                    d1 < k < d2 ==> key@[k] != '-'),
                count == 2 ==> (forall|k: int| d2 < k < i ==> key@[k] != '-'),
                count >= 3 ==> exists|k: int| d2 < k < i && key@[k] == '-',
            decreases n - i,
        {
            let c = key.get_char(i);
            if c == '-' {
                if count == 0 {
                    d1 = i;
                } else if count == 1 {
                    d2 = i;
                }
                count = count + 1;
            }
            i = i + 1;
        }
        proof {
            lemma_three_parts_from_scan(key@, count as int, d1 as int, d2 as int);
        }
        if count != 2 {
            return Config::default();
        }
        let region = key.substring_char(d1 + 1, d2);
        proof {
            lemma_region_from_scan(key@, d1 as int, d2 as int);
        }
        let base: String;
        if crate::str_eq(region, "US") {
            base = "https://us.aptabase.com".to_owned();
        } else if crate::str_eq(region, "EU") {
            base = "https://eu.aptabase.com".to_owned();
        } else if crate::str_eq(region, "DEV") {
            base = "http://localhost:3000".to_owned();
        } else if crate::str_eq(region, "SH") {
            match opts.host {
                Some(host) => {
                    base = host;
                },
                None => {
                    return Config::default();
                },
            }
        } else {
            return Config::default();
        }
        let flush_interval = match opts.flush_interval {
            Some(f) => f,
            None => DEFAULT_FLUSH_INTERVAL_SECS,
        };
        Config { app_key, ingest_api_url: base.concat("/api/v0/events"), flush_interval }
    }
}

/// After one scan of the key: it has three parts exactly when two dashes were
/// counted, and they stand at the recorded positions.
proof fn lemma_three_parts_from_scan(key: Seq<char>, count: int, d1: int, d2: int)
    requires
        count >= 0,
        count == 0 ==> (forall|k: int| 0 <= k < key.len() ==> key[k] != '-'),
        count >= 1 ==> 0 <= d1 < key.len() && key[d1] == '-' && (forall|k: int|
            0 <= k < d1 ==> key[k] != '-'),
        count == 1 ==> (forall|k: int| d1 < k < key.len() ==> key[k] != '-'),
        count >= 2 ==> d1 < d2 < key.len() && key[d2] == '-' && (forall|k: int|
            d1 < k < d2 ==> key[k] != '-'),
        count == 2 ==> (forall|k: int| d2 < k < key.len() ==> key[k] != '-'),
        count >= 3 ==> exists|k: int| d2 < k < key.len() && key[k] == '-',
    ensures
        key_has_three_parts(key) <==> count == 2,
        count == 2 ==> first_dash(key) == d1 && first_dash(key.skip(d1 + 1)) == d2 - d1 - 1,
{
    if count == 0 {
        lemma_first_dash_at(key, key.len() as int);
    } else {
        lemma_first_dash_at(key, d1);
        let rest = key.skip(d1 + 1);
        if count == 1 {
            assert forall|k: int| 0 <= k < rest.len() implies rest[k] != '-' by {
                assert(rest[k] == key[d1 + 1 + k]);
            }
            lemma_first_dash_at(rest, rest.len() as int);
        } else {
            assert forall|k: int| 0 <= k < d2 - d1 - 1 implies rest[k] != '-' by {
                assert(rest[k] == key[d1 + 1 + k]);
            }
            assert(rest[d2 - d1 - 1] == key[d2]);
            lemma_first_dash_at(rest, d2 - d1 - 1);
            let tail = rest.skip(d2 - d1);
            assert(forall|k: int| 0 <= k < tail.len() ==> tail[k] == key[d2 + 1 + k]);
            if count == 2 {
                lemma_first_dash_at(tail, tail.len() as int);
            } else {
                let w = choose|k: int| d2 < k < key.len() && key[k] == '-';
                assert(tail[w - d2 - 1] == '-');
                lemma_first_dash_bounds(tail);
                if first_dash(tail) == tail.len() {
                    assert(tail[w - d2 - 1] != '-');
                }
            }
        }
    }
}

/// The middle segment of a two-dash key is what stands between the dashes.
proof fn lemma_region_from_scan(key: Seq<char>, d1: int, d2: int)
    requires
        first_dash(key) == d1,
        0 <= d1 < d2 < key.len(),
        first_dash(key.skip(d1 + 1)) == d2 - d1 - 1,
    ensures
        key_region(key) == key.subrange(d1 + 1, d2),
{
}

impl Default for Config {
    /// The disabled configuration: an empty key, which the client reads as
    /// "tracking off".
    fn default() -> (c: Config)
        ensures
            c.app_key@ == Seq::<char>::empty(),
            c.ingest_api_url@ == "http://localhost:3000"@,
            c.flush_interval == DEFAULT_FLUSH_INTERVAL_SECS,
    {
        Config {
            app_key: String::new(),
            ingest_api_url: "http://localhost:3000".to_owned(),
            flush_interval: DEFAULT_FLUSH_INTERVAL_SECS,
        }
    }
}

} // verus!
