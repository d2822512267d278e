use vstd::prelude::*;

use crate::text::string_is;

verus! {

/// Failover configuration.
#[derive(Debug, Clone)]
pub struct Config {
    /// How many host:port resolutions the DNS cache keeps.
    pub lru_capacity: usize,
    /// How many ranked addresses a resolution keeps.
    pub top_ips: usize,
    /// Request timeout for GET and HEAD, in milliseconds.
    pub get_timeout_ms: u64,
    /// Request timeout for other methods, in milliseconds.
    pub other_timeout_ms: u64,
    /// TCP connect timeout, in milliseconds.
    pub connect_timeout_ms: u64,
    /// Header that carries the idempotency id of a failed-over request.
    pub idempotency_header: String,
    /// Width of the latency buckets used in ranking, in milliseconds.
    pub latency_bucket_ms: u64,
    /// How long a resolution stays fresh, in seconds.
    pub default_ttl_sec: u64,
    /// Whether to log failover decisions.
    pub verbose: bool,
    /// Whether 502/503/504 answers move a request to the next address.
    pub failover_gateway: bool,
    /// Whether ranking starts with a parallel TCP connect race.
    pub tcp_race: bool,
}

/// The defaults: 500 cached hosts, top 3 addresses, 15 s GET timeout, 60 s
/// timeout for other methods, 3 s connect timeout, header `X-Curl-FO-Id`,
/// 10 ms latency buckets, 300 s TTL, quiet, no gateway failover, TCP race on.
pub open spec fn is_default_config(c: Config) -> bool {
    &&& c.lru_capacity == 500
    &&& c.top_ips == 3
    &&& c.get_timeout_ms == 15_000
    &&& c.other_timeout_ms == 60_000
    &&& c.connect_timeout_ms == 3_000
    &&& c.idempotency_header@ == "X-Curl-FO-Id"@
    &&& c.latency_bucket_ms == 10
    &&& c.default_ttl_sec == 300
    &&& !c.verbose
    &&& !c.failover_gateway
    &&& c.tcp_race
}

impl Default for Config {
    fn default() -> (r: Self)
        ensures
            is_default_config(r),
    {
        Config {
            lru_capacity: 500,
            top_ips: 3,
            get_timeout_ms: 15_000,
            other_timeout_ms: 60_000,
            connect_timeout_ms: 3_000,
            idempotency_header: String::from_str("X-Curl-FO-Id"),
            latency_bucket_ms: 10,
            default_ttl_sec: 300,
            verbose: false,
            failover_gateway: false,
            tcp_race: true,
        }
    }
}

/// Whether `c` is an ASCII decimal digit.
pub open spec fn is_ascii_digit(c: char) -> bool {
    ('0' as int) <= (c as int) <= ('9' as int)
}

/// The number that a string of decimal digits spells.
pub open spec fn digits_value(s: Seq<char>) -> nat
    decreases s.len(),
{
    if s.len() == 0 {
        0
    } else {
        digits_value(s.drop_last()) * 10 + ((s.last() as int) - ('0' as int)) as nat
    }
}

/// The unsigned number that `s` spells: an optional `+` followed by one or
/// more ASCII digits, nothing else.
pub open spec fn unsigned_decimal(s: Seq<char>) -> Option<nat> {
    let digits = without_plus(s);
    if digits.len() > 0 && all_ascii_digits(digits) {
        Some(digits_value(digits))
    } else {
        None
    }
}

/// `s` without one leading `+`.
pub open spec fn without_plus(s: Seq<char>) -> Seq<char> {
    if s.len() > 0 && s[0] == '+' {
        s.drop_first()
    } else {
        s
    }
}

/// Whether every character of `s` is an ASCII digit.
pub open spec fn all_ascii_digits(s: Seq<char>) -> bool {
    forall|i: int| 0 <= i < s.len() ==> is_ascii_digit(#[trigger] s[i])
}

/// Calls `str::parse::<usize>`: a number exactly when the text is an
/// optional `+` followed by ASCII digits whose value fits in `usize`.
#[verifier::external_body]
fn parse_usize(s: &str) -> (r: Option<usize>)
    ensures
        r is Some <==> (unsigned_decimal(s@) matches Some(v) && v <= usize::MAX),
        r matches Some(n) ==> unsigned_decimal(s@) == Some(n as nat),
{
    s.parse::<usize>().ok()
}

/// Calls `str::parse::<u64>`: a number exactly when the text is an optional
/// `+` followed by ASCII digits whose value fits in `u64`.
#[verifier::external_body]
fn parse_u64(s: &str) -> (r: Option<u64>)
    ensures
        r is Some <==> (unsigned_decimal(s@) matches Some(v) && v <= u64::MAX),
        r matches Some(n) ==> unsigned_decimal(s@) == Some(n as nat),
{
    s.parse::<u64>().ok()
}

/// The value of the first variable called `name` among `vars`.
pub open spec fn env_lookup(vars: Seq<(String, String)>, name: Seq<char>) -> Option<Seq<char>>
    decreases vars.len(),
{
    if vars.len() == 0 {
        None
    } else if vars[0].0@ == name {
        Some(vars[0].1@)
    } else {
        env_lookup(vars.drop_first(), name)
    }
}

/// A setting read from `primary`, or from `alias` when `primary` is unset.
pub open spec fn env_setting(vars: Seq<(String, String)>, primary: Seq<char>, alias: Seq<char>) -> Option<
    Seq<char>,
> {
    match env_lookup(vars, primary) {
        Some(v) => Some(v),
        None => env_lookup(vars, alias),
    }
}

/// A numeric setting: the parsed value when the variable is set and parses
/// within `max`, else `current`.
pub open spec fn numeric_setting(value: Option<Seq<char>>, current: int, max: int) -> int {
    match value {
        Some(v) => match unsigned_decimal(v) {
            Some(n) => if n <= max {
                n as int
            } else {
                current
            },
            None => current,
        },
        None => current,
    }
}

/// Whether a flag value switches the flag on: `1`, `true`, `yes` or `on`.
pub open spec fn flag_on(v: Seq<char>) -> bool {
    v == "1"@ || v == "true"@ || v == "yes"@ || v == "on"@
}

/// Whether a flag value switches the flag off: `0`, `false`, `no` or `off`.
pub open spec fn flag_off(v: Seq<char>) -> bool {
    v == "0"@ || v == "false"@ || v == "no"@ || v == "off"@
}

/// `c` after applying the environment `vars` to `old` (each setting under
/// its `HTTP_FO_` name or else its `CURL_FO_` alias): numbers that parse
/// replace the old value, a non-empty header name replaces the header,
/// `VERBOSE` and `FAILOVER_GATEWAY` become whether their value switches on,
/// and `TCP_RACE` is switched off by a value that switches off.
pub open spec fn config_after_env(old: Config, c: Config, vars: Seq<(String, String)>) -> bool {
    &&& c.lru_capacity == numeric_setting(
        env_setting(vars, "HTTP_FO_LRU_SIZE"@, "CURL_FO_LRU_SIZE"@),
        old.lru_capacity as int,
        usize::MAX as int,
    )
    &&& c.top_ips == numeric_setting(
        env_setting(vars, "HTTP_FO_TOP_IPS"@, "CURL_FO_TOP_IPS"@),
        old.top_ips as int,
        usize::MAX as int,
    )
    &&& c.get_timeout_ms == numeric_setting(
        env_setting(vars, "HTTP_FO_GET_TIMEOUT_MS"@, "CURL_FO_GET_TIMEOUT_MS"@),
        old.get_timeout_ms as int,
        u64::MAX as int,
    )
    &&& c.other_timeout_ms == numeric_setting(
        env_setting(vars, "HTTP_FO_OTHER_TIMEOUT_MS"@, "CURL_FO_OTHER_TIMEOUT_MS"@),
        old.other_timeout_ms as int,
        u64::MAX as int,
    )
    &&& c.connect_timeout_ms == numeric_setting(
        env_setting(vars, "HTTP_FO_CONNECT_TIMEOUT_MS"@, "CURL_FO_CONNECT_TIMEOUT_MS"@),
        old.connect_timeout_ms as int,
        u64::MAX as int,
    )
    &&& c.idempotency_header@ == match env_setting(
        vars,
        "HTTP_FO_IDEMPOTENCY_HEADER"@,
        "CURL_FO_IDEMPOTENCY_HEADER"@,
    ) {
        Some(v) => if v.len() > 0 {
            v
        } else {
            old.idempotency_header@
        },
        None => old.idempotency_header@,
    }
    &&& c.latency_bucket_ms == numeric_setting(
        env_setting(vars, "HTTP_FO_LATENCY_BUCKET_MS"@, "CURL_FO_LATENCY_BUCKET_MS"@),
        old.latency_bucket_ms as int,
        u64::MAX as int,
    )
    &&& c.default_ttl_sec == numeric_setting(
        env_setting(vars, "HTTP_FO_DEFAULT_TTL_SEC"@, "CURL_FO_DEFAULT_TTL_SEC"@),
        old.default_ttl_sec as int,
        u64::MAX as int,
    )
    &&& c.verbose == match env_setting(vars, "HTTP_FO_VERBOSE"@, "CURL_FO_VERBOSE"@) {
        Some(v) => flag_on(v),
        None => old.verbose,
    }
    &&& c.failover_gateway == match env_setting(
        vars,
        "HTTP_FO_FAILOVER_GATEWAY"@,
        "CURL_FO_FAILOVER_GATEWAY"@,
    ) {
        Some(v) => flag_on(v),
        None => old.failover_gateway,
    }
    &&& c.tcp_race == match env_setting(vars, "HTTP_FO_TCP_RACE"@, "CURL_FO_TCP_RACE"@) {
        Some(v) => old.tcp_race && !flag_off(v),
        None => old.tcp_race,
    }
}

fn lookup_var(vars: &Vec<(String, String)>, name: &str) -> (r: Option<String>)
    ensures
        match env_lookup(vars@, name@) {
            Some(v) => r matches Some(s) && s@ == v,
            None => r is None,
        },
{
    let mut i: usize = 0;
    assert(vars@.skip(0) =~= vars@);
    while i < vars.len()
        invariant
            i <= vars.len(),
            env_lookup(vars@, name@) == env_lookup(vars@.skip(i as int), name@),
        decreases vars.len() - i,
    {
        assert(vars@.skip(i as int)[0] == vars@[i as int]);
        assert(vars@.skip(i as int).drop_first() =~= vars@.skip(i + 1));
        if string_is(&vars[i].0, name) {
            return Some(vars[i].1.clone());
        }
        i = i + 1;
    }
    assert(vars@.skip(i as int).len() == 0);
    None
}

fn setting(vars: &Vec<(String, String)>, primary: &str, alias: &str) -> (r: Option<String>)
    ensures
        match env_setting(vars@, primary@, alias@) {
            Some(v) => r matches Some(s) && s@ == v,
            None => r is None,
        },
{
    match lookup_var(vars, primary) {
        Some(v) => Some(v),
        None => lookup_var(vars, alias),
    }
}

fn usize_setting(value: Option<String>, current: usize) -> (r: usize)
    ensures
        r == numeric_setting(
            match value {
                Some(s) => Some(s@),
                None => None,
            },
            current as int,
            usize::MAX as int,
        ),
{
    match value {
        Some(s) => match parse_usize(s.as_str()) {
            Some(n) => n,
            None => current,
        },
        None => current,
    }
}

fn u64_setting(value: Option<String>, current: u64) -> (r: u64)
    ensures
        r == numeric_setting(
            match value {
                Some(s) => Some(s@),
                None => None,
            },
            current as int,
            u64::MAX as int,
        ),
{
    match value {
        Some(s) => match parse_u64(s.as_str()) {
            Some(n) => n,
            None => current,
        },
        None => current,
    }
}

fn is_flag_on(v: &String) -> (r: bool)
    ensures
        r == flag_on(v@),
{
    string_is(v, "1") || string_is(v, "true") || string_is(v, "yes") || string_is(v, "on")
}

fn is_flag_off(v: &String) -> (r: bool)
    ensures
        r == flag_off(v@),
{
    string_is(v, "0") || string_is(v, "false") || string_is(v, "no") || string_is(v, "off")
}

impl Config {
    /// Applies the environment variables `vars` (name and value pairs) to
    /// this configuration; see [`config_after_env`].
    pub fn apply_env(&mut self, vars: &Vec<(String, String)>)
        ensures
            config_after_env(*old(self), *final(self), vars@),
    {
        self.lru_capacity = usize_setting(setting(vars, "HTTP_FO_LRU_SIZE", "CURL_FO_LRU_SIZE"), self.lru_capacity);
        self.top_ips = usize_setting(setting(vars, "HTTP_FO_TOP_IPS", "CURL_FO_TOP_IPS"), self.top_ips);
        self.get_timeout_ms = u64_setting(
            setting(vars, "HTTP_FO_GET_TIMEOUT_MS", "CURL_FO_GET_TIMEOUT_MS"),
            self.get_timeout_ms,
        );
        self.other_timeout_ms = u64_setting(
            setting(vars, "HTTP_FO_OTHER_TIMEOUT_MS", "CURL_FO_OTHER_TIMEOUT_MS"),
            self.other_timeout_ms,
        );
        self.connect_timeout_ms = u64_setting(
            setting(vars, "HTTP_FO_CONNECT_TIMEOUT_MS", "CURL_FO_CONNECT_TIMEOUT_MS"),
            self.connect_timeout_ms,
        );
        if let Some(v) = setting(vars, "HTTP_FO_IDEMPOTENCY_HEADER", "CURL_FO_IDEMPOTENCY_HEADER") {
            if v.as_str().unicode_len() > 0 {
                self.idempotency_header = v;
            }
        }
        self.latency_bucket_ms = u64_setting(
            setting(vars, "HTTP_FO_LATENCY_BUCKET_MS", "CURL_FO_LATENCY_BUCKET_MS"),
            self.latency_bucket_ms,
        );
        self.default_ttl_sec = u64_setting(
            setting(vars, "HTTP_FO_DEFAULT_TTL_SEC", "CURL_FO_DEFAULT_TTL_SEC"),
            self.default_ttl_sec,
        );
        if let Some(v) = setting(vars, "HTTP_FO_VERBOSE", "CURL_FO_VERBOSE") {
            self.verbose = is_flag_on(&v);
        }
        if let Some(v) = setting(vars, "HTTP_FO_FAILOVER_GATEWAY", "CURL_FO_FAILOVER_GATEWAY") {
            self.failover_gateway = is_flag_on(&v);
        }
        if let Some(v) = setting(vars, "HTTP_FO_TCP_RACE", "CURL_FO_TCP_RACE") {
            if is_flag_off(&v) {
                self.tcp_race = false;
            }
        }
    }

    /// The defaults, with each of the given network settings that is not
    /// zero in place of its default.
    pub fn with_network(
        lru_capacity: usize,
        top_ips: usize,
        connect_timeout_ms: u64,
        get_timeout_ms: u64,
        other_timeout_ms: u64,
    ) -> (r: Self)
        ensures
            r.lru_capacity == if lru_capacity > 0 { lru_capacity } else { 500 },
            r.top_ips == if top_ips > 0 { top_ips } else { 3 },
            r.connect_timeout_ms == if connect_timeout_ms > 0 { connect_timeout_ms } else { 3_000 },
            r.get_timeout_ms == if get_timeout_ms > 0 { get_timeout_ms } else { 15_000 },
            r.other_timeout_ms == if other_timeout_ms > 0 { other_timeout_ms } else { 60_000 },
            r.idempotency_header@ == "X-Curl-FO-Id"@,
            r.latency_bucket_ms == 10,
            r.default_ttl_sec == 300,
            !r.verbose,
            !r.failover_gateway,
            r.tcp_race,
    {
        let mut cfg = Config::default();
        if lru_capacity > 0 {
            cfg.lru_capacity = lru_capacity;
        }
        if top_ips > 0 {
            cfg.top_ips = top_ips;
        }
        if connect_timeout_ms > 0 {
            cfg.connect_timeout_ms = connect_timeout_ms;
        }
        if get_timeout_ms > 0 {
            cfg.get_timeout_ms = get_timeout_ms;
        }
        if other_timeout_ms > 0 {
            cfg.other_timeout_ms = other_timeout_ms;
        }
        cfg
    }
}

proof fn lemma_single_setting(vars: Seq<(String, String)>, primary: Seq<char>, alias: Seq<char>)
    requires
        vars.len() == 1,
        primary != alias,
    ensures
        vars[0].0@ == primary ==> env_setting(vars, primary, alias) == Some(vars[0].1@),
        vars[0].0@ == alias ==> env_setting(vars, primary, alias) == Some(vars[0].1@),
{
    assert(vars.drop_first().len() == 0);
    assert(env_lookup(vars.drop_first(), primary) is None);
    assert(env_lookup(vars.drop_first(), alias) is None);
}

/// Environment: an environment that holds only one of the documented
/// variables (under its `HTTP_FO_` name or its `CURL_FO_` alias) sets the
/// matching setting: a number that parses and fits becomes the field's
/// value, a non-empty header name replaces the header, `VERBOSE` and
/// `FAILOVER_GATEWAY` become whether the value switches on, and a value that
/// switches off turns the TCP race off.
pub proof fn law_env_single_variable(old: Config, c: Config, vars: Seq<(String, String)>, n: nat)
    requires
        vars.len() == 1,
        config_after_env(old, c, vars),
    ensures
        (vars[0].0@ == "HTTP_FO_LRU_SIZE"@ || vars[0].0@ == "CURL_FO_LRU_SIZE"@) && unsigned_decimal(vars[0].1@)
            == Some(n) && n <= usize::MAX ==> c.lru_capacity == n,
        (vars[0].0@ == "HTTP_FO_TOP_IPS"@ || vars[0].0@ == "CURL_FO_TOP_IPS"@) && unsigned_decimal(vars[0].1@)
            == Some(n) && n <= usize::MAX ==> c.top_ips == n,
        (vars[0].0@ == "HTTP_FO_GET_TIMEOUT_MS"@ || vars[0].0@ == "CURL_FO_GET_TIMEOUT_MS"@) && unsigned_decimal(vars[0].1@)
            == Some(n) && n <= u64::MAX ==> c.get_timeout_ms == n,
        (vars[0].0@ == "HTTP_FO_OTHER_TIMEOUT_MS"@ || vars[0].0@ == "CURL_FO_OTHER_TIMEOUT_MS"@) && unsigned_decimal(vars[0].1@)
            == Some(n) && n <= u64::MAX ==> c.other_timeout_ms == n,
        (vars[0].0@ == "HTTP_FO_CONNECT_TIMEOUT_MS"@ || vars[0].0@ == "CURL_FO_CONNECT_TIMEOUT_MS"@) && unsigned_decimal(vars[0].1@)
            == Some(n) && n <= u64::MAX ==> c.connect_timeout_ms == n,
        (vars[0].0@ == "HTTP_FO_LATENCY_BUCKET_MS"@ || vars[0].0@ == "CURL_FO_LATENCY_BUCKET_MS"@) && unsigned_decimal(vars[0].1@)
            == Some(n) && n <= u64::MAX ==> c.latency_bucket_ms == n,
        (vars[0].0@ == "HTTP_FO_DEFAULT_TTL_SEC"@ || vars[0].0@ == "CURL_FO_DEFAULT_TTL_SEC"@) && unsigned_decimal(vars[0].1@)
            == Some(n) && n <= u64::MAX ==> c.default_ttl_sec == n,
        (vars[0].0@ == "HTTP_FO_IDEMPOTENCY_HEADER"@ || vars[0].0@ == "CURL_FO_IDEMPOTENCY_HEADER"@)
            && vars[0].1@.len() > 0 ==> c.idempotency_header@ == vars[0].1@,
        vars[0].0@ == "HTTP_FO_VERBOSE"@ || vars[0].0@ == "CURL_FO_VERBOSE"@ ==> c.verbose == flag_on(
            vars[0].1@,
        ),
        vars[0].0@ == "HTTP_FO_FAILOVER_GATEWAY"@ || vars[0].0@ == "CURL_FO_FAILOVER_GATEWAY"@
            ==> c.failover_gateway == flag_on(vars[0].1@),
        (vars[0].0@ == "HTTP_FO_TCP_RACE"@ || vars[0].0@ == "CURL_FO_TCP_RACE"@) && flag_off(vars[0].1@)
            ==> !c.tcp_race,
{
    reveal_strlit("HTTP_FO_LRU_SIZE");
    reveal_strlit("CURL_FO_LRU_SIZE");
    assert("HTTP_FO_LRU_SIZE"@[0] != "CURL_FO_LRU_SIZE"@[0]);
    lemma_single_setting(vars, "HTTP_FO_LRU_SIZE"@, "CURL_FO_LRU_SIZE"@);
    reveal_strlit("HTTP_FO_TOP_IPS");
    reveal_strlit("CURL_FO_TOP_IPS");
    assert("HTTP_FO_TOP_IPS"@[0] != "CURL_FO_TOP_IPS"@[0]);
    lemma_single_setting(vars, "HTTP_FO_TOP_IPS"@, "CURL_FO_TOP_IPS"@);
    reveal_strlit("HTTP_FO_GET_TIMEOUT_MS");
    reveal_strlit("CURL_FO_GET_TIMEOUT_MS");
    assert("HTTP_FO_GET_TIMEOUT_MS"@[0] != "CURL_FO_GET_TIMEOUT_MS"@[0]);
    lemma_single_setting(vars, "HTTP_FO_GET_TIMEOUT_MS"@, "CURL_FO_GET_TIMEOUT_MS"@);
    reveal_strlit("HTTP_FO_OTHER_TIMEOUT_MS");
    reveal_strlit("CURL_FO_OTHER_TIMEOUT_MS");
    assert("HTTP_FO_OTHER_TIMEOUT_MS"@[0] != "CURL_FO_OTHER_TIMEOUT_MS"@[0]);
    lemma_single_setting(vars, "HTTP_FO_OTHER_TIMEOUT_MS"@, "CURL_FO_OTHER_TIMEOUT_MS"@);
    reveal_strlit("HTTP_FO_CONNECT_TIMEOUT_MS");
    reveal_strlit("CURL_FO_CONNECT_TIMEOUT_MS");
    assert("HTTP_FO_CONNECT_TIMEOUT_MS"@[0] != "CURL_FO_CONNECT_TIMEOUT_MS"@[0]);
    lemma_single_setting(vars, "HTTP_FO_CONNECT_TIMEOUT_MS"@, "CURL_FO_CONNECT_TIMEOUT_MS"@);
    reveal_strlit("HTTP_FO_LATENCY_BUCKET_MS");
    reveal_strlit("CURL_FO_LATENCY_BUCKET_MS");
    assert("HTTP_FO_LATENCY_BUCKET_MS"@[0] != "CURL_FO_LATENCY_BUCKET_MS"@[0]);
    lemma_single_setting(vars, "HTTP_FO_LATENCY_BUCKET_MS"@, "CURL_FO_LATENCY_BUCKET_MS"@);
    reveal_strlit("HTTP_FO_DEFAULT_TTL_SEC");
    reveal_strlit("CURL_FO_DEFAULT_TTL_SEC");
    assert("HTTP_FO_DEFAULT_TTL_SEC"@[0] != "CURL_FO_DEFAULT_TTL_SEC"@[0]);
    lemma_single_setting(vars, "HTTP_FO_DEFAULT_TTL_SEC"@, "CURL_FO_DEFAULT_TTL_SEC"@);
    reveal_strlit("HTTP_FO_IDEMPOTENCY_HEADER");
    reveal_strlit("CURL_FO_IDEMPOTENCY_HEADER");
    assert("HTTP_FO_IDEMPOTENCY_HEADER"@[0] != "CURL_FO_IDEMPOTENCY_HEADER"@[0]);
    lemma_single_setting(vars, "HTTP_FO_IDEMPOTENCY_HEADER"@, "CURL_FO_IDEMPOTENCY_HEADER"@);
    reveal_strlit("HTTP_FO_VERBOSE");
    reveal_strlit("CURL_FO_VERBOSE");
    assert("HTTP_FO_VERBOSE"@[0] != "CURL_FO_VERBOSE"@[0]);
    lemma_single_setting(vars, "HTTP_FO_VERBOSE"@, "CURL_FO_VERBOSE"@);
    reveal_strlit("HTTP_FO_FAILOVER_GATEWAY");
    reveal_strlit("CURL_FO_FAILOVER_GATEWAY");
    assert("HTTP_FO_FAILOVER_GATEWAY"@[0] != "CURL_FO_FAILOVER_GATEWAY"@[0]);
    lemma_single_setting(vars, "HTTP_FO_FAILOVER_GATEWAY"@, "CURL_FO_FAILOVER_GATEWAY"@);
    reveal_strlit("HTTP_FO_TCP_RACE");
    reveal_strlit("CURL_FO_TCP_RACE");
    assert("HTTP_FO_TCP_RACE"@[0] != "CURL_FO_TCP_RACE"@[0]);
    lemma_single_setting(vars, "HTTP_FO_TCP_RACE"@, "CURL_FO_TCP_RACE"@);
}

} // verus!
