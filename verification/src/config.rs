//! Process configuration as an explicit value. The variables are
//! read from the process environment outside this crate and handed
//! in as plain optional strings; validation — which ones are
//! missing, which ones fail to be integers — happens here, exactly
//! and in a fixed order, so startup failures name every offender at
//! once.
use vstd::prelude::*;
use vstd::string::StrSliceExecFns;
use vstd::string::StringExecFns;

use crate::daystring::digit_val;
use crate::daystring::is_digit;

verus! {

/// Decimal value of a digit string, most significant digit first.
pub open spec fn digits_val(ds: Seq<char>) -> int
    decreases ds.len(),
{
    if ds.len() == 0 {
        0
    } else {
        digits_val(ds.drop_last()) * 10 + digit_val(ds.last())
    }
}

pub open spec fn all_digits(ds: Seq<char>) -> bool {
    forall|i: int| 0 <= i < ds.len() ==> is_digit(#[trigger] ds[i])
}

/// What parsing an unsigned 64-bit decimal accepts: an optional
/// leading `+`, then at least one digit, value at most `u64::MAX`.
pub open spec fn parse_u64_chars(s: Seq<char>) -> Option<u64> {
    let ds = if s.len() > 0 && s[0] == '+' {
        s.subrange(1, s.len() as int)
    } else {
        s
    };
    if ds.len() == 0 || !all_digits(ds) {
        None
    } else if digits_val(ds) > u64::MAX {
        None
    } else {
        Some(digits_val(ds) as u64)
    }
}

/// A digit string's value is never negative.
proof fn lemma_digits_val_nonneg(ds: Seq<char>)
    requires
        all_digits(ds),
    ensures
        digits_val(ds) >= 0,
    decreases ds.len(),
{
    if ds.len() > 0 {
        assert(forall|i: int| 0 <= i < ds.len() - 1 ==> #[trigger] ds.drop_last()[i] == ds[i]);
        lemma_digits_val_nonneg(ds.drop_last());
    }
}

/// A digit string is worth at least any of its prefixes.
proof fn lemma_digits_val_prefix(ds: Seq<char>, i: int)
    requires
        all_digits(ds),
        0 <= i <= ds.len(),
    ensures
        digits_val(ds.take(i)) <= digits_val(ds),
    decreases ds.len() - i,
{
    assert(forall|j: int, k: int|
        0 <= k <= ds.len() && 0 <= j < k ==> #[trigger] ds.take(k)[j] == ds[j]);
    if i < ds.len() {
        lemma_digits_val_prefix(ds, i + 1);
        assert(ds.take(i + 1).drop_last() =~= ds.take(i));
        assert(all_digits(ds.take(i)));
        lemma_digits_val_nonneg(ds.take(i));
        assert(digits_val(ds.take(i + 1)) == digits_val(ds.take(i)) * 10 + digit_val(ds[i]));
    } else {
        assert(ds.take(i) =~= ds);
    }
}

/// Parse an unsigned 64-bit decimal: an optional leading `+`, then
/// at least one digit. `None` exactly for any other shape, and for
/// values past `u64::MAX`.
pub fn parse_u64(s: &str) -> (r: Option<u64>)
    ensures
        r == parse_u64_chars(s@),
{
    let len = s.unicode_len();
    let start: usize = if len > 0 && s.get_char(0) == '+' {
        1
    } else {
        0
    };
    let ghost ds = if s@.len() > 0 && s@[0] == '+' {
        s@.subrange(1, s@.len() as int)
    } else {
        s@
    };
    proof {
        assert(ds =~= s@.subrange(start as int, len as int));
        assert(forall|j: int| 0 <= j < ds.len() ==> #[trigger] ds[j] == s@[j + start]);
    }
    if start == len {
        return None;
    }
    let mut acc: u64 = 0;
    let mut i: usize = start;
    while i < len
        invariant
            len == s@.len(),
            start <= i <= len,
            start <= 1,
            ds == s@.subrange(start as int, len as int),
            ds == (if s@.len() > 0 && s@[0] == '+' {
                s@.subrange(1, s@.len() as int)
            } else {
                s@
            }),
            forall|j: int| 0 <= j < ds.len() ==> #[trigger] ds[j] == s@[j + start],
            all_digits(ds.take(i - start)),
            acc == digits_val(ds.take(i - start)),
        decreases len - i,
    {
        let c = s.get_char(i);
        let d: u64 = if c == '0' {
            0
        } else if c == '1' {
            1
        } else if c == '2' {
            2
        } else if c == '3' {
            3
        } else if c == '4' {
            4
        } else if c == '5' {
            5
        } else if c == '6' {
            6
        } else if c == '7' {
            7
        } else if c == '8' {
            8
        } else if c == '9' {
            9
        } else {
            proof {
                assert(ds[i - start] == c);
                assert(!is_digit(ds[i - start]));
                assert(!all_digits(ds));
                assert(parse_u64_chars(s@) is None);
            }
            return None;
        };
        proof {
            assert(ds[i - start] == c);
            assert(d == digit_val(c));
            assert(ds.take(i - start + 1).drop_last() =~= ds.take(i - start));
            assert(ds.take(i - start + 1).last() == c);
        }
        if acc > (u64::MAX - d) / 10 {
            proof {
                vstd::arithmetic::div_mod::lemma_fundamental_div_mod(u64::MAX - d, 10);
                assert(digits_val(ds.take(i - start + 1)) == acc * 10 + d);
                assert(acc * 10 + d > u64::MAX);
                if all_digits(ds) {
                    lemma_digits_val_prefix(ds, i - start + 1);
                    assert(digits_val(ds) > u64::MAX);
                }
                assert(parse_u64_chars(s@) is None);
            }
            return None;
        }
        proof {
            vstd::arithmetic::div_mod::lemma_fundamental_div_mod(u64::MAX - d, 10);
        }
        acc = acc * 10 + d;
        i = i + 1;
    }
    proof {
        assert(ds.take(len - start) =~= ds);
    }
    Some(acc)
}

/// The process configuration, one explicit value built once at
/// startup and passed to whatever needs it.
#[derive(Clone, Debug)]
pub struct Environment {
    pub discord_token: String,
    pub ggi_guild_id: u64,
    pub data_server_address: String,
    pub data_server_auth: String,
    pub role_authenticated: u64,
    pub role_administrator: u64,
    pub discord_weekly_update_channel_id: u64,
    pub weekly_summary_cron: String,
}

impl Environment {
    pub fn guild_id(&self) -> (r: u64)
        ensures
            r == self.ggi_guild_id,
    {
        self.ggi_guild_id
    }

    pub fn discord_token(&self) -> (r: String)
        ensures
            r == self.discord_token,
    {
        self.discord_token.clone()
    }

    pub fn role_admin(&self) -> (r: u64)
        ensures
            r == self.role_administrator,
    {
        self.role_administrator
    }

    pub fn role_auth(&self) -> (r: u64)
        ensures
            r == self.role_authenticated,
    {
        self.role_authenticated
    }

    pub fn discord_weekly_update_channel_id(&self) -> (r: u64)
        ensures
            r == self.discord_weekly_update_channel_id,
    {
        self.discord_weekly_update_channel_id
    }

    pub fn server_auth(&self) -> (r: String)
        ensures
            r == self.data_server_auth,
    {
        self.data_server_auth.clone()
    }

    pub fn server_address(&self) -> (r: String)
        ensures
            r == self.data_server_address,
    {
        self.data_server_address.clone()
    }

    pub fn weekly_summary_cron(&self) -> (r: String)
        ensures
            r == self.weekly_summary_cron,
    {
        self.weekly_summary_cron.clone()
    }
}

/// Why startup is refused: variables that are not set at all, or
/// variables whose values are not unsigned integers. Each carries
/// the offending variable names, in their fixed checking order.
#[derive(Debug)]
pub enum ConfigError {
    MissingVariables(Vec<String>),
    NonIntegerVariables(Vec<String>),
}

pub open spec fn names_view(v: Seq<String>) -> Seq<Seq<char>> {
    v.map_values(|s: String| s@)
}

/// Is any required variable absent?
pub open spec fn any_missing(
    discord_token: Option<String>,
    ggi_guild_id: Option<String>,
    data_server_address: Option<String>,
    data_server_auth: Option<String>,
    role_authenticated: Option<String>,
    role_administrator: Option<String>,
    discord_weekly_update_channel_id: Option<String>,
) -> bool {
    ||| discord_token is None
    ||| ggi_guild_id is None
    ||| data_server_address is None
    ||| data_server_auth is None
    ||| role_authenticated is None
    ||| role_administrator is None
    ||| discord_weekly_update_channel_id is None
}

/// The names of the absent variables, in checking order.
pub open spec fn missing_names(
    discord_token: Option<String>,
    ggi_guild_id: Option<String>,
    data_server_address: Option<String>,
    data_server_auth: Option<String>,
    role_authenticated: Option<String>,
    role_administrator: Option<String>,
    discord_weekly_update_channel_id: Option<String>,
) -> Seq<Seq<char>> {
    (if discord_token is None {
        seq!["DISCORD_TOKEN"@]
    } else {
        Seq::empty()
    }) + (if ggi_guild_id is None {
        seq!["GGI_GUILD_ID"@]
    } else {
        Seq::empty()
    }) + (if data_server_address is None {
        seq!["DATA_SERVER_ADDRESS"@]
    } else {
        Seq::empty()
    }) + (if data_server_auth is None {
        seq!["DATA_SERVER_AUTH"@]
    } else {
        Seq::empty()
    }) + (if role_authenticated is None {
        seq!["ROLE_AUTHENTICATED"@]
    } else {
        Seq::empty()
    }) + (if role_administrator is None {
        seq!["ROLE_ADMINISTRATOR"@]
    } else {
        Seq::empty()
    }) + (if discord_weekly_update_channel_id is None {
        seq!["DISCORD_WEEKLY_UPDATE_CHANNEL_ID"@]
    } else {
        Seq::empty()
    })
}

/// Does any of the integer variables fail to parse? (All must be
/// present by now.)
pub open spec fn any_non_integer(
    ggi_guild_id: String,
    role_authenticated: String,
    role_administrator: String,
    discord_weekly_update_channel_id: String,
) -> bool {
    ||| parse_u64_chars(ggi_guild_id@) is None
    ||| parse_u64_chars(role_authenticated@) is None
    ||| parse_u64_chars(role_administrator@) is None
    ||| parse_u64_chars(discord_weekly_update_channel_id@) is None
}

/// The names of the non-integer variables, in checking order.
pub open spec fn non_integer_names(
    ggi_guild_id: String,
    role_authenticated: String,
    role_administrator: String,
    discord_weekly_update_channel_id: String,
) -> Seq<Seq<char>> {
    (if parse_u64_chars(ggi_guild_id@) is None {
        seq!["GGI_GUILD_ID"@]
    } else {
        Seq::empty()
    }) + (if parse_u64_chars(role_authenticated@) is None {
        seq!["ROLE_AUTHENTICATED"@]
    } else {
        Seq::empty()
    }) + (if parse_u64_chars(role_administrator@) is None {
        seq!["ROLE_ADMINISTRATOR"@]
    } else {
        Seq::empty()
    }) + (if parse_u64_chars(discord_weekly_update_channel_id@) is None {
        seq!["DISCORD_WEEKLY_UPDATE_CHANNEL_ID"@]
    } else {
        Seq::empty()
    })
}

/// Validate the raw variable values and build the configuration.
/// First every absent required variable is reported, all at once;
/// then every present-but-non-integer one, all at once; only then
/// does the configuration come out, with the digest schedule
/// defaulting to Thursday 08:00 UTC when no override is given.
#[verifier::rlimit(100)]
pub fn startup_check(
    discord_token: Option<String>,
    ggi_guild_id: Option<String>,
    data_server_address: Option<String>,
    data_server_auth: Option<String>,
    role_authenticated: Option<String>,
    role_administrator: Option<String>,
    discord_weekly_update_channel_id: Option<String>,
    weekly_summary_cron_override: Option<String>,
) -> (r: Result<Environment, ConfigError>)
    ensures
        any_missing(
            discord_token,
            ggi_guild_id,
            data_server_address,
            data_server_auth,
            role_authenticated,
            role_administrator,
            discord_weekly_update_channel_id,
        ) <==> (r matches Err(ConfigError::MissingVariables(v)) && names_view(v@) == missing_names(
            discord_token,
            ggi_guild_id,
            data_server_address,
            data_server_auth,
            role_authenticated,
            role_administrator,
            discord_weekly_update_channel_id,
        )),
        !any_missing(
            discord_token,
            ggi_guild_id,
            data_server_address,
            data_server_auth,
            role_authenticated,
            role_administrator,
            discord_weekly_update_channel_id,
        ) ==> ({
            let gid = ggi_guild_id->Some_0;
            let ra = role_authenticated->Some_0;
            let radm = role_administrator->Some_0;
            let ch = discord_weekly_update_channel_id->Some_0;
            &&& any_non_integer(gid, ra, radm, ch) <==> (r matches Err(
                ConfigError::NonIntegerVariables(v),
            ) && names_view(v@) == non_integer_names(gid, ra, radm, ch))
            &&& !any_non_integer(gid, ra, radm, ch) ==> (r matches Ok(env) && env.discord_token
                == discord_token->Some_0 && env.ggi_guild_id == parse_u64_chars(gid@)->Some_0
                && env.data_server_address == data_server_address->Some_0
                && env.data_server_auth == data_server_auth->Some_0 && env.role_authenticated
                == parse_u64_chars(ra@)->Some_0 && env.role_administrator == parse_u64_chars(
                radm@,
            )->Some_0 && env.discord_weekly_update_channel_id == parse_u64_chars(ch@)->Some_0
                && env.weekly_summary_cron@ == (match weekly_summary_cron_override {
                Some(c) => c@,
                None => "0 0 8 * * Thu"@,
            }))
        }),
{
    let mut missing: Vec<String> = Vec::new();
    if discord_token.is_none() {
        missing.push("DISCORD_TOKEN".to_owned());
    }
    if ggi_guild_id.is_none() {
        missing.push("GGI_GUILD_ID".to_owned());
    }
    if data_server_address.is_none() {
        missing.push("DATA_SERVER_ADDRESS".to_owned());
    }
    if data_server_auth.is_none() {
        missing.push("DATA_SERVER_AUTH".to_owned());
    }
    if role_authenticated.is_none() {
        missing.push("ROLE_AUTHENTICATED".to_owned());
    }
    if role_administrator.is_none() {
        missing.push("ROLE_ADMINISTRATOR".to_owned());
    }
    if discord_weekly_update_channel_id.is_none() {
        missing.push("DISCORD_WEEKLY_UPDATE_CHANNEL_ID".to_owned());
    }
    if missing.len() > 0 {
        proof {
            assert(names_view(missing@) =~= missing_names(
                discord_token,
                ggi_guild_id,
                data_server_address,
                data_server_auth,
                role_authenticated,
                role_administrator,
                discord_weekly_update_channel_id,
            ));
        }
        return Err(ConfigError::MissingVariables(missing));
    }
    let discord_token = discord_token.unwrap();
    let ggi_guild_id = ggi_guild_id.unwrap();
    let data_server_address = data_server_address.unwrap();
    let data_server_auth = data_server_auth.unwrap();
    let role_authenticated = role_authenticated.unwrap();
    let role_administrator = role_administrator.unwrap();
    let discord_weekly_update_channel_id = discord_weekly_update_channel_id.unwrap();

    let gid_val = parse_u64(ggi_guild_id.as_str());
    let ra_val = parse_u64(role_authenticated.as_str());
    let radm_val = parse_u64(role_administrator.as_str());
    let ch_val = parse_u64(discord_weekly_update_channel_id.as_str());

    let mut non_integer: Vec<String> = Vec::new();
    if gid_val.is_none() {
        non_integer.push("GGI_GUILD_ID".to_owned());
    }
    if ra_val.is_none() {
        non_integer.push("ROLE_AUTHENTICATED".to_owned());
    }
    if radm_val.is_none() {
        non_integer.push("ROLE_ADMINISTRATOR".to_owned());
    }
    if ch_val.is_none() {
        non_integer.push("DISCORD_WEEKLY_UPDATE_CHANNEL_ID".to_owned());
    }
    if non_integer.len() > 0 {
        proof {
            assert(names_view(non_integer@) =~= non_integer_names(
                ggi_guild_id,
                role_authenticated,
                role_administrator,
                discord_weekly_update_channel_id,
            ));
        }
        return Err(ConfigError::NonIntegerVariables(non_integer));
    }
    let weekly_summary_cron = match weekly_summary_cron_override {
        Some(c) => c,
        None => "0 0 8 * * Thu".to_owned(),
    };
    Ok(
        Environment {
            discord_token,
            ggi_guild_id: gid_val.unwrap(),
            data_server_address,
            data_server_auth,
            role_authenticated: ra_val.unwrap(),
            role_administrator: radm_val.unwrap(),
            discord_weekly_update_channel_id: ch_val.unwrap(),
            weekly_summary_cron,
        },
    )
}

} // verus!
