//! What a service is called and where it listens.

use vstd::arithmetic::div_mod::lemma_div_denominator;
use vstd::prelude::*;
use vstd::string::StringExecFns;

verus! {

/// The configuration of a service, as the `config` crate holds it. The
/// library carries it and does not look inside.
#[verifier::external_type_specification]
#[verifier::external_body]
pub struct ExConfig(config::Config);

/// The address on which a service listens unless it is configured.
pub const DEFAULT_ADDRESS: &'static str = "0.0.0.0";

/// The port on which a service listens unless it is configured.
pub const DEFAULT_PORT: u16 = 8080;

/// What a service says of itself: its name and version, and where known
/// the revision and the build it comes from.
#[derive(Clone, Debug)]
pub struct Application {
    pub name: String,
    pub version: String,
    pub revision: Option<String>,
    pub commit_date: Option<String>,
    pub build_timestamp: Option<String>,
    pub build_target: Option<String>,
}

/// A service with its configuration.
pub struct DefaultFallServer {
    app: Application,
    config: config::Config,
}

impl DefaultFallServer {
    /// What the service says of itself.
    pub closed spec fn spec_app(&self) -> Application {
        self.app
    }

    /// The configuration of the service.
    pub closed spec fn spec_settings(&self) -> config::Config {
        self.config
    }

    /// The service `app` with the configuration `settings`.
    pub fn new(settings: config::Config, app: Application) -> (r: Self)
        ensures
            r.spec_app() == app,
            r.spec_settings() == settings,
    {
        DefaultFallServer { app, config: settings }
    }

    /// What the service says of itself.
    pub fn get_app(&self) -> (r: &Application)
        ensures
            *r == self.spec_app(),
    {
        &self.app
    }

    /// The configuration of the service.
    pub fn get_config(&self) -> (r: &config::Config)
        ensures
            *r == self.spec_settings(),
    {
        &self.config
    }
}

/// Takes the name and the version that the configuration gives into `app`;
/// what the configuration does not give stays as it is.
pub fn set_config(app: &mut Application, name: Option<String>, version: Option<String>)
    ensures
        final(app).name == match name {
            Some(n) => n,
            None => old(app).name,
        },
        final(app).version == match version {
            Some(v) => v,
            None => old(app).version,
        },
        final(app).revision == old(app).revision,
        final(app).commit_date == old(app).commit_date,
        final(app).build_timestamp == old(app).build_timestamp,
        final(app).build_target == old(app).build_target,
{
    match name {
        Some(n) => {
            app.name = n;
        },
        None => {},
    }
    match version {
        Some(v) => {
            app.version = v;
        },
        None => {},
    }
}

/// The decimal digit that stands for `n`, for `0 <= n < 10`.
pub open spec fn decimal_digit(n: int) -> char {
    ((48 + n) as u8) as char
}

/// The decimal numeral of `n`, without leading zeros.
pub open spec fn decimal(n: nat) -> Seq<char>
    decreases n,
{
    if n < 10 {
        seq![decimal_digit(n as int)]
    } else {
        decimal(n / 10).push(decimal_digit((n % 10) as int))
    }
}

/// The address to bind: the host, a colon and the port in decimal, with
/// `0.0.0.0` and `8080` for what is not configured.
pub open spec fn addr_text(address: Option<&str>, port: Option<u16>) -> Seq<char> {
    (match address {
        Some(a) => a@,
        None => DEFAULT_ADDRESS@,
    }) + seq![':'] + decimal(
        match port {
            Some(p) => p as nat,
            None => DEFAULT_PORT as nat,
        },
    )
}

fn digit_char(n: u16) -> (c: char)
    requires
        n < 10,
    ensures
        c == decimal_digit(n as int),
{
    (48u8 + n as u8) as char
}

/// Appends the decimal numeral of `n` to `buf`.
fn push_decimal(buf: &mut String, n: u16)
    ensures
        final(buf)@ == old(buf)@ + decimal(n as nat),
{
    let mut div: u16 = 10000;
    while div > 1 && n < div
        invariant
            div == 10000 || div == 1000 || div == 100 || div == 10 || div == 1,
            (n as int) < div * 10,
        decreases div,
    {
        div = div / 10;
    }
    let ghost start = buf@;
    buf.push(digit_char(n / div));
    assert(buf@ =~= start + decimal((n / div) as nat));
    while div > 1
        invariant
            div == 10000 || div == 1000 || div == 100 || div == 10 || div == 1,
            div > 1 ==> n / div >= 1,
            buf@ == start + decimal((n / div) as nat),
        decreases div,
    {
        let ghost done = decimal((n / div) as nat);
        let lower: u16 = div / 10;
        let top: u16 = n / lower;
        proof {
            lemma_div_denominator(n as int, lower as int, 10);
            assert(top / 10 == n / div);
        }
        buf.push(digit_char(top % 10));
        proof {
            assert(decimal(top as nat) == done.push(decimal_digit((top % 10) as int)));
            assert((start + done).push(decimal_digit((top % 10) as int)) =~= start + decimal(
                top as nat,
            ));
        }
        div = lower;
    }
}

/// The address to bind, as `host:port`: the configured host or `0.0.0.0`,
/// and the configured port or `8080`.
pub fn get_addr(address: Option<&str>, port: Option<u16>) -> (r: String)
    ensures
        r@ == addr_text(address, port),
{
    let mut r = String::new();
    match address {
        Some(a) => {
            r.append(a);
        },
        None => {
            r.append(DEFAULT_ADDRESS);
        },
    }
    r.push(':');
    let ghost head = r@;
    match port {
        Some(p) => {
            push_decimal(&mut r, p);
        },
        None => {
            push_decimal(&mut r, DEFAULT_PORT);
        },
    }
    proof {
        let host = match address {
            Some(a) => a@,
            None => DEFAULT_ADDRESS@,
        };
        assert(head =~= host + seq![':']);
    }
    r
}

} // verus!
