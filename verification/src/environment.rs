//! Settings that come from environment variables.
use crate::text::{dec, lemma_parsed_dec, parse_up_to, parsed, parsed_up_to, push_dec, same_text};
use vstd::prelude::*;

verus! {

/// The environment variables that a process sees, as names and values.
#[derive(Debug, PartialEq, Eq)]
pub struct Environment {
    pub vars: Vec<(String, String)>,
}

impl View for Environment {
    type V = Seq<(Seq<char>, Seq<char>)>;

    open spec fn view(&self) -> Seq<(Seq<char>, Seq<char>)> {
        self.vars@.map_values(|v: (String, String)| (v.0@, v.1@))
    }
}

/// The value of a variable: that of the first entry with its name.
pub open spec fn value_of(env: Seq<(Seq<char>, Seq<char>)>, name: Seq<char>) -> Option<Seq<char>>
    decreases env.len(),
{
    if env.len() == 0 {
        None
    } else if env[0].0 == name {
        Some(env[0].1)
    } else {
        value_of(env.skip(1), name)
    }
}

impl Environment {
    /// The value of a variable, if it is set.
    pub fn get(&self, name: &str) -> (r: Option<String>)
        ensures
            r is Some == value_of(self@, name@) is Some,
            r matches Some(v) ==> value_of(self@, name@) == Some(v@),
    {
        assert(self@.skip(0) == self@);
        for i in 0..self.vars.len()
            invariant
                value_of(self@, name@) == value_of(self@.skip(i as int), name@),
        {
            assert(self@[i as int] == (self.vars@[i as int].0@, self.vars@[i as int].1@));
            if same_text(self.vars[i].0.as_str(), name) {
                return Some(self.vars[i].1.clone());
            }
            assert(self@.skip(i as int).skip(1) == self@.skip(i + 1));
        }
        None
    }

    /// The whole number up to `max` that a variable holds, if it holds one.
    pub fn number(&self, name: &str, max: u64) -> (r: Option<u64>)
        ensures
            r is Some == number_in(self@, name@, max as int) is Some,
            r matches Some(n) ==> number_in(self@, name@, max as int) == Some(n as int),
    {
        match self.get(name) {
            Some(v) => parse_up_to(v.as_str(), max),
            None => None,
        }
    }
}

/// The whole number up to `max` that a variable holds, if it holds one.
pub open spec fn number_in(env: Seq<(Seq<char>, Seq<char>)>, name: Seq<char>, max: int) -> Option<
    int,
> {
    match value_of(env, name) {
        Some(v) => parsed_up_to(v, max),
        None => None,
    }
}

/// The port of the dashboard where none is set.
pub const DEFAULT_WEBUI_PORT: u16 = 7870;

/// The port of the dashboard.
pub open spec fn webui_port(env: Seq<(Seq<char>, Seq<char>)>) -> int {
    match number_in(env, "TETRON_WEBUI_PORT"@, u16::MAX as int) {
        Some(port) => port,
        None => DEFAULT_WEBUI_PORT as int,
    }
}

/// The address of the dashboard on a port.
pub open spec fn url_of_port(port: nat) -> Seq<char> {
    "http://127.0.0.1:"@ + dec(port)
}

/// The address of the dashboard: on the port in `TETRON_WEBUI_PORT`, or on the
/// default port where the variable is not set or holds no port.
pub fn webui_url(env: &Environment) -> (r: String)
    ensures
        r@ == url_of_port(webui_port(env@) as nat),
{
    let port: u64 = match env.number("TETRON_WEBUI_PORT", u16::MAX as u64) {
        Some(n) => n,
        None => DEFAULT_WEBUI_PORT as u64,
    };
    let mut out: String = "http://127.0.0.1:".to_owned();
    push_dec(&mut out, port);
    out
}

/// A value for the port that was written in decimal is the port that is used.
pub proof fn law_port_value_is_used(env: Seq<(Seq<char>, Seq<char>)>, port: u16)
    requires
        value_of(env, "TETRON_WEBUI_PORT"@) == Some(dec(port as nat)),
    ensures
        webui_port(env) == port,
{
    lemma_parsed_dec(port as nat);
}

/// The operating systems that the tray runs on.
#[derive(Clone, Copy, Debug, PartialEq, Eq, Structural)]
pub enum Platform {
    Linux,
    MacOs,
    /// Any other one.
    Other,
}

/// The program that opens an address in the browser.
pub open spec fn opener(platform: Platform) -> Option<Seq<char>> {
    match platform {
        Platform::Linux => Some("xdg-open"@),
        Platform::MacOs => Some("open"@),
        Platform::Other => None,
    }
}

/// The program to run, and the address to hand to it, to open the dashboard;
/// nothing on a platform without such a program.
pub fn open_webui(platform: Platform, env: &Environment) -> (r: Option<(String, String)>)
    ensures
        r is Some == opener(platform) is Some,
        r matches Some((program, url)) ==> {
            &&& opener(platform) == Some(program@)
            &&& url@ == url_of_port(webui_port(env@) as nat)
        },
{
    let url: String = webui_url(env);
    match platform {
        Platform::Linux => Some(("xdg-open".to_owned(), url)),
        Platform::MacOs => Some(("open".to_owned(), url)),
        Platform::Other => None,
    }
}

/// A variable has the value of the first entry with its name, and none where no
/// entry has it.
pub proof fn law_first_entry_counts(env: Seq<(Seq<char>, Seq<char>)>, name: Seq<char>, i: int)
    ensures
        0 <= i < env.len() && env[i].0 == name && (forall|j: int|
            0 <= j < i ==> (#[trigger] env[j]).0 != name) ==> value_of(env, name) == Some(env[i].1),
        (forall|j: int| 0 <= j < env.len() ==> (#[trigger] env[j]).0 != name) ==> value_of(
            env,
            name,
        ) is None,
    decreases env.len(),
{
    if env.len() > 0 {
        let rest = env.skip(1);
        law_first_entry_counts(rest, name, i - 1);
        assert forall|j: int| 0 <= j < rest.len() implies #[trigger] rest[j] == env[j + 1] by {}
        assert(env[0] == env[0]);
    }
}

/// The dashboard is on the port that the variable holds, exactly where it holds a
/// whole number up to 65535, and on port 7870 otherwise.
pub proof fn law_port_of_variable(env: Seq<(Seq<char>, Seq<char>)>, n: int)
    ensures
        value_of(env, "TETRON_WEBUI_PORT"@) is None ==> webui_port(env) == 7870,
        value_of(env, "TETRON_WEBUI_PORT"@) matches Some(v) ==> {
            &&& parsed(v) is None ==> webui_port(env) == 7870
            &&& parsed(v) == Some(n) && n <= 65535 ==> webui_port(env) == n
            &&& parsed(v) == Some(n) && n > 65535 ==> webui_port(env) == 7870
        },
{
}

/// The address of the dashboard is that of this machine, on its port.
pub proof fn law_address_of_dashboard(port: nat)
    ensures
        url_of_port(port) == "http://127.0.0.1:"@ + dec(port),
{
}

/// Each platform opens addresses with its own program.
pub proof fn law_opener()
    ensures
        opener(Platform::Linux) == Some("xdg-open"@),
        opener(Platform::MacOs) == Some("open"@),
        opener(Platform::Other) is None,
{
}

/// The model of an environment holds its entries, in their order.
pub proof fn law_environment_model(env: Environment)
    ensures
        env@.len() == env.vars.len(),
        forall|i: int|
            0 <= i < env.vars.len() ==> #[trigger] env@[i] == (
                env.vars@[i].0@,
                env.vars@[i].1@,
            ),
{
}

} // verus!
