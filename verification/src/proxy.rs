//! Proxy credential construction from plain values.
//!
//! The embedding program reads the credentials out of its environment and
//! hands them in here; this module only assembles them.

use vstd::prelude::*;
use vstd::string::StringExecFns;

use crate::input::ProxySettings;

verus! {

/// A ready-to-use proxy endpoint with its credentials.
pub struct Proxy {
    pub base_url: String,
    pub username: String,
    pub password: String,
}

/// Whether the settings ask for the managed proxy at all.
pub open spec fn uses_apify_proxy(settings: Option<ProxySettings>) -> bool {
    match settings {
        None => false,
        Some(s) => s.useApifyProxy,
    }
}

/// The proxy groups joined with `+` between them.
pub open spec fn spec_join_plus(groups: Seq<String>) -> Seq<char>
    decreases groups.len(),
{
    if groups.len() == 0 {
        Seq::empty()
    } else if groups.len() == 1 {
        groups[0]@
    } else {
        spec_join_plus(groups.drop_last()) + "+"@ + groups.last()@
    }
}

/// The username the settings ask for: `auto`, or the groups joined under a
/// `groups-` prefix.
pub open spec fn spec_username(groups: Option<Vec<String>>) -> Seq<char> {
    match groups {
        None => "auto"@,
        Some(g) => "groups-"@ + spec_join_plus(g@),
    }
}

/// The proxy's base URL: the default endpoint, or the host and port given
/// by the environment.
pub open spec fn spec_base_url(host_port: Option<(String, String)>) -> Seq<char> {
    match host_port {
        None => "http://@proxy.apify.com:8000"@,
        Some(hp) => "http://@"@ + hp.0@ + ":"@ + hp.1@,
    }
}

/// Joins group names with `+`.
fn join_plus(groups: &Vec<String>) -> (r: String)
    ensures
        r@ == spec_join_plus(groups@),
{
    let mut out = String::new();
    let mut i: usize = 0;
    while i < groups.len()
        invariant
            i <= groups@.len(),
            out@ == spec_join_plus(groups@.take(i as int)),
        decreases groups@.len() - i,
    {
        if i > 0 {
            out.append("+");
        }
        out.append(groups[i].as_str());
        proof {
            assert(groups@.take(i + 1).drop_last() =~= groups@.take(i as int));
            assert(groups@.take(i + 1).last() == groups@[i as int]);
            if i == 0 {
                assert(out@ =~= spec_join_plus(groups@.take(i + 1)));
            }
        }
        i += 1;
    }
    proof {
        assert(groups@.take(groups@.len() as int) =~= groups@);
    }
    out
}

impl Proxy {
    /// Assembles a proxy value: the base URL comes from the given host and
    /// port when the environment supplies them, otherwise from the default
    /// endpoint.
    fn new(username: String, password: String, host_port: Option<(String, String)>) -> (r: Proxy)
        ensures
            r.username == username,
            r.password == password,
            r.base_url@ == spec_base_url(host_port),
    {
        let base_url = match host_port {
            None => "http://@proxy.apify.com:8000".to_owned(),
            Some((hostname, port)) => {
                let mut url = "http://@".to_owned();
                url.append(hostname.as_str());
                url.append(":");
                url.append(port.as_str());
                url
            },
        };
        Proxy { base_url, username, password }
    }
}

/// Builds the credentials for the managed proxy. The password is required
/// here — the embedding program fails loudly before this point when it is
/// missing from the environment.
fn construct_proxy(
    groups: Option<Vec<String>>,
    password: String,
    host_port: Option<(String, String)>,
) -> (r: Proxy)
    ensures
        r.username@ == spec_username(groups),
        r.password == password,
        r.base_url@ == spec_base_url(host_port),
{
    let username = match groups {
        None => "auto".to_owned(),
        Some(groups) => {
            let mut name = "groups-".to_owned();
            name.append(join_plus(&groups).as_str());
            name
        },
    };
    Proxy::new(username, password, host_port)
}

/// Decides from the settings whether a proxy is to be used, and if so
/// assembles it from the given environment values. `password` must be
/// present whenever the settings ask for the proxy.
pub fn get_apify_proxy(
    settings: &Option<ProxySettings>,
    password: Option<String>,
    host_port: Option<(String, String)>,
) -> (r: Option<Proxy>)
    requires
        uses_apify_proxy(*settings) ==> password is Some,
    ensures
        r is Some <==> uses_apify_proxy(*settings),
        r matches Some(p) ==> {
            &&& p.username@ == spec_username(settings.unwrap().apifyProxyGroups)
            &&& Some(p.password) == password
            &&& p.base_url@ == spec_base_url(host_port)
        },
{
    let use_apify_proxy = match settings {
        None => false,
        Some(settings) => settings.useApifyProxy,
    };
    if use_apify_proxy {
        let groups = match settings {
            Some(s) => clone_groups(&s.apifyProxyGroups),
            None => None,
        };
        Some(construct_proxy(groups, password.unwrap(), host_port))
    } else {
        None
    }
}

/// Copies the optional group list out of the borrowed settings.
fn clone_groups(groups: &Option<Vec<String>>) -> (r: Option<Vec<String>>)
    ensures
        match groups {
            Some(g) => r matches Some(c) && c@ == g@,
            None => r is None,
        },
{
    match groups {
        None => None,
        Some(g) => {
            let mut out: Vec<String> = Vec::new();
            let mut i: usize = 0;
            while i < g.len()
                invariant
                    i <= g@.len(),
                    out@ =~= g@.take(i as int),
                decreases g@.len() - i,
            {
                out.push(g[i].clone());
                proof {
                    assert(out@ =~= g@.take(i + 1));
                }
                i += 1;
            }
            proof {
                assert(g@.take(g@.len() as int) =~= g@);
            }
            Some(out)
        },
    }
}

} // verus!
