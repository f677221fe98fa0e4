//! The built-in templates for the networking files a host may declare:
//! its hostname file and its static hosts table.

use vstd::prelude::*;

verus! {

/// A built-in template, selected by the resource that uses it.
#[derive(Debug, Clone, Copy, PartialEq, Eq, Structural)]
pub enum Template {
    NetworkingHostname,
    NetworkingHosts,
}

impl Template {
    /// The template's text, to be rendered against the networking
    /// configuration.
    pub fn get_contents(&self) -> (r: &str)
        ensures
            *self == Template::NetworkingHostname ==> r@ == "{{hostname}}\n"@,
            *self == Template::NetworkingHosts ==> r@
                == "### Managed by compute\n\n127.0.1.1 {{hostname}}\n127.0.0.1 localhost\n\n{% for host in hosts %}{{host.addr}} {% for name in host.names %}{{name}} {% endfor %}{% endfor %}\n\n# The following lines are desirable for IPv6 capable hosts\n::1 ip6-localhost ip6-loopback\nfe00::0 ip6-localnet\nff00::0 ip6-mcastprefix\nff02::1 ip6-allnodes\nff02::2 ip6-allrouters\nff02::3 ip6-allhosts\n"@,
    {
        match self {
            Template::NetworkingHostname => "{{hostname}}\n",
            Template::NetworkingHosts => "### Managed by compute\n\n127.0.1.1 {{hostname}}\n127.0.0.1 localhost\n\n{% for host in hosts %}{{host.addr}} {% for name in host.names %}{{name}} {% endfor %}{% endfor %}\n\n# The following lines are desirable for IPv6 capable hosts\n::1 ip6-localhost ip6-loopback\nfe00::0 ip6-localnet\nff00::0 ip6-mcastprefix\nff02::1 ip6-allnodes\nff02::2 ip6-allrouters\nff02::3 ip6-allhosts\n",
        }
    }
}

} // verus!
