//! Settings for logging into the broker.
use vstd::prelude::*;

verus! {

/// The broker's proxy and cluster to log into.
pub struct Config {
    pub tsh_proxy: String,
    pub tsh_cluster: String,
}

impl Config {
    /// Settings with neither proxy nor cluster.
    pub fn new() -> (r: Config)
        ensures
            r.tsh_proxy@.len() == 0,
            r.tsh_cluster@.len() == 0,
    {
        Config { tsh_proxy: String::new(), tsh_cluster: String::new() }
    }

    /// Takes the proxy and the cluster that the environment sets; one that it
    /// leaves unset keeps its current value.
    pub fn load(&mut self, proxy: Option<String>, cluster: Option<String>)
        ensures
            final(self).tsh_proxy == match proxy {
                Some(p) => p,
                None => old(self).tsh_proxy,
            },
            final(self).tsh_cluster == match cluster {
                Some(c) => c,
                None => old(self).tsh_cluster,
            },
    {
        if let Some(p) = proxy {
            self.tsh_proxy = p;
        }
        if let Some(c) = cluster {
            self.tsh_cluster = c;
        }
    }
}

} // verus!
