//! Settings of the drawing server and of the page that hosts the client.
use vstd::prelude::*;

verus! {

/// The page that hosts the drawing client.
#[derive(Clone, Debug)]
pub struct Website {
    pub title: String,
}

impl Default for Website {
    fn default() -> (r: Website)
        ensures
            r.title@ == "Synced Drawing"@,
    {
        Website { title: "Synced Drawing".to_owned() }
    }
}

/// Where the server listens.
#[derive(Clone, Debug)]
pub struct Host {
    pub ip: String,
    pub port: u16,
}

impl Default for Host {
    fn default() -> (r: Host)
        ensures
            r.ip@ == "127.0.0.1"@,
            r.port == 8439,
    {
        Host { ip: "127.0.0.1".to_owned(), port: 8439 }
    }
}

/// All settings.
#[derive(Clone, Debug)]
pub struct Config {
    pub host: Host,
    pub website: Website,
}

impl Default for Config {
    fn default() -> (r: Config)
        ensures
            r.host.ip@ == "127.0.0.1"@,
            r.host.port == 8439,
            r.website.title@ == "Synced Drawing"@,
    {
        Config { host: Host::default(), website: Website::default() }
    }
}

} // verus!
