//! The settings of the server and of the Subsonic frontend.

use vstd::prelude::*;

use crate::path::FilePath;

verus! {

/// The settings of the server.
#[derive(Debug)]
pub struct ServerConfig {
    pub music_dir: FilePath,
    pub lastfm_api_key: Option<String>,
}

impl ServerConfig {
    /// The settings for a library in `music_dir`.
    pub fn new(music_dir: FilePath, lastfm_api_key: Option<String>) -> (r: Self)
        ensures
            r.music_dir == music_dir,
            r.lastfm_api_key == lastfm_api_key,
    {
        ServerConfig { music_dir, lastfm_api_key }
    }
}

/// The identity, the relay and the allowed peers of the server's endpoint.
#[derive(Debug)]
pub struct IrohConfig {
    pub secret: Option<String>,
    pub relay: Option<String>,
    pub peers: Vec<String>,
}

impl Default for IrohConfig {
    fn default() -> (r: Self)
        ensures
            r.secret is None,
            r.relay is None,
            r.peers@ == Seq::<String>::empty(),
    {
        IrohConfig { secret: None, relay: None, peers: Vec::new() }
    }
}

/// The settings of the Subsonic frontend.
#[derive(Debug)]
pub struct SubsonicConfig {
    pub bind: String,
    pub endpoint: String,
    pub ticket: Option<String>,
    pub relay: Option<String>,
    pub secret: Option<String>,
    pub username: String,
    pub password: String,
}

impl Default for SubsonicConfig {
    fn default() -> (r: Self)
        ensures
            r.bind@ == "127.0.0.1:4040"@,
            r.endpoint@ == Seq::<char>::empty(),
            r.ticket is None,
            r.relay is None,
            r.secret is None,
            r.username@ == "admin"@,
            r.password@ == "admin"@,
    {
        SubsonicConfig {
            bind: "127.0.0.1:4040".to_owned(),
            endpoint: String::new(),
            ticket: None,
            relay: None,
            secret: None,
            username: "admin".to_owned(),
            password: "admin".to_owned(),
        }
    }
}

} // verus!
