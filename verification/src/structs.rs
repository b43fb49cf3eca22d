//! Fixture record shapes used by the benchmark scenarios.
//!
//! These are plain data carriers: the engine never inspects their
//! contents, it only measures operations that encode or decode them.
//! Serialization lives outside the library.

use vstd::prelude::*;

verus! {

#[derive(Debug, Default, Clone)]
pub struct Person {
    pub name: String,
    pub age: u8,
    pub bank_account: bool,
}

#[derive(Debug, Default, Clone)]
pub struct ApacheBuilds {
    pub num_executors: u32,
    pub description: String,
    pub jobs: Vec<Job>,
}

#[derive(Debug, Default, Clone)]
pub struct Job {
    pub name: String,
    pub url: String,
    pub color: String,
}

#[derive(Debug, Default, Clone)]
pub struct Log {
    pub jk_host: String,
    pub class_name: String,
    pub logger_name: String,
    pub cgi_tte_ms: String,
    pub start_timestamp: u64,
    pub user_agent_device: String,
    pub slush: String,
    pub and_an_ip4: String,
    pub at_version: String,
    pub error_url_path: String,
    pub logstash: String,
    pub uuids_arrow: String,
    pub anotherfilename: String,
    pub environment: String,
    pub floatasstr: String,
    pub there_string_colon: String,
    pub arry: Vec<String>,
    pub message: String,
    pub argh: String,
    pub oh_my_files: String,
    pub user_agent_os: String,
    pub error_host: String,
    pub application: String,
    pub yam_message: String,
    pub user_agent_browser: String,
    pub error_url: String,
    pub short_message: String,
    pub action: String,
    pub cakes_exclamation: String,
    pub type_field: String,
    pub log_level: String,
    pub too_many_ho: String,
    pub controller: String,
    pub key_keykeykey_field: String,
    pub a_proper_timestamp_ja: String,
    pub and_yet_another: String,
    pub at_timestamp: String,
    pub level: u8,
}

#[derive(Debug, Default, Clone)]
pub struct GithubEvent {
    pub event_type: String,
    pub created_at: String,
    pub actor: Actor,
    pub repo: Repo,
    pub is_public: bool,
    pub payload: Payload,
    pub id: String,
}

#[derive(Debug, Default, Clone)]
pub struct Actor {
    pub gravatar_id: String,
    pub login: String,
    pub avatar_url: String,
    pub url: String,
    pub id: i32,
}

#[derive(Debug, Default, Clone)]
pub struct Repo {
    pub url: String,
    pub id: i32,
    pub name: String,
}

#[derive(Debug, Default, Clone)]
pub struct Payload {
    pub commits: Vec<Commit>,
    pub distinct_size: i32,
    pub _ref: String,
    pub push_id: i32,
    pub head: String,
    pub before: String,
    pub size: i32,
}

#[derive(Debug, Default, Clone)]
pub struct Commit {
    pub url: String,
    pub message: String,
    pub distinct: bool,
    pub sha: String,
    pub author: Author,
}

#[derive(Debug, Default, Clone)]
pub struct Author {
    pub email: String,
    pub name: String,
}

} // verus!
