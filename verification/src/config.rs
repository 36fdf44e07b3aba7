//! Process configuration: the push-notification endpoint and the device key
//! forwarded to it. Built once at startup and handed to whoever needs it;
//! there is no default push target.

use vstd::prelude::*;

verus! {

/// Where notifications go and the credential sent along.
#[derive(Debug)]
pub struct PushConfig {
    pub url: String,
    pub device_key: String,
}

/// The whole configuration; today that is the push settings alone.
#[derive(Debug)]
pub struct Config {
    push: PushConfig,
}

impl Config {
    /// The configured endpoint and device key, as mathematical values.
    pub closed spec fn push_view(&self) -> (Seq<char>, Seq<char>) {
        (self.push.url@, self.push.device_key@)
    }

    /// Wraps an already-parsed push configuration.
    pub fn new(push: PushConfig) -> (c: Config)
        ensures
            c.push_view() == (push.url@, push.device_key@),
    {
        Config { push }
    }

    /// The push settings this configuration holds.
    pub fn push(&self) -> (p: &PushConfig)
        ensures
            (p.url@, p.device_key@) == self.push_view(),
    {
        &self.push
    }
}

} // verus!
