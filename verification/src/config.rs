//! Tracer configuration.

use vstd::prelude::*;
use std::time::Duration;

verus! {

/// Settings of the tracer. The default leaves every setting unset.
#[derive(Default)]
pub struct Config {
    pub(crate) consumer_thread_sleep_duration: Option<Duration>,
}

} // verus!
