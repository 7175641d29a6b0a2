//! Interceptors that apply across runs: security, monitoring, compliance.

use vstd::prelude::*;
use crate::interceptor::global::config::{ConfigView, GlobalInterceptorConfig};
use crate::interceptor::priority::Prioritized;

pub mod config;
pub mod interceptor;
pub mod manager;

verus! {

/// What a global interceptor is for.
#[derive(Debug, Clone, Copy, PartialEq, Eq, Structural, Hash)]
pub enum GlobalInterceptorCategory {
    Security,
    Monitoring,
    Performance,
    Development,
    Business,
    General,
}

/// A global interceptor that takes part in a run, with the configuration it
/// runs under.
#[derive(Debug)]
pub struct ActiveGlobalInterceptor {
    pub config: GlobalInterceptorConfig,
    pub name: String,
    pub need_chain: bool,
}

/// An active global interceptor as the contracts see it.
pub struct ActiveGlobalView {
    pub config: ConfigView,
    pub name: Seq<char>,
    pub need_chain: bool,
}

impl View for ActiveGlobalInterceptor {
    type V = ActiveGlobalView;

    open spec fn view(&self) -> ActiveGlobalView {
        ActiveGlobalView { config: self.config@, name: self.name@, need_chain: self.need_chain }
    }
}

impl Clone for ActiveGlobalInterceptor {
    fn clone(&self) -> (r: Self)
        ensures
            r@ == self@,
    {
        ActiveGlobalInterceptor {
            config: self.config.clone(),
            name: self.name.clone(),
            need_chain: self.need_chain,
        }
    }
}

impl Prioritized for ActiveGlobalInterceptor {
    open spec fn rank(&self) -> int {
        self.config.priority as int
    }

    fn priority_value(&self) -> (r: i32) {
        self.config.priority
    }
}

} // verus!
