//! Interceptors that stand behind the directives of the language.

use vstd::prelude::*;
use crate::dictionary::{view_map, Dictionary};
use crate::interceptor::priority::Prioritized;
use crate::types::{LoomValue, ValueView};

pub mod interceptor;
pub mod manager;

verus! {

/// The interceptor of one directive call, with the parameters read from the call.
#[derive(Debug)]
pub struct ActiveDirectiveInterceptor {
    pub params: Dictionary<LoomValue>,
    pub name: String,
    pub priority: i32,
    pub need_chain: bool,
}

/// An active directive interceptor as the contracts see it.
pub struct ActiveDirectiveView {
    pub params: Map<Seq<char>, ValueView>,
    pub name: Seq<char>,
    pub priority: int,
    pub need_chain: bool,
}

/// The parameters of a directive as the contracts see them.
pub open spec fn value_map(d: Dictionary<LoomValue>) -> Map<Seq<char>, ValueView> {
    view_map(d)
}

impl View for ActiveDirectiveInterceptor {
    type V = ActiveDirectiveView;

    open spec fn view(&self) -> ActiveDirectiveView {
        ActiveDirectiveView {
            params: value_map(self.params),
            name: self.name@,
            priority: self.priority as int,
            need_chain: self.need_chain,
        }
    }
}

impl Prioritized for ActiveDirectiveInterceptor {
    open spec fn rank(&self) -> int {
        self.priority as int
    }

    fn priority_value(&self) -> (r: i32) {
        self.priority
    }
}

} // verus!
