//! How a global interceptor is configured.

use vstd::prelude::*;
use crate::dictionary::{clone_text_dictionary, text_map, Dictionary};
use crate::interceptor::global::interceptor::{ActivationCondition, ConditionView};
use crate::views::views;

verus! {

/// The configuration of a global interceptor.
#[derive(Debug)]
pub struct GlobalInterceptorConfig {
    pub enabled: bool,
    /// The higher, the earlier.
    pub priority: i32,
    /// All of them must hold for the interceptor to take part.
    pub conditions: Vec<ActivationCondition>,
    /// Free parameters, each a JSON document.
    pub parameters: Dictionary<String>,
    /// Whether the user may switch the interceptor on and off.
    pub user_overridable: bool,
}

/// A configuration as the contracts see it.
pub struct ConfigView {
    pub enabled: bool,
    pub priority: int,
    pub conditions: Seq<ConditionView>,
    pub parameters: Map<Seq<char>, Seq<char>>,
    pub user_overridable: bool,
}

impl View for GlobalInterceptorConfig {
    type V = ConfigView;

    open spec fn view(&self) -> ConfigView {
        ConfigView {
            enabled: self.enabled,
            priority: self.priority as int,
            conditions: views(self.conditions@),
            parameters: text_map(self.parameters),
            user_overridable: self.user_overridable,
        }
    }
}

impl Clone for GlobalInterceptorConfig {
    fn clone(&self) -> (r: Self)
        ensures
            r@ == self@,
    {
        let mut conditions: Vec<ActivationCondition> = Vec::new();
        let mut i: usize = 0;
        while i < self.conditions.len()
            invariant
                i <= self.conditions.len(),
                conditions.len() == i,
                forall|j: int| 0 <= j < i ==> conditions@[j]@ == self.conditions@[j]@,
            decreases self.conditions.len() - i,
        {
            conditions.push(self.conditions[i].clone());
            i += 1;
        }
        assert(views(conditions@) =~= views(self.conditions@));
        GlobalInterceptorConfig {
            enabled: self.enabled,
            priority: self.priority,
            conditions,
            parameters: clone_text_dictionary(&self.parameters),
            user_overridable: self.user_overridable,
        }
    }
}

impl Default for GlobalInterceptorConfig {
    fn default() -> (r: Self)
        ensures
            r@ == (ConfigView {
                enabled: false,
                priority: 0,
                conditions: Seq::empty(),
                parameters: Map::empty(),
                user_overridable: false,
            }),
    {
        let r = GlobalInterceptorConfig {
            enabled: false,
            priority: 0,
            conditions: Vec::new(),
            parameters: Dictionary::new(),
            user_overridable: false,
        };
        assert(views(r.conditions@) =~= Seq::<ConditionView>::empty());
        assert(text_map(r.parameters) =~= Map::empty());
        r
    }
}

} // verus!
