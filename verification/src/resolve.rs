//! The effective configuration of one deployment.
//!
//! A deployment is named by a context and a branch. Its effective
//! configuration merges three tiers, each later one overriding or extending
//! the ones before it: the global tier, the tier of the context, and the tier
//! of the branch, which is looked up among the contexts by the branch's name.
//! A tier that the document does not have is skipped.

use crate::merge::{
    gathered, holds_key, keys_distinct, law_keys_are_unique, law_new_rules_come_first,
    law_untouched_rules_keep_order, merge_rules, merged, some_unless_empty,
};
use crate::model::{
    BuildModel, Config, ConfigModel, ContextModel, Header, HeaderModel, Redirect, RedirectModel,
};
use crate::string_map::{distinct_keys, lemma_to_map_take, to_map, StringMap};
use vstd::prelude::*;

verus! {

/// The environment variables that build settings give.
pub open spec fn environment_of(build: BuildModel) -> Map<Seq<char>, Seq<char>> {
    match build.environment {
        Some(variables) => variables,
        None => Map::empty(),
    }
}

/// The rules of a list that may be absent.
pub open spec fn listed<M>(rules: Option<Seq<M>>) -> Seq<M> {
    match rules {
        Some(list) => list,
        None => Seq::empty(),
    }
}

/// Sets in `environment` every variable of `tier` to the value it has there.
fn overlay(environment: &mut StringMap<String>, tier: &StringMap<String>)
    ensures
        final(environment)@ == old(environment)@.union_prefer_right(tier@),
        final(environment).deep_view() == old(environment).deep_view().union_prefer_right(
            tier.deep_view(),
        ),
{
    let ghost before = environment@;
    let n = tier.len();
    proof {
        use_type_invariant(tier);
    }
    let mut i: usize = 0;
    while i < n
        invariant
            i <= n,
            n == tier.entries().len(),
            distinct_keys(tier.entries()),
            environment@ == before.union_prefer_right(to_map(tier.entries().take(i as int))),
        decreases n - i,
    {
        if let Some((name, value)) = tier.get_index(i) {
            proof {
                lemma_to_map_take(tier.entries(), i as int);
            }
            environment.insert(name.clone(), value.clone());
        }
        i += 1;
    }
    assert(tier.entries().take(n as int) =~= tier.entries());
}

impl ConfigModel {
    /// The override of the context `name`, if the document has one.
    pub open spec fn context_named(self, name: Seq<char>) -> Option<ContextModel> {
        match self.context {
            Some(contexts) => if contexts.contains_key(name) {
                Some(contexts[name])
            } else {
                None
            },
            None => None,
        }
    }

    /// The environment variables of the global tier.
    pub open spec fn global_environment(self) -> Map<Seq<char>, Seq<char>> {
        match self.build {
            Some(build) => environment_of(build),
            None => Map::empty(),
        }
    }

    /// The environment variables of the tier of the context `name`.
    pub open spec fn context_environment(self, name: Seq<char>) -> Map<Seq<char>, Seq<char>> {
        match self.context_named(name) {
            Some(context) => environment_of(context.build),
            None => Map::empty(),
        }
    }

    /// The effective environment: each variable has the value of the last
    /// tier that sets it.
    pub open spec fn effective_environment(self, context: Seq<char>, branch: Seq<char>) -> Map<
        Seq<char>,
        Seq<char>,
    > {
        self.global_environment().union_prefer_right(
            self.context_environment(context),
        ).union_prefer_right(self.context_environment(branch))
    }

    /// The redirect rules of the tier of the context `name`.
    pub open spec fn context_redirects(self, name: Seq<char>) -> Seq<RedirectModel> {
        match self.context_named(name) {
            Some(context) => listed(context.redirects),
            None => Seq::empty(),
        }
    }

    /// The effective redirect rules. A document without contexts has its
    /// global list as it stands. Otherwise the three tiers are merged by
    /// `from`, and a merge without rules is absent.
    pub open spec fn effective_redirects(self, context: Seq<char>, branch: Seq<char>) -> Option<
        Seq<RedirectModel>,
    > {
        match self.context {
            None => self.redirects,
            Some(_) => some_unless_empty(
                merged::<Redirect>(
                    listed(self.redirects),
                    self.context_redirects(context),
                    self.context_redirects(branch),
                ),
            ),
        }
    }

    /// The header rules of the tier of the context `name`.
    pub open spec fn context_headers(self, name: Seq<char>) -> Seq<HeaderModel> {
        match self.context_named(name) {
            Some(context) => listed(context.headers),
            None => Seq::empty(),
        }
    }

    /// The effective header rules. A document without contexts has its
    /// global list as it stands. Otherwise the three tiers are merged by
    /// `path`, and a merge without rules is absent.
    pub open spec fn effective_headers(self, context: Seq<char>, branch: Seq<char>) -> Option<
        Seq<HeaderModel>,
    > {
        match self.context {
            None => self.headers,
            Some(_) => some_unless_empty(
                merged::<Header>(
                    listed(self.headers),
                    self.context_headers(context),
                    self.context_headers(branch),
                ),
            ),
        }
    }

}

impl Config {
    /// The environment variables of a deployment of `branch` in the context
    /// `ctx`, for example `deploy-preview` or `production`.
    pub fn context_env(&self, ctx: &str, branch: &str) -> (environment: StringMap<String>)
        ensures
            environment.deep_view() == self.deep_view().effective_environment(ctx@, branch@),
            distinct_keys(environment.entries()),
    {
        let mut environment: StringMap<String> = StringMap::new();
        if let Some(build) = &self.build {
            if let Some(variables) = &build.environment {
                overlay(&mut environment, variables);
            }
        }
        if let Some(contexts) = &self.context {
            if let Some(context) = contexts.get(ctx) {
                if let Some(variables) = &context.build.environment {
                    overlay(&mut environment, variables);
                }
            }
            if let Some(context) = contexts.get(branch) {
                if let Some(variables) = &context.build.environment {
                    overlay(&mut environment, variables);
                }
            }
        }
        proof {
            use_type_invariant(&environment);
        }
        environment
    }

    /// The redirect rules of a deployment of `branch` in the context `ctx`,
    /// first in precedence first.
    pub fn scoped_redirects(&self, ctx: &str, branch: &str) -> (rules: Option<Vec<Redirect>>)
        ensures
            rules.deep_view() == self.deep_view().effective_redirects(ctx@, branch@),
            self.context is Some || keys_distinct::<Redirect>(listed(self.redirects.deep_view()))
                ==> keys_distinct::<Redirect>(listed(rules.deep_view())),
    {
        match &self.context {
            None => self.redirects.clone(),
            Some(contexts) => {
                let context = match contexts.get(ctx) {
                    Some(context) => context.redirects.as_ref(),
                    None => None,
                };
                let branch = match contexts.get(branch) {
                    Some(context) => context.redirects.as_ref(),
                    None => None,
                };
                merge_rules(self.redirects.as_ref(), context, branch)
            },
        }
    }

    /// The header rules of a deployment of `branch` in the context `ctx`,
    /// first in precedence first.
    pub fn scoped_headers(&self, ctx: &str, branch: &str) -> (rules: Option<Vec<Header>>)
        ensures
            rules.deep_view() == self.deep_view().effective_headers(ctx@, branch@),
            self.context is Some || keys_distinct::<Header>(listed(self.headers.deep_view()))
                ==> keys_distinct::<Header>(listed(rules.deep_view())),
    {
        match &self.context {
            None => self.headers.clone(),
            Some(contexts) => {
                let context = match contexts.get(ctx) {
                    Some(context) => context.headers.as_ref(),
                    None => None,
                };
                let branch = match contexts.get(branch) {
                    Some(context) => context.headers.as_ref(),
                    None => None,
                };
                merge_rules(self.headers.as_ref(), context, branch)
            },
        }
    }
}

/// Law: a deployment whose branch has the name of its context has the
/// environment that the context alone gives. Beside a name that sets no
/// variable, the same name once gives as much, in either place.
pub proof fn law_same_context_twice(config: ConfigModel, name: Seq<char>, other: Seq<char>)
    requires
        config.context_environment(other) == Map::<Seq<char>, Seq<char>>::empty(),
    ensures
        config.effective_environment(name, name) == config.global_environment().union_prefer_right(
            config.context_environment(name),
        ),
        config.effective_environment(name, name) == config.effective_environment(name, other),
        config.effective_environment(name, name) == config.effective_environment(other, name),
{
}

/// Law: the effective redirect rules never hold one `from` twice, unless the
/// document has no contexts and its global list does.
pub proof fn law_redirect_keys_are_unique(config: ConfigModel, context: Seq<char>, branch: Seq<char>)
    requires
        config.context is Some || keys_distinct::<Redirect>(listed(config.redirects)),
    ensures
        config.effective_redirects(context, branch) matches Some(rules) ==> keys_distinct::<
            Redirect,
        >(rules),
{
    law_keys_are_unique::<Redirect>(
        listed(config.redirects),
        config.context_redirects(context),
        config.context_redirects(branch),
    );
}

/// Law: the effective header rules never hold one `path` twice, unless the
/// document has no contexts and its global list does.
pub proof fn law_header_keys_are_unique(config: ConfigModel, context: Seq<char>, branch: Seq<char>)
    requires
        config.context is Some || keys_distinct::<Header>(listed(config.headers)),
    ensures
        config.effective_headers(context, branch) matches Some(rules) ==> keys_distinct::<Header>(
            rules,
        ),
{
    law_keys_are_unique::<Header>(
        listed(config.headers),
        config.context_headers(context),
        config.context_headers(branch),
    );
}

/// Law: in a document with contexts, the global redirects stand at the end
/// of the effective ones, in their order, a repeated `from` counted once, at
/// its first place. A global redirect whose `from` neither the context nor
/// the branch mentions is there as it is in the document. So the global
/// redirects that no tier mentions keep their order among themselves.
pub proof fn law_untouched_redirects_keep_order(
    config: ConfigModel,
    context: Seq<char>,
    branch: Seq<char>,
)
    requires
        config.context is Some,
    ensures
        ({
            let global = listed(config.redirects);
            let base = gathered::<Redirect>(global);
            let rules = match config.effective_redirects(context, branch) {
                Some(rules) => rules,
                None => Seq::empty(),
            };
            let fresh = rules.len() - base.len();
            &&& fresh >= 0
            &&& keys_distinct::<Redirect>(global) ==> base == global
            &&& forall|p: int|
                0 <= p < base.len() ==> rules[fresh + p].from == (#[trigger] base[p]).from
            &&& forall|p: int|
                0 <= p < base.len() && !holds_key::<Redirect>(
                    config.context_redirects(context),
                    (#[trigger] base[p]).from,
                ) && !holds_key::<Redirect>(config.context_redirects(branch), base[p].from)
                    ==> rules[fresh + p] == base[p]
        }),
{
    law_untouched_rules_keep_order::<Redirect>(
        listed(config.redirects),
        config.context_redirects(context),
        config.context_redirects(branch),
    );
}

/// Law: in a document with contexts, an effective redirect whose `from` no
/// global redirect has stands before every effective redirect whose `from`
/// a global redirect has.
pub proof fn law_new_redirects_come_first(
    config: ConfigModel,
    context: Seq<char>,
    branch: Seq<char>,
    new: int,
    kept: int,
)
    requires
        config.context is Some,
        config.effective_redirects(context, branch) matches Some(rules) && 0 <= new < rules.len()
            && 0 <= kept < rules.len() && !holds_key::<Redirect>(
            listed(config.redirects),
            rules[new].from,
        ) && holds_key::<Redirect>(listed(config.redirects), rules[kept].from),
    ensures
        new < kept,
{
    law_new_rules_come_first::<Redirect>(
        listed(config.redirects),
        config.context_redirects(context),
        config.context_redirects(branch),
        new,
        kept,
    );
}

/// Law: absent is not empty. A document without contexts has its global
/// redirects as they stand, so none where it has none. A document with
/// contexts never has an empty list: where no tier has a redirect, the
/// effective redirects are absent.
pub proof fn law_absent_is_not_empty(config: ConfigModel, context: Seq<char>, branch: Seq<char>)
    ensures
        config.context is None ==> config.effective_redirects(context, branch)
            == config.redirects,
        config.context is None && config.redirects is None ==> config.effective_redirects(
            context,
            branch,
        ) is None,
        config.context is Some ==> (config.effective_redirects(context, branch) matches Some(
            rules,
        ) ==> rules.len() > 0),
        config.context is Some && listed(config.redirects).len() == 0 && config.context_redirects(
            context,
        ).len() == 0 && config.context_redirects(branch).len() == 0
            ==> config.effective_redirects(context, branch) is None,
{
}

} // verus!
