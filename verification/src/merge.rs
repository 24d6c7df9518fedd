//! The ordered merge of keyed rules across tiers.
//!
//! A list of rules is merged into an ordered list of winners in which no
//! merge key occurs twice. The global tier fills the list in its own order.
//! Each later tier is laid over it rule by rule: a rule whose key is present
//! replaces the winner in place, a rule whose key is new goes to the front.

use vstd::prelude::*;

verus! {

/// A rule that the resolver merges by a key.
pub trait Rule: DeepView + Sized {
    /// The merge key of a rule, read from its model.
    spec fn key(model: <Self as DeepView>::V) -> Seq<char>;

    /// The merge key of this rule.
    fn merge_key(&self) -> (key: &str)
        ensures
            key@ == Self::key(self.deep_view()),
    ;

    /// A copy that holds the same as this rule.
    fn duplicate(&self) -> (copy: Self)
        ensures
            copy.deep_view() == self.deep_view(),
    ;
}

/// Some rule of `rules` has the merge key `key`.
pub open spec fn holds_key<T: Rule>(rules: Seq<T::V>, key: Seq<char>) -> bool {
    exists|i: int| 0 <= i < rules.len() && T::key(#[trigger] rules[i]) == key
}

/// The position of a rule with the merge key `key`; the only one where keys
/// are distinct.
pub open spec fn position_of<T: Rule>(rules: Seq<T::V>, key: Seq<char>) -> int {
    choose|i: int| 0 <= i < rules.len() && T::key(#[trigger] rules[i]) == key
}

/// No two rules share a merge key.
pub open spec fn keys_distinct<T: Rule>(rules: Seq<T::V>) -> bool {
    forall|i: int, j: int|
        0 <= i < j < rules.len() ==> T::key(#[trigger] rules[i]) != T::key(#[trigger] rules[j])
}

/// The winners after `rule` is taken in from the global tier: it replaces the
/// winner that has its key, in place, or goes to the end.
pub open spec fn replace_or_append<T: Rule>(winners: Seq<T::V>, rule: T::V) -> Seq<T::V> {
    if holds_key::<T>(winners, T::key(rule)) {
        winners.update(position_of::<T>(winners, T::key(rule)), rule)
    } else {
        winners.push(rule)
    }
}

/// The winners after `rule` is taken in from a context tier: it replaces the
/// winner that has its key, in place, or goes to the front.
pub open spec fn replace_or_prepend<T: Rule>(winners: Seq<T::V>, rule: T::V) -> Seq<T::V> {
    if holds_key::<T>(winners, T::key(rule)) {
        winners.update(position_of::<T>(winners, T::key(rule)), rule)
    } else {
        seq![rule] + winners
    }
}

/// The winners of the global tier alone: its rules in their order, a
/// repeated key keeping the place of its first rule and the content of its
/// last.
pub open spec fn gathered<T: Rule>(global: Seq<T::V>) -> Seq<T::V>
    decreases global.len(),
{
    if global.len() == 0 {
        Seq::empty()
    } else {
        replace_or_append::<T>(gathered::<T>(global.drop_last()), global.last())
    }
}

/// The winners after the rules of `tier` are laid over `winners`, first
/// rule first.
pub open spec fn overlaid<T: Rule>(winners: Seq<T::V>, tier: Seq<T::V>) -> Seq<T::V>
    decreases tier.len(),
{
    if tier.len() == 0 {
        winners
    } else {
        replace_or_prepend::<T>(overlaid::<T>(winners, tier.drop_last()), tier.last())
    }
}

/// The winners of all three tiers: the global tier, the context tier laid
/// over it, the branch tier laid over both.
pub open spec fn merged<T: Rule>(global: Seq<T::V>, context: Seq<T::V>, branch: Seq<T::V>) -> Seq<
    T::V,
> {
    overlaid::<T>(overlaid::<T>(gathered::<T>(global), context), branch)
}

/// The rules of a tier that may be absent.
pub open spec fn rules_of<T: Rule>(tier: Option<&Vec<T>>) -> Seq<T::V> {
    match tier {
        Some(rules) => rules.deep_view(),
        None => Seq::empty(),
    }
}

/// A list of winners as a result: absent when there is none.
pub open spec fn some_unless_empty<M>(winners: Seq<M>) -> Option<Seq<M>> {
    if winners.len() == 0 {
        None
    } else {
        Some(winners)
    }
}

/// Where keys are distinct, a rule with the key `key` is the one that
/// `position_of` names.
pub proof fn lemma_position_of<T: Rule>(rules: Seq<T::V>, key: Seq<char>, i: int)
    requires
        keys_distinct::<T>(rules),
        0 <= i < rules.len(),
        T::key(rules[i]) == key,
    ensures
        holds_key::<T>(rules, key),
        position_of::<T>(rules, key) == i,
{
}

/// Replacing a winner by a rule of the same key keeps the keys where they
/// are.
pub proof fn lemma_replace_keeps_keys<T: Rule>(winners: Seq<T::V>, rule: T::V)
    requires
        holds_key::<T>(winners, T::key(rule)),
    ensures
        ({
            let after = winners.update(position_of::<T>(winners, T::key(rule)), rule);
            &&& after.len() == winners.len()
            &&& forall|i: int|
                0 <= i < winners.len() ==> T::key(#[trigger] after[i]) == T::key(winners[i])
            &&& keys_distinct::<T>(winners) ==> keys_distinct::<T>(after)
        }),
{
    let after = winners.update(position_of::<T>(winners, T::key(rule)), rule);
    assert forall|i: int| 0 <= i < winners.len() implies T::key(#[trigger] after[i]) == T::key(
        winners[i],
    ) by {}
}

/// Taking a rule in keeps the keys of the winners distinct, at either end.
pub proof fn lemma_take_in_keeps_distinct<T: Rule>(winners: Seq<T::V>, rule: T::V)
    requires
        keys_distinct::<T>(winners),
    ensures
        keys_distinct::<T>(replace_or_append::<T>(winners, rule)),
        keys_distinct::<T>(replace_or_prepend::<T>(winners, rule)),
{
    if holds_key::<T>(winners, T::key(rule)) {
        lemma_replace_keeps_keys::<T>(winners, rule);
    } else {
        let back = winners.push(rule);
        assert forall|i: int, j: int| 0 <= i < j < back.len() implies T::key(#[trigger] back[i])
            != T::key(#[trigger] back[j]) by {}
        let front = seq![rule] + winners;
        assert forall|i: int, j: int| 0 <= i < j < front.len() implies T::key(#[trigger] front[i])
            != T::key(#[trigger] front[j]) by {}
    }
}

/// The winners of the global tier have distinct keys.
pub proof fn lemma_gathered_distinct<T: Rule>(global: Seq<T::V>)
    ensures
        keys_distinct::<T>(gathered::<T>(global)),
    decreases global.len(),
{
    if global.len() > 0 {
        lemma_gathered_distinct::<T>(global.drop_last());
        lemma_take_in_keeps_distinct::<T>(gathered::<T>(global.drop_last()), global.last());
    }
}

/// Laying a tier over winners with distinct keys keeps them distinct.
pub proof fn lemma_overlaid_distinct<T: Rule>(winners: Seq<T::V>, tier: Seq<T::V>)
    requires
        keys_distinct::<T>(winners),
    ensures
        keys_distinct::<T>(overlaid::<T>(winners, tier)),
    decreases tier.len(),
{
    if tier.len() > 0 {
        lemma_overlaid_distinct::<T>(winners, tier.drop_last());
        lemma_take_in_keeps_distinct::<T>(overlaid::<T>(winners, tier.drop_last()), tier.last());
    }
}

/// After a rule is taken in, at either end, the winners have its key and
/// the keys they had.
pub proof fn lemma_take_in_keys<T: Rule>(winners: Seq<T::V>, rule: T::V, key: Seq<char>)
    ensures
        holds_key::<T>(replace_or_append::<T>(winners, rule), key) <==> (key == T::key(rule)
            || holds_key::<T>(winners, key)),
        holds_key::<T>(replace_or_prepend::<T>(winners, rule), key) <==> (key == T::key(rule)
            || holds_key::<T>(winners, key)),
{
    let back = replace_or_append::<T>(winners, rule);
    let front = replace_or_prepend::<T>(winners, rule);
    if holds_key::<T>(winners, T::key(rule)) {
        lemma_replace_keeps_keys::<T>(winners, rule);
        if holds_key::<T>(winners, key) {
            assert(T::key(back[position_of::<T>(winners, key)]) == key);
        }
    } else {
        if holds_key::<T>(winners, key) {
            let i = position_of::<T>(winners, key);
            assert(T::key(back[i]) == key);
            assert(T::key(front[i + 1]) == key);
        }
        if key == T::key(rule) {
            assert(T::key(back[winners.len() as int]) == key);
            assert(T::key(front[0]) == key);
        }
    }
}

/// A list has the keys of its rules but the last, and the key of the last.
pub proof fn lemma_keys_of_longer<T: Rule>(rules: Seq<T::V>, key: Seq<char>)
    requires
        rules.len() > 0,
    ensures
        holds_key::<T>(rules, key) <==> (key == T::key(rules.last()) || holds_key::<T>(
            rules.drop_last(),
            key,
        )),
{
    let shorter = rules.drop_last();
    if holds_key::<T>(rules, key) {
        let i = position_of::<T>(rules, key);
        if i < shorter.len() {
            assert(T::key(shorter[i]) == key);
        }
    }
    if holds_key::<T>(shorter, key) {
        assert(T::key(rules[position_of::<T>(shorter, key)]) == key);
    }
    if key == T::key(rules.last()) {
        assert(T::key(rules[rules.len() - 1]) == key);
    }
}

/// The winners of the global tier have distinct keys, the keys of the
/// global rules and no others. A global tier whose keys are distinct is its
/// own list of winners.
pub proof fn lemma_gathered<T: Rule>(global: Seq<T::V>)
    ensures
        keys_distinct::<T>(gathered::<T>(global)),
        forall|key: Seq<char>| #[trigger]
            holds_key::<T>(gathered::<T>(global), key) <==> holds_key::<T>(global, key),
        keys_distinct::<T>(global) ==> gathered::<T>(global) == global,
    decreases global.len(),
{
    lemma_gathered_distinct::<T>(global);
    if global.len() > 0 {
        let shorter = global.drop_last();
        lemma_gathered::<T>(shorter);
        assert forall|key: Seq<char>| #[trigger]
            holds_key::<T>(gathered::<T>(global), key) <==> holds_key::<T>(global, key) by {
            lemma_take_in_keys::<T>(gathered::<T>(shorter), global.last(), key);
            lemma_keys_of_longer::<T>(global, key);
        }
        if keys_distinct::<T>(global) {
            assert(keys_distinct::<T>(shorter));
            lemma_keys_of_longer::<T>(global, T::key(global.last()));
            assert(gathered::<T>(global) =~= global);
        }
    }
}

/// A tier laid over winners leaves them in one block at the end, in their
/// order and with their keys. A winner whose key the tier does not have
/// keeps its content. Before the block stand the rules of the tier whose
/// keys are new.
pub proof fn lemma_overlaid<T: Rule>(winners: Seq<T::V>, tier: Seq<T::V>)
    requires
        keys_distinct::<T>(winners),
    ensures
        ({
            let after = overlaid::<T>(winners, tier);
            let fresh = after.len() - winners.len();
            &&& fresh >= 0
            &&& keys_distinct::<T>(after)
            &&& forall|p: int|
                0 <= p < winners.len() ==> T::key(after[fresh + p]) == T::key(
                    #[trigger] winners[p],
                )
            &&& forall|p: int|
                0 <= p < winners.len() && !holds_key::<T>(tier, T::key(#[trigger] winners[p]))
                    ==> after[fresh + p] == winners[p]
            &&& forall|q: int|
                0 <= q < fresh ==> holds_key::<T>(tier, T::key(#[trigger] after[q]))
                    && !holds_key::<T>(winners, T::key(after[q]))
        }),
    decreases tier.len(),
{
    lemma_overlaid_distinct::<T>(winners, tier);
    if tier.len() > 0 {
        let shorter = tier.drop_last();
        let rule = tier.last();
        let before = overlaid::<T>(winners, shorter);
        let after = overlaid::<T>(winners, tier);
        let fresh = after.len() - winners.len();
        lemma_overlaid::<T>(winners, shorter);
        assert forall|key: Seq<char>| holds_key::<T>(shorter, key) implies holds_key::<T>(
            tier,
            key,
        ) by {
            lemma_keys_of_longer::<T>(tier, key);
        }
        lemma_keys_of_longer::<T>(tier, T::key(rule));
        if holds_key::<T>(before, T::key(rule)) {
            lemma_replace_keeps_keys::<T>(before, rule);
        } else {
            assert(after =~= seq![rule] + before);
        }
        assert forall|p: int| 0 <= p < winners.len() implies T::key(after[fresh + p]) == T::key(
            #[trigger] winners[p],
        ) by {}
        assert forall|p: int|
            0 <= p < winners.len() && !holds_key::<T>(
                tier,
                T::key(#[trigger] winners[p]),
            ) implies after[fresh + p] == winners[p] by {}
        assert forall|q: int| 0 <= q < fresh implies holds_key::<T>(
            tier,
            T::key(#[trigger] after[q]),
        ) && !holds_key::<T>(winners, T::key(after[q])) by {}
    }
}

/// A tier laid over winners gives the keys of both and no others.
pub proof fn lemma_overlaid_keys<T: Rule>(winners: Seq<T::V>, tier: Seq<T::V>, key: Seq<char>)
    ensures
        holds_key::<T>(overlaid::<T>(winners, tier), key) <==> (holds_key::<T>(winners, key)
            || holds_key::<T>(tier, key)),
    decreases tier.len(),
{
    if tier.len() > 0 {
        lemma_overlaid_keys::<T>(winners, tier.drop_last(), key);
        lemma_take_in_keys::<T>(overlaid::<T>(winners, tier.drop_last()), tier.last(), key);
        lemma_keys_of_longer::<T>(tier, key);
    }
}

/// Law: the effective rules never hold one merge key twice.
pub proof fn law_keys_are_unique<T: Rule>(global: Seq<T::V>, context: Seq<T::V>, branch: Seq<T::V>)
    ensures
        keys_distinct::<T>(merged::<T>(global, context, branch)),
{
    lemma_gathered_distinct::<T>(global);
    lemma_overlaid_distinct::<T>(gathered::<T>(global), context);
    lemma_overlaid_distinct::<T>(overlaid::<T>(gathered::<T>(global), context), branch);
}

/// Law: the winners of the global tier stand at the end of the effective
/// rules, in their order, and one whose key neither the context tier nor the
/// branch tier has is there with its content. So global rules that no tier
/// mentions keep their order among themselves.
pub proof fn law_untouched_rules_keep_order<T: Rule>(
    global: Seq<T::V>,
    context: Seq<T::V>,
    branch: Seq<T::V>,
)
    ensures
        ({
            let base = gathered::<T>(global);
            let rules = merged::<T>(global, context, branch);
            let fresh = rules.len() - base.len();
            &&& fresh >= 0
            &&& keys_distinct::<T>(global) ==> base == global
            &&& forall|p: int|
                0 <= p < base.len() ==> T::key(rules[fresh + p]) == T::key(#[trigger] base[p])
            &&& forall|p: int|
                0 <= p < base.len() && !holds_key::<T>(context, T::key(#[trigger] base[p]))
                    && !holds_key::<T>(branch, T::key(base[p])) ==> rules[fresh + p] == base[p]
        }),
{
    let base = gathered::<T>(global);
    let middle = overlaid::<T>(base, context);
    let rules = overlaid::<T>(middle, branch);
    let first = middle.len() - base.len();
    let second = rules.len() - middle.len();
    lemma_gathered::<T>(global);
    lemma_overlaid::<T>(base, context);
    lemma_overlaid::<T>(middle, branch);
    assert forall|p: int| 0 <= p < base.len() implies T::key(rules[second + first + p]) == T::key(
        #[trigger] base[p],
    ) by {
        assert(T::key(middle[first + p]) == T::key(base[p]));
    }
    assert forall|p: int|
        0 <= p < base.len() && !holds_key::<T>(context, T::key(#[trigger] base[p]))
            && !holds_key::<T>(branch, T::key(base[p])) implies rules[second + first + p]
        == base[p] by {
        assert(middle[first + p] == base[p]);
    }
}

/// Law: a rule whose key the global tier does not have stands before every
/// rule whose key the global tier has.
pub proof fn law_new_rules_come_first<T: Rule>(
    global: Seq<T::V>,
    context: Seq<T::V>,
    branch: Seq<T::V>,
    new: int,
    kept: int,
)
    requires
        0 <= new < merged::<T>(global, context, branch).len(),
        0 <= kept < merged::<T>(global, context, branch).len(),
        !holds_key::<T>(global, T::key(merged::<T>(global, context, branch)[new])),
        holds_key::<T>(global, T::key(merged::<T>(global, context, branch)[kept])),
    ensures
        new < kept,
{
    let base = gathered::<T>(global);
    let middle = overlaid::<T>(base, context);
    let rules = overlaid::<T>(middle, branch);
    let first = middle.len() - base.len();
    let second = rules.len() - middle.len();
    lemma_gathered::<T>(global);
    lemma_overlaid::<T>(base, context);
    lemma_overlaid::<T>(middle, branch);
    // The rule at `kept` has a key of the global tier, so it stands in the
    // block of the global winners, which begins at `second + first`.
    assert(holds_key::<T>(base, T::key(rules[kept])));
    lemma_overlaid_keys::<T>(base, context, T::key(rules[kept]));
    assert(kept >= second + first);
    // The rule at `new` stands before that block: within it, it would have
    // a key of the global tier.
    if new >= second + first {
        let at = new - second - first;
        assert(T::key(middle[first + at]) == T::key(base[at]));
        assert(holds_key::<T>(base, T::key(rules[new])));
    }
}

/// Law: of two rules of one tier whose keys are new to the winners, the one
/// that the tier mentions later stands earlier. `later` is the first rule of
/// the tier with its key.
pub proof fn law_later_new_rule_comes_earlier<T: Rule>(
    winners: Seq<T::V>,
    tier: Seq<T::V>,
    earlier: int,
    later: int,
)
    requires
        keys_distinct::<T>(winners),
        0 <= earlier < later < tier.len(),
        !holds_key::<T>(winners, T::key(tier[earlier])),
        !holds_key::<T>(winners, T::key(tier[later])),
        forall|m: int| 0 <= m < later ==> T::key(#[trigger] tier[m]) != T::key(tier[later]),
    ensures
        holds_key::<T>(overlaid::<T>(winners, tier), T::key(tier[earlier])),
        holds_key::<T>(overlaid::<T>(winners, tier), T::key(tier[later])),
        position_of::<T>(overlaid::<T>(winners, tier), T::key(tier[later])) < position_of::<T>(
            overlaid::<T>(winners, tier),
            T::key(tier[earlier]),
        ),
    decreases tier.len(),
{
    let shorter = tier.drop_last();
    let rule = tier.last();
    let before = overlaid::<T>(winners, shorter);
    let after = overlaid::<T>(winners, tier);
    let first = T::key(tier[earlier]);
    let second = T::key(tier[later]);
    lemma_overlaid_distinct::<T>(winners, shorter);
    lemma_overlaid_distinct::<T>(winners, tier);
    assert(T::key(shorter[earlier]) == first);
    lemma_overlaid_keys::<T>(winners, shorter, first);
    let place = position_of::<T>(before, first);
    if later == tier.len() - 1 {
        // The later rule is the last one: its key is new, so it goes to the
        // front, before the place of the earlier one.
        lemma_overlaid_keys::<T>(winners, shorter, second);
        if holds_key::<T>(shorter, second) {
            assert(T::key(tier[position_of::<T>(shorter, second)]) == second);
        }
        assert(after =~= seq![rule] + before);
        lemma_position_of::<T>(after, second, 0);
        lemma_position_of::<T>(after, first, place + 1);
    } else {
        // Both rules stand in the shorter tier, where the law holds; the
        // last rule moves both places alike.
        assert(T::key(shorter[later]) == second);
        law_later_new_rule_comes_earlier::<T>(winners, shorter, earlier, later);
        let ahead = position_of::<T>(before, second);
        if holds_key::<T>(before, T::key(rule)) {
            lemma_replace_keeps_keys::<T>(before, rule);
            lemma_position_of::<T>(after, first, place);
            lemma_position_of::<T>(after, second, ahead);
        } else {
            assert(after =~= seq![rule] + before);
            lemma_position_of::<T>(after, first, place + 1);
            lemma_position_of::<T>(after, second, ahead + 1);
        }
    }
}

/// The position among `winners` of the rule with the key `key`, if there is
/// one.
fn find<T: Rule>(winners: &Vec<&T>, key: &str) -> (found: Option<usize>)
    requires
        keys_distinct::<T>(winners.deep_view()),
    ensures
        match found {
            Some(i) => i < winners.len() && holds_key::<T>(winners.deep_view(), key@)
                && position_of::<T>(winners.deep_view(), key@) == i,
            None => !holds_key::<T>(winners.deep_view(), key@),
        },
{
    let mut i: usize = 0;
    while i < winners.len()
        invariant
            i <= winners.len(),
            keys_distinct::<T>(winners.deep_view()),
            forall|j: int| 0 <= j < i ==> T::key(#[trigger] winners.deep_view()[j]) != key@,
        decreases winners.len() - i,
    {
        if crate::text::same_text(winners[i].merge_key(), key) {
            proof {
                lemma_position_of::<T>(winners.deep_view(), key@, i as int);
            }
            return Some(i);
        }
        i += 1;
    }
    None
}

/// Takes `rule` in: in place of the winner that has its key, or else at the
/// front (`to_front`) or at the end.
fn take_in<'a, T: Rule>(winners: &mut Vec<&'a T>, rule: &'a T, to_front: bool)
    requires
        keys_distinct::<T>(old(winners).deep_view()),
    ensures
        keys_distinct::<T>(final(winners).deep_view()),
        final(winners).deep_view() == if to_front {
            replace_or_prepend::<T>(old(winners).deep_view(), rule.deep_view())
        } else {
            replace_or_append::<T>(old(winners).deep_view(), rule.deep_view())
        },
{
    proof {
        lemma_take_in_keeps_distinct::<T>(winners.deep_view(), rule.deep_view());
    }
    let ghost before = winners.deep_view();
    match find(winners, rule.merge_key()) {
        Some(i) => {
            winners.set(i, rule);
            assert(winners.deep_view() =~= before.update(i as int, rule.deep_view()));
        },
        None => {
            if to_front {
                winners.insert(0, rule);
                assert(winners.deep_view() =~= seq![rule.deep_view()] + before);
            } else {
                winners.push(rule);
                assert(winners.deep_view() =~= before.push(rule.deep_view()));
            }
        },
    }
}

/// The winners of the global tier alone.
fn gather<'a, T: Rule>(global: &'a Vec<T>) -> (winners: Vec<&'a T>)
    ensures
        keys_distinct::<T>(winners.deep_view()),
        winners.deep_view() == gathered::<T>(global.deep_view()),
{
    let ghost rules = global.deep_view();
    let mut winners: Vec<&T> = Vec::new();
    let mut i: usize = 0;
    while i < global.len()
        invariant
            i <= global.len(),
            rules == global.deep_view(),
            keys_distinct::<T>(winners.deep_view()),
            winners.deep_view() == gathered::<T>(rules.take(i as int)),
        decreases global.len() - i,
    {
        take_in(&mut winners, &global[i], false);
        proof {
            let longer = rules.take(i + 1);
            assert(longer.drop_last() =~= rules.take(i as int));
        }
        i += 1;
    }
    assert(rules.take(global.len() as int) =~= rules);
    winners
}

/// Lays the rules of `tier` over the winners, first rule first.
fn lay_over<'a, T: Rule>(winners: &mut Vec<&'a T>, tier: &'a Vec<T>)
    requires
        keys_distinct::<T>(old(winners).deep_view()),
    ensures
        keys_distinct::<T>(final(winners).deep_view()),
        final(winners).deep_view() == overlaid::<T>(old(winners).deep_view(), tier.deep_view()),
{
    let ghost before = winners.deep_view();
    let ghost rules = tier.deep_view();
    let mut i: usize = 0;
    while i < tier.len()
        invariant
            i <= tier.len(),
            rules == tier.deep_view(),
            keys_distinct::<T>(winners.deep_view()),
            winners.deep_view() == overlaid::<T>(before, rules.take(i as int)),
        decreases tier.len() - i,
    {
        take_in(winners, &tier[i], true);
        proof {
            let longer = rules.take(i + 1);
            assert(longer.drop_last() =~= rules.take(i as int));
        }
        i += 1;
    }
    assert(rules.take(tier.len() as int) =~= rules);
}

/// Merges the rules of the three tiers, each of which may be absent, into
/// the effective rules. The result is absent when no tier has a rule.
pub fn merge_rules<T: Rule>(
    global: Option<&Vec<T>>,
    context: Option<&Vec<T>>,
    branch: Option<&Vec<T>>,
) -> (rules: Option<Vec<T>>)
    ensures
        rules.deep_view() == some_unless_empty(
            merged::<T>(rules_of(global), rules_of(context), rules_of(branch)),
        ),
        rules matches Some(list) ==> keys_distinct::<T>(list.deep_view()),
{
    let mut winners: Vec<&T> = match global {
        Some(tier) => gather(tier),
        None => Vec::new(),
    };
    assert(winners.deep_view() =~= gathered::<T>(rules_of(global)));
    if let Some(tier) = context {
        lay_over(&mut winners, tier);
    }
    if let Some(tier) = branch {
        lay_over(&mut winners, tier);
    }
    if winners.len() == 0 {
        return None;
    }
    let mut rules: Vec<T> = Vec::new();
    let mut i: usize = 0;
    while i < winners.len()
        invariant
            i <= winners.len(),
            rules.len() == i,
            forall|j: int| 0 <= j < i ==> (#[trigger] rules[j]).deep_view() == winners[j].deep_view(),
        decreases winners.len() - i,
    {
        rules.push(winners[i].duplicate());
        i += 1;
    }
    assert(rules.deep_view() =~= winners.deep_view());
    Some(rules)
}

} // verus!
