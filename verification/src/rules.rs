//! A registry of grammar rules, kept both by position and by id.

use std::collections::HashMap;
use vstd::prelude::*;

verus! {

broadcast use vstd::std_specs::hash::group_hash_axioms;

/// What every rule holds: its id.
pub struct Rule {
    id: i32,
}

impl Clone for Rule {
    fn clone(&self) -> (copy: Rule)
        ensures
            copy == *self,
    {
        Rule { id: self.id }
    }
}

/// A rule that opens a region.
pub struct BeginRule {
    rule: Rule,
}

impl Clone for BeginRule {
    fn clone(&self) -> (copy: BeginRule)
        ensures
            copy == *self,
    {
        BeginRule { rule: self.rule.clone() }
    }
}

/// The rule that stands where no rule was registered. Its id is 0.
pub struct EmptyRule {}

impl Clone for EmptyRule {
    fn clone(&self) -> (copy: EmptyRule)
        ensures
            copy == *self,
    {
        EmptyRule {  }
    }
}

/// A rule of any kind.
pub enum BasicRule {
    Begin(BeginRule),
    Empty(EmptyRule),
}

impl Clone for BasicRule {
    fn clone(&self) -> (copy: BasicRule)
        ensures
            copy == *self,
    {
        match self {
            BasicRule::Begin(rule) => BasicRule::Begin(rule.clone()),
            BasicRule::Empty(rule) => BasicRule::Empty(rule.clone()),
        }
    }
}

/// Whether collecting from a rule of the kind of `rule` comes to an end
/// with the rules of `container`: a `BeginRule` goes on with the rule at
/// position 0, which must be there and must itself be one that ends.
pub open spec fn can_collect(rule: BasicRule, container: Seq<Box<BasicRule>>) -> bool {
    rule is Begin ==> container.len() > 0 && *container[0] is Empty
}

impl BeginRule {
    /// The id of the rule.
    pub closed spec fn rule_id(&self) -> i32 {
        self.rule.id
    }

    /// A rule with the given id.
    pub fn new(id: i32) -> (rule: BeginRule)
        ensures
            rule.rule_id() == id,
    {
        BeginRule { rule: Rule { id } }
    }

    /// The id of the rule.
    pub fn id(&self) -> (id: i32)
        ensures
            id == self.rule_id(),
    {
        self.rule.id
    }

    /// Collects the patterns of this rule, which are those of the rule at
    /// position 0 of `container`. No rule holds patterns of its own, so
    /// nothing changes.
    pub fn collect_patterns_recursive(&mut self, container: &mut Vec<Box<BasicRule>>)
        requires
            old(container)@.len() > 0,
            *old(container)@[0] is Empty,
        ensures
            *final(self) == *old(self),
            *final(container) == *old(container),
        decreases 2int,
    {
        let other_rule_id: usize = 0;
        let mut rule = clone_rule(&container[other_rule_id]);
        rule.collect_patterns_recursive(container);
    }

    /// Brings the rule up to date. There is nothing to bring up to date.
    pub fn update_by(&mut self)
        ensures
            *final(self) == *old(self),
    {
    }
}

impl EmptyRule {
    /// The id of the empty rule: 0.
    pub fn id(&self) -> (id: i32)
        ensures
            id == 0,
    {
        0
    }

    /// Collects the patterns of this rule: none.
    pub fn collect_patterns_recursive(&mut self, _container: &mut Vec<Box<BasicRule>>)
        ensures
            *final(self) == *old(self),
            *final(_container) == *old(_container),
        decreases 0int,
    {
    }

    /// Brings the rule up to date. There is nothing to bring up to date.
    pub fn update_by(&mut self)
        ensures
            *final(self) == *old(self),
    {
    }
}

impl BasicRule {
    /// The id of the rule.
    pub open spec fn rule_id(&self) -> i32 {
        match self {
            BasicRule::Begin(rule) => rule.rule_id(),
            BasicRule::Empty(_) => 0,
        }
    }

    /// The id of the rule.
    pub fn id(&self) -> (id: i32)
        ensures
            id == self.rule_id(),
    {
        match self {
            BasicRule::Begin(rule) => rule.id(),
            BasicRule::Empty(rule) => rule.id(),
        }
    }

    /// Collects the patterns of this rule, going by its kind.
    pub fn collect_patterns_recursive(&mut self, container: &mut Vec<Box<BasicRule>>)
        requires
            can_collect(*old(self), old(container)@),
        ensures
            *final(self) == *old(self),
            *final(container) == *old(container),
        decreases (if *old(self) is Begin { 3int } else { 1int }),
    {
        match self {
            BasicRule::Begin(rule) => rule.collect_patterns_recursive(container),
            BasicRule::Empty(rule) => rule.collect_patterns_recursive(container),
        }
    }
}

/// Copies a boxed rule.
///
/// The copy is made by `dyn_clone::clone_box`, which hands back a new box
/// around what `Clone::clone` returns for the rule in the box it was given.
/// `BasicRule::clone` returns a rule equal to its argument, so the copy
/// equals the rule it was made from.
#[verifier::external_body]
fn clone_rule(rule: &Box<BasicRule>) -> (copy: Box<BasicRule>)
    ensures
        copy == *rule,
{
    dyn_clone::clone_box(&**rule)
}

/// The rule that fills the positions at which nothing is registered.
pub open spec fn filler() -> Box<BasicRule> {
    Box::new(BasicRule::Empty(EmptyRule {  }))
}

/// `rules` brought to the length `len`: cut where it is longer, filled up
/// with empty rules where it is shorter.
pub open spec fn resized(rules: Seq<Box<BasicRule>>, len: nat) -> Seq<Box<BasicRule>> {
    if len <= rules.len() {
        rules.take(len as int)
    } else {
        rules + Seq::new((len - rules.len()) as nat, |i: int| filler())
    }
}

/// Brings `rules` to the length `len`, filling up with empty rules.
fn resize_with_empty(rules: &mut Vec<Box<BasicRule>>, len: usize)
    ensures
        final(rules)@ == resized(old(rules)@, len as nat),
{
    if len <= rules.len() {
        rules.truncate(len);
        assert(rules@ =~= resized(old(rules)@, len as nat));
    } else {
        let ghost before = rules@;
        while rules.len() < len
            invariant
                before.len() <= rules@.len() <= len,
                rules@ == before + Seq::new((rules@.len() - before.len()) as nat, |i: int| filler()),
            decreases len - rules@.len(),
        {
            let ghost so_far = rules@;
            rules.push(Box::new(BasicRule::Empty(EmptyRule {  })));
            assert(rules@ =~= before + Seq::new(
                (so_far.len() + 1 - before.len()) as nat,
                |i: int| filler(),
            ));
        }
    }
}

/// Rules by position and by id.
///
/// `rules` holds the rules by position; registering a rule with the id `n`
/// brings it to the length `n + 1`. `index` holds, under its id, a copy of
/// each rule that was registered.
pub struct RuleContainer {
    pub index: HashMap<i32, Box<BasicRule>>,
    pub rules: Vec<Box<BasicRule>>,
}

impl RuleContainer {
    /// A container over the given rules, with nothing registered by id.
    pub fn default(rules: Vec<Box<BasicRule>>) -> (container: RuleContainer)
        ensures
            container.rules == rules,
            container.index@ == Map::<i32, Box<BasicRule>>::empty(),
    {
        RuleContainer { index: HashMap::new(), rules }
    }

    /// The rule at position `pattern_id`, to be changed in place.
    pub fn get_rule(&mut self, pattern_id: usize) -> (rule: &mut Box<BasicRule>)
        requires
            pattern_id < old(self).rules@.len(),
        ensures
            *rule == old(self).rules@[pattern_id as int],
            final(self).rules@ == old(self).rules@.update(pattern_id as int, *final(rule)),
            final(self).index == old(self).index,
    {
        &mut self.rules[pattern_id]
    }

    /// Registers `result` under its own id, which is returned.
    ///
    /// The rules by position are brought to the length `id + 1`, which
    /// drops every rule at a later position, and `result` is put at
    /// position `id`; a copy of it is kept under `id`, in place of what was
    /// kept there.
    pub fn register_rule(&mut self, result: Box<BasicRule>) -> (id: i32)
        requires
            0 <= result.rule_id() < i32::MAX,
        ensures
            id == result.rule_id(),
            final(self).rules@ == resized(old(self).rules@, (id + 1) as nat).update(
                id as int,
                result,
            ),
            final(self).index@ == old(self).index@.insert(id, result),
    {
        let id = result.id();
        resize_with_empty(&mut self.rules, (id + 1) as usize);
        self.index.insert(id, clone_rule(&result));
        self.rules[id as usize] = result;
        id
    }

    /// Collects the patterns of the rule registered under the id 1, the
    /// first id after that of the empty rule. `_pattern_id` does not enter
    /// into it. The container is left as it was.
    pub fn collect_by_id(&mut self, _pattern_id: i32)
        requires
            old(self).index@.contains_key(1),
            can_collect(*old(self).index@[1], old(self).rules@),
        ensures
            final(self).rules == old(self).rules,
            final(self).index@ == old(self).index@,
    {
        let mut rule = self.index.remove(&1).unwrap();
        rule.collect_patterns_recursive(&mut self.rules);
        self.index.insert(1, rule);
        assert(self.index@ =~= old(self).index@);
    }
}

} // verus!
