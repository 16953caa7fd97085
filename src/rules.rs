//! Compiling the operator's rules and choosing the class for a thread name.
use vstd::prelude::*;

use crate::level::{class_of_text, parse_prio, PrioClass};
use crate::options::{custom_arg, custom_arg_of, is_reserved_key};
use crate::text::{split_on, split_text};

verus! {

#[verifier::external_type_specification]
#[verifier::external_body]
pub struct ExRegex(regex::Regex);

/// Whether the regex crate accepts `pattern` as a regular expression.
pub uninterp spec fn pattern_compiles(pattern: Seq<char>) -> bool;

/// Whether the regular expression `pattern` matches somewhere in `text`.
pub uninterp spec fn pattern_matches(pattern: Seq<char>, text: Seq<char>) -> bool;

/// A compiled thread-name pattern together with its source text.
pub struct NamePattern {
    source: String,
    compiled: regex::Regex,
}

impl NamePattern {
    pub closed spec fn view(&self) -> Seq<char> {
        self.source@
    }

    /// Compiles `pattern`; `None` where it is not a valid regular expression.
    pub fn compile(pattern: &str) -> (r: Option<NamePattern>)
        ensures
            r is Some == pattern_compiles(pattern@),
            r matches Some(p) ==> p.view() == pattern@,
    {
        compile_regex(pattern)
    }

    /// The text the pattern was compiled from.
    pub fn source(&self) -> (r: &str)
        ensures
            r@ == self.view(),
    {
        self.source.as_str()
    }

    /// Whether the pattern matches somewhere in `text`.
    pub fn is_match(&self, text: &str) -> (r: bool)
        ensures
            r == pattern_matches(self.view(), text@),
    {
        regex_is_match(self, text)
    }
}

/// Relies on regex::Regex::new, which fails on text that is not a valid
/// regular expression, and on Regex::as_str, which gives back that text.
#[verifier::external_body]
fn compile_regex(pattern: &str) -> (r: Option<NamePattern>)
    ensures
        r is Some == pattern_compiles(pattern@),
        r matches Some(p) ==> p.view() == pattern@,
{
    regex::Regex::new(pattern).ok().map(
        |re| NamePattern { source: re.as_str().to_string(), compiled: re },
    )
}

/// Relies on regex::Regex::is_match. The compiled expression of a
/// `NamePattern` is only ever made by `compile_regex`, from its source text.
#[verifier::external_body]
fn regex_is_match(p: &NamePattern, text: &str) -> (r: bool)
    ensures
        r == pattern_matches(p.view(), text@),
{
    p.compiled.is_match(text)
}

/// A thread-name pattern and the class given to the threads it matches.
pub struct PriorityRule {
    pub pattern: NamePattern,
    pub class: PrioClass,
}

impl PriorityRule {
    pub open spec fn view(&self) -> (Seq<char>, PrioClass) {
        (self.pattern.view(), self.class)
    }
}

pub open spec fn thread_name_key() -> Seq<char> {
    seq!['t', 'h', 'r', 'e', 'a', 'd', '_', 'n', 'a', 'm', 'e']
}

pub open spec fn prio_key() -> Seq<char> {
    seq!['p', 'r', 'i', 'o']
}

/// The rule that an option group describes: its `thread_name` must be a valid
/// regular expression and its `prio` must name a class.
pub open spec fn group_rule(g: Seq<char>) -> Option<(Seq<char>, PrioClass)> {
    match custom_arg(g, thread_name_key()) {
        Some(p) => if pattern_compiles(p) {
            match custom_arg(g, prio_key()) {
                Some(q) => match class_of_text(q) {
                    Some(c) => Some((p, c)),
                    None => None,
                },
                None => None,
            }
        } else {
            None
        },
        None => None,
    }
}

/// The values that are present in `s`, in their order.
pub open spec fn present<A>(s: Seq<Option<A>>) -> Seq<A>
    decreases s.len(),
{
    if s.len() == 0 {
        Seq::<A>::empty()
    } else {
        let init = present(s.drop_last());
        match s.last() {
            Some(x) => init.push(x),
            None => init,
        }
    }
}

pub open spec fn rule_view(o: Option<PriorityRule>) -> Option<(Seq<char>, PrioClass)> {
    match o {
        Some(x) => Some(x.view()),
        None => None,
    }
}

/// The rules that an options text describes: one for each of its
/// semicolon-separated groups that is well formed, in the order of the groups.
pub open spec fn rules_of_options(o: Seq<char>) -> Seq<(Seq<char>, PrioClass)> {
    present(split_on(o, ';').map_values(|g: Seq<char>| group_rule(g)))
}

/// Compiles the rule of one option group; `None` where the group lacks a
/// valid pattern or a valid priority.
pub fn compile_group(group: &str) -> (r: Option<PriorityRule>)
    ensures
        rule_view(r) == group_rule(group@),
        r matches Some(x) ==> x.class.wf(),
{
    proof {
        reveal_strlit("thread_name");
        reveal_strlit("prio");
        assert("thread_name"@ =~= thread_name_key());
        assert("prio"@ =~= prio_key());
        assert(!is_reserved_key("thread_name"@));
        assert(!is_reserved_key("prio"@));
    }
    let name = match custom_arg_of(group, "thread_name") {
        Some(name) => name,
        None => return None,
    };
    let pattern = match NamePattern::compile(name.as_str()) {
        Some(p) => p,
        None => return None,
    };
    let prio = match custom_arg_of(group, "prio") {
        Some(prio) => prio,
        None => return None,
    };
    match parse_prio(prio.as_str()) {
        Some(class) => Some(PriorityRule { pattern, class }),
        None => None,
    }
}

/// Keeps the rules that are present, in their order.
pub fn collect_rules(candidates: Vec<Option<PriorityRule>>) -> (r: Vec<PriorityRule>)
    ensures
        r@.map_values(|x: PriorityRule| x.view()) == present(
            candidates@.map_values(|o: Option<PriorityRule>| rule_view(o)),
        ),
{
    let ghost all = candidates@;
    let mut rules: Vec<PriorityRule> = Vec::new();
    let mut rest = candidates;
    let ghost n = all.len();
    assert(all.map_values(|o: Option<PriorityRule>| rule_view(o)).subrange(0, 0) =~= Seq::<
        Option<(Seq<char>, PrioClass)>,
    >::empty());
    while rest.len() > 0
        invariant
            n == all.len(),
            rest.len() <= n,
            rest@ == all.subrange(n - rest.len(), n as int),
            rules@.map_values(|x: PriorityRule| x.view()) == present(
                all.map_values(|o: Option<PriorityRule>| rule_view(o)).subrange(
                    0,
                    n - rest.len(),
                ),
            ),
        decreases rest.len(),
    {
        let ghost i = n - rest.len();
        let ghost views = all.map_values(|o: Option<PriorityRule>| rule_view(o));
        let next = rest.remove(0);
        proof {
            assert(next == all[i]);
            assert(rest@ =~= all.subrange(n - rest.len(), n as int));
            assert(views.subrange(0, i + 1).drop_last() =~= views.subrange(0, i));
            assert(views.subrange(0, i + 1).last() == rule_view(all[i]));
        }
        match next {
            Some(rule) => {
                rules.push(rule);
                assert(rules@.map_values(|x: PriorityRule| x.view()) =~= present(
                    views.subrange(0, i),
                ).push(rule.view()));
            },
            _ => {
                assert(rules@.map_values(|x: PriorityRule| x.view()) =~= present(
                    views.subrange(0, i),
                ));
            },
        }
    }
    assert(all.map_values(|o: Option<PriorityRule>| rule_view(o)).subrange(0, n as int)
        =~= all.map_values(|o: Option<PriorityRule>| rule_view(o)));
    rules
}

/// Compiles the rules of an options text: its groups are separated by
/// semicolons, and a group that is not well formed is left out.
pub fn compile_rules(options: &str) -> (r: Vec<PriorityRule>)
    ensures
        r@.map_values(|x: PriorityRule| x.view()) == rules_of_options(options@),
        forall|k: int| 0 <= k < r@.len() ==> (#[trigger] r@[k]).class.wf(),
{
    let groups = split_text(options, ';');
    let ghost pieces = split_on(options@, ';');
    let mut candidates: Vec<Option<PriorityRule>> = Vec::new();
    let mut i: usize = 0;
    while i < groups.len()
        invariant
            groups@.map_values(|p: String| p@) == pieces,
            i <= groups.len(),
            candidates@.len() == i,
            forall|k: int|
                0 <= k < i ==> rule_view(#[trigger] candidates@[k]) == group_rule(pieces[k]),
            forall|k: int|
                0 <= k < i ==> (#[trigger] candidates@[k] matches Some(x) ==> x.class.wf()),
        decreases groups.len() - i,
    {
        assert(pieces[i as int] == groups@[i as int]@);
        let rule = compile_group(groups[i].as_str());
        candidates.push(rule);
        i = i + 1;
    }
    assert(candidates@.map_values(|o: Option<PriorityRule>| rule_view(o)) =~= pieces.map_values(
        |g: Seq<char>| group_rule(g),
    ));
    let ghost cands = candidates@;
    let rules = collect_rules(candidates);
    proof {
        let views = cands.map_values(|o: Option<PriorityRule>| rule_view(o));
        assert forall|k: int| 0 <= k < views.len() implies (#[trigger] views[k] matches Some(x)
            ==> x.1.wf()) by {
            assert(cands[k] matches Some(x) ==> x.class.wf());
        }
        lemma_present_from(views);
        assert forall|k: int| 0 <= k < rules@.len() implies (#[trigger] rules@[k]).class.wf() by {
            assert(rules@.map_values(|x: PriorityRule| x.view())[k] == rules@[k].view());
        }
    }
    rules
}

proof fn lemma_present_from(views: Seq<Option<(Seq<char>, PrioClass)>>)
    requires
        forall|k: int| 0 <= k < views.len() ==> (#[trigger] views[k] matches Some(x) ==> x.1.wf()),
    ensures
        forall|k: int| 0 <= k < present(views).len() ==> (#[trigger] present(views)[k]).1.wf(),
    decreases views.len(),
{
    if views.len() > 0 {
        let init = views.drop_last();
        assert forall|k: int| 0 <= k < init.len() implies (#[trigger] init[k] matches Some(x)
            ==> x.1.wf()) by {
            assert(init[k] == views[k]);
        }
        lemma_present_from(init);
        assert(views.last() == views[views.len() - 1]);
        let p = present(views);
        let q = present(init);
        assert forall|k: int| 0 <= k < p.len() implies (#[trigger] p[k]).1.wf() by {
            if k < q.len() {
                assert(p[k] == q[k]);
            } else {
                assert(views.last() matches Some(x) && p[k] == x);
            }
        }
    }
}

/// The class of the last of the first `n` rules whose entry in `matched` is set.
pub open spec fn last_match(classes: Seq<PrioClass>, matched: Seq<bool>, n: int) -> Option<PrioClass>
    decreases n,
{
    if n <= 0 {
        None
    } else if matched[n - 1] {
        Some(classes[n - 1])
    } else {
        last_match(classes, matched, n - 1)
    }
}

pub open spec fn classes_of(rules: Seq<PriorityRule>) -> Seq<PrioClass> {
    rules.map_values(|x: PriorityRule| x.class)
}

/// Whether each rule's pattern matches `name`, rule by rule.
pub open spec fn matches_of(rules: Seq<PriorityRule>, name: Seq<char>) -> Seq<bool> {
    rules.map_values(|x: PriorityRule| pattern_matches(x.pattern.view(), name))
}

/// The class of the last rule whose entry in `matched` is set: a later rule
/// overrides an earlier one. `matched` holds, rule by rule, whether the rule's
/// pattern matched.
pub fn select_last_match(rules: &Vec<PriorityRule>, matched: &Vec<bool>) -> (r: Option<PrioClass>)
    requires
        matched.len() == rules.len(),
    ensures
        r == last_match(classes_of(rules@), matched@, rules.len() as int),
{
    let mut chosen: Option<PrioClass> = None;
    let mut i: usize = 0;
    while i < rules.len()
        invariant
            matched.len() == rules.len(),
            i <= rules.len(),
            chosen == last_match(classes_of(rules@), matched@, i as int),
        decreases rules.len() - i,
    {
        if matched[i] {
            chosen = Some(rules[i].class);
        }
        i = i + 1;
    }
    chosen
}

/// The class for a thread named `name`: that of the last rule whose pattern
/// matches the name, or `None` where no rule matches.
pub fn class_for_name(rules: &Vec<PriorityRule>, name: &str) -> (r: Option<PrioClass>)
    ensures
        r == last_match(classes_of(rules@), matches_of(rules@, name@), rules.len() as int),
{
    let mut matched: Vec<bool> = Vec::new();
    let mut i: usize = 0;
    while i < rules.len()
        invariant
            i <= rules.len(),
            matched@.len() == i,
            forall|k: int| 0 <= k < i ==> matched@[k] == matches_of(rules@, name@)[k],
        decreases rules.len() - i,
    {
        let m = rules[i].pattern.is_match(name);
        matched.push(m);
        i = i + 1;
    }
    assert(matched@ =~= matches_of(rules@, name@));
    select_last_match(rules, &matched)
}

/// When several rules match, the class that applies is that of the last of
/// them: a matching rule decides exactly when no later rule matches.
pub proof fn lemma_last_matching_rule_wins(classes: Seq<PrioClass>, matched: Seq<bool>, i: int)
    requires
        matched.len() == classes.len(),
        0 <= i < classes.len(),
        matched[i],
        forall|j: int| i < j < classes.len() ==> !matched[j],
    ensures
        last_match(classes, matched, classes.len() as int) == Some(classes[i]),
    decreases classes.len() - i,
{
    lemma_last_match_skips(classes, matched, i + 1, classes.len() as int);
}

proof fn lemma_last_match_skips(classes: Seq<PrioClass>, matched: Seq<bool>, lo: int, hi: int)
    requires
        0 <= lo <= hi <= matched.len(),
        forall|j: int| lo <= j < hi ==> !matched[j],
    ensures
        last_match(classes, matched, hi) == last_match(classes, matched, lo),
    decreases hi - lo,
{
    if hi > lo {
        lemma_last_match_skips(classes, matched, lo, hi - 1);
    }
}

/// The class is absent exactly when no rule matches.
pub proof fn lemma_no_match_no_class(classes: Seq<PrioClass>, matched: Seq<bool>)
    requires
        matched.len() == classes.len(),
    ensures
        last_match(classes, matched, classes.len() as int) is None <==> forall|j: int|
            0 <= j < classes.len() ==> !matched[j],
{
    if forall|j: int| 0 <= j < classes.len() ==> !matched[j] {
        lemma_last_match_skips(classes, matched, 0, classes.len() as int);
    } else {
        let i = choose|i: int| 0 <= i < classes.len() && matched[i];
        lemma_last_found(classes, matched, i, classes.len() as int);
    }
}

proof fn lemma_last_found(classes: Seq<PrioClass>, matched: Seq<bool>, i: int, n: int)
    requires
        0 <= i < n <= matched.len(),
        matched[i],
    ensures
        last_match(classes, matched, n) is Some,
    decreases n,
{
    if n - 1 > i && !matched[n - 1] {
        lemma_last_found(classes, matched, i, n - 1);
    }
}

/// The compiled rules are exactly the rules of the well-formed groups, in the
/// order of the groups; a malformed group contributes nothing.
pub proof fn lemma_rules_are_the_well_formed_groups(options: Seq<char>)
    ensures
        rules_of_options(options) == split_on(options, ';').filter(
            |g: Seq<char>| group_rule(g) is Some,
        ).map_values(|g: Seq<char>| group_rule(g)->Some_0),
{
    lemma_present_filter(split_on(options, ';'));
}

proof fn lemma_present_filter(gs: Seq<Seq<char>>)
    ensures
        present(gs.map_values(|g: Seq<char>| group_rule(g))) == gs.filter(
            |g: Seq<char>| group_rule(g) is Some,
        ).map_values(|g: Seq<char>| group_rule(g)->Some_0),
    decreases gs.len(),
{
    reveal_with_fuel(Seq::filter, 1);
    if gs.len() == 0 {
        assert(gs.filter(|g: Seq<char>| group_rule(g) is Some) =~= Seq::<Seq<char>>::empty());
        assert(present(gs.map_values(|g: Seq<char>| group_rule(g))) =~= Seq::<
            (Seq<char>, PrioClass),
        >::empty());
    } else {
        let init = gs.drop_last();
        lemma_present_filter(init);
        assert(gs.map_values(|g: Seq<char>| group_rule(g)).drop_last() =~= init.map_values(
            |g: Seq<char>| group_rule(g),
        ));
        let f = init.filter(|g: Seq<char>| group_rule(g) is Some);
        if group_rule(gs.last()) is Some {
            assert(f.push(gs.last()).map_values(|g: Seq<char>| group_rule(g)->Some_0)
                =~= f.map_values(|g: Seq<char>| group_rule(g)->Some_0).push(
                group_rule(gs.last())->Some_0,
            ));
        }
    }
}

} // verus!
