//! Bookkeeping of icon rules: finding rules, building the rule an
//! application leaves behind (keeping the first backup of every target),
//! replacing and removing rules, what a restore goes through, and the checks
//! and repairs of the monitor.

use vstd::prelude::*;
use crate::model::{
    applied_view, copy_opt_string, opt_view, rules_view, AppliedTarget, AppliedTargetView,
    IconRule, IconRuleView,
};
use crate::target::{target_check, validate_target};
use crate::text::str_eq;

verus! {

/// Whether a rule is the one for `target` of `kind`.
pub open spec fn same_key(r: IconRuleView, target: Seq<char>, kind: Seq<char>) -> bool {
    r.target == target && r.kind == kind
}

/// Finds the first rule for `target` of `kind`.
pub fn find_rule_for(rules: &Vec<IconRule>, target: &str, kind: &str) -> (r: Option<usize>)
    ensures
        match r {
            Some(i) => i < rules@.len() && same_key(rules@[i as int]@, target@, kind@) && forall|j: int|
                0 <= j < i ==> !same_key(#[trigger] rules@[j]@, target@, kind@),
            None => forall|j: int| 0 <= j < rules@.len() ==> !same_key(#[trigger] rules@[j]@, target@, kind@),
        },
{
    let mut i: usize = 0;
    while i < rules.len()
        invariant
            i <= rules@.len(),
            forall|j: int| 0 <= j < i ==> !same_key(#[trigger] rules@[j]@, target@, kind@),
        decreases rules.len() - i,
    {
        if str_eq(rules[i].target.as_str(), target) && str_eq(rules[i].kind.as_str(), kind) {
            return Some(i);
        }
        i = i + 1;
    }
    None
}

/// Finds the first rule with the id `id`.
pub fn find_rule_by_id(rules: &Vec<IconRule>, id: &str) -> (r: Option<usize>)
    ensures
        match r {
            Some(i) => i < rules@.len() && rules@[i as int].id@ == id@ && forall|j: int|
                0 <= j < i ==> #[trigger] rules@[j].id@ != id@,
            None => forall|j: int| 0 <= j < rules@.len() ==> #[trigger] rules@[j].id@ != id@,
        },
{
    let mut i: usize = 0;
    while i < rules.len()
        invariant
            i <= rules@.len(),
            forall|j: int| 0 <= j < i ==> #[trigger] rules@[j].id@ != id@,
        decreases rules.len() - i,
    {
        if str_eq(rules[i].id.as_str(), id) {
            return Some(i);
        }
        i = i + 1;
    }
    None
}

/// The rules that are not the one for `target` of `kind`, in order.
pub open spec fn others(rules: Seq<IconRuleView>, target: Seq<char>, kind: Seq<char>) -> Seq<IconRuleView> {
    rules.filter(|r: IconRuleView| !same_key(r, target, kind))
}

/// The rules whose id is not `id`, in order.
pub open spec fn without_id(rules: Seq<IconRuleView>, id: Seq<char>) -> Seq<IconRuleView> {
    rules.filter(|r: IconRuleView| r.id != id)
}

/// Removes every rule for `target` of `kind`, keeping the others in order.
pub fn remove_rules_for(rules: &mut Vec<IconRule>, target: &str, kind: &str)
    ensures
        rules_view(final(rules)@) == others(rules_view(old(rules)@), target@, kind@),
{
    let ghost all = rules_view(rules@);
    let mut kept: Vec<IconRule> = Vec::new();
    let mut i: usize = 0;
    assert(all.take(0).filter(|r: IconRuleView| !same_key(r, target@, kind@)) =~= Seq::<IconRuleView>::empty()) by {
        reveal(Seq::filter);
    }
    while i < rules.len()
        invariant
            i <= rules@.len(),
            all == rules_view(rules@),
            rules@ == old(rules)@,
            rules_view(kept@) == all.take(i as int).filter(|r: IconRuleView| !same_key(r, target@, kind@)),
        decreases rules.len() - i,
    {
        let ghost before = rules_view(kept@);
        let same = str_eq(rules[i].target.as_str(), target) && str_eq(rules[i].kind.as_str(), kind);
        if !same {
            kept.push(rules[i].copy());
        }
        proof {
            reveal(Seq::filter);
            assert(all.take(i + 1).drop_last() =~= all.take(i as int));
            assert(all.take(i + 1).last() == all[i as int]);
            assert(rules_view(kept@) =~= if same { before } else { before.push(all[i as int]) });
        }
        i = i + 1;
    }
    assert(all.take(rules@.len() as int) =~= all);
    *rules = kept;
}

/// Removes every rule with the id `id`, keeping the others in order.
pub fn remove_rules_with_id(rules: &mut Vec<IconRule>, id: &str)
    ensures
        rules_view(final(rules)@) == without_id(rules_view(old(rules)@), id@),
{
    let ghost all = rules_view(rules@);
    let mut kept: Vec<IconRule> = Vec::new();
    let mut i: usize = 0;
    assert(all.take(0).filter(|r: IconRuleView| r.id != id@) =~= Seq::<IconRuleView>::empty()) by {
        reveal(Seq::filter);
    }
    while i < rules.len()
        invariant
            i <= rules@.len(),
            all == rules_view(rules@),
            rules@ == old(rules)@,
            rules_view(kept@) == all.take(i as int).filter(|r: IconRuleView| r.id != id@),
        decreases rules.len() - i,
    {
        let ghost before = rules_view(kept@);
        let same = str_eq(rules[i].id.as_str(), id);
        if !same {
            kept.push(rules[i].copy());
        }
        proof {
            reveal(Seq::filter);
            assert(all.take(i + 1).drop_last() =~= all.take(i as int));
            assert(all.take(i + 1).last() == all[i as int]);
            assert(rules_view(kept@) =~= if same { before } else { before.push(all[i as int]) });
        }
        i = i + 1;
    }
    assert(all.take(rules@.len() as int) =~= all);
    *rules = kept;
}

/// Puts `rule` in place of every rule for its target and kind: the others
/// keep their order and the new rule comes last.
pub fn upsert_rule(rules: &mut Vec<IconRule>, rule: IconRule)
    ensures
        rules_view(final(rules)@) == others(rules_view(old(rules)@), rule.target@, rule.kind@).push(rule@),
{
    remove_rules_for(rules, rule.target.as_str(), rule.kind.as_str());
    let ghost kept = rules_view(rules@);
    rules.push(rule);
    assert(rules_view(rules@) =~= kept.push(rule@));
}

/// After a rule is put in place, it is the only rule for its target and
/// kind, and every other rule is still there.
pub proof fn lemma_upsert_keeps_one(old_rules: Seq<IconRuleView>, rule: IconRuleView)
    ensures
        ({
            let new_rules = others(old_rules, rule.target, rule.kind).push(rule);
            &&& forall|i: int|
                0 <= i < new_rules.len() ==> (same_key(#[trigger] new_rules[i], rule.target, rule.kind)
                    <==> i == new_rules.len() - 1)
            &&& forall|i: int|
                0 <= i < old_rules.len() && !same_key(#[trigger] old_rules[i], rule.target, rule.kind)
                    ==> new_rules.contains(old_rules[i])
        }),
{
    let pred = |r: IconRuleView| !same_key(r, rule.target, rule.kind);
    let kept = old_rules.filter(pred);
    let new_rules = kept.push(rule);
    assert forall|i: int| 0 <= i < new_rules.len() implies (same_key(#[trigger] new_rules[i], rule.target, rule.kind)
        <==> i == new_rules.len() - 1) by {
        if i < kept.len() {
            old_rules.lemma_filter_pred(pred, i);
            assert(new_rules[i] == kept[i]);
        }
    }
    assert forall|i: int|
        0 <= i < old_rules.len() && !same_key(#[trigger] old_rules[i], rule.target, rule.kind) implies new_rules.contains(
        old_rules[i],
    ) by {
        old_rules.lemma_filter_contains(pred, i);
        let k = choose|k: int| 0 <= k < kept.len() && kept[k] == old_rules[i];
        assert(new_rules[k] == old_rules[i]);
    }
}

/// Restoring a target stops its protection: once the rules for `target` of
/// `kind` are removed, none is left, and every other rule is kept.
pub proof fn lemma_restore_leaves_no_rule(rules: Seq<IconRuleView>, target: Seq<char>, kind: Seq<char>)
    ensures
        forall|i: int|
            0 <= i < others(rules, target, kind).len() ==> !same_key(
                #[trigger] others(rules, target, kind)[i],
                target,
                kind,
            ),
        forall|i: int|
            0 <= i < rules.len() && !same_key(#[trigger] rules[i], target, kind) ==> others(
                rules,
                target,
                kind,
            ).contains(rules[i]),
{
    let pred = |r: IconRuleView| !same_key(r, target, kind);
    assert forall|i: int| 0 <= i < others(rules, target, kind).len() implies !same_key(
        #[trigger] others(rules, target, kind)[i],
        target,
        kind,
    ) by {
        rules.lemma_filter_pred(pred, i);
    }
    assert forall|i: int| 0 <= i < rules.len() && !same_key(#[trigger] rules[i], target, kind) implies others(
        rules,
        target,
        kind,
    ).contains(rules[i]) by {
        rules.lemma_filter_contains(pred, i);
    }
}

/// Deleting a rule removes every rule with its id and keeps the others.
pub proof fn lemma_delete_leaves_no_rule(rules: Seq<IconRuleView>, id: Seq<char>)
    ensures
        forall|i: int| 0 <= i < without_id(rules, id).len() ==> (#[trigger] without_id(rules, id)[i]).id != id,
        forall|i: int| 0 <= i < rules.len() && (#[trigger] rules[i]).id != id ==> without_id(rules, id).contains(rules[i]),
{
    let pred = |r: IconRuleView| r.id != id;
    assert forall|i: int| 0 <= i < without_id(rules, id).len() implies (#[trigger] without_id(rules, id)[i]).id != id by {
        rules.lemma_filter_pred(pred, i);
    }
    assert forall|i: int| 0 <= i < rules.len() && (#[trigger] rules[i]).id != id implies without_id(rules, id).contains(
        rules[i],
    ) by {
        rules.lemma_filter_contains(pred, i);
    }
}

/// Turns protection of the first rule with the id `id` on or off; the other
/// rules are untouched, and nothing changes where no rule has the id.
pub fn toggle_rule(rules: &mut Vec<IconRule>, id: &str, enabled: bool)
    ensures
        final(rules)@.len() == old(rules)@.len(),
        match find_first_id(rules_view(old(rules)@), id@) {
            Some(i) => rules_view(final(rules)@) == rules_view(old(rules)@).update(
                i,
                IconRuleView { enabled, ..rules_view(old(rules)@)[i] },
            ),
            None => rules_view(final(rules)@) == rules_view(old(rules)@),
        },
{
    let found = find_rule_by_id(rules, id);
    proof {
        lemma_find_first_id(rules_view(rules@), id@);
    }
    match found {
        Some(i) => {
            let mut rule = rules[i].copy();
            rule.enabled = enabled;
            let ghost before = rules_view(rules@);
            rules.set(i, rule);
            proof {
                assert(rules_view(rules@) =~= before.update(i as int, IconRuleView { enabled, ..before[i as int] }));
            }
        },
        None => {},
    }
}

/// The index of the first rule with the id `id`.
pub open spec fn find_first_id(rules: Seq<IconRuleView>, id: Seq<char>) -> Option<int>
    decreases rules.len(),
{
    if rules.len() == 0 {
        None
    } else {
        match find_first_id(rules.drop_last(), id) {
            Some(i) => Some(i),
            None => if rules.last().id == id { Some(rules.len() - 1) } else { None },
        }
    }
}

/// `find_first_id` is the first index with the id, or `None` where no rule
/// has it.
pub proof fn lemma_find_first_id(rules: Seq<IconRuleView>, id: Seq<char>)
    ensures
        match find_first_id(rules, id) {
            Some(i) => 0 <= i < rules.len() && rules[i].id == id && forall|j: int|
                0 <= j < i ==> #[trigger] rules[j].id != id,
            None => forall|j: int| 0 <= j < rules.len() ==> #[trigger] rules[j].id != id,
        },
    decreases rules.len(),
{
    if rules.len() > 0 {
        lemma_find_first_id(rules.drop_last(), id);
        assert forall|j: int| 0 <= j < rules.len() - 1 implies rules.drop_last()[j] == rules[j] by {}
    }
}

/// The backup saved for `value` in a list of applied targets: that of the
/// first entry for `value`, if any.
pub open spec fn backup_for(items: Seq<AppliedTargetView>, value: Seq<char>) -> Option<Seq<char>>
    decreases items.len(),
{
    if items.len() == 0 {
        None
    } else if items[0].target == value {
        items[0].backup
    } else {
        backup_for(items.drop_first(), value)
    }
}

/// The backup an earlier rule for the same target and kind saved for `value`.
pub open spec fn previous_backup(existing: Option<IconRuleView>, value: Seq<char>) -> Option<Seq<char>> {
    match existing {
        Some(r) => backup_for(r.applied_targets, value),
        None => None,
    }
}

/// In a list of applied targets, the backup found for `value` is that of the
/// first entry with that path, wherever it stands; with no entry for `value`
/// there is none.
proof fn lemma_backup_for_first_match(items: Seq<AppliedTargetView>, value: Seq<char>)
    ensures
        forall|k: int|
            0 <= k < items.len() && #[trigger] items[k].target == value && (forall|j: int|
                0 <= j < k ==> items[j].target != value) ==> backup_for(items, value) == items[k].backup,
        (forall|k: int| 0 <= k < items.len() ==> #[trigger] items[k].target != value) ==> backup_for(
            items,
            value,
        ) is None,
    decreases items.len(),
{
    if items.len() > 0 {
        let rest = items.drop_first();
        lemma_backup_for_first_match(rest, value);
        assert forall|k: int|
            0 <= k < items.len() && #[trigger] items[k].target == value && (forall|j: int|
                0 <= j < k ==> items[j].target != value) implies backup_for(items, value) == items[k].backup by {
            if k > 0 {
                assert(items[0].target != value);
                assert(rest[k - 1] == items[k]);
                assert forall|j: int| 0 <= j < k - 1 implies rest[j].target != value by {
                    assert(rest[j] == items[j + 1]);
                }
            }
        }
        if forall|k: int| 0 <= k < items.len() ==> #[trigger] items[k].target != value {
            assert(items[0].target != value);
            assert forall|k: int| 0 <= k < rest.len() implies #[trigger] rest[k].target != value by {
                assert(rest[k] == items[k + 1]);
            }
        }
    }
}

/// Applying an icon again keeps the first backup of every target: the backup
/// an earlier rule gives for `value` is that of its first applied target with
/// the path `value`, at whatever position it stands, and there is none where
/// the earlier rule has no such target or there is no earlier rule.
pub proof fn lemma_previous_backup_is_first_match(existing: Option<IconRuleView>, value: Seq<char>)
    ensures
        existing is None ==> previous_backup(existing, value) is None,
        existing matches Some(r) ==> forall|k: int|
            0 <= k < r.applied_targets.len() && #[trigger] r.applied_targets[k].target == value && (forall|j: int|
                0 <= j < k ==> r.applied_targets[j].target != value) ==> previous_backup(existing, value)
                == r.applied_targets[k].backup,
        existing matches Some(r) ==> ((forall|k: int|
            0 <= k < r.applied_targets.len() ==> #[trigger] r.applied_targets[k].target != value) ==> previous_backup(
            existing,
            value,
        ) is None),
{
    if let Some(r) = existing {
        lemma_backup_for_first_match(r.applied_targets, value);
    }
}

/// `a`, else `b`.
pub open spec fn or_else(a: Option<Seq<char>>, b: Option<Seq<char>>) -> Option<Seq<char>> {
    match a {
        Some(x) => Some(x),
        None => b,
    }
}

/// The backup an earlier rule saved for `value`.
pub fn previous_backup_of(existing: &Option<IconRule>, value: &str) -> (r: Option<String>)
    ensures
        opt_view(r) == previous_backup(
            match existing {
                Some(e) => Some(e@),
                None => None,
            },
            value@,
        ),
{
    match existing {
        None => None,
        Some(rule) => {
            let items = &rule.applied_targets;
            let ghost all = applied_view(items@);
            let mut i: usize = 0;
            assert(all.skip(0) =~= all);
            while i < items.len()
                invariant
                    i <= items@.len(),
                    all == applied_view(items@),
                    all == rule@.applied_targets,
                    backup_for(all, value@) == backup_for(all.skip(i as int), value@),
                    previous_backup(
                        match existing {
                            Some(e) => Some(e@),
                            None => None,
                        },
                        value@,
                    ) == backup_for(all, value@),
                decreases items.len() - i,
            {
                proof {
                    assert(all.skip(i as int)[0] == all[i as int]);
                    assert(all.skip(i as int).drop_first() =~= all.skip(i + 1));
                }
                if str_eq(items[i].target.as_str(), value) {
                    assert(all[i as int] == items@[i as int]@);
                    assert(all.skip(i as int)[0].target == value@);
                    assert(backup_for(all.skip(i as int), value@) == all[i as int].backup);
                    let r = copy_opt_string(&items[i].backup);
                    assert(opt_view(r) == all[i as int].backup);
                    return r;
                }
                i = i + 1;
            }
            None
        },
    }
}

/// An application of an icon to a list of targets, in order. Each target
/// keeps the backup an earlier rule saved for it; a new backup is taken only
/// where there is none.
pub struct ApplySession {
    existing: Option<IconRule>,
    targets: Vec<String>,
    applied: Vec<AppliedTarget>,
    results: Ghost<Seq<Option<Seq<char>>>>,
}

/// An application in progress as values: the earlier rule, the targets, the
/// targets done so far, and the backups the platform returned for them.
pub struct ApplySessionView {
    pub existing: Option<IconRuleView>,
    pub targets: Seq<Seq<char>>,
    pub applied: Seq<AppliedTargetView>,
    pub results: Seq<Option<Seq<char>>>,
}

impl View for ApplySession {
    type V = ApplySessionView;

    closed spec fn view(&self) -> ApplySessionView {
        ApplySessionView {
            existing: match self.existing {
                Some(e) => Some(e@),
                None => None,
            },
            targets: crate::model::strings_view(self.targets@),
            applied: applied_view(self.applied@),
            results: self.results@,
        }
    }
}

impl ApplySessionView {
    /// Each done target is recorded with the earlier backup, else the new one.
    pub open spec fn inv(self) -> bool {
        &&& self.applied.len() == self.results.len()
        &&& self.applied.len() <= self.targets.len()
        &&& forall|k: int|
            0 <= k < self.applied.len() ==> #[trigger] self.applied[k] == AppliedTargetView {
                target: self.targets[k],
                backup: or_else(previous_backup(self.existing, self.targets[k]), self.results[k]),
            }
    }
}

impl ApplySession {
    /// Starts applying to `targets`, with the rule already kept for the same
    /// target and kind, if any.
    pub fn new(existing: Option<IconRule>, targets: Vec<String>) -> (s: ApplySession)
        ensures
            s@.inv(),
            s@.existing == (match existing {
                Some(e) => Some(e@),
                None => None::<IconRuleView>,
            }),
            s@.targets == crate::model::strings_view(targets@),
            s@.applied.len() == 0,
    {
        let ghost none: Seq<Option<Seq<char>>> = Seq::empty();
        let s = ApplySession { existing, targets, applied: Vec::new(), results: Ghost(none) };
        assert(s@.applied =~= Seq::<AppliedTargetView>::empty());
        s
    }

    /// The next target, and whether the platform should save a backup for
    /// it (only where no earlier backup exists); `None` when all are done.
    pub fn next_target(&self) -> (r: Option<(String, bool)>)
        requires
            self@.inv(),
        ensures
            match r {
                Some((t, capture)) => self@.applied.len() < self@.targets.len() && t@
                    == self@.targets[self@.applied.len() as int] && capture == (previous_backup(
                    self@.existing,
                    t@,
                ) is None),
                None => self@.applied.len() == self@.targets.len(),
            },
    {
        let k = self.applied.len();
        if k < self.targets.len() {
            let t = self.targets[k].clone();
            let prev = previous_backup_of(&self.existing, t.as_str());
            let capture = prev.is_none();
            Some((t, capture))
        } else {
            None
        }
    }

    /// Records the backup the platform returned for the next target.
    pub fn record(&mut self, backup: Option<String>)
        requires
            old(self)@.inv(),
            old(self)@.applied.len() < old(self)@.targets.len(),
        ensures
            final(self)@.inv(),
            final(self)@.existing == old(self)@.existing,
            final(self)@.targets == old(self)@.targets,
            final(self)@.results == old(self)@.results.push(opt_view(backup)),
            final(self)@.applied.len() == old(self)@.applied.len() + 1,
    {
        let k = self.applied.len();
        let t = self.targets[k].clone();
        let prev = previous_backup_of(&self.existing, t.as_str());
        let ghost b = opt_view(backup);
        let kept = match prev {
            Some(p) => Some(p),
            None => backup,
        };
        proof {
            self.results@ = self.results@.push(b);
        }
        let ghost before = applied_view(self.applied@);
        self.applied.push(AppliedTarget { target: t, backup: kept });
        proof {
            assert(applied_view(self.applied@) =~= before.push(applied_view(self.applied@).last()));
        }
    }

    /// The rule the application leaves behind. Its backup is the earlier
    /// rule's, else that of its first target; it is enabled and monitored as
    /// asked, marked `ok`, and stamped with `now`.
    pub fn finish(
        self,
        id: String,
        name: String,
        target: String,
        kind: String,
        icon_path: String,
        add_to_monitor: bool,
        now: u64,
        recursive_mode: String,
        max_depth: Option<usize>,
    ) -> (rule: IconRule)
        requires
            self@.inv(),
            self@.applied.len() == self@.targets.len(),
        ensures
            rule@ == (IconRuleView {
                id: id@,
                name: name@,
                target: target@,
                kind: kind@,
                icon_path: icon_path@,
                enabled: add_to_monitor,
                monitored: add_to_monitor,
                last_applied: Some(now),
                status: Some("ok"@),
                backup: or_else(
                    match self@.existing {
                        Some(e) => e.backup,
                        None => None,
                    },
                    if self@.applied.len() > 0 {
                        self@.applied[0].backup
                    } else {
                        None
                    },
                ),
                recursive_mode: recursive_mode@,
                max_depth,
                applied_targets: self@.applied,
            }),
    {
        let earlier = match &self.existing {
            Some(e) => copy_opt_string(&e.backup),
            None => None,
        };
        let first = if self.applied.len() > 0 {
            copy_opt_string(&self.applied[0].backup)
        } else {
            None
        };
        let backup = match earlier {
            Some(b) => Some(b),
            None => first,
        };
        IconRule {
            id,
            name,
            target,
            kind,
            icon_path,
            enabled: add_to_monitor,
            monitored: add_to_monitor,
            last_applied: Some(now),
            status: Some(String::from_str("ok")),
            backup,
            recursive_mode,
            max_depth,
            applied_targets: self.applied,
        }
    }
}

/// Applying again never loses the first backup: a target that an earlier
/// rule saved a backup for keeps that backup, whatever the platform returns
/// now, and no new one is asked for.
pub proof fn lemma_reapply_keeps_backup(s: ApplySessionView, k: int, saved: Seq<char>)
    requires
        s.inv(),
        0 <= k < s.applied.len(),
        previous_backup(s.existing, s.targets[k]) == Some(saved),
    ensures
        s.applied[k].backup == Some(saved),
{
    assert(s.applied[k] == AppliedTargetView {
        target: s.targets[k],
        backup: or_else(previous_backup(s.existing, s.targets[k]), s.results[k]),
    });
}

/// One target to restore: the path, its kind, and the backup saved for it.
#[derive(Debug, Clone, PartialEq, Eq)]
pub struct RestoreItem {
    pub target: String,
    pub kind: String,
    pub backup: Option<String>,
}

/// A restore item as values.
pub open spec fn item_view(i: RestoreItem) -> (Seq<char>, Seq<char>, Option<Seq<char>>) {
    (i.target@, i.kind@, opt_view(i.backup))
}

/// What restoring a rule goes through: each target it was applied to, with
/// its backup, or the rule's own target where it records none.
pub open spec fn rule_restore_items(r: IconRuleView) -> Seq<(Seq<char>, Seq<char>, Option<Seq<char>>)> {
    if r.applied_targets.len() == 0 {
        seq![(r.target, r.kind, r.backup)]
    } else {
        r.applied_targets.map_values(|a: AppliedTargetView| (a.target, r.kind, a.backup))
    }
}

/// The targets to restore for a rule, in order.
pub fn restore_items(rule: &IconRule) -> (v: Vec<RestoreItem>)
    ensures
        v@.map_values(|i: RestoreItem| item_view(i)) == rule_restore_items(rule@),
{
    let mut v: Vec<RestoreItem> = Vec::new();
    let n = rule.applied_targets.len();
    if n == 0 {
        v.push(RestoreItem { target: rule.target.clone(), kind: rule.kind.clone(), backup: copy_opt_string(&rule.backup) });
        assert(v@.map_values(|i: RestoreItem| item_view(i)) =~= rule_restore_items(rule@));
        return v;
    }
    let ghost want = rule_restore_items(rule@);
    let mut i: usize = 0;
    while i < n
        invariant
            n == rule.applied_targets@.len(),
            n > 0,
            i <= n,
            want == rule_restore_items(rule@),
            v@.map_values(|x: RestoreItem| item_view(x)) == want.take(i as int),
        decreases n - i,
    {
        let a = &rule.applied_targets[i];
        let ghost before = v@.map_values(|x: RestoreItem| item_view(x));
        assert(rule@.applied_targets[i as int] == a@);
        assert(want[i as int] == (a.target@, rule.kind@, opt_view(a.backup)));
        let item = RestoreItem { target: a.target.clone(), kind: rule.kind.clone(), backup: copy_opt_string(&a.backup) };
        assert(item_view(item) == want[i as int]);
        v.push(item);
        assert(v@.map_values(|x: RestoreItem| item_view(x)) =~= before.push(want[i as int]));
        assert(want.take(i + 1) =~= want.take(i as int).push(want[i as int]));
        i = i + 1;
    }
    assert(want.take(n as int) =~= want);
    v
}

/// The targets to restore for all rules for `target` of `kind`, rule by rule.
pub open spec fn items_for_rules(rules: Seq<IconRuleView>, target: Seq<char>, kind: Seq<char>) -> Seq<(Seq<char>, Seq<char>, Option<Seq<char>>)>
    decreases rules.len(),
{
    if rules.len() == 0 {
        Seq::empty()
    } else {
        items_for_rules(rules.drop_last(), target, kind) + if same_key(rules.last(), target, kind) {
            rule_restore_items(rules.last())
        } else {
            Seq::empty()
        }
    }
}

/// What restoring `target` of `kind` goes through: the targets of every rule
/// for it, or the target itself, without a backup, where no rule is kept.
pub open spec fn target_restore_items(rules: Seq<IconRuleView>, target: Seq<char>, kind: Seq<char>) -> Seq<(Seq<char>, Seq<char>, Option<Seq<char>>)> {
    if forall|j: int| 0 <= j < rules.len() ==> !same_key(#[trigger] rules[j], target, kind) {
        seq![(target, kind, None)]
    } else {
        items_for_rules(rules, target, kind)
    }
}

/// The targets to restore for `target` of `kind`, in order.
pub fn restore_target_items(rules: &Vec<IconRule>, target: &str, kind: &str) -> (v: Vec<RestoreItem>)
    ensures
        v@.map_values(|i: RestoreItem| item_view(i)) == target_restore_items(rules_view(rules@), target@, kind@),
{
    let ghost all = rules_view(rules@);
    let mut v: Vec<RestoreItem> = Vec::new();
    let mut found = false;
    let mut i: usize = 0;
    assert(all.take(0) =~= Seq::<IconRuleView>::empty());
    while i < rules.len()
        invariant
            i <= rules@.len(),
            all == rules_view(rules@),
            v@.map_values(|x: RestoreItem| item_view(x)) == items_for_rules(all.take(i as int), target@, kind@),
            found <==> exists|j: int| 0 <= j < i && same_key(#[trigger] all[j], target@, kind@),
        decreases rules.len() - i,
    {
        let ghost before = v@.map_values(|x: RestoreItem| item_view(x));
        let same = str_eq(rules[i].target.as_str(), target) && str_eq(rules[i].kind.as_str(), kind);
        if same {
            found = true;
            let mut more = restore_items(&rules[i]);
            let ghost extra = more@.map_values(|x: RestoreItem| item_view(x));
            v.append(&mut more);
            assert(v@.map_values(|x: RestoreItem| item_view(x)) =~= before + extra);
        }
        proof {
            assert(all.take(i + 1).drop_last() =~= all.take(i as int));
            assert(all.take(i + 1).last() == all[i as int]);
            if !same {
                assert(v@.map_values(|x: RestoreItem| item_view(x)) =~= before + Seq::empty());
            }
            if same {
                assert(same_key(all[i as int], target@, kind@));
            }
        }
        i = i + 1;
    }
    assert(all.take(rules@.len() as int) =~= all);
    if !found {
        let mut w: Vec<RestoreItem> = Vec::new();
        w.push(RestoreItem { target: String::from_str(target), kind: String::from_str(kind), backup: None });
        assert(w@.map_values(|x: RestoreItem| item_view(x)) =~= seq![(target@, kind@, None::<Seq<char>>)]);
        return w;
    }
    v
}

/// The status of a rule whose target is gone.
pub open spec fn status_target_gone() -> Seq<char> {
    "目标已失效"@
}

/// The status of a rule whose icon file is gone.
pub open spec fn status_icon_gone() -> Seq<char> {
    "图标资源已丢失"@
}

/// What the monitor learns of a rule on disk: whether its target exists as
/// a directory and as a file, and whether its icon file exists.
#[derive(Debug, Clone, Copy, PartialEq, Eq)]
pub struct RuleFacts {
    pub is_dir: bool,
    pub is_file: bool,
    pub icon_exists: bool,
}

/// Checks a rule against the disk: a rule whose target fails its check, or
/// whose icon file is gone, is disabled and says why; a sound rule is left
/// as it is. Returns whether the rule is sound.
pub fn check_rule(rule: &mut IconRule, facts: RuleFacts) -> (ok: bool)
    ensures
        ok == (target_check(old(rule)@.target, old(rule)@.kind, facts.is_dir, facts.is_file) is Ok
            && facts.icon_exists),
        target_check(old(rule)@.target, old(rule)@.kind, facts.is_dir, facts.is_file) is Err ==> final(rule)@
            == (IconRuleView { enabled: false, status: Some(status_target_gone()), ..old(rule)@ }),
        target_check(old(rule)@.target, old(rule)@.kind, facts.is_dir, facts.is_file) is Ok && !facts.icon_exists
            ==> final(rule)@ == (IconRuleView { enabled: false, status: Some(status_icon_gone()), ..old(rule)@ }),
        ok ==> final(rule)@ == old(rule)@,
{
    let valid = validate_target(rule.target.as_str(), rule.kind.as_str(), facts.is_dir, facts.is_file);
    if valid.is_err() {
        rule.enabled = false;
        rule.status = Some(String::from_str("目标已失效"));
        false
    } else if !facts.icon_exists {
        rule.enabled = false;
        rule.status = Some(String::from_str("图标资源已丢失"));
        false
    } else {
        true
    }
}

/// Checks every rule against the facts gathered for it.
pub fn check_rules(rules: &mut Vec<IconRule>, facts: &Vec<RuleFacts>)
    requires
        facts@.len() == old(rules)@.len(),
    ensures
        final(rules)@.len() == old(rules)@.len(),
        forall|i: int|
            0 <= i < old(rules)@.len() ==> {
                let r = #[trigger] old(rules)@[i]@;
                let f = facts@[i];
                let c = target_check(r.target, r.kind, f.is_dir, f.is_file);
                &&& c is Err ==> final(rules)@[i]@ == (IconRuleView {
                    enabled: false,
                    status: Some(status_target_gone()),
                    ..r
                })
                &&& c is Ok && !f.icon_exists ==> final(rules)@[i]@ == (IconRuleView {
                    enabled: false,
                    status: Some(status_icon_gone()),
                    ..r
                })
                &&& c is Ok && f.icon_exists ==> final(rules)@[i]@ == r
            },
{
    let mut i: usize = 0;
    while i < rules.len()
        invariant
            i <= rules@.len(),
            rules@.len() == old(rules)@.len(),
            facts@.len() == old(rules)@.len(),
            forall|j: int| i <= j < rules@.len() ==> #[trigger] rules@[j] == old(rules)@[j],
            forall|j: int|
                0 <= j < i ==> {
                    let r = #[trigger] old(rules)@[j]@;
                    let f = facts@[j];
                    let c = target_check(r.target, r.kind, f.is_dir, f.is_file);
                    &&& c is Err ==> rules@[j]@ == (IconRuleView {
                        enabled: false,
                        status: Some(status_target_gone()),
                        ..r
                    })
                    &&& c is Ok && !f.icon_exists ==> rules@[j]@ == (IconRuleView {
                        enabled: false,
                        status: Some(status_icon_gone()),
                        ..r
                    })
                    &&& c is Ok && f.icon_exists ==> rules@[j]@ == r
                },
        decreases rules.len() - i,
    {
        let mut rule = rules[i].copy();
        check_rule(&mut rule, facts[i]);
        rules.set(i, rule);
        i = i + 1;
    }
}

/// Whether the monitor repairs a rule: it is monitored and enabled.
pub fn needs_repair(rule: &IconRule) -> (b: bool)
    ensures
        b == (rule.monitored && rule.enabled),
{
    rule.monitored && rule.enabled
}

/// Whether `value` is among the rule's applied targets.
pub open spec fn known_target(r: IconRuleView, value: Seq<char>) -> bool {
    exists|k: int| 0 <= k < r.applied_targets.len() && #[trigger] r.applied_targets[k].target == value
}

/// Whether the rule already records `value` among its applied targets. A
/// repair asks for a backup only of targets it does not know yet.
pub fn is_known_target(rule: &IconRule, value: &str) -> (b: bool)
    ensures
        b == known_target(rule@, value@),
{
    let mut i: usize = 0;
    while i < rule.applied_targets.len()
        invariant
            i <= rule.applied_targets@.len(),
            forall|k: int| 0 <= k < i ==> #[trigger] rule@.applied_targets[k].target != value@,
        decreases rule.applied_targets.len() - i,
    {
        if str_eq(rule.applied_targets[i].target.as_str(), value) {
            assert(rule@.applied_targets[i as int].target == value@);
            return true;
        }
        i = i + 1;
    }
    false
}

/// The outcome of re-applying an icon as values: the backup taken, or the
/// error.
pub open spec fn outcome_view(o: Result<Option<String>, String>) -> Result<Option<Seq<char>>, Seq<char>> {
    match o {
        Ok(b) => Ok(opt_view(b)),
        Err(e) => Err(e@),
    }
}

/// The rule after one re-application of its icon to `value` during a
/// repair: a success on a target the rule did not know yet adds that target
/// with the backup taken; anything else leaves the rule as it is.
pub open spec fn after_repair_step(
    r: IconRuleView,
    value: Seq<char>,
    outcome: Result<Option<Seq<char>>, Seq<char>>,
) -> IconRuleView {
    match outcome {
        Ok(b) => if known_target(r, value) {
            r
        } else {
            IconRuleView {
                applied_targets: r.applied_targets.push(AppliedTargetView { target: value, backup: b }),
                ..r
            }
        },
        Err(_) => r,
    }
}

/// The rule after a whole repair, one step per target in order.
pub open spec fn after_repair(
    r: IconRuleView,
    steps: Seq<(Seq<char>, Result<Option<Seq<char>>, Seq<char>>)>,
) -> IconRuleView
    decreases steps.len(),
{
    if steps.len() == 0 {
        r
    } else {
        after_repair_step(after_repair(r, steps.drop_last()), steps.last().0, steps.last().1)
    }
}

/// Whether no two applied targets name the same path.
pub open spec fn targets_distinct(s: Seq<AppliedTargetView>) -> bool {
    forall|a: int, b: int| 0 <= a < b < s.len() ==> #[trigger] s[a].target != #[trigger] s[b].target
}

/// Records the outcome of re-applying a rule's icon to `value` during a
/// repair: a success counts, and a target the rule did not know yet is added
/// with the backup taken; a failure is remembered as the rule's last error.
pub fn record_repair(
    rule: &mut IconRule,
    value: String,
    outcome: Result<Option<String>, String>,
    failed: &mut Option<String>,
    count: &mut usize,
)
    requires
        *old(count) < usize::MAX,
    ensures
        final(rule)@ == after_repair_step(old(rule)@, value@, outcome_view(outcome)),
        match outcome {
            Ok(_) => *final(count) == *old(count) + 1 && *final(failed) == *old(failed),
            Err(e) => *final(count) == *old(count) && *final(failed) == Some(e),
        },
{
    let known = is_known_target(rule, value.as_str());
    match outcome {
        Ok(backup) => {
            if !known {
                let ghost before = rule@.applied_targets;
                rule.applied_targets.push(AppliedTarget { target: value, backup });
                assert(applied_view(rule.applied_targets@) =~= before.push(
                    applied_view(rule.applied_targets@).last(),
                ));
            }
            *count = *count + 1;
        },
        Err(e) => {
            *failed = Some(e);
        },
    }
}

/// A repair keeps every backup it started with: whatever the outcomes of
/// re-applying the icon to each target in turn, the applied targets the rule
/// had stay, unchanged and first; the rest of the rule is untouched; each
/// target added came from a success on it and holds the backup that success
/// took; every target that succeeded is recorded; and targets recorded once
/// each stay recorded once each.
pub proof fn lemma_repair_keeps_backups(
    r: IconRuleView,
    steps: Seq<(Seq<char>, Result<Option<Seq<char>>, Seq<char>>)>,
)
    ensures
        ({
            let f = after_repair(r, steps);
            &&& r.applied_targets.len() <= f.applied_targets.len()
            &&& f.applied_targets.subrange(0, r.applied_targets.len() as int) == r.applied_targets
            &&& f == (IconRuleView { applied_targets: f.applied_targets, ..r })
            &&& forall|k: int|
                #![trigger f.applied_targets[k]]
                r.applied_targets.len() <= k < f.applied_targets.len() ==> exists|i: int|
                    0 <= i < steps.len() && #[trigger] steps[i] == (
                        f.applied_targets[k].target,
                        Ok::<Option<Seq<char>>, Seq<char>>(f.applied_targets[k].backup),
                    )
            &&& forall|i: int| 0 <= i < steps.len() && (#[trigger] steps[i]).1 is Ok ==> known_target(f, steps[i].0)
            &&& targets_distinct(r.applied_targets) ==> targets_distinct(f.applied_targets)
        }),
    decreases steps.len(),
{
    if steps.len() > 0 {
        let prev_steps = steps.drop_last();
        lemma_repair_keeps_backups(r, prev_steps);
        let p = after_repair(r, prev_steps);
        let f = after_repair(r, steps);
        let (value, outcome) = steps.last();
        assert(f == after_repair_step(p, value, outcome));
        assert(p.applied_targets.subrange(0, p.applied_targets.len() as int) =~= p.applied_targets);
        assert(f.applied_targets.subrange(0, p.applied_targets.len() as int) =~= p.applied_targets);
        assert(f.applied_targets.subrange(0, r.applied_targets.len() as int) =~= p.applied_targets.subrange(
            0,
            r.applied_targets.len() as int,
        ));
        assert forall|k: int|
            #![trigger f.applied_targets[k]]
            r.applied_targets.len() <= k < f.applied_targets.len() implies exists|i: int|
                0 <= i < steps.len() && #[trigger] steps[i] == (
                    f.applied_targets[k].target,
                    Ok::<Option<Seq<char>>, Seq<char>>(f.applied_targets[k].backup),
                ) by {
            if k < p.applied_targets.len() {
                assert(f.applied_targets[k] == p.applied_targets[k]);
                let i = choose|i: int|
                    0 <= i < prev_steps.len() && #[trigger] prev_steps[i] == (
                        p.applied_targets[k].target,
                        Ok::<Option<Seq<char>>, Seq<char>>(p.applied_targets[k].backup),
                    );
                assert(steps[i] == prev_steps[i]);
            } else {
                assert(steps[steps.len() - 1] == (value, outcome));
            }
        }
        assert forall|i: int| 0 <= i < steps.len() && (#[trigger] steps[i]).1 is Ok implies known_target(
            f,
            steps[i].0,
        ) by {
            if i < steps.len() - 1 {
                assert(steps[i] == prev_steps[i]);
                assert(known_target(p, steps[i].0));
                let k = choose|k: int| 0 <= k < p.applied_targets.len() && #[trigger] p.applied_targets[k].target == steps[i].0;
                assert(f.applied_targets[k] == p.applied_targets[k]);
            } else {
                assert(steps[i] == (value, outcome));
                if !known_target(p, value) {
                    assert(f.applied_targets[p.applied_targets.len() as int].target == value);
                } else {
                    let k = choose|k: int| 0 <= k < p.applied_targets.len() && #[trigger] p.applied_targets[k].target == value;
                    assert(f.applied_targets[k] == p.applied_targets[k]);
                }
            }
        }
        if targets_distinct(r.applied_targets) {
            assert forall|a: int, b: int| 0 <= a < b < f.applied_targets.len() implies #[trigger] f.applied_targets[a].target
                != #[trigger] f.applied_targets[b].target by {
                if b < p.applied_targets.len() {
                    assert(f.applied_targets[a] == p.applied_targets[a]);
                    assert(f.applied_targets[b] == p.applied_targets[b]);
                } else {
                    assert(f.applied_targets[a] == p.applied_targets[a]);
                    if f.applied_targets[a].target == f.applied_targets[b].target {
                        assert(known_target(p, value));
                    }
                }
            }
        }
    }
}

/// Closes the repair of a rule: its status is the last error, else `ok`,
/// and it is stamped with `now`.
pub fn finish_repair(rule: &mut IconRule, failed: Option<String>, now: u64)
    ensures
        final(rule)@ == (IconRuleView {
            status: Some(
                match failed {
                    Some(e) => e@,
                    None => "ok"@,
                },
            ),
            last_applied: Some(now),
            ..old(rule)@
        }),
{
    let status = match failed {
        Some(e) => e,
        None => String::from_str("ok"),
    };
    rule.status = Some(status);
    rule.last_applied = Some(now);
}

} // verus!
