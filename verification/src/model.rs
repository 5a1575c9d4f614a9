//! The persisted data of the application: icon rules, the targets each rule
//! was applied to, easter batches, and the settings that hold them.

use vstd::prelude::*;

verus! {

/// One path an icon rule was applied to, with what was saved to undo it.
#[derive(Debug, Clone, PartialEq, Eq)]
pub struct AppliedTarget {
    pub target: String,
    pub backup: Option<String>,
}

/// A custom icon applied to a target, and how it is kept up.
#[derive(Debug, Clone, PartialEq, Eq)]
pub struct IconRule {
    pub id: String,
    pub name: String,
    pub target: String,
    pub kind: String,
    pub icon_path: String,
    pub enabled: bool,
    pub monitored: bool,
    pub last_applied: Option<u64>,
    pub status: Option<String>,
    pub backup: Option<String>,
    pub recursive_mode: String,
    pub max_depth: Option<usize>,
    pub applied_targets: Vec<AppliedTarget>,
}

/// One target changed by an easter batch, with its kind and backup.
#[derive(Debug, Clone, PartialEq, Eq)]
pub struct EasterItem {
    pub target: String,
    pub kind: String,
    pub backup: Option<String>,
}

/// A batch that replaced every icon under a root, restorable as a whole.
#[derive(Debug, Clone, PartialEq, Eq)]
pub struct EasterBatch {
    pub id: String,
    pub root: String,
    pub icon_path: String,
    pub created_at: u64,
    pub directory_count: usize,
    pub file_count: usize,
    pub extensions: Vec<String>,
    pub items: Vec<EasterItem>,
}

/// What an easter batch would cover.
#[derive(Debug, Clone, PartialEq, Eq)]
pub struct EasterPreview {
    pub directory_count: usize,
    pub file_count: usize,
    pub extensions: Vec<String>,
}

/// Everything the application stores.
#[derive(Debug, Clone, PartialEq, Eq)]
pub struct AppSettings {
    pub monitor_enabled: bool,
    pub monitor_interval_minutes: u64,
    pub autostart: bool,
    pub rules: Vec<IconRule>,
    pub easter_batches: Vec<EasterBatch>,
}


/// The characters of an optional string.
pub open spec fn opt_view(o: Option<String>) -> Option<Seq<char>> {
    match o {
        Some(s) => Some(s@),
        None => None,
    }
}

/// The characters of each string in a sequence.
pub open spec fn strings_view(v: Seq<String>) -> Seq<Seq<char>> {
    v.map_values(|s: String| s@)
}

/// An applied target as values.
pub struct AppliedTargetView {
    pub target: Seq<char>,
    pub backup: Option<Seq<char>>,
}

impl View for AppliedTarget {
    type V = AppliedTargetView;

    open spec fn view(&self) -> AppliedTargetView {
        AppliedTargetView { target: self.target@, backup: opt_view(self.backup) }
    }
}

/// The values of each applied target in a sequence.
pub open spec fn applied_view(v: Seq<AppliedTarget>) -> Seq<AppliedTargetView> {
    v.map_values(|a: AppliedTarget| a@)
}

/// An icon rule as values.
pub struct IconRuleView {
    pub id: Seq<char>,
    pub name: Seq<char>,
    pub target: Seq<char>,
    pub kind: Seq<char>,
    pub icon_path: Seq<char>,
    pub enabled: bool,
    pub monitored: bool,
    pub last_applied: Option<u64>,
    pub status: Option<Seq<char>>,
    pub backup: Option<Seq<char>>,
    pub recursive_mode: Seq<char>,
    pub max_depth: Option<usize>,
    pub applied_targets: Seq<AppliedTargetView>,
}

impl View for IconRule {
    type V = IconRuleView;

    open spec fn view(&self) -> IconRuleView {
        IconRuleView {
            id: self.id@,
            name: self.name@,
            target: self.target@,
            kind: self.kind@,
            icon_path: self.icon_path@,
            enabled: self.enabled,
            monitored: self.monitored,
            last_applied: self.last_applied,
            status: opt_view(self.status),
            backup: opt_view(self.backup),
            recursive_mode: self.recursive_mode@,
            max_depth: self.max_depth,
            applied_targets: applied_view(self.applied_targets@),
        }
    }
}

/// The values of each rule in a sequence.
pub open spec fn rules_view(v: Seq<IconRule>) -> Seq<IconRuleView> {
    v.map_values(|r: IconRule| r@)
}

/// An easter item as values.
pub struct EasterItemView {
    pub target: Seq<char>,
    pub kind: Seq<char>,
    pub backup: Option<Seq<char>>,
}

impl View for EasterItem {
    type V = EasterItemView;

    open spec fn view(&self) -> EasterItemView {
        EasterItemView { target: self.target@, kind: self.kind@, backup: opt_view(self.backup) }
    }
}

/// The values of each easter item in a sequence.
pub open spec fn items_view(v: Seq<EasterItem>) -> Seq<EasterItemView> {
    v.map_values(|a: EasterItem| a@)
}

/// An easter batch as values.
pub struct EasterBatchView {
    pub id: Seq<char>,
    pub root: Seq<char>,
    pub icon_path: Seq<char>,
    pub created_at: u64,
    pub directory_count: usize,
    pub file_count: usize,
    pub extensions: Seq<Seq<char>>,
    pub items: Seq<EasterItemView>,
}

impl View for EasterBatch {
    type V = EasterBatchView;

    open spec fn view(&self) -> EasterBatchView {
        EasterBatchView {
            id: self.id@,
            root: self.root@,
            icon_path: self.icon_path@,
            created_at: self.created_at,
            directory_count: self.directory_count,
            file_count: self.file_count,
            extensions: strings_view(self.extensions@),
            items: items_view(self.items@),
        }
    }
}

/// The values of each batch in a sequence.
pub open spec fn batches_view(v: Seq<EasterBatch>) -> Seq<EasterBatchView> {
    v.map_values(|b: EasterBatch| b@)
}

/// The recursion mode a stored rule gets when it names none.
pub fn default_recursive_mode() -> (mode: String)
    ensures
        mode@ == "none"@,
{
    String::from_str("none")
}

/// Whether a stored rule is monitored when it does not say.
pub fn default_true() -> (b: bool)
    ensures
        b,
{
    true
}

impl AppSettings {
    /// Settings of a first start: no protection, a ten-minute interval, no
    /// start at login, and no rules or batches.
    pub fn default() -> (s: AppSettings)
        ensures
            !s.monitor_enabled,
            s.monitor_interval_minutes == 10,
            !s.autostart,
            s.rules@.len() == 0,
            s.easter_batches@.len() == 0,
    {
        AppSettings {
            monitor_enabled: false,
            monitor_interval_minutes: 10,
            autostart: false,
            rules: Vec::new(),
            easter_batches: Vec::new(),
        }
    }
}

/// A copy of an optional string.
pub fn copy_opt_string(o: &Option<String>) -> (r: Option<String>)
    ensures
        r == *o,
{
    match o {
        Some(s) => Some(s.clone()),
        None => None,
    }
}

/// A copy of a vector of strings.
pub fn copy_strings(v: &Vec<String>) -> (r: Vec<String>)
    ensures
        r@ == v@,
{
    let mut r: Vec<String> = Vec::new();
    let mut i: usize = 0;
    while i < v.len()
        invariant
            i <= v.len(),
            r@ == v@.take(i as int),
        decreases v.len() - i,
    {
        r.push(v[i].clone());
        i = i + 1;
        assert(r@ =~= v@.take(i as int));
    }
    assert(v@.take(v.len() as int) =~= v@);
    r
}

impl AppliedTarget {
    /// A copy of this applied target.
    pub fn copy(&self) -> (r: AppliedTarget)
        ensures
            r == *self,
            r@ == self@,
    {
        AppliedTarget { target: self.target.clone(), backup: copy_opt_string(&self.backup) }
    }
}

/// A copy of a vector of applied targets.
pub fn copy_applied(v: &Vec<AppliedTarget>) -> (r: Vec<AppliedTarget>)
    ensures
        r@ == v@,
        applied_view(r@) == applied_view(v@),
{
    let mut r: Vec<AppliedTarget> = Vec::new();
    let mut i: usize = 0;
    while i < v.len()
        invariant
            i <= v.len(),
            r@ == v@.take(i as int),
        decreases v.len() - i,
    {
        r.push(v[i].copy());
        i = i + 1;
        assert(r@ =~= v@.take(i as int));
    }
    assert(v@.take(v.len() as int) =~= v@);
    r
}

impl IconRule {
    /// A copy of this rule.
    pub fn copy(&self) -> (r: IconRule)
        ensures
            r@ == self@,
    {
        IconRule {
            id: self.id.clone(),
            name: self.name.clone(),
            target: self.target.clone(),
            kind: self.kind.clone(),
            icon_path: self.icon_path.clone(),
            enabled: self.enabled,
            monitored: self.monitored,
            last_applied: self.last_applied,
            status: copy_opt_string(&self.status),
            backup: copy_opt_string(&self.backup),
            recursive_mode: self.recursive_mode.clone(),
            max_depth: self.max_depth,
            applied_targets: copy_applied(&self.applied_targets),
        }
    }
}

impl EasterItem {
    /// A copy of this item.
    pub fn copy(&self) -> (r: EasterItem)
        ensures
            r == *self,
            r@ == self@,
    {
        EasterItem {
            target: self.target.clone(),
            kind: self.kind.clone(),
            backup: copy_opt_string(&self.backup),
        }
    }
}

/// A copy of a vector of easter items.
pub fn copy_items(v: &Vec<EasterItem>) -> (r: Vec<EasterItem>)
    ensures
        items_view(r@) == items_view(v@),
{
    let mut r: Vec<EasterItem> = Vec::new();
    let mut i: usize = 0;
    while i < v.len()
        invariant
            i <= v.len(),
            items_view(r@) == items_view(v@).take(i as int),
        decreases v.len() - i,
    {
        let ghost before = items_view(r@);
        r.push(v[i].copy());
        assert(items_view(r@) =~= before.push(v@[i as int]@));
        i = i + 1;
        assert(items_view(r@) =~= items_view(v@).take(i as int));
    }
    assert(items_view(v@).take(v.len() as int) =~= items_view(v@));
    r
}

impl EasterBatch {
    /// A copy of this batch.
    pub fn copy(&self) -> (r: EasterBatch)
        ensures
            r@ == self@,
    {
        let extensions = copy_strings(&self.extensions);
        assert(strings_view(extensions@) =~= strings_view(self.extensions@));
        EasterBatch {
            id: self.id.clone(),
            root: self.root.clone(),
            icon_path: self.icon_path.clone(),
            created_at: self.created_at,
            directory_count: self.directory_count,
            file_count: self.file_count,
            extensions,
            items: copy_items(&self.items),
        }
    }
}

} // verus!
