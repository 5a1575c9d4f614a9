//! Easter batches: every icon under a root replaced at once, recorded as a
//! batch that is rolled back, or restored, in the reverse order of
//! application.

use vstd::prelude::*;
use crate::error::IconError;
use crate::model::{batches_view, copy_strings, items_view, strings_view, EasterBatch, EasterBatchView, EasterItem, EasterItemView, EasterPreview};
use crate::native::{backup_of, lemma_restore_gives_back, puts_back, restore_outcome, NativeRestore};
use crate::target::{extension_kind, Platform};
use crate::text::str_eq;
use crate::walk::WalkResult;

verus! {

/// What a finished easter walk would change.
pub fn preview_of(result: &WalkResult) -> (p: EasterPreview)
    ensures
        p.directory_count == result.dirs@.len(),
        p.file_count == result.files@.len(),
        strings_view(p.extensions@) == strings_view(result.extensions@),
{
    EasterPreview {
        directory_count: result.dirs.len(),
        file_count: result.files.len(),
        extensions: copy_strings(&result.extensions),
    }
}

/// One target of an easter batch and its kind.
#[derive(Debug, Clone, PartialEq, Eq)]
pub struct EasterTarget {
    pub target: String,
    pub kind: String,
}

/// The targets of an easter batch as values.
pub open spec fn targets_view(v: Seq<EasterTarget>) -> Seq<(Seq<char>, Seq<char>)> {
    v.map_values(|t: EasterTarget| (t.target@, t.kind@))
}

/// Pairs each text with a kind.
pub open spec fn with_kind(v: Seq<Seq<char>>, kind: Seq<char>) -> Seq<(Seq<char>, Seq<char>)> {
    v.map_values(|t: Seq<char>| (t, kind))
}

/// What an easter batch changes, in order: every directory as a folder;
/// then on macOS every file, on Windows every extension found.
pub open spec fn easter_targets_spec(platform: Platform, r: WalkResult) -> Seq<(Seq<char>, Seq<char>)> {
    with_kind(strings_view(r.dirs@), "folder"@) + match platform {
        Platform::MacOs => with_kind(strings_view(r.files@), "file"@),
        Platform::Windows => with_kind(strings_view(r.extensions@), "extension"@),
        Platform::Other => Seq::empty(),
    }
}

/// Appends each text with the kind.
fn push_all(out: &mut Vec<EasterTarget>, v: &Vec<String>, kind: &str)
    ensures
        targets_view(final(out)@) == targets_view(old(out)@) + with_kind(strings_view(v@), kind@),
{
    let ghost start = targets_view(out@);
    let mut i: usize = 0;
    while i < v.len()
        invariant
            i <= v@.len(),
            targets_view(out@) == start + with_kind(strings_view(v@), kind@).take(i as int),
        decreases v.len() - i,
    {
        let ghost before = targets_view(out@);
        out.push(EasterTarget { target: v[i].clone(), kind: String::from_str(kind) });
        assert(targets_view(out@) =~= before.push((v@[i as int]@, kind@)));
        assert(with_kind(strings_view(v@), kind@).take(i + 1) =~= with_kind(strings_view(v@), kind@).take(
            i as int,
        ).push((v@[i as int]@, kind@)));
        i = i + 1;
    }
    assert(with_kind(strings_view(v@), kind@).take(v@.len() as int) =~= with_kind(strings_view(v@), kind@));
}

/// The targets of an easter batch, in the order they are changed.
pub fn easter_targets(platform: Platform, result: &WalkResult) -> (v: Vec<EasterTarget>)
    ensures
        targets_view(v@) == easter_targets_spec(platform, *result),
{
    let mut v: Vec<EasterTarget> = Vec::new();
    push_all(&mut v, &result.dirs, "folder");
    match platform {
        Platform::MacOs => push_all(&mut v, &result.files, "file"),
        Platform::Windows => push_all(&mut v, &result.extensions, "extension"),
        Platform::Other => {},
    }
    assert(targets_view(v@) =~= easter_targets_spec(platform, *result));
    v
}

/// The items of a batch in reverse order: the order of a rollback or restore.
pub fn reversed_items(items: &Vec<EasterItem>) -> (r: Vec<EasterItem>)
    ensures
        items_view(r@) == items_view(items@).reverse(),
{
    let mut r: Vec<EasterItem> = Vec::new();
    let n = items.len();
    let mut i: usize = n;
    while i > 0
        invariant
            i <= n,
            n == items@.len(),
            items_view(r@) == items_view(items@).reverse().take((n - i) as int),
        decreases i,
    {
        i = i - 1;
        let ghost before = items_view(r@);
        let ghost rev = items_view(items@).reverse();
        r.push(items[i].copy());
        proof {
            assert(rev[(n - i - 1) as int] == items_view(items@)[i as int]);
            assert(items_view(r@) =~= before.push(items@[i as int]@));
            assert(rev.take((n - i) as int) =~= rev.take((n - i - 1) as int).push(rev[(n - i - 1) as int]));
        }
    }
    assert(items_view(items@).reverse().take(n as int) =~= items_view(items@).reverse());
    r
}

/// A rollback or restore undoes the items of a batch last first: the k-th
/// undone is the k-th from the end of those applied.
pub proof fn lemma_undo_order(items: Seq<EasterItemView>, k: int)
    requires
        0 <= k < items.len(),
    ensures
        items.reverse()[k] == items[items.len() - 1 - k],
{
}

/// Restoring a whole easter batch gives every target what it had before the
/// batch: the restore takes the batch's items last applied first (the order
/// `restore_easter_plan` gives), and where each item's backup is what was
/// saved of its target (the `backup_text` of the target's old bytes `olds`,
/// or, for an extension, the record of its registry values), every restore
/// plan that `restore_native` can give for an item puts that target's old
/// state back.
pub proof fn lemma_batch_restore_gives_back(
    platform: Platform,
    items: Seq<EasterItemView>,
    olds: Seq<Option<Seq<u8>>>,
)
    requires
        olds.len() == items.len(),
        forall|k: int|
            0 <= k < items.len() && (#[trigger] items[k]).kind != extension_kind() ==> backup_of(
                olds[k],
                items[k].backup,
            ),
    ensures
        forall|k: int, r: NativeRestore|
            0 <= k < items.len() && #[trigger] restore_outcome(
                platform,
                items.reverse()[k].target,
                items.reverse()[k].kind,
                items.reverse()[k].backup,
                r,
            ) ==> items.reverse()[k] == items[items.len() - 1 - k] && puts_back(
                platform,
                items.reverse()[k].target,
                items.reverse()[k].kind,
                olds[items.len() - 1 - k],
                items.reverse()[k].backup,
                r,
            ),
{
    assert forall|k: int, r: NativeRestore|
        0 <= k < items.len() && #[trigger] restore_outcome(
            platform,
            items.reverse()[k].target,
            items.reverse()[k].kind,
            items.reverse()[k].backup,
            r,
        ) implies items.reverse()[k] == items[items.len() - 1 - k] && puts_back(
            platform,
            items.reverse()[k].target,
            items.reverse()[k].kind,
            olds[items.len() - 1 - k],
            items.reverse()[k].backup,
            r,
        ) by {
        let j = items.len() - 1 - k;
        assert(items.reverse()[k] == items[j]);
        assert(items[j].kind != extension_kind() ==> backup_of(olds[j], items[j].backup));
        lemma_restore_gives_back(platform, items[j].target, items[j].kind, olds[j], items[j].backup, r);
    }
}

/// The record of an easter batch once all its targets are changed.
pub fn easter_batch(
    id: String,
    root: String,
    icon_path: String,
    created_at: u64,
    result: &WalkResult,
    items: Vec<EasterItem>,
) -> (b: EasterBatch)
    ensures
        b@ == (EasterBatchView {
            id: id@,
            root: root@,
            icon_path: icon_path@,
            created_at,
            directory_count: result.dirs@.len() as usize,
            file_count: result.files@.len() as usize,
            extensions: strings_view(result.extensions@),
            items: items_view(items@),
        }),
{
    EasterBatch {
        id,
        root,
        icon_path,
        created_at,
        directory_count: result.dirs.len(),
        file_count: result.files.len(),
        extensions: copy_strings(&result.extensions),
        items,
    }
}

/// The items of the batch with the id `id`, last applied first, or the
/// error for a missing batch.
pub fn restore_easter_plan(batches: &Vec<EasterBatch>, id: &str) -> (r: Result<Vec<EasterItem>, IconError>)
    ensures
        match r {
            Ok(items) => exists|i: int|
                0 <= i < batches@.len() && #[trigger] batches@[i].id@ == id@ && (forall|j: int|
                    0 <= j < i ==> #[trigger] batches@[j].id@ != id@) && items_view(items@) == items_view(
                    batches@[i].items@,
                ).reverse(),
            Err(e) => e == IconError::EasterBatchMissing && forall|j: int|
                0 <= j < batches@.len() ==> #[trigger] batches@[j].id@ != id@,
        },
{
    let mut i: usize = 0;
    while i < batches.len()
        invariant
            i <= batches@.len(),
            forall|j: int| 0 <= j < i ==> #[trigger] batches@[j].id@ != id@,
        decreases batches.len() - i,
    {
        if str_eq(batches[i].id.as_str(), id) {
            let items = reversed_items(&batches[i].items);
            assert(batches@[i as int].id@ == id@);
            return Ok(items);
        }
        i = i + 1;
    }
    Err(IconError::EasterBatchMissing)
}

/// Removes every batch with the id `id`, keeping the others in order.
pub fn remove_batches_with_id(batches: &mut Vec<EasterBatch>, id: &str)
    ensures
        batches_view(final(batches)@) == batches_view(old(batches)@).filter(|b: EasterBatchView| b.id != id@),
{
    let ghost all = batches_view(batches@);
    let mut kept: Vec<EasterBatch> = Vec::new();
    let mut i: usize = 0;
    assert(all.take(0).filter(|b: EasterBatchView| b.id != id@) =~= Seq::<EasterBatchView>::empty()) by {
        reveal(Seq::filter);
    }
    while i < batches.len()
        invariant
            i <= batches@.len(),
            all == batches_view(batches@),
            batches@ == old(batches)@,
            batches_view(kept@) == all.take(i as int).filter(|b: EasterBatchView| b.id != id@),
        decreases batches.len() - i,
    {
        let ghost before = batches_view(kept@);
        let same = str_eq(batches[i].id.as_str(), id);
        if !same {
            kept.push(batches[i].copy());
        }
        proof {
            reveal(Seq::filter);
            assert(all.take(i + 1).drop_last() =~= all.take(i as int));
            assert(all.take(i + 1).last() == all[i as int]);
            assert(batches_view(kept@) =~= if same { before } else { before.push(all[i as int]) });
        }
        i = i + 1;
    }
    assert(all.take(batches@.len() as int) =~= all);
    *batches = kept;
}

/// The error texts joined by the full-width semicolon.
pub open spec fn joined(errors: Seq<Seq<char>>) -> Seq<char>
    decreases errors.len(),
{
    if errors.len() == 0 {
        Seq::empty()
    } else if errors.len() == 1 {
        errors[0]
    } else {
        joined(errors.drop_last()) + "；"@ + errors.last()
    }
}

/// Joins the errors of a restore into one text.
pub fn join_errors(errors: &Vec<String>) -> (s: String)
    ensures
        s@ == joined(strings_view(errors@)),
{
    let ghost all = strings_view(errors@);
    let mut s = String::new();
    let mut i: usize = 0;
    assert(all.take(0) =~= Seq::<Seq<char>>::empty());
    while i < errors.len()
        invariant
            i <= errors@.len(),
            all == strings_view(errors@),
            s@ == joined(all.take(i as int)),
        decreases errors.len() - i,
    {
        if i == 0 {
            s = errors[0].clone();
        } else {
            s = s.concat("；").concat(errors[i].as_str());
        }
        proof {
            assert(all.take(i + 1).drop_last() =~= all.take(i as int));
            assert(all.take(i + 1).last() == all[i as int]);
            if i == 0 {
                assert(all.take(1) =~= seq![all[0]]);
            }
        }
        i = i + 1;
    }
    assert(all.take(errors@.len() as int) =~= all);
    s
}

/// An easter batch being applied, target by target. What was applied is
/// kept, so that a failure can be rolled back.
pub struct EasterRun {
    targets: Vec<EasterTarget>,
    items: Vec<EasterItem>,
}

impl EasterRun {
    /// The targets to change, in order.
    pub closed spec fn targets_of(self) -> Seq<(Seq<char>, Seq<char>)> {
        targets_view(self.targets@)
    }

    /// The targets changed so far, with their backups.
    pub closed spec fn items_of(self) -> Seq<EasterItemView> {
        items_view(self.items@)
    }

    /// The targets changed so far are the first ones, in order.
    pub open spec fn inv(self) -> bool {
        &&& self.items_of().len() <= self.targets_of().len()
        &&& forall|k: int|
            0 <= k < self.items_of().len() ==> (#[trigger] self.items_of()[k]).target
                == self.targets_of()[k].0 && self.items_of()[k].kind == self.targets_of()[k].1
    }

    /// Starts applying to `targets`.
    pub fn new(targets: Vec<EasterTarget>) -> (r: EasterRun)
        ensures
            r.inv(),
            r.targets_of() == targets_view(targets@),
            r.items_of().len() == 0,
    {
        let r = EasterRun { targets, items: Vec::new() };
        assert(r.items_of() =~= Seq::<EasterItemView>::empty());
        r
    }

    /// The next target, or `None` when every target is changed.
    pub fn next_target(&self) -> (t: Option<EasterTarget>)
        requires
            self.inv(),
        ensures
            match t {
                Some(x) => self.items_of().len() < self.targets_of().len() && (x.target@, x.kind@)
                    == self.targets_of()[self.items_of().len() as int],
                None => self.items_of().len() == self.targets_of().len(),
            },
    {
        let k = self.items.len();
        if k < self.targets.len() {
            let t = &self.targets[k];
            assert(self.targets_of()[k as int] == (t.target@, t.kind@));
            Some(EasterTarget { target: t.target.clone(), kind: t.kind.clone() })
        } else {
            None
        }
    }

    /// Records that the next target was changed, with its backup.
    pub fn record(&mut self, backup: Option<String>)
        requires
            old(self).inv(),
            old(self).items_of().len() < old(self).targets_of().len(),
        ensures
            final(self).inv(),
            final(self).targets_of() == old(self).targets_of(),
            final(self).items_of() == old(self).items_of().push(
                EasterItemView {
                    target: old(self).targets_of()[old(self).items_of().len() as int].0,
                    kind: old(self).targets_of()[old(self).items_of().len() as int].1,
                    backup: crate::model::opt_view(backup),
                },
            ),
    {
        let k = self.items.len();
        let t = &self.targets[k];
        assert(self.targets_of()[k as int] == (t.target@, t.kind@));
        let ghost before = self.items_of();
        self.items.push(EasterItem { target: t.target.clone(), kind: t.kind.clone(), backup });
        assert(self.items_of() =~= before.push(self.items@[k as int]@));
    }

    /// What a rollback undoes: the targets changed so far, last first.
    pub fn rollback_items(&self) -> (r: Vec<EasterItem>)
        ensures
            items_view(r@) == self.items_of().reverse(),
    {
        reversed_items(&self.items)
    }

    /// The items of the finished batch.
    pub fn into_items(self) -> (r: Vec<EasterItem>)
        ensures
            items_view(r@) == self.items_of(),
    {
        self.items
    }
}

} // verus!
