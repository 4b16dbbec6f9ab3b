//! Which headsets are known, which are plugged in, and which one is selected.

use crate::hid::arctis_nova_7::ArctisNova7;
use crate::hid::error::HidError;
use crate::hid::headset::{
    exchange_failed, exchanged, report_written, untouched, Headset, HidTransport,
};
use crate::text::{chars_le, lemma_chars_le_total, str_le};
use crate::proto::{id_key, BatteryInfo, DeviceDescriptor, DeviceId, DevicePresence};
use vstd::prelude::*;
use vstd::string::*;

verus! {

/// A change in what is plugged in, produced by [`DeviceRegistry::refresh`].
#[derive(Debug, Clone, Copy, PartialEq, Eq, Structural)]
pub enum DeviceChange {
    Attached(DeviceId),
    Detached(DeviceId),
}

/// Ids in strictly increasing enumeration order, so each appears once.
pub open spec fn ids_sorted(s: Seq<DeviceId>) -> bool {
    forall|i: int, j: int| 0 <= i < j < s.len() ==> id_key(#[trigger] s[i]) < id_key(#[trigger] s[j])
}

pub open spec fn ids_unique(s: Seq<DeviceId>) -> bool {
    forall|i: int, j: int| 0 <= i < j < s.len() ==> #[trigger] s[i] != #[trigger] s[j]
}

/// `Attached` for each id of `now` missing from `before`, in `now`'s order.
pub open spec fn attached_changes(now: Seq<DeviceId>, before: Seq<DeviceId>) -> Seq<DeviceChange>
    decreases now.len(),
{
    if now.len() == 0 {
        seq![]
    } else {
        let rest = attached_changes(now.drop_last(), before);
        if before.contains(now.last()) {
            rest
        } else {
            rest.push(DeviceChange::Attached(now.last()))
        }
    }
}

/// `Detached` for each id of `before` missing from `now`, in `before`'s order.
pub open spec fn detached_changes(before: Seq<DeviceId>, now: Seq<DeviceId>) -> Seq<DeviceChange>
    decreases before.len(),
{
    if before.len() == 0 {
        seq![]
    } else {
        let rest = detached_changes(before.drop_last(), now);
        if now.contains(before.last()) {
            rest
        } else {
            rest.push(DeviceChange::Detached(before.last()))
        }
    }
}

/// The device a change is about.
pub open spec fn change_id(c: DeviceChange) -> DeviceId {
    match c {
        DeviceChange::Attached(id) => id,
        DeviceChange::Detached(id) => id,
    }
}

proof fn lemma_attached_from(now: Seq<DeviceId>, before: Seq<DeviceId>)
    ensures
        forall|i: int| 0 <= i < attached_changes(now, before).len() ==> exists|k: int|
            0 <= k < now.len() && #[trigger] attached_changes(now, before)[i] == DeviceChange::Attached(now[k]),
    decreases now.len(),
{
    if now.len() > 0 {
        let pre = now.drop_last();
        lemma_attached_from(pre, before);
        let rest = attached_changes(pre, before);
        let r = attached_changes(now, before);
        assert forall|i: int| 0 <= i < r.len() implies exists|k: int|
            0 <= k < now.len() && #[trigger] r[i] == DeviceChange::Attached(now[k]) by {
            if i < rest.len() {
                let k = choose|k: int| 0 <= k < pre.len() && rest[i] == DeviceChange::Attached(pre[k]);
                assert(r[i] == rest[i]);
                assert(now[k] == pre[k]);
            } else {
                assert(r[i] == DeviceChange::Attached(now[now.len() - 1]));
            }
        }
    }
}

proof fn lemma_detached_from(before: Seq<DeviceId>, now: Seq<DeviceId>)
    ensures
        forall|i: int| 0 <= i < detached_changes(before, now).len() ==> exists|k: int|
            0 <= k < before.len() && #[trigger] detached_changes(before, now)[i] == DeviceChange::Detached(before[k]),
    decreases before.len(),
{
    if before.len() > 0 {
        let pre = before.drop_last();
        lemma_detached_from(pre, now);
        let rest = detached_changes(pre, now);
        let r = detached_changes(before, now);
        assert forall|i: int| 0 <= i < r.len() implies exists|k: int|
            0 <= k < before.len() && #[trigger] r[i] == DeviceChange::Detached(before[k]) by {
            if i < rest.len() {
                let k = choose|k: int| 0 <= k < pre.len() && rest[i] == DeviceChange::Detached(pre[k]);
                assert(r[i] == rest[i]);
                assert(before[k] == pre[k]);
            } else {
                assert(r[i] == DeviceChange::Detached(before[before.len() - 1]));
            }
        }
    }
}

/// Ids of the changes in strictly ascending order.
pub open spec fn changes_ascending(cs: Seq<DeviceChange>) -> bool {
    forall|i: int, j: int| 0 <= i < j < cs.len() ==> id_key(change_id(#[trigger] cs[i])) < id_key(change_id(#[trigger] cs[j]))
}

proof fn lemma_attached_ascending(now: Seq<DeviceId>, before: Seq<DeviceId>)
    requires
        ids_sorted(now),
    ensures
        changes_ascending(attached_changes(now, before)),
        forall|i: int| 0 <= i < attached_changes(now, before).len() ==> (#[trigger] attached_changes(now, before)[i]) is Attached,
    decreases now.len(),
{
    lemma_attached_from(now, before);
    if now.len() > 0 {
        let pre = now.drop_last();
        assert(ids_sorted(pre));
        lemma_attached_ascending(pre, before);
        lemma_attached_from(pre, before);
        let rest = attached_changes(pre, before);
        let r = attached_changes(now, before);
        assert forall|i: int, j: int| 0 <= i < j < r.len() implies id_key(change_id(#[trigger] r[i])) < id_key(change_id(#[trigger] r[j])) by {
            if j < rest.len() {
                assert(r[i] == rest[i] && r[j] == rest[j]);
            } else {
                assert(r[i] == rest[i]);
                let k = choose|k: int| 0 <= k < pre.len() && rest[i] == DeviceChange::Attached(pre[k]);
                assert(pre[k] == now[k]);
                assert(r[j] == DeviceChange::Attached(now[now.len() - 1]));
            }
        }
        assert forall|i: int| 0 <= i < r.len() implies (#[trigger] r[i]) is Attached by {
            if i < rest.len() {
                assert(r[i] == rest[i]);
            }
        }
    }
}

proof fn lemma_detached_ascending(before: Seq<DeviceId>, now: Seq<DeviceId>)
    requires
        ids_sorted(before),
    ensures
        changes_ascending(detached_changes(before, now)),
        forall|i: int| 0 <= i < detached_changes(before, now).len() ==> (#[trigger] detached_changes(before, now)[i]) is Detached,
    decreases before.len(),
{
    lemma_detached_from(before, now);
    if before.len() > 0 {
        let pre = before.drop_last();
        assert(ids_sorted(pre));
        lemma_detached_ascending(pre, now);
        lemma_detached_from(pre, now);
        let rest = detached_changes(pre, now);
        let r = detached_changes(before, now);
        assert forall|i: int, j: int| 0 <= i < j < r.len() implies id_key(change_id(#[trigger] r[i])) < id_key(change_id(#[trigger] r[j])) by {
            if j < rest.len() {
                assert(r[i] == rest[i] && r[j] == rest[j]);
            } else {
                assert(r[i] == rest[i]);
                let k = choose|k: int| 0 <= k < pre.len() && rest[i] == DeviceChange::Detached(pre[k]);
                assert(pre[k] == before[k]);
                assert(r[j] == DeviceChange::Detached(before[before.len() - 1]));
            }
        }
        assert forall|i: int| 0 <= i < r.len() implies (#[trigger] r[i]) is Detached by {
            if i < rest.len() {
                assert(r[i] == rest[i]);
            }
        }
    }
}

/// A refresh of a valid registry reports every attachment before any
/// detachment, each group in ascending id order.
pub proof fn lemma_refresh_reports_in_order(
    before: RegistryView,
    after: RegistryView,
    listed: Seq<DeviceId>,
    changes: Seq<DeviceChange>,
)
    requires
        refresh_post(before, after, listed, changes),
        ids_sorted(before.present),
    ensures
        forall|i: int, j: int|
            0 <= i < j < changes.len() && (changes[i] is Attached) == (changes[j] is Attached) ==> id_key(
                change_id(#[trigger] changes[i]),
            ) < id_key(change_id(#[trigger] changes[j])),
        forall|i: int, j: int|
            0 <= i < j < changes.len() && (#[trigger] changes[i]) is Detached ==> (#[trigger] changes[j]) is Detached,
{
    let a = attached_changes(after.present, before.present);
    let d = detached_changes(before.present, after.present);
    lemma_attached_ascending(after.present, before.present);
    lemma_detached_ascending(before.present, after.present);
    assert(changes == a + d);
    assert forall|i: int, j: int|
        0 <= i < j < changes.len() && (changes[i] is Attached) == (changes[j] is Attached) implies id_key(
            change_id(#[trigger] changes[i]),
        ) < id_key(change_id(#[trigger] changes[j])) by {
        if j < a.len() {
            assert(changes[i] == a[i] && changes[j] == a[j]);
        } else if i >= a.len() {
            assert(changes[i] == d[i - a.len()] && changes[j] == d[j - a.len()]);
        } else {
            assert(changes[i] == a[i] && changes[j] == d[j - a.len()]);
        }
    }
    assert forall|i: int, j: int|
        0 <= i < j < changes.len() && (#[trigger] changes[i]) is Detached implies (#[trigger] changes[j]) is Detached by {
        if i < a.len() {
            assert(changes[i] == a[i]);
        } else {
            assert(changes[j] == d[j - a.len()]);
        }
    }
}

/// The registry as a mathematical value.
pub struct RegistryView {
    /// Ids of the supported models.
    pub models: Seq<DeviceId>,
    /// Supported devices seen by the last refresh, in enumeration order.
    pub present: Seq<DeviceId>,
    pub selected: Option<DeviceId>,
}

/// What one refresh does: `after` is `before` re-enumerated from `listed`,
/// and `changes` reports what appeared and then what disappeared.
///
/// The first supported device to appear is selected while nothing is; a
/// selection is never cleared, so the choice survives a power-off.
pub open spec fn refresh_post(
    before: RegistryView,
    after: RegistryView,
    listed: Seq<DeviceId>,
    changes: Seq<DeviceChange>,
) -> bool {
    &&& after.models == before.models
    &&& ids_sorted(after.present)
    &&& forall|id: DeviceId| #[trigger]
        after.present.contains(id) <==> (listed.contains(id) && before.models.contains(id))
    &&& changes == attached_changes(after.present, before.present) + detached_changes(
        before.present,
        after.present,
    )
    &&& after.selected == if before.selected is Some {
        before.selected
    } else if after.present.len() > 0 {
        Some(after.present[0])
    } else {
        None::<DeviceId>
    }
}

/// Owns the supported-model table and the presence set.
///
/// Devices are addressed by [`DeviceId`] throughout; nothing is indexed by
/// position, so a model list that grows cannot silently reassign a selection.
pub struct DeviceRegistry<H: Headset> {
    models: Vec<H>,
    present: Vec<DeviceId>,
    selected: Option<DeviceId>,
}

pub open spec fn ids_of<H: Headset>(ms: Seq<H>) -> Seq<DeviceId> {
    ms.map_values(|m: H| m.spec_id())
}

/// Position of the first model with `id`, or -1.
pub open spec fn first_index<H: Headset>(ms: Seq<H>, id: DeviceId) -> int
    decreases ms.len(),
{
    if ms.len() == 0 {
        -1
    } else if ms[0].spec_id() == id {
        0
    } else {
        let r = first_index(ms.drop_first(), id);
        if r < 0 {
            -1
        } else {
            r + 1
        }
    }
}

/// In a list with unique ids, the model carrying `id` is found where it is.
pub proof fn lemma_first_index<H: Headset>(ms: Seq<H>, id: DeviceId, i: int)
    requires
        ids_unique(ids_of(ms)),
        0 <= i < ms.len(),
        ms[i].spec_id() == id,
    ensures
        first_index(ms, id) == i,
    decreases ms.len(),
{
    if i > 0 {
        let ids = ids_of(ms);
        assert(ids[0] != ids[i]);
        let rest = ms.drop_first();
        assert forall|a: int, b: int| 0 <= a < b < rest.len() implies #[trigger] ids_of(rest)[a]
            != #[trigger] ids_of(rest)[b] by {
            assert(ids_of(rest)[a] == ids[a + 1]);
            assert(ids_of(rest)[b] == ids[b + 1]);
        }
        lemma_first_index(rest, id, i - 1);
    }
}

/// Sorted sequences with the same members are the same sequence.
pub proof fn lemma_sorted_unique(a: Seq<DeviceId>, b: Seq<DeviceId>)
    requires
        ids_sorted(a),
        ids_sorted(b),
        forall|id: DeviceId| #![trigger a.contains(id)] #![trigger b.contains(id)]
            a.contains(id) <==> b.contains(id),
    ensures
        a == b,
    decreases a.len(),
{
    if a.len() == 0 {
        if b.len() > 0 {
            assert(b.contains(b[0]));
            assert(a.contains(b[0]));
        }
        assert(a =~= b);
    } else if b.len() == 0 {
        assert(a.contains(a[0]));
        assert(b.contains(a[0]));
    } else {
        assert(a.contains(a[0]));
        assert(b.contains(b[0]));
        assert(a.contains(b[0]));
        assert(b.contains(a[0]));
        let ja = choose|j: int| 0 <= j < a.len() && a[j] == b[0];
        let jb = choose|j: int| 0 <= j < b.len() && b[j] == a[0];
        if ja > 0 {
            assert(id_key(a[0]) < id_key(a[ja]));
        }
        if jb > 0 {
            assert(id_key(b[0]) < id_key(b[jb]));
        }
        if ja > 0 && jb > 0 {
            assert(false);
        }
        assert(a[0] == b[0]);
        let a1 = a.drop_first();
        let b1 = b.drop_first();
        assert forall|id: DeviceId| #[trigger] a1.contains(id) implies b1.contains(id) by {
            let k = choose|k: int| 0 <= k < a1.len() && a1[k] == id;
            assert(a[k + 1] == id);
            assert(a.contains(id));
            assert(id_key(a[0]) < id_key(a[k + 1]));
            assert(b.contains(id));
            let m = choose|m: int| 0 <= m < b.len() && b[m] == id;
            assert(m != 0);
            assert(b1[m - 1] == id);
        }
        assert forall|id: DeviceId| #[trigger] b1.contains(id) implies a1.contains(id) by {
            let k = choose|k: int| 0 <= k < b1.len() && b1[k] == id;
            assert(b[k + 1] == id);
            assert(b.contains(id));
            assert(id_key(b[0]) < id_key(b[k + 1]));
            assert(a.contains(id));
            let m = choose|m: int| 0 <= m < a.len() && a[m] == id;
            assert(m != 0);
            assert(a1[m - 1] == id);
        }
        lemma_sorted_unique(a1, b1);
        assert(a =~= seq![a[0]] + a1);
        assert(b =~= seq![b[0]] + b1);
    }
}

/// No attach is reported for ids already present.
pub proof fn lemma_attached_none(now: Seq<DeviceId>, before: Seq<DeviceId>)
    requires
        forall|id: DeviceId| now.contains(id) ==> #[trigger] before.contains(id),
    ensures
        attached_changes(now, before) == Seq::<DeviceChange>::empty(),
    decreases now.len(),
{
    if now.len() > 0 {
        assert(now.contains(now.last()));
        assert forall|id: DeviceId| now.drop_last().contains(id) implies #[trigger] before.contains(
            id,
        ) by {
            let k = choose|k: int| 0 <= k < now.drop_last().len() && now.drop_last()[k] == id;
            assert(now[k] == id);
        }
        lemma_attached_none(now.drop_last(), before);
    }
}

/// No detach is reported for ids still present.
pub proof fn lemma_detached_none(before: Seq<DeviceId>, now: Seq<DeviceId>)
    requires
        forall|id: DeviceId| before.contains(id) ==> #[trigger] now.contains(id),
    ensures
        detached_changes(before, now) == Seq::<DeviceChange>::empty(),
    decreases before.len(),
{
    if before.len() > 0 {
        assert(before.contains(before.last()));
        assert forall|id: DeviceId| before.drop_last().contains(id) implies #[trigger] now.contains(
            id,
        ) by {
            let k = choose|k: int|
                0 <= k < before.drop_last().len() && before.drop_last()[k] == id;
            assert(before[k] == id);
        }
        lemma_detached_none(before.drop_last(), now);
    }
}

/// Attach and detach are reported once: refreshing again against the same
/// enumeration reports nothing and changes nothing.
pub proof fn lemma_refresh_reports_once(
    r0: RegistryView,
    r1: RegistryView,
    r2: RegistryView,
    listed: Seq<DeviceId>,
    first: Seq<DeviceChange>,
    second: Seq<DeviceChange>,
)
    requires
        refresh_post(r0, r1, listed, first),
        refresh_post(r1, r2, listed, second),
    ensures
        second == Seq::<DeviceChange>::empty(),
        r2 == r1,
{
    lemma_sorted_unique(r1.present, r2.present);
    lemma_attached_none(r2.present, r1.present);
    lemma_detached_none(r1.present, r2.present);
    assert(second =~= Seq::<DeviceChange>::empty());
    if r1.selected is None {
        assert(r1.present.len() == 0 || r0.selected is Some);
    }
}

/// Exec equality on ids, field by field.
fn same_id(a: DeviceId, b: DeviceId) -> (r: bool)
    ensures
        r == (a == b),
{
    a.vendor_id == b.vendor_id && a.product_id == b.product_id
}

fn id_less(a: DeviceId, b: DeviceId) -> (r: bool)
    ensures
        r == (id_key(a) < id_key(b)),
{
    a.vendor_id < b.vendor_id || (a.vendor_id == b.vendor_id && a.product_id < b.product_id)
}

fn contains_id(v: &Vec<DeviceId>, id: DeviceId) -> (r: bool)
    ensures
        r == v@.contains(id),
{
    let mut i: usize = 0;
    while i < v.len()
        invariant
            i <= v@.len(),
            forall|j: int| 0 <= j < i ==> v@[j] != id,
        decreases v@.len() - i,
    {
        if same_id(v[i], id) {
            assert(v@[i as int] == id);
            return true;
        }
        i = i + 1;
    }
    false
}

/// Insert `id` at its place in a sorted list that lacks it.
fn insert_sorted(v: &mut Vec<DeviceId>, id: DeviceId)
    requires
        ids_sorted(old(v)@),
        !old(v)@.contains(id),
    ensures
        ids_sorted(final(v)@),
        forall|x: DeviceId| #[trigger] final(v)@.contains(x) <==> (old(v)@.contains(x) || x == id),
{
    let mut p: usize = 0;
    while p < v.len() && id_less(v[p], id)
        invariant
            p <= v@.len(),
            v@ == old(v)@,
            forall|j: int| 0 <= j < p ==> id_key(#[trigger] v@[j]) < id_key(id),
        decreases v@.len() - p,
    {
        p = p + 1;
    }
    proof {
        if p < v@.len() {
            assert(id_key(v@[p as int]) != id_key(id)) by {
                if id_key(v@[p as int]) == id_key(id) {
                    crate::proto::lemma_id_key_injective(v@[p as int], id);
                    assert(v@.contains(id));
                }
            }
        }
    }
    let ghost before = v@;
    v.insert(p, id);
    proof {
        assert(v@ == before.insert(p as int, id));
        assert forall|i: int, j: int| 0 <= i < j < v@.len() implies id_key(#[trigger] v@[i]) < id_key(
            #[trigger] v@[j],
        ) by {
            if j < p {
            } else if j == p {
            } else if i < p {
                assert(id_key(before[i]) < id_key(id));
                if p < before.len() {
                    assert(id_key(id) < id_key(before[p as int]));
                    if j - 1 > p {
                        assert(id_key(before[p as int]) < id_key(before[j - 1]));
                    }
                }
            } else if i == p {
                assert(id_key(id) < id_key(before[p as int]));
                if j - 1 > p {
                    assert(id_key(before[p as int]) < id_key(before[j - 1]));
                }
            } else {
                assert(id_key(before[i - 1]) < id_key(before[j - 1]));
            }
        }
        assert forall|x: DeviceId| #[trigger] v@.contains(x) <==> (before.contains(x) || x == id) by {
            if v@.contains(x) {
                let k = choose|k: int| 0 <= k < v@.len() && v@[k] == x;
                if k < p {
                    assert(before[k] == x);
                } else if k > p {
                    assert(before[k - 1] == x);
                }
            }
            if before.contains(x) {
                let k = choose|k: int| 0 <= k < before.len() && before[k] == x;
                if k < p {
                    assert(v@[k] == x);
                } else {
                    assert(v@[k + 1] == x);
                }
            }
            if x == id {
                assert(v@[p as int] == id);
            }
        }
    }
}

/// The enumerated ids in order, vendor then product, each once.
pub fn sorted_unique_ids(ids: &Vec<DeviceId>) -> (r: Vec<DeviceId>)
    ensures
        ids_sorted(r@),
        forall|x: DeviceId| #[trigger] r@.contains(x) <==> ids@.contains(x),
{
    let mut out: Vec<DeviceId> = Vec::new();
    let mut i: usize = 0;
    while i < ids.len()
        invariant
            i <= ids@.len(),
            ids_sorted(out@),
            forall|x: DeviceId| #[trigger] out@.contains(x) <==> ids@.take(i as int).contains(x),
        decreases ids@.len() - i,
    {
        let id = ids[i];
        proof {
            assert forall|x: DeviceId| #[trigger] ids@.take(i as int + 1).contains(x) <==> (ids@.take(
                i as int,
            ).contains(x) || x == id) by {
                if ids@.take(i as int + 1).contains(x) {
                    let k = choose|k: int| 0 <= k < i + 1 && #[trigger] ids@.take(i as int + 1)[k] == x;
                    if k < i {
                        assert(ids@.take(i as int)[k] == x);
                    }
                }
                if ids@.take(i as int).contains(x) {
                    let k = choose|k: int| 0 <= k < i && #[trigger] ids@.take(i as int)[k] == x;
                    assert(ids@.take(i as int + 1)[k] == x);
                }
                if x == id {
                    assert(ids@.take(i as int + 1)[i as int] == x);
                }
            }
        }
        if !contains_id(&out, id) {
            insert_sorted(&mut out, id);
        }
        i = i + 1;
    }
    assert(ids@.take(ids@.len() as int) =~= ids@);
    out
}

impl DeviceRegistry<ArctisNova7> {
    /// Registry over every model this build knows.
    pub fn new() -> (r: Self)
        ensures
            forall|id: DeviceId| #[trigger] r.view().models.contains(id) <==> id == (DeviceId {
                vendor_id: crate::hid::arctis_nova_7::VENDOR_ID,
                product_id: crate::hid::arctis_nova_7::PRODUCT_ID,
            }),
            r.view().present.len() == 0,
            r.view().selected is None,
    {
        let mut models: Vec<ArctisNova7> = Vec::new();
        models.push(ArctisNova7::new());
        let r = Self::with_models(models);
        proof {
            assert(ids_of(models@) =~= seq![models@[0].spec_id()]);
            assert forall|id: DeviceId| #[trigger] ids_of(models@).contains(id) <==> id == (DeviceId {
                vendor_id: crate::hid::arctis_nova_7::VENDOR_ID,
                product_id: crate::hid::arctis_nova_7::PRODUCT_ID,
            }) by {
                if id == models@[0].spec_id() {
                    assert(ids_of(models@)[0] == id);
                }
            }
        }
        r
    }
}

impl<H: Headset> DeviceRegistry<H> {
    pub closed spec fn view(&self) -> RegistryView {
        RegistryView {
            models: ids_of(self.models@),
            present: self.present@,
            selected: self.selected,
        }
    }

    /// The models, in registration order.
    pub closed spec fn model_list(&self) -> Seq<H> {
        self.models@
    }

    /// The model registered for `id`.
    pub closed spec fn model_of(&self, id: DeviceId) -> H {
        self.models@[first_index(self.models@, id)]
    }

    pub closed spec fn wf(&self) -> bool {
        &&& ids_unique(ids_of(self.models@))
        &&& ids_sorted(self.present@)
    }

    /// A valid registry lists the present devices in ascending order.
    pub proof fn lemma_present_sorted(&self)
        requires
            self.wf(),
        ensures
            ids_sorted(self.view().present),
    {
    }

    /// A registry over `models`; where two share an id the later one wins.
    pub fn with_models(models: Vec<H>) -> (r: Self)
        ensures
            r.wf(),
            forall|id: DeviceId| #[trigger]
                r.view().models.contains(id) <==> ids_of(models@).contains(id),
            forall|id: DeviceId| #[trigger]
                ids_of(models@).contains(id) ==> exists|j: int|
                    0 <= j < models@.len() && models@[j] == r.model_of(id) && models@[j].spec_id()
                        == id && forall|k: int|
                        j < k < models@.len() ==> models@[k].spec_id() != id,
            r.view().present.len() == 0,
            r.view().selected is None,
    {
        let ghost input = models@;
        let mut rest = models;
        let mut kept: Vec<H> = Vec::new();
        let mut kept_ids: Vec<DeviceId> = Vec::new();
        while rest.len() > 0
            invariant
                rest@ == input.take(rest@.len() as int),
                rest@.len() <= input.len(),
                kept_ids@ == ids_of(kept@),
                ids_unique(kept_ids@),
                forall|id: DeviceId| #[trigger]
                    kept_ids@.contains(id) <==> ids_of(input.skip(rest@.len() as int)).contains(
                        id,
                    ),
                forall|i: int|
                    0 <= i < kept@.len() ==> exists|j: int|
                        rest@.len() <= j < input.len() && input[j] == #[trigger] kept@[i] && forall|
                            k: int,
                        |
                            j < k < input.len() ==> input[k].spec_id() != kept@[i].spec_id(),
            decreases rest@.len(),
        {
            let ghost n = rest@.len() as int;
            let m = rest.pop().unwrap();
            assert(m == input[n - 1]);
            let id = m.id();
            let ghost old_kept = kept@;
            let ghost old_ids = kept_ids@;
            let ghost pushed = false;
            if !contains_id(&kept_ids, id) {
                proof {
                    assert forall|k: int| n - 1 < k < input.len() implies input[k].spec_id()
                        != id by {
                        assert(ids_of(input.skip(n))[k - n] == input[k].spec_id());
                        if input[k].spec_id() == id {
                            assert(ids_of(input.skip(n)).contains(id));
                        }
                    }
                }
                kept.push(m);
                kept_ids.push(id);
                proof {
                    pushed = true;
                    assert(kept_ids@ =~= ids_of(kept@));
                }
            }
            proof {
                assert(rest@ =~= input.take(n - 1));
                assert forall|x: DeviceId| #[trigger]
                    kept_ids@.contains(x) <==> ids_of(input.skip(n - 1)).contains(x) by {
                    let s1 = ids_of(input.skip(n - 1));
                    let s0 = ids_of(input.skip(n));
                    assert(s1 =~= seq![id] + s0);
                    if pushed {
                        assert(kept_ids@ == old_ids.push(id));
                        if kept_ids@.contains(x) {
                            let k = choose|k: int| 0 <= k < kept_ids@.len() && kept_ids@[k] == x;
                            if k < old_ids.len() {
                                assert(old_ids[k] == x);
                            }
                        }
                        if old_ids.contains(x) {
                            let k = choose|k: int| 0 <= k < old_ids.len() && old_ids[k] == x;
                            assert(kept_ids@[k] == x);
                        }
                        assert(kept_ids@[kept_ids@.len() - 1] == id);
                    } else {
                        assert(old_ids.contains(id));
                    }
                    if s1.contains(x) {
                        let k = choose|k: int| 0 <= k < s1.len() && s1[k] == x;
                        if k > 0 {
                            assert(s0[k - 1] == x);
                        }
                    }
                    if s0.contains(x) {
                        let k = choose|k: int| 0 <= k < s0.len() && s0[k] == x;
                        assert(s1[k + 1] == x);
                    }
                    if kept_ids@.contains(x) && x == id {
                        assert(s1[0] == x);
                    }
                }
                assert forall|i: int| 0 <= i < kept@.len() implies exists|j: int|
                    n - 1 <= j < input.len() && input[j] == #[trigger] kept@[i] && forall|k: int|
                        j < k < input.len() ==> input[k].spec_id() != kept@[i].spec_id() by {
                    if i < old_kept.len() {
                        assert(kept@[i] == old_kept[i]);
                    } else {
                        assert(pushed);
                        assert(kept@[i] == m);
                        assert(input[n - 1] == kept@[i]);
                    }
                }
            }
        }
        assert(input.skip(0) =~= input);
        let r = DeviceRegistry { models: kept, present: Vec::new(), selected: None };
        proof {
            assert forall|id: DeviceId| #[trigger] ids_of(input).contains(id) implies exists|j: int|
                0 <= j < input.len() && input[j] == r.model_of(id) && input[j].spec_id() == id
                    && forall|k: int| j < k < input.len() ==> input[k].spec_id() != id by {
                assert(kept_ids@.contains(id));
                let i = choose|i: int| 0 <= i < kept@.len() && kept@[i].spec_id() == id;
                assert(ids_of(kept@)[i] == id);
                lemma_first_index(kept@, id, i);
                assert(r.model_of(id) == kept@[i]);
            }
        }
        r
    }
}


/// Battery as reported to clients: a failed read is `Faulted`, not an error,
/// and a device that is not there is `Absent`.
pub open spec fn battery_info_spec(r: Result<u8, HidError>) -> BatteryInfo {
    match r {
        Ok(level) => BatteryInfo { presence: DevicePresence::Connected, level: Some(level) },
        Err(e) => if e is Absent || e is Unknown {
            BatteryInfo { presence: DevicePresence::Absent, level: None }
        } else {
            BatteryInfo { presence: DevicePresence::Faulted, level: None }
        },
    }
}

/// What a battery read of model `m` did to the channel, from `before` to
/// `after`, and what it returned: a model without a status request fails
/// and touches nothing; otherwise either the request went out and a reply
/// came back, whose level is the result (an unknown level a protocol
/// error), or no reply came back and the read failed.
pub open spec fn battery_read<H: Headset, T: HidTransport>(
    m: H,
    before: T,
    after: T,
    r: Result<u8, HidError>,
) -> bool {
    match m.status_request() {
        None => r == Err::<u8, HidError>(HidError::Unsupported("battery status")) && untouched(
            before,
            after,
        ),
        Some(req) => (exchanged(before, after, req) && match m.battery_reading(
            after.received().last(),
        ) {
            Some(v) => r == Ok::<u8, HidError>(v),
            None => r matches Err(HidError::Protocol(_)),
        }) || (exchange_failed(before, after, req) && r is Err),
    }
}

pub fn battery_info(r: Result<u8, HidError>) -> (b: BatteryInfo)
    ensures
        b == battery_info_spec(r),
{
    match r {
        Ok(level) => BatteryInfo { presence: DevicePresence::Connected, level: Some(level) },
        Err(e) => if e.is_absent() {
            BatteryInfo::absent()
        } else {
            BatteryInfo { presence: DevicePresence::Faulted, level: None }
        },
    }
}

impl<H: Headset> DeviceRegistry<H> {
    fn supports(&self, id: DeviceId) -> (r: bool)
        requires
            self.wf(),
        ensures
            r == self.view().models.contains(id),
    {
        let mut i: usize = 0;
        while i < self.models.len()
            invariant
                self.wf(),
                i <= self.models@.len(),
                forall|j: int| 0 <= j < i ==> self.models@[j].spec_id() != id,
            decreases self.models@.len() - i,
        {
            if same_id(self.models[i].id(), id) {
                assert(ids_of(self.models@)[i as int] == id);
                return true;
            }
            i = i + 1;
        }
        proof {
            if ids_of(self.models@).contains(id) {
                let k = choose|k: int| 0 <= k < self.models@.len() && ids_of(self.models@)[k] == id;
                assert(self.models@[k].spec_id() == id);
            }
        }
        false
    }

    fn model_index(&self, id: DeviceId) -> (r: Option<usize>)
        requires
            self.wf(),
        ensures
            r is None <==> !self.view().models.contains(id),
            r matches Some(i) ==> i < self.models@.len() && self.models@[i as int] == self.model_of(id)
                && self.models@[i as int].spec_id() == id,
    {
        let mut i: usize = 0;
        while i < self.models.len()
            invariant
                self.wf(),
                i <= self.models@.len(),
                forall|j: int| 0 <= j < i ==> self.models@[j].spec_id() != id,
            decreases self.models@.len() - i,
        {
            if same_id(self.models[i].id(), id) {
                proof {
                    lemma_first_index(self.models@, id, i as int);
                    assert(ids_of(self.models@)[i as int] == id);
                }
                return Some(i);
            }
            i = i + 1;
        }
        proof {
            if ids_of(self.models@).contains(id) {
                let k = choose|k: int| 0 <= k < self.models@.len() && ids_of(self.models@)[k] == id;
                assert(self.models@[k].spec_id() == id);
            }
        }
        None
    }

    /// Re-enumerate from `listed`, what the backend just reported, and say
    /// what changed.
    ///
    /// A failed enumeration is passed on and changes nothing.
    pub fn refresh(&mut self, listed: Result<Vec<DeviceId>, HidError>) -> (r: Result<
        Vec<DeviceChange>,
        HidError,
    >)
        requires
            old(self).wf(),
        ensures
            final(self).wf(),
            listed matches Err(e) ==> r == Err::<Vec<DeviceChange>, HidError>(e)
                && final(self).view() == old(self).view(),
            listed matches Ok(l) ==> (r matches Ok(ch) && refresh_post(
                old(self).view(),
                final(self).view(),
                l@,
                ch@,
            )),
            forall|id: DeviceId| final(self).model_of(id) == old(self).model_of(id),
    {
        let list = match listed {
            Ok(l) => l,
            Err(e) => {
                return Err(e);
            },
        };
        let mut now: Vec<DeviceId> = Vec::new();
        let mut i: usize = 0;
        while i < list.len()
            invariant
                self.wf(),
                i <= list@.len(),
                ids_sorted(now@),
                forall|id: DeviceId| #[trigger]
                    now@.contains(id) <==> (list@.take(i as int).contains(id)
                        && self.view().models.contains(id)),
            decreases list@.len() - i,
        {
            let id = list[i];
            if self.supports(id) && !contains_id(&now, id) {
                insert_sorted(&mut now, id);
            }
            proof {
                let t1 = list@.take(i + 1);
                let t0 = list@.take(i as int);
                assert(t1 =~= t0.push(id));
                assert forall|x: DeviceId| #[trigger] t1.contains(x) <==> (t0.contains(x) || x == id) by {
                    if t1.contains(x) {
                        let k = choose|k: int| 0 <= k < t1.len() && t1[k] == x;
                        if k < i {
                            assert(t0[k] == x);
                        }
                    }
                    if t0.contains(x) {
                        let k = choose|k: int| 0 <= k < t0.len() && t0[k] == x;
                        assert(t1[k] == x);
                    }
                    assert(t1[i as int] == id);
                }
            }
            i = i + 1;
        }
        assert(list@.take(list@.len() as int) =~= list@);

        let mut changes: Vec<DeviceChange> = Vec::new();
        let mut j: usize = 0;
        while j < now.len()
            invariant
                j <= now@.len(),
                changes@ == attached_changes(now@.take(j as int), self.present@),
            decreases now@.len() - j,
        {
            let id = now[j];
            if !contains_id(&self.present, id) {
                changes.push(DeviceChange::Attached(id));
            }
            proof {
                assert(now@.take(j + 1).drop_last() =~= now@.take(j as int));
            }
            j = j + 1;
        }
        assert(now@.take(now@.len() as int) =~= now@);
        let ghost attached = changes@;

        let mut k: usize = 0;
        while k < self.present.len()
            invariant
                k <= self.present@.len(),
                changes@ == attached + detached_changes(self.present@.take(k as int), now@),
            decreases self.present@.len() - k,
        {
            let id = self.present[k];
            if !contains_id(&now, id) {
                changes.push(DeviceChange::Detached(id));
                proof {
                    assert(self.present@.take(k + 1).drop_last() =~= self.present@.take(k as int));
                    assert(changes@ =~= attached + detached_changes(
                        self.present@.take(k + 1),
                        now@,
                    ));
                }
            } else {
                proof {
                    assert(self.present@.take(k + 1).drop_last() =~= self.present@.take(k as int));
                }
            }
            k = k + 1;
        }
        assert(self.present@.take(self.present@.len() as int) =~= self.present@);

        self.present = now;
        if self.selected.is_none() {
            self.selected = if self.present.len() > 0 {
                Some(self.present[0])
            } else {
                None
            };
        }
        Ok(changes)
    }

    pub fn selected(&self) -> (r: Option<DeviceId>)
        ensures
            r == self.view().selected,
    {
        self.selected
    }

    /// Choose the device to drive. Only a supported model can be chosen.
    pub fn select(&mut self, id: DeviceId) -> (r: Result<(), HidError>)
        requires
            old(self).wf(),
        ensures
            final(self).wf(),
            final(self).view().models == old(self).view().models,
            final(self).view().present == old(self).view().present,
            old(self).view().models.contains(id) ==> r is Ok && final(self).view().selected
                == Some(id),
            !old(self).view().models.contains(id) ==> r == Err::<(), HidError>(
                HidError::Unknown(id.vendor_id, id.product_id),
            ) && final(self).view() == old(self).view(),
            forall|x: DeviceId| final(self).model_of(x) == old(self).model_of(x),
    {
        if !self.supports(id) {
            return Err(HidError::Unknown(id.vendor_id, id.product_id));
        }
        self.selected = Some(id);
        Ok(())
    }

    pub fn clear_selection(&mut self)
        ensures
            final(self).view().models == old(self).view().models,
            final(self).view().present == old(self).view().present,
            final(self).view().selected is None,
            old(self).wf() ==> final(self).wf(),
            forall|x: DeviceId| final(self).model_of(x) == old(self).model_of(x),
    {
        self.selected = None;
    }

    pub fn is_present(&self, id: DeviceId) -> (r: bool)
        ensures
            r == self.view().present.contains(id),
    {
        contains_id(&self.present, id)
    }

    /// The model that drives `id`.
    pub fn model(&self, id: DeviceId) -> (r: Result<&H, HidError>)
        requires
            self.wf(),
        ensures
            self.view().models.contains(id) ==> (r matches Ok(m) && *m == self.model_of(id)),
            !self.view().models.contains(id) ==> r == Err::<&H, HidError>(
                HidError::Unknown(id.vendor_id, id.product_id),
            ),
    {
        match self.model_index(id) {
            Some(i) => Ok(&self.models[i]),
            None => Err(HidError::Unknown(id.vendor_id, id.product_id)),
        }
    }

    /// Whether `id` may be opened: refused early when it is not supported or
    /// was not seen by the last refresh.
    pub fn check_open(&self, id: DeviceId) -> (r: Result<(), HidError>)
        requires
            self.wf(),
        ensures
            r == self.open_verdict(id),
    {
        if !self.supports(id) {
            return Err(HidError::Unknown(id.vendor_id, id.product_id));
        }
        if !self.is_present(id) {
            return Err(HidError::Absent(id.vendor_id, id.product_id));
        }
        Ok(())
    }

    pub open spec fn open_verdict(&self, id: DeviceId) -> Result<(), HidError> {
        if !self.view().models.contains(id) {
            Err(HidError::Unknown(id.vendor_id, id.product_id))
        } else if !self.view().present.contains(id) {
            Err(HidError::Absent(id.vendor_id, id.product_id))
        } else {
            Ok(())
        }
    }

    /// Set side tone on `id` over the opened channel `t`.
    pub fn set_sidetone<T: HidTransport>(&self, id: DeviceId, t: &mut T, level: u8) -> (r: Result<
        (),
        HidError,
    >)
        requires
            self.wf(),
        ensures
            self.open_verdict(id) matches Err(e) ==> r == Err::<(), HidError>(e) && untouched(
                *old(t),
                *final(t),
            ),
            self.open_verdict(id) is Ok ==> match self.model_of(id).sidetone_report(level) {
                None => r == Err::<(), HidError>(HidError::Unsupported("sidetone")) && untouched(
                    *old(t),
                    *final(t),
                ),
                Some(rep) => report_written(*old(t), *final(t), rep, r is Ok),
            },
    {
        self.check_open(id)?;
        let m = self.model(id)?;
        m.set_sidetone(t, level)
    }

    /// Set microphone volume on `id` over the opened channel `t`.
    pub fn set_microphone_volume<T: HidTransport>(&self, id: DeviceId, t: &mut T, level: u8) -> (r:
        Result<(), HidError>)
        requires
            self.wf(),
        ensures
            self.open_verdict(id) matches Err(e) ==> r == Err::<(), HidError>(e) && untouched(
                *old(t),
                *final(t),
            ),
            self.open_verdict(id) is Ok ==> match self.model_of(id).microphone_report(level) {
                None => r == Err::<(), HidError>(HidError::Unsupported("microphone volume"))
                    && untouched(*old(t), *final(t)),
                Some(rep) => report_written(*old(t), *final(t), rep, r is Ok),
            },
    {
        self.check_open(id)?;
        let m = self.model(id)?;
        m.set_microphone_volume(t, level)
    }

    /// Read the ChatMix wheel of `id` over the opened channel `t`.
    pub fn read_chatmix<T: HidTransport>(&self, id: DeviceId, t: &mut T) -> (r: Result<u8, HidError>)
        requires
            self.wf(),
        ensures
            self.open_verdict(id) matches Err(e) ==> r == Err::<u8, HidError>(e) && untouched(
                *old(t),
                *final(t),
            ),
            self.open_verdict(id) is Ok ==> match self.model_of(id).status_request() {
                None => r == Err::<u8, HidError>(HidError::Unsupported("chatmix")) && untouched(
                    *old(t),
                    *final(t),
                ),
                Some(req) => (exchanged(*old(t), *final(t), req) && r == Ok::<u8, HidError>(
                    self.model_of(id).chatmix_reading(final(t).received().last()),
                )) || (exchange_failed(*old(t), *final(t), req) && r is Err),
            },
            r matches Ok(v) ==> v <= 100,
    {
        self.check_open(id)?;
        let m = self.model(id)?;
        m.read_chatmix(t)
    }

    /// Read the battery level of `id` over the opened channel `t`.
    pub fn read_battery<T: HidTransport>(&self, id: DeviceId, t: &mut T) -> (r: Result<u8, HidError>)
        requires
            self.wf(),
        ensures
            self.open_verdict(id) matches Err(e) ==> r == Err::<u8, HidError>(e) && untouched(
                *old(t),
                *final(t),
            ),
            self.open_verdict(id) is Ok ==> battery_read(self.model_of(id), *old(t), *final(t), r),
            r matches Ok(v) ==> v <= 100,
    {
        self.check_open(id)?;
        let m = self.model(id)?;
        m.read_battery(t)
    }

    /// Battery as reported to clients: never an error. A device that may
    /// not be opened reads as its verdict says (absent or unknown reads
    /// `Absent`); otherwise the status reply's level is `Connected`, and a
    /// failed exchange or an unknown level is `Faulted`.
    pub fn battery<T: HidTransport>(&self, id: DeviceId, t: &mut T) -> (b: BatteryInfo)
        requires
            self.wf(),
        ensures
            self.open_verdict(id) matches Err(e) ==> b == battery_info_spec(
                Err::<u8, HidError>(e),
            ) && untouched(*old(t), *final(t)),
            self.open_verdict(id) is Ok ==> exists|r: Result<u8, HidError>|
                b == #[trigger] battery_info_spec(r) && battery_read(
                    self.model_of(id),
                    *old(t),
                    *final(t),
                    r,
                ),
            b.level matches Some(v) ==> v <= 100 && b.presence == DevicePresence::Connected,
    {
        let r = self.read_battery(id, t);
        let b = battery_info(r);
        proof {
            if self.open_verdict(id) is Ok {
                assert(b == battery_info_spec(r) && battery_read(self.model_of(id), *old(t), *t, r));
            }
        }
        b
    }
}

/// `d` lists model `m`, connected exactly when its id is in `present`.
pub open spec fn describes<H: Headset>(d: DeviceDescriptor, m: H, present: Seq<DeviceId>) -> bool {
    &&& d.id == m.spec_id()
    &&& d.name@ == m.spec_name()
    &&& d.capabilities@ == m.spec_capabilities()
    &&& d.presence == if present.contains(m.spec_id()) {
        DevicePresence::Connected
    } else {
        DevicePresence::Absent
    }
}

/// Each descriptor lists one of `models`, and each model is listed.
pub open spec fn lists_every_model<H: Headset>(
    out: Seq<DeviceDescriptor>,
    models: Seq<H>,
    present: Seq<DeviceId>,
) -> bool {
    &&& forall|k: int| 0 <= k < out.len() ==> describes_one_of(#[trigger] out[k], models, present)
    &&& forall|j: int| 0 <= j < models.len() ==> described_in(#[trigger] models[j], out, present)
}

/// `d` describes one of `models`.
pub open spec fn describes_one_of<H: Headset>(
    d: DeviceDescriptor,
    models: Seq<H>,
    present: Seq<DeviceId>,
) -> bool {
    exists|j: int| 0 <= j < models.len() && describes(d, #[trigger] models[j], present)
}

/// One of `out` describes `m`.
pub open spec fn described_in<H: Headset>(
    m: H,
    out: Seq<DeviceDescriptor>,
    present: Seq<DeviceId>,
) -> bool {
    exists|k: int| 0 <= k < out.len() && describes(#[trigger] out[k], m, present)
}

/// Descriptors in name order.
pub open spec fn names_sorted(s: Seq<DeviceDescriptor>) -> bool {
    forall|k: int| 0 <= k < s.len() - 1 ==> chars_le(#[trigger] s[k].name@, s[k + 1].name@)
}

/// Insert `d` after every descriptor whose name sorts no later, keeping the
/// list in name order; equal names keep their arrival order.
#[verifier::spinoff_prover]
fn insert_by_name(out: &mut Vec<DeviceDescriptor>, d: DeviceDescriptor) -> (p: usize)
    requires
        names_sorted(old(out)@),
    ensures
        p <= old(out)@.len(),
        final(out)@ == old(out)@.insert(p as int, d),
        names_sorted(final(out)@),
{
    let mut p: usize = 0;
    while p < out.len() && str_le(out[p].name.as_str(), d.name.as_str())
        invariant
            p <= out@.len(),
            forall|k: int| 0 <= k < p ==> chars_le(#[trigger] out@[k].name@, d.name@),
        decreases out@.len() - p,
    {
        p = p + 1;
    }
    let ghost before = out@;
    let ghost dd = d;
    proof {
        if p < before.len() {
            assert(!chars_le(before[p as int].name@, d.name@));
            lemma_chars_le_total(before[p as int].name@, d.name@);
        }
    }
    out.insert(p, d);
    proof {
        assert(out@ == before.insert(p as int, dd));
        assert forall|k: int| 0 <= k < out@.len() - 1 implies chars_le(
            #[trigger] out@[k].name@,
            out@[k + 1].name@,
        ) by {
            if k < p - 1 {
                assert(out@[k] == before[k] && out@[k + 1] == before[k + 1]);
            } else if k == p - 1 {
                assert(out@[k] == before[k] && out@[k + 1] == dd);
                assert(chars_le(before[k].name@, dd.name@));
            } else if k == p {
                assert(out@[k] == dd && out@[k + 1] == before[k]);
                assert(chars_le(dd.name@, before[k].name@));
            } else {
                assert(out@[k] == before[k - 1] && out@[k + 1] == before[k]);
            }
        }
    }
    p
}

impl<H: Headset> DeviceRegistry<H> {
    /// Every supported model, connected or not, in name order.
    pub fn descriptors(&self) -> (out: Vec<DeviceDescriptor>)
        requires
            self.wf(),
        ensures
            out@.len() == self.model_list().len(),
            names_sorted(out@),
            lists_every_model(out@, self.model_list(), self.view().present),
    {
        let mut out: Vec<DeviceDescriptor> = Vec::new();
        let mut i: usize = 0;
        let ghost mut src: Seq<int> = Seq::empty();
        let ghost mut dst: Seq<int> = Seq::empty();
        while i < self.models.len()
            invariant
                i <= self.models@.len(),
                out@.len() == i,
                names_sorted(out@),
                src.len() == i,
                dst.len() == i,
                forall|k: int| 0 <= k < i ==> 0 <= #[trigger] src[k] < i,
                forall|k: int| 0 <= k < i ==> describes(#[trigger] out@[k], self.models@[src[k]], self.present@),
                forall|j: int| 0 <= j < i ==> 0 <= #[trigger] dst[j] < i && src[dst[j]] == j,
            decreases self.models@.len() - i,
        {
            let m = &self.models[i];
            let id = m.id();
            let presence = if self.is_present(id) {
                DevicePresence::Connected
            } else {
                DevicePresence::Absent
            };
            let d = DeviceDescriptor {
                id,
                name: String::from_str(m.name()),
                presence,
                capabilities: m.capabilities(),
            };
            assert(describes(d, self.models@[i as int], self.present@));
            let ghost before = out@;
            let ghost dd = d;
            let p = insert_by_name(&mut out, d);
            proof {
                let ii = i as int;
                let pp = p as int;
                let src0 = src;
                let dst0 = dst;
                src = src0.insert(pp, ii);
                dst = Seq::new(ii as nat, |j: int| if dst0[j] >= pp { dst0[j] + 1 } else { dst0[j] }).push(pp);
                assert forall|k: int| 0 <= k < ii + 1 implies 0 <= #[trigger] src[k] < ii + 1 by {
                    if k < pp {
                        assert(src[k] == src0[k]);
                    } else if k > pp {
                        assert(src[k] == src0[k - 1]);
                    }
                }
                assert forall|k: int| 0 <= k < ii + 1 implies describes(#[trigger] out@[k], self.models@[src[k]], self.present@) by {
                    if k < pp {
                        assert(out@[k] == before[k] && src[k] == src0[k]);
                    } else if k == pp {
                        assert(out@[k] == dd && src[k] == ii);
                    } else {
                        assert(out@[k] == before[k - 1] && src[k] == src0[k - 1]);
                    }
                }
                assert forall|j: int| 0 <= j < ii + 1 implies 0 <= #[trigger] dst[j] < ii + 1 && src[dst[j]] == j by {
                    if j < ii {
                        let x = dst0[j];
                        assert(0 <= x < ii && src0[x] == j);
                        if x >= pp {
                            assert(dst[j] == x + 1);
                            assert(src[x + 1] == src0[x]);
                        } else {
                            assert(dst[j] == x);
                            assert(src[x] == src0[x]);
                        }
                    } else {
                        assert(dst[j] == pp);
                        assert(src[pp] == ii);
                    }
                }
            }
            i = i + 1;
        }
        assert(self.model_list() == self.models@);
        assert(self.view().present == self.present@);
        assert forall|k: int| 0 <= k < out@.len() implies describes_one_of(#[trigger] out@[k], self.models@, self.present@) by {
            assert(describes(out@[k], self.models@[src[k]], self.present@));
        }
        assert forall|j: int| 0 <= j < self.models@.len() implies described_in(#[trigger] self.models@[j], out@, self.present@) by {
            let k = dst[j];
            assert(src[k] == j);
            assert(describes(out@[k], self.models@[src[k]], self.present@));
        }
        assert(lists_every_model(out@, self.model_list(), self.view().present));
        out
    }
}
} // verus!
