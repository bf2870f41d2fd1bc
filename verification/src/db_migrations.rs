//! The versions of the database schema and the step from each to the next.

use vstd::prelude::*;

use crate::text;

verus! {

/// The version that the steps lead to.
pub const LATEST_SCHEMA_VERSION: i64 = 2;

/// The name of the only lane that stays.
pub const LANE_NAME: &'static str = "codex";

/// A row of the table of agent slots, with what other tables hold of it.
pub struct SlotRecord {
    pub id: i64,
    pub name: String,
    pub has_messages: bool,
    pub has_attachments: bool,
    pub has_session: bool,
}

/// What the steps read and change: the versions on record, whether the base
/// tables are there, and the agent slots in the order of their ids.
pub struct Schema {
    pub versions: Vec<i64>,
    pub has_base_tables: bool,
    pub slots: Vec<SlotRecord>,
}

#[verifier::ext_equal]
pub struct SlotView {
    pub id: int,
    pub name: Seq<char>,
    pub has_messages: bool,
    pub has_attachments: bool,
    pub has_session: bool,
}

#[verifier::ext_equal]
pub struct SchemaView {
    pub versions: Seq<i64>,
    pub has_base_tables: bool,
    pub slots: Seq<SlotView>,
}

impl View for SlotRecord {
    type V = SlotView;

    open spec fn view(&self) -> SlotView {
        SlotView {
            id: self.id as int,
            name: self.name@,
            has_messages: self.has_messages,
            has_attachments: self.has_attachments,
            has_session: self.has_session,
        }
    }
}

impl View for Schema {
    type V = SchemaView;

    open spec fn view(&self) -> SchemaView {
        SchemaView {
            versions: self.versions@,
            has_base_tables: self.has_base_tables,
            slots: slot_views(self.slots@),
        }
    }
}

pub open spec fn slot_views(slots: Seq<SlotRecord>) -> Seq<SlotView> {
    slots.map_values(|s: SlotRecord| s@)
}

// ---------------------------------------------------------------------------
// The model
// ---------------------------------------------------------------------------

impl SlotView {
    /// Whether the slot has this name, in upper or lower case.
    pub open spec fn named(self, name: Seq<char>) -> bool {
        text::lowered(self.name) == name
    }

    /// A slot of the days when there were several lanes.
    pub open spec fn legacy(self) -> bool {
        self.named("a"@) || self.named("b"@) || self.named("c"@) || self.named("d"@)
            || self.named("e"@)
    }

    pub open spec fn empty(self) -> bool {
        !self.has_messages && !self.has_attachments && !self.has_session
    }
}

/// The highest version on record; 0 where there is none.
pub open spec fn current_of(versions: Seq<i64>) -> i64
    decreases versions.len(),
{
    if versions.len() == 0 {
        0
    } else if versions.len() == 1 {
        versions[0]
    } else {
        let rest = current_of(versions.drop_last());
        if versions.last() > rest {
            versions.last()
        } else {
            rest
        }
    }
}

/// The versions after one more was put on record.
pub open spec fn with_version(versions: Seq<i64>, version: i64) -> Seq<i64> {
    if versions.contains(version) {
        versions
    } else {
        versions.push(version)
    }
}

/// Slot `a` becomes the lane, unless there is one.
pub open spec fn lane_renamed(slots: Seq<SlotView>) -> Seq<SlotView> {
    if exists|i: int| 0 <= i < slots.len() && (#[trigger] slots[i]).named(LANE_NAME@) {
        slots
    } else {
        slots.map_values(
            |s: SlotView|
                if s.named("a"@) {
                    SlotView { name: LANE_NAME@, ..s }
                } else {
                    s
                },
        )
    }
}

/// The slots without the legacy ones that hold nothing.
pub open spec fn legacy_pruned(slots: Seq<SlotView>) -> Seq<SlotView>
    decreases slots.len(),
{
    if slots.len() == 0 {
        slots
    } else {
        let rest = legacy_pruned(slots.drop_last());
        if slots.last().legacy() && slots.last().empty() {
            rest
        } else {
            rest.push(slots.last())
        }
    }
}

impl SchemaView {
    /// Names are unique, whatever their case; without the base tables there
    /// are no slots and no version is on record.
    pub open spec fn well_formed(self) -> bool {
        &&& forall|i: int, j: int|
            0 <= i < j < self.slots.len() ==> text::lowered(#[trigger] self.slots[i].name)
                != text::lowered(#[trigger] self.slots[j].name)
        &&& !self.has_base_tables ==> self.slots.len() == 0 && current_of(self.versions) < 1
    }
}

/// The schema after every step that it still needs.
pub open spec fn migrated(schema: SchemaView) -> SchemaView {
    let current = current_of(schema.versions);
    let first = if current < 1 {
        with_version(schema.versions, 1)
    } else {
        schema.versions
    };
    SchemaView {
        versions: if current < 2 {
            with_version(first, 2)
        } else {
            first
        },
        has_base_tables: true,
        slots: if current < 2 {
            legacy_pruned(lane_renamed(schema.slots))
        } else {
            schema.slots
        },
    }
}

// ---------------------------------------------------------------------------
// The steps
// ---------------------------------------------------------------------------

impl Schema {
    /// The schema of a database that was just made.
    pub fn new() -> (res: Schema)
        ensures
            res@ == (SchemaView {
                versions: Seq::empty(),
                has_base_tables: false,
                slots: Seq::empty(),
            }),
            res@.well_formed(),
    {
        let res = Schema { versions: Vec::new(), has_base_tables: false, slots: Vec::new() };
        assert(res@.slots =~= Seq::empty());
        res
    }
}

/// The highest version on record; 0 where there is none.
pub fn current_version(versions: &Vec<i64>) -> (res: i64)
    ensures
        res == current_of(versions@),
{
    if versions.len() == 0 {
        return 0;
    }
    let mut best: i64 = versions[0];
    let mut i: usize = 1;
    assert(versions@.take(1) =~= seq![versions@[0]]);
    while i < versions.len()
        invariant
            1 <= i <= versions@.len(),
            best == current_of(versions@.take(i as int)),
        decreases versions@.len() - i,
    {
        assert(versions@.take(i + 1).drop_last() =~= versions@.take(i as int));
        if versions[i] > best {
            best = versions[i];
        }
        i += 1;
    }
    assert(versions@.take(i as int) =~= versions@);
    best
}

fn record_migration(versions: &mut Vec<i64>, version: i64)
    ensures
        final(versions)@ == with_version(old(versions)@, version),
{
    let mut i: usize = 0;
    while i < versions.len()
        invariant
            i <= versions@.len(),
            versions@ == old(versions)@,
            forall|j: int| 0 <= j < i ==> versions@[j] != version,
        decreases versions@.len() - i,
    {
        if versions[i] == version {
            return;
        }
        i += 1;
    }
    versions.push(version);
}

fn is_legacy(slot: &SlotRecord) -> (res: bool)
    ensures
        res == slot@.legacy(),
{
    let name = text::lower(slot.name.as_str());
    text::same(name.as_str(), "a") || text::same(name.as_str(), "b") || text::same(
        name.as_str(),
        "c",
    ) || text::same(name.as_str(), "d") || text::same(name.as_str(), "e")
}

fn has_lane(slots: &Vec<SlotRecord>) -> (res: bool)
    ensures
        res == exists|i: int| 0 <= i < slots@.len() && (#[trigger] slot_views(slots@)[i]).named(LANE_NAME@),
{
    let mut i: usize = 0;
    while i < slots.len()
        invariant
            i <= slots@.len(),
            forall|j: int| 0 <= j < i ==> !(#[trigger] slot_views(slots@)[j]).named(LANE_NAME@),
        decreases slots@.len() - i,
    {
        let name = text::lower(slots[i].name.as_str());
        if text::same(name.as_str(), LANE_NAME) {
            assert(slot_views(slots@)[i as int].named(LANE_NAME@));
            return true;
        }
        i += 1;
    }
    false
}

fn rename_lane(slots: &mut Vec<SlotRecord>)
    ensures
        slot_views(final(slots)@) == lane_renamed(slot_views(old(slots)@)),
{
    if has_lane(slots) {
        return;
    }
    let ghost before = slot_views(slots@);
    let mut i: usize = 0;
    while i < slots.len()
        invariant
            i <= slots@.len() == before.len(),
            forall|j: int|
                0 <= j < i ==> #[trigger] slot_views(slots@)[j] == (if before[j].named("a"@) {
                    SlotView { name: LANE_NAME@, ..before[j] }
                } else {
                    before[j]
                }),
            forall|j: int| i <= j < before.len() ==> #[trigger] slot_views(slots@)[j] == before[j],
        decreases slots@.len() - i,
    {
        assert(slot_views(slots@)[i as int] == before[i as int]);
        let name = text::lower(slots[i].name.as_str());
        if text::same(name.as_str(), "a") {
            let slot = SlotRecord {
                id: slots[i].id,
                name: LANE_NAME.to_owned(),
                has_messages: slots[i].has_messages,
                has_attachments: slots[i].has_attachments,
                has_session: slots[i].has_session,
            };
            let ghost prior = slots@;
            slots.set(i, slot);
            assert(slot_views(slots@) =~= slot_views(prior).update(i as int, slot@));
        }
        i += 1;
    }
    assert(slot_views(slots@) =~= lane_renamed(before));
}

fn prune_legacy(slots: &Vec<SlotRecord>) -> (res: Vec<SlotRecord>)
    ensures
        slot_views(res@) == legacy_pruned(slot_views(slots@)),
{
    let ghost all = slot_views(slots@);
    let mut kept: Vec<SlotRecord> = Vec::new();
    let mut i: usize = 0;
    assert(slot_views(kept@) =~= legacy_pruned(all.take(0)));
    while i < slots.len()
        invariant
            i <= slots@.len(),
            all == slot_views(slots@),
            slot_views(kept@) == legacy_pruned(all.take(i as int)),
        decreases slots@.len() - i,
    {
        assert(all.take(i + 1).drop_last() =~= all.take(i as int));
        let slot = &slots[i];
        let empty = !slot.has_messages && !slot.has_attachments && !slot.has_session;
        if !(is_legacy(slot) && empty) {
            let copy = SlotRecord {
                id: slot.id,
                name: slot.name.clone(),
                has_messages: slot.has_messages,
                has_attachments: slot.has_attachments,
                has_session: slot.has_session,
            };
            let ghost prior = kept@;
            kept.push(copy);
            assert(slot_views(kept@) =~= slot_views(prior).push(copy@));
        }
        i += 1;
    }
    assert(all.take(i as int) =~= all);
    kept
}

/// Takes every step that the schema still needs: the base tables first, then
/// the move to a single lane.
pub fn migrate(schema: &mut Schema)
    requires
        old(schema)@.well_formed(),
    ensures
        final(schema)@ == migrated(old(schema)@),
        final(schema)@.well_formed(),
        current_of(final(schema)@.versions) >= LATEST_SCHEMA_VERSION,
{
    proof {
        migration_keeps_names_unique(schema@);
        migration_reaches_the_latest_version(schema@);
    }
    let current = current_version(&schema.versions);
    if current < 1 {
        schema.has_base_tables = true;
        record_migration(&mut schema.versions, 1);
    }
    if current < 2 {
        rename_lane(&mut schema.slots);
        schema.slots = prune_legacy(&schema.slots);
        record_migration(&mut schema.versions, 2);
    }
}

// ---------------------------------------------------------------------------
// What holds of the steps
// ---------------------------------------------------------------------------

proof fn current_is_highest(versions: Seq<i64>, i: int)
    requires
        0 <= i < versions.len(),
    ensures
        versions[i] <= current_of(versions),
    decreases versions.len(),
{
    if i < versions.len() - 1 {
        current_is_highest(versions.drop_last(), i);
    }
}

/// After a migration the latest version is on record, or a later one.
pub proof fn migration_reaches_the_latest_version(schema: SchemaView)
    ensures
        current_of(migrated(schema).versions) >= LATEST_SCHEMA_VERSION,
        current_of(schema.versions) < LATEST_SCHEMA_VERSION ==> migrated(schema).versions.contains(
            LATEST_SCHEMA_VERSION,
        ),
{
    if current_of(schema.versions) < 2 {
        let first = if current_of(schema.versions) < 1 {
            with_version(schema.versions, 1)
        } else {
            schema.versions
        };
        let all = with_version(first, 2);
        if !first.contains(2) {
            assert(all[all.len() - 1] == 2);
        }
        let i = choose|i: int| 0 <= i < all.len() && all[i] == 2;
        current_is_highest(all, i);
    }
}

/// A second migration changes nothing.
pub proof fn migration_happens_once(schema: SchemaView)
    ensures
        migrated(migrated(schema)) == migrated(schema),
{
    migration_reaches_the_latest_version(schema);
}

proof fn pruned_slots_are_kept_slots(slots: Seq<SlotView>)
    ensures
        forall|i: int|
            0 <= i < legacy_pruned(slots).len() ==> slots.contains(
                #[trigger] legacy_pruned(slots)[i],
            ) && !(legacy_pruned(slots)[i].legacy() && legacy_pruned(slots)[i].empty()),
        forall|i: int|
            0 <= i < slots.len() && !(slots[i].legacy() && slots[i].empty()) ==> legacy_pruned(
                slots,
            ).contains(#[trigger] slots[i]),
    decreases slots.len(),
{
    if slots.len() > 0 {
        let front = slots.drop_last();
        pruned_slots_are_kept_slots(front);
        let rest = legacy_pruned(front);
        let all = legacy_pruned(slots);
        assert forall|i: int| 0 <= i < all.len() implies slots.contains(#[trigger] all[i]) && !(
        all[i].legacy() && all[i].empty()) by {
            if i < rest.len() {
                assert(all[i] == rest[i]);
                let k = choose|k: int| 0 <= k < front.len() && front[k] == rest[i];
                assert(slots[k] == all[i]);
            } else {
                assert(slots[slots.len() - 1] == all[i]);
            }
        }
        assert forall|i: int|
            0 <= i < slots.len() && !(slots[i].legacy()
                && slots[i].empty()) implies all.contains(#[trigger] slots[i]) by {
            if i < slots.len() - 1 {
                assert(front[i] == slots[i]);
                assert(rest.contains(front[i]));
                let k = choose|k: int| 0 <= k < rest.len() && rest[k] == front[i];
                assert(all[k] == slots[i]);
            } else {
                assert(all[all.len() - 1] == slots[i]);
            }
        }
    }
}

pub open spec fn unique_names(slots: Seq<SlotView>) -> bool {
    forall|i: int, j: int|
        0 <= i < j < slots.len() ==> text::lowered(#[trigger] slots[i].name) != text::lowered(
            #[trigger] slots[j].name,
        )
}

proof fn lane_name_is_lower()
    ensures
        text::lowered(LANE_NAME@) == LANE_NAME@,
{
    reveal_strlit("codex");
    assert(text::lowered(LANE_NAME@) =~= LANE_NAME@);
}

proof fn renaming_keeps_names_unique(slots: Seq<SlotView>)
    requires
        unique_names(slots),
    ensures
        unique_names(lane_renamed(slots)),
{
    lane_name_is_lower();
    let after = lane_renamed(slots);
    if !(exists|i: int| 0 <= i < slots.len() && (#[trigger] slots[i]).named(LANE_NAME@)) {
        assert forall|i: int, j: int| 0 <= i < j < after.len() implies text::lowered(
            #[trigger] after[i].name,
        ) != text::lowered(#[trigger] after[j].name) by {
            assert(!slots[i].named(LANE_NAME@));
            assert(!slots[j].named(LANE_NAME@));
            assert(text::lowered(slots[i].name) != text::lowered(slots[j].name));
        }
    }
}

proof fn pruning_keeps_names_unique(slots: Seq<SlotView>)
    requires
        unique_names(slots),
    ensures
        unique_names(legacy_pruned(slots)),
    decreases slots.len(),
{
    if slots.len() > 0 {
        let front = slots.drop_last();
        assert(unique_names(front)) by {
            assert forall|i: int, j: int| 0 <= i < j < front.len() implies text::lowered(
                #[trigger] front[i].name,
            ) != text::lowered(#[trigger] front[j].name) by {
                assert(text::lowered(slots[i].name) != text::lowered(slots[j].name));
            }
        }
        pruning_keeps_names_unique(front);
        pruned_slots_are_kept_slots(front);
        let rest = legacy_pruned(front);
        let all = legacy_pruned(slots);
        assert forall|i: int, j: int| 0 <= i < j < all.len() implies text::lowered(
            #[trigger] all[i].name,
        ) != text::lowered(#[trigger] all[j].name) by {
            assert(all[i] == rest[i]);
            if j < rest.len() {
                assert(all[j] == rest[j]);
            } else {
                assert(front.contains(rest[i]));
                let k = choose|k: int| 0 <= k < front.len() && front[k] == rest[i];
                assert(slots[k] == front[k]);
                assert(text::lowered(slots[k].name) != text::lowered(
                    slots[slots.len() - 1].name,
                ));
            }
        }
    }
}

/// A migration keeps the names unique.
pub proof fn migration_keeps_names_unique(schema: SchemaView)
    requires
        schema.well_formed(),
    ensures
        migrated(schema).well_formed(),
{
    renaming_keeps_names_unique(schema.slots);
    pruning_keeps_names_unique(lane_renamed(schema.slots));
    assert(unique_names(migrated(schema).slots));
}

/// A slot that holds messages, attachments or a session is never removed, and
/// neither is one with a name of its own; only slot `a` can change its name.
pub proof fn slots_in_use_are_kept(schema: SchemaView, i: int)
    requires
        0 <= i < schema.slots.len(),
        !schema.slots[i].empty() || !schema.slots[i].legacy(),
    ensures
        migrated(schema).slots.contains(schema.slots[i]) || (schema.slots[i].named("a"@)
            && migrated(schema).slots.contains(SlotView { name: LANE_NAME@, ..schema.slots[i] })),
{
    let renamed = lane_renamed(schema.slots);
    pruned_slots_are_kept_slots(renamed);
    lane_name_is_lower();
    if current_of(schema.versions) < 2 {
        assert(!(renamed[i].legacy() && renamed[i].empty())) by {
            if renamed[i] != schema.slots[i] {
                reveal_strlit("codex");
                reveal_strlit("a");
                reveal_strlit("b");
                reveal_strlit("c");
                reveal_strlit("d");
                reveal_strlit("e");
                assert(!renamed[i].legacy());
            }
        }
        assert(legacy_pruned(renamed).contains(renamed[i]));
    }
}

/// Every slot after a migration was there before, under its name or as slot
/// `a`, and no legacy slot that holds nothing is left.
pub proof fn migration_adds_no_slot(schema: SchemaView, i: int)
    requires
        0 <= i < migrated(schema).slots.len(),
        current_of(schema.versions) < LATEST_SCHEMA_VERSION,
    ensures
        ({
            let slot = migrated(schema).slots[i];
            &&& schema.slots.contains(slot) || exists|k: int|
                0 <= k < schema.slots.len() && (#[trigger] schema.slots[k]).named("a"@) && slot == (
                SlotView { name: LANE_NAME@, ..schema.slots[k] })
            &&& !(slot.legacy() && slot.empty())
        }),
{
    let renamed = lane_renamed(schema.slots);
    pruned_slots_are_kept_slots(renamed);
    let slot = migrated(schema).slots[i];
    assert(renamed.contains(slot));
    let k = choose|k: int| 0 <= k < renamed.len() && renamed[k] == slot;
    if schema.slots[k] == renamed[k] {
        assert(schema.slots.contains(slot));
    } else {
        assert(schema.slots[k].named("a"@));
    }
}

/// The current version is the largest that is recorded, and zero where none is.
pub proof fn the_current_version_is_the_largest(versions: Seq<i64>, i: int)
    ensures
        versions.len() == 0 ==> current_of(versions) == 0,
        versions.len() > 0 ==> versions.contains(current_of(versions)),
        0 <= i < versions.len() ==> versions[i] <= current_of(versions),
    decreases versions.len(),
{
    if versions.len() > 1 {
        let front = versions.drop_last();
        the_current_version_is_the_largest(front, i);
        assert(versions[versions.len() - 1] == versions.last());
        if 0 <= i < front.len() {
            assert(front[i] == versions[i]);
        }
        let k = choose|k: int| 0 <= k < front.len() && front[k] == current_of(front);
        assert(versions[k] == current_of(front));
    } else if versions.len() == 1 {
        assert(versions[0] == current_of(versions));
    }
}

/// A migration records the versions that were missing, each once and in order,
/// and drops none; a deck of the latest version is left as it is.
pub proof fn missing_versions_are_recorded(schema: SchemaView)
    ensures
        migrated(schema).has_base_tables,
        current_of(schema.versions) >= 2 ==> migrated(schema).versions == schema.versions
            && migrated(schema).slots == schema.slots,
        schema.versions.len() == 0 ==> migrated(schema).versions == seq![1i64, 2i64],
        schema.versions == seq![1i64] ==> migrated(schema).versions == seq![1i64, 2i64],
        forall|i: int|
            0 <= i < schema.versions.len() ==> (#[trigger] migrated(schema).versions[i])
                == schema.versions[i],
{
    let one = seq![1i64];
    if schema.versions.len() == 0 {
        assert(schema.versions =~= Seq::empty());
        assert(schema.versions.push(1i64) =~= one);
        assert(!one.contains(2i64));
        assert(one.push(2i64) =~= seq![1i64, 2i64]);
    }
    if schema.versions == one {
        assert(!one.contains(2i64));
        assert(one.push(2i64) =~= seq![1i64, 2i64]);
    }
}

/// Where no slot has the agent's name, slot `a` gets it, in whatever case it was
/// written, and keeps the rest; where one has it, no slot is renamed.
pub proof fn slot_a_becomes_the_agents(slots: Seq<SlotView>, i: int)
    requires
        0 <= i < slots.len(),
    ensures
        lane_renamed(slots).len() == slots.len(),
        (exists|k: int| 0 <= k < slots.len() && text::lowered((#[trigger] slots[k]).name) == "codex"@)
            ==> lane_renamed(slots) == slots,
        (forall|k: int| 0 <= k < slots.len() ==> text::lowered((#[trigger] slots[k]).name)
            != "codex"@) && text::lowered(slots[i].name) == "a"@ ==> lane_renamed(slots)[i] == (
        SlotView { name: "codex"@, ..slots[i] }),
        text::lowered(slots[i].name) != "a"@ ==> lane_renamed(slots)[i] == slots[i],
{
    if exists|k: int| 0 <= k < slots.len() && text::lowered((#[trigger] slots[k]).name) == "codex"@ {
        let k = choose|k: int|
            0 <= k < slots.len() && text::lowered((#[trigger] slots[k]).name) == "codex"@;
        assert(slots[k].named(LANE_NAME@));
    }
    if forall|k: int| 0 <= k < slots.len() ==> text::lowered((#[trigger] slots[k]).name) != "codex"@ {
        assert(forall|k: int| 0 <= k < slots.len() ==> !(#[trigger] slots[k]).named(LANE_NAME@));
    }
}

/// A slot is removed exactly where it has one of the five old names, in any case,
/// and holds nothing; the others keep their order.
pub proof fn only_empty_old_slots_are_removed(slots: Seq<SlotView>, slot: SlotView)
    ensures
        legacy_pruned(Seq::empty()).len() == 0,
        ({
            let name = text::lowered(slot.name);
            let old_name = name == "a"@ || name == "b"@ || name == "c"@ || name == "d"@ || name
                == "e"@;
            let nothing = !slot.has_messages && !slot.has_attachments && !slot.has_session;
            &&& old_name && nothing ==> legacy_pruned(slots.push(slot)) == legacy_pruned(slots)
            &&& !(old_name && nothing) ==> legacy_pruned(slots.push(slot)) == legacy_pruned(
                slots,
            ).push(slot)
        }),
{
    assert(slots.push(slot).drop_last() =~= slots);
}

} // verus!
