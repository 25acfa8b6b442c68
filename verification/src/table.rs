//! The process table: the registry of all managed processes, which
//! assigns their ids and keeps their names apart.

use vstd::prelude::*;
use vstd::string::StringExecFns;

use crate::protocol::{ProcessDetail, ProcessDetailView, ProcessInfo, ProcessInfoView, StartPayload};
use crate::resolve::belongs_to;
use crate::supervisor::Runtime;
use crate::text::str_eq;

verus! {

/// One managed process: its identity, its configuration and its runtime
/// state.
pub struct ProcessRecord {
    pub id: u32,
    pub name: String,
    pub config: StartPayload,
    pub runtime: Runtime,
}

/// The mathematical content of a [`ProcessRecord`].
pub struct RecordView {
    pub id: u32,
    pub name: Seq<char>,
    pub config: StartPayload,
    pub runtime: Runtime,
}

impl View for ProcessRecord {
    type V = RecordView;

    open spec fn view(&self) -> RecordView {
        RecordView { id: self.id, name: self.name@, config: self.config, runtime: self.runtime }
    }
}

/// The mathematical content of a [`ProcessTable`]: its records in the
/// order of their creation, and the id that the next record gets.
pub struct TableView {
    pub records: Seq<RecordView>,
    pub next_id: nat,
}

/// Why the table refuses an operation.
#[derive(Debug, Clone, Copy, PartialEq, Eq, Structural)]
pub enum TableError {
    /// A record of that name exists.
    NameTaken,
    /// All ids have been assigned.
    IdsExhausted,
    /// No record has that id.
    NotFound,
    /// The process still has a child.
    StillAlive,
}

impl TableView {
    /// The table without records.
    pub open spec fn empty() -> TableView {
        TableView { records: Seq::empty(), next_id: 0 }
    }

    /// The invariant of the table: ids grow in the order of creation and
    /// lie below the next id; no two records share a name; every runtime
    /// state is well-formed.
    pub open spec fn wf(self) -> bool {
        &&& self.next_id <= u32::MAX
        &&& forall|i: int| 0 <= i < self.records.len() ==> (#[trigger] self.records[i]).id < self.next_id
        &&& forall|i: int, j: int|
            0 <= i < j < self.records.len() ==> (#[trigger] self.records[i]).id
                < (#[trigger] self.records[j]).id
        &&& forall|i: int, j: int|
            0 <= i < j < self.records.len() ==> (#[trigger] self.records[i]).name
                != (#[trigger] self.records[j]).name
        &&& forall|i: int| 0 <= i < self.records.len() ==> (#[trigger] self.records[i]).runtime.wf()
    }

    /// The position of the record with the given id.
    pub open spec fn index_of(self, id: u32) -> Option<int>
        decreases self.records.len(),
    {
        if self.records.len() == 0 {
            None
        } else if self.records.last().id == id {
            Some(self.records.len() - 1)
        } else {
            (TableView { records: self.records.drop_last(), ..self }).index_of(id)
        }
    }

    /// The position of the record with the given name.
    pub open spec fn index_of_name(self, name: Seq<char>) -> Option<int>
        decreases self.records.len(),
    {
        if self.records.len() == 0 {
            None
        } else if self.records.last().name == name {
            Some(self.records.len() - 1)
        } else {
            (TableView { records: self.records.drop_last(), ..self }).index_of_name(name)
        }
    }

    /// The ids of the records that belong to `base`: those called `base`
    /// and the instances `base:k`, in the order of creation.
    pub open spec fn ids_of_base(self, base: Seq<char>) -> Seq<u32>
        decreases self.records.len(),
    {
        if self.records.len() == 0 {
            Seq::empty()
        } else {
            let rest = (TableView { records: self.records.drop_last(), ..self }).ids_of_base(base);
            if belongs_to(self.records.last().name, base) {
                rest.push(self.records.last().id)
            } else {
                rest
            }
        }
    }

    /// The table after a record was created for `name`, and the id of the
    /// record; the reason where none can be created.
    pub open spec fn created(self, config: StartPayload, name: Seq<char>) -> Result<
        (TableView, u32),
        TableError,
    > {
        if self.index_of_name(name) is Some {
            Err(TableError::NameTaken)
        } else if self.next_id >= u32::MAX {
            Err(TableError::IdsExhausted)
        } else {
            Ok(
                (
                    TableView {
                        records: self.records.push(
                            RecordView {
                                id: self.next_id as u32,
                                name,
                                config,
                                runtime: Runtime::fresh(),
                            },
                        ),
                        next_id: self.next_id + 1,
                    },
                    self.next_id as u32,
                ),
            )
        }
    }

    /// The table after the record with the given id was removed; the
    /// reason where it cannot be.
    pub open spec fn removed(self, id: u32) -> Result<TableView, TableError> {
        match self.index_of(id) {
            None => Err(TableError::NotFound),
            Some(i) => if self.records[i].runtime.status.is_alive() {
                Err(TableError::StillAlive)
            } else {
                Ok(TableView { records: self.records.remove(i), ..self })
            },
        }
    }

    /// The table with the runtime state of the record `id` replaced.
    pub open spec fn updated(self, id: u32, runtime: Runtime) -> Result<TableView, TableError> {
        match self.index_of(id) {
            None => Err(TableError::NotFound),
            Some(i) => Ok(
                TableView {
                    records: self.records.update(i, RecordView { runtime, ..self.records[i] }),
                    ..self
                },
            ),
        }
    }
}

/// Where a search by id finds something, it is the record with that id,
/// and the only one.
pub proof fn lemma_index_of(v: TableView, id: u32)
    ensures
        match v.index_of(id) {
            Some(i) => 0 <= i < v.records.len() && v.records[i].id == id,
            None => forall|j: int| 0 <= j < v.records.len() ==> (#[trigger] v.records[j]).id != id,
        },
    decreases v.records.len(),
{
    if v.records.len() > 0 && v.records.last().id != id {
        let front = TableView { records: v.records.drop_last(), ..v };
        lemma_index_of(front, id);
        if front.index_of(id) is None {
            assert forall|j: int| 0 <= j < v.records.len() implies (#[trigger] v.records[j]).id
                != id by {
                if j < front.records.len() {
                    assert(v.records[j] == front.records[j]);
                }
            }
        }
    }
}

/// Where a search by name finds something, it is a record of that name;
/// where it finds nothing, there is none.
pub proof fn lemma_index_of_name(v: TableView, name: Seq<char>)
    ensures
        match v.index_of_name(name) {
            Some(i) => 0 <= i < v.records.len() && v.records[i].name == name,
            None => forall|j: int|
                0 <= j < v.records.len() ==> (#[trigger] v.records[j]).name != name,
        },
    decreases v.records.len(),
{
    if v.records.len() > 0 && v.records.last().name != name {
        let front = TableView { records: v.records.drop_last(), ..v };
        lemma_index_of_name(front, name);
        if front.index_of_name(name) is None {
            assert forall|j: int| 0 <= j < v.records.len() implies (#[trigger] v.records[j]).name
                != name by {
                if j < front.records.len() {
                    assert(v.records[j] == front.records[j]);
                }
            }
        }
    }
}

/// The record at position `i` has an id of at least `i`: ids grow at least
/// as fast as positions.
pub proof fn lemma_id_at_least_position(v: TableView, i: int)
    requires
        v.wf(),
        0 <= i < v.records.len(),
    ensures
        v.records[i].id >= i,
    decreases i,
{
    if i > 0 {
        lemma_id_at_least_position(v, i - 1);
        assert(v.records[i - 1].id < v.records[i].id);
    }
}

/// A table holds no more records than ids were assigned, and no more
/// records belong to a base than there are records.
pub proof fn lemma_sizes(v: TableView, base: Seq<char>)
    requires
        v.wf(),
    ensures
        v.records.len() <= v.next_id,
        v.ids_of_base(base).len() <= v.records.len(),
{
    if v.records.len() > 0 {
        lemma_id_at_least_position(v, v.records.len() - 1);
    }
    lemma_ids_of_base_len(v, base);
}

/// No more records belong to a base than there are records.
pub proof fn lemma_ids_of_base_len(v: TableView, base: Seq<char>)
    ensures
        v.ids_of_base(base).len() <= v.records.len(),
    decreases v.records.len(),
{
    if v.records.len() > 0 {
        lemma_ids_of_base_len(TableView { records: v.records.drop_last(), ..v }, base);
    }
}

/// Creating a record keeps the invariant, and the new id is greater than
/// every id in the table.
pub proof fn lemma_created(v: TableView, config: StartPayload, name: Seq<char>)
    requires
        v.wf(),
        v.created(config, name) is Ok,
    ensures
        v.created(config, name)->Ok_0.0.wf(),
        v.created(config, name)->Ok_0.1 == v.next_id,
        v.created(config, name)->Ok_0.0.next_id == v.next_id + 1,
        forall|i: int|
            0 <= i < v.records.len() ==> (#[trigger] v.records[i]).id < v.created(
                config,
                name,
            )->Ok_0.1,
{
    lemma_index_of_name(v, name);
    let after = v.created(config, name)->Ok_0.0;
    assert forall|i: int, j: int| 0 <= i < j < after.records.len() implies (
    #[trigger] after.records[i]).id < (#[trigger] after.records[j]).id && after.records[i].name
        != after.records[j].name by {
        if j < v.records.len() {
            assert(after.records[i] == v.records[i] && after.records[j] == v.records[j]);
        } else {
            assert(after.records[i] == v.records[i]);
        }
    }
    assert forall|i: int| 0 <= i < after.records.len() implies (#[trigger] after.records[i]).id
        < after.next_id && after.records[i].runtime.wf() by {
        if i < v.records.len() {
            assert(after.records[i] == v.records[i]);
        }
    }
}

/// Removing a record keeps the invariant and does not give its id back:
/// the next id stays as it is.
pub proof fn lemma_removed(v: TableView, id: u32)
    requires
        v.wf(),
        v.removed(id) is Ok,
    ensures
        v.removed(id)->Ok_0.wf(),
        v.removed(id)->Ok_0.next_id == v.next_id,
        v.removed(id)->Ok_0.index_of(id) is None,
        v.removed(id)->Ok_0.records.len() + 1 == v.records.len(),
{
    lemma_index_of(v, id);
    let i = v.index_of(id)->0;
    let after = v.removed(id)->Ok_0;
    assert forall|a: int| 0 <= a < after.records.len() implies (#[trigger] after.records[a]).id
        < after.next_id && after.records[a].runtime.wf() && after.records[a].id != id by {
        if a < i {
            assert(after.records[a] == v.records[a]);
        } else {
            assert(after.records[a] == v.records[a + 1]);
        }
    }
    assert forall|a: int, b: int| 0 <= a < b < after.records.len() implies (
    #[trigger] after.records[a]).id < (#[trigger] after.records[b]).id && after.records[a].name
        != after.records[b].name by {
        let aa = if a < i {
            a
        } else {
            a + 1
        };
        let bb = if b < i {
            b
        } else {
            b + 1
        };
        assert(after.records[a] == v.records[aa] && after.records[b] == v.records[bb]);
    }
    lemma_index_of(after, id);
}

/// Replacing a runtime state by a well-formed one keeps the invariant.
pub proof fn lemma_updated(v: TableView, id: u32, runtime: Runtime)
    requires
        v.wf(),
        runtime.wf(),
        v.updated(id, runtime) is Ok,
    ensures
        v.updated(id, runtime)->Ok_0.wf(),
        v.updated(id, runtime)->Ok_0.next_id == v.next_id,
{
    lemma_index_of(v, id);
}

/// An intent that changes the table: the start of a process under a name,
/// or the deletion of the process with an id.
pub enum Intent {
    Start(StartPayload, Seq<char>),
    Delete(u32),
}

/// The table after a sequence of intents, beginning with the empty table.
/// An intent that is refused changes nothing.
pub open spec fn table_after(intents: Seq<Intent>) -> TableView
    decreases intents.len(),
{
    if intents.len() == 0 {
        TableView::empty()
    } else {
        let before = table_after(intents.drop_last());
        match intents.last() {
            Intent::Start(config, name) => match before.created(config, name) {
                Ok((after, _)) => after,
                Err(_) => before,
            },
            Intent::Delete(id) => match before.removed(id) {
                Ok(after) => after,
                Err(_) => before,
            },
        }
    }
}

/// The ids assigned in the course of a sequence of intents, in order.
pub open spec fn ids_assigned(intents: Seq<Intent>) -> Seq<u32>
    decreases intents.len(),
{
    if intents.len() == 0 {
        Seq::empty()
    } else {
        let before = table_after(intents.drop_last());
        let earlier = ids_assigned(intents.drop_last());
        match intents.last() {
            Intent::Start(config, name) => match before.created(config, name) {
                Ok((_, id)) => earlier.push(id),
                Err(_) => earlier,
            },
            Intent::Delete(_) => earlier,
        }
    }
}

/// Monotone ids: whatever the sequence of start and delete intents, the
/// table stays well-formed, every assigned id lies below the next id, and
/// the assigned ids are strictly increasing, so that none is ever assigned
/// twice.
pub proof fn lemma_ids_monotone(intents: Seq<Intent>)
    ensures
        table_after(intents).wf(),
        forall|i: int|
            0 <= i < ids_assigned(intents).len() ==> (#[trigger] ids_assigned(intents)[i])
                < table_after(intents).next_id,
        forall|i: int, j: int|
            0 <= i < j < ids_assigned(intents).len() ==> (#[trigger] ids_assigned(intents)[i])
                < (#[trigger] ids_assigned(intents)[j]),
    decreases intents.len(),
{
    if intents.len() > 0 {
        let front = intents.drop_last();
        lemma_ids_monotone(front);
        let before = table_after(front);
        let earlier = ids_assigned(front);
        match intents.last() {
            Intent::Start(config, name) => {
                if before.created(config, name) is Ok {
                    lemma_created(before, config, name);
                    let all = ids_assigned(intents);
                    assert forall|i: int, j: int| 0 <= i < j < all.len() implies (#[trigger] all[i])
                        < (#[trigger] all[j]) by {
                        assert(all[i] == earlier[i]);
                        if j < earlier.len() {
                            assert(all[j] == earlier[j]);
                        }
                    }
                    assert forall|i: int| 0 <= i < all.len() implies (#[trigger] all[i])
                        < table_after(intents).next_id by {
                        if i < earlier.len() {
                            assert(all[i] == earlier[i]);
                        }
                    }
                }
            },
            Intent::Delete(id) => {
                if before.removed(id) is Ok {
                    lemma_removed(before, id);
                }
            },
        }
    }
}

/// The views of a list of records.
pub open spec fn record_views(records: Seq<ProcessRecord>) -> Seq<RecordView> {
    records.map_values(|r: ProcessRecord| r@)
}

/// The registry of all managed processes.
pub struct ProcessTable {
    records: Vec<ProcessRecord>,
    next_id: u32,
}

impl View for ProcessTable {
    type V = TableView;

    closed spec fn view(&self) -> TableView {
        TableView { records: record_views(self.records@), next_id: self.next_id as nat }
    }
}

impl ProcessTable {
    #[verifier::type_invariant]
    spec fn well_formed(&self) -> bool {
        self@.wf()
    }

    /// Recalls that the invariant holds of every table.
    pub fn recall_wf(&self)
        ensures
            self@.wf(),
    {
        proof {
            use_type_invariant(self);
        }
    }

    /// A table without records, whose first id is 0.
    pub fn new() -> (t: Self)
        ensures
            t@ == TableView::empty(),
    {
        let t = Self { records: Vec::new(), next_id: 0 };
        assert(t@.records =~= Seq::<RecordView>::empty());
        t
    }

    /// The number of records.
    pub fn len(&self) -> (n: usize)
        ensures
            n == self@.records.len(),
    {
        self.records.len()
    }

    /// The record at a position in the order of creation.
    pub fn record_at(&self, i: usize) -> (r: &ProcessRecord)
        requires
            i < self@.records.len(),
        ensures
            r@ == self@.records[i as int],
    {
        &self.records[i]
    }

    /// Finds the position of the record with the given id.
    fn position(&self, id: u32) -> (r: Option<usize>)
        ensures
            match r {
                Some(i) => self@.index_of(id) == Some(i as int) && i < self.records@.len(),
                None => self@.index_of(id) is None,
            },
    {
        let ghost v = self@;
        let mut i: usize = self.records.len();
        assert(v.records.take(i as int) =~= v.records);
        while i > 0
            invariant
                i <= self.records.len(),
                v == self@,
                v.index_of(id) == (TableView { records: v.records.take(i as int), ..v }).index_of(
                    id,
                ),
            decreases i,
        {
            i -= 1;
            assert(v.records.take(i + 1).drop_last() =~= v.records.take(i as int));
            assert(v.records.take(i + 1).last() == self.records@[i as int]@);
            if self.records[i].id == id {
                return Some(i);
            }
        }
        None
    }

    /// Finds the position of the record with the given name.
    fn position_of_name(&self, name: &str) -> (r: Option<usize>)
        ensures
            match r {
                Some(i) => self@.index_of_name(name@) == Some(i as int) && i < self.records@.len(),
                None => self@.index_of_name(name@) is None,
            },
    {
        let ghost v = self@;
        let mut i: usize = self.records.len();
        assert(v.records.take(i as int) =~= v.records);
        while i > 0
            invariant
                i <= self.records.len(),
                v == self@,
                v.index_of_name(name@) == (TableView {
                    records: v.records.take(i as int),
                    ..v
                }).index_of_name(name@),
            decreases i,
        {
            i -= 1;
            assert(v.records.take(i + 1).drop_last() =~= v.records.take(i as int));
            assert(v.records.take(i + 1).last() == self.records@[i as int]@);
            if str_eq(self.records[i].name.as_str(), name) {
                return Some(i);
            }
        }
        None
    }

    /// Creates a record for `name` with the next id. Refused where a
    /// record of that name exists or the ids are used up.
    pub fn create(&mut self, config: StartPayload, name: &str) -> (r: Result<u32, TableError>)
        ensures
            match old(self)@.created(config, name@) {
                Ok((after, id)) => r == Ok::<u32, TableError>(id) && final(self)@ == after,
                Err(e) => r == Err::<u32, TableError>(e) && final(self)@ == old(self)@,
            },
    {
        proof {
            use_type_invariant(&*self);
        }
        if self.position_of_name(name).is_some() {
            return Err(TableError::NameTaken);
        }
        if self.next_id == u32::MAX {
            return Err(TableError::IdsExhausted);
        }
        let id: u32 = self.next_id;
        let ghost before = self@;
        let record = ProcessRecord {
            id,
            name: String::from_str(name),
            config,
            runtime: Runtime::new(),
        };
        proof {
            lemma_created(before, config, name@);
        }
        let mut records: Vec<ProcessRecord> = Vec::new();
        core::mem::swap(&mut records, &mut self.records);
        records.push(record);
        assert(record_views(records@) =~= before.created(config, name@)->Ok_0.0.records);
        *self = ProcessTable { records, next_id: id + 1 };
        Ok(id)
    }

    /// The record with the given id.
    pub fn get(&self, id: u32) -> (r: Option<&ProcessRecord>)
        ensures
            match self@.index_of(id) {
                Some(i) => r matches Some(rec) && rec@ == self@.records[i] && rec.id == id,
                None => r is None,
            },
    {
        proof {
            lemma_index_of(self@, id);
        }
        match self.position(id) {
            Some(i) => {
                assert(self@.records[i as int] == self.records@[i as int]@);
                Some(&self.records[i])
            },
            None => None,
        }
    }

    /// The id of the record with the given name.
    pub fn by_name(&self, name: &str) -> (r: Option<u32>)
        ensures
            match self@.index_of_name(name@) {
                Some(i) => r == Some(self@.records[i].id),
                None => r is None,
            },
    {
        match self.position_of_name(name) {
            Some(i) => {
                assert(self@.records[i as int] == self.records@[i as int]@);
                Some(self.records[i].id)
            },
            None => None,
        }
    }

    /// The ids of the records that belong to `base`: the record called
    /// `base` and the instances `base:k`.
    pub fn by_base_name(&self, base: &str) -> (ids: Vec<u32>)
        ensures
            ids@ == self@.ids_of_base(base@),
    {
        let ghost v = self@;
        let mut ids: Vec<u32> = Vec::new();
        let mut i: usize = 0;
        assert(v.records.take(0) =~= Seq::<RecordView>::empty());
        while i < self.records.len()
            invariant
                i <= self.records.len(),
                v == self@,
                ids@ == (TableView { records: v.records.take(i as int), ..v }).ids_of_base(base@),
            decreases self.records.len() - i,
        {
            assert(v.records.take(i + 1).drop_last() =~= v.records.take(i as int));
            assert(v.records.take(i + 1).last() == self.records@[i as int]@);
            let name: &str = self.records[i].name.as_str();
            if str_eq(name, base) || crate::resolve::names_instance_of(name, base) {
                ids.push(self.records[i].id);
            }
            i += 1;
        }
        assert(v.records.take(v.records.len() as int) =~= v.records);
        ids
    }

    /// Replaces the runtime state of the record with the given id.
    pub fn set_runtime(&mut self, id: u32, runtime: Runtime) -> (r: Result<(), TableError>)
        requires
            runtime.wf(),
        ensures
            match old(self)@.updated(id, runtime) {
                Ok(after) => r is Ok && final(self)@ == after,
                Err(e) => r == Err::<(), TableError>(e) && final(self)@ == old(self)@,
            },
    {
        proof {
            use_type_invariant(&*self);
            lemma_index_of(self@, id);
        }
        match self.position(id) {
            Some(i) => {
                let ghost before = self@;
                proof {
                    lemma_updated(before, id, runtime);
                }
                let next_id: u32 = self.next_id;
                let mut records: Vec<ProcessRecord> = Vec::new();
                core::mem::swap(&mut records, &mut self.records);
                assert(before.records[i as int] == records@[i as int]@);
                records[i].runtime = runtime;
                assert(record_views(records@) =~= before.updated(id, runtime)->Ok_0.records);
                *self = ProcessTable { records, next_id };
                Ok(())
            },
            None => Err(TableError::NotFound),
        }
    }

    /// Removes the record with the given id and hands it out. Refused
    /// where there is no such record or its process still has a child. The
    /// id is not assigned again.
    pub fn remove(&mut self, id: u32) -> (r: Result<ProcessRecord, TableError>)
        ensures
            match old(self)@.removed(id) {
                Ok(after) => r matches Ok(rec) && rec.id == id && final(self)@ == after,
                Err(e) => r matches Err(x) && x == e && final(self)@ == old(self)@,
            },
    {
        proof {
            use_type_invariant(&*self);
            lemma_index_of(self@, id);
        }
        match self.position(id) {
            Some(i) => {
                assert(self@.records[i as int] == self.records@[i as int]@);
                if self.records[i].runtime.is_alive() {
                    return Err(TableError::StillAlive);
                }
                let ghost before = self@;
                proof {
                    lemma_removed(before, id);
                }
                let next_id: u32 = self.next_id;
                let mut records: Vec<ProcessRecord> = Vec::new();
                core::mem::swap(&mut records, &mut self.records);
                let record = records.remove(i);
                assert(record_views(records@) =~= before.removed(id)->Ok_0.records);
                *self = ProcessTable { records, next_id };
                Ok(record)
            },
            None => Err(TableError::NotFound),
        }
    }
}

// ------------------------------------------------------------------
// Summaries
// ------------------------------------------------------------------
/// How long the child of a record has been up at `now`; nothing where
/// there is no child.
pub open spec fn uptime_of(r: Runtime, now: u64) -> u64 {
    if r.status.is_alive() && now >= r.started_at {
        (now - r.started_at) as u64
    } else {
        0
    }
}

/// The line of the process list for a record at `now`.
pub open spec fn summary_of(r: RecordView, now: u64) -> ProcessInfoView {
    ProcessInfoView {
        id: r.id,
        name: r.name,
        pid: r.runtime.pid,
        status: r.runtime.status.code(),
        memory_bytes: r.runtime.memory_bytes_sampled,
        uptime_ms: uptime_of(r.runtime, now),
        restart_count: r.runtime.restart_count,
    }
}

/// The detail of a record at `now`: its summary, its counters and its
/// configuration.
pub open spec fn detail_of(r: RecordView, now: u64) -> ProcessDetailView {
    ProcessDetailView {
        id: r.id,
        name: r.name,
        pid: r.runtime.pid,
        status: r.runtime.status.code(),
        memory_bytes: r.runtime.memory_bytes_sampled,
        uptime_ms: uptime_of(r.runtime, now),
        restart_count: r.runtime.restart_count,
        consecutive_crashes: r.runtime.consecutive_crashes,
        last_restart_ms: r.runtime.last_restart_at,
        script: r.config.script@,
        cwd: r.config.cwd@,
        interpreter: crate::protocol::text_or_empty(r.config.interpreter),
        kill_timeout_ms: r.config.kill_timeout_ms,
        autorestart: r.config.autorestart,
        max_restarts: r.config.max_restarts,
        min_uptime_ms: r.config.min_uptime_ms,
        restart_delay_ms: r.config.restart_delay_ms,
        exp_backoff: r.config.exp_backoff,
        max_memory_restart: r.config.max_memory_restart,
        watch: r.config.watch,
        cron_restart: r.config.cron_restart@,
        wait_ready: r.config.wait_ready,
        shutdown_with_message: r.config.shutdown_with_message,
    }
}

/// The uptime of a runtime state at `now`.
fn uptime(r: &Runtime, now: u64) -> (ms: u64)
    ensures
        ms == uptime_of(*r, now),
{
    if r.is_alive() && now >= r.started_at {
        now - r.started_at
    } else {
        0
    }
}

impl ProcessRecord {
    /// The line of the process list for this record at `now`.
    pub fn summary(&self, now: u64) -> (p: ProcessInfo)
        ensures
            p@ == summary_of(self@, now),
    {
        ProcessInfo {
            id: self.id,
            name: self.name.clone(),
            pid: self.runtime.pid,
            status: self.runtime.status.to_code(),
            memory_bytes: self.runtime.memory_bytes_sampled,
            uptime_ms: uptime(&self.runtime, now),
            restart_count: self.runtime.restart_count,
        }
    }

    /// The detail of this record at `now`.
    pub fn detail(&self, now: u64) -> (d: ProcessDetail)
        ensures
            d@ == detail_of(self@, now),
    {
        ProcessDetail {
            id: self.id,
            name: self.name.clone(),
            pid: self.runtime.pid,
            status: self.runtime.status.to_code(),
            memory_bytes: self.runtime.memory_bytes_sampled,
            uptime_ms: uptime(&self.runtime, now),
            restart_count: self.runtime.restart_count,
            consecutive_crashes: self.runtime.consecutive_crashes,
            last_restart_ms: self.runtime.last_restart_at,
            script: self.config.script.clone(),
            cwd: self.config.cwd.clone(),
            interpreter: match &self.config.interpreter {
                Some(i) => i.clone(),
                None => String::new(),
            },
            kill_timeout_ms: self.config.kill_timeout_ms,
            autorestart: self.config.autorestart,
            max_restarts: self.config.max_restarts,
            min_uptime_ms: self.config.min_uptime_ms,
            restart_delay_ms: self.config.restart_delay_ms,
            exp_backoff: self.config.exp_backoff,
            max_memory_restart: self.config.max_memory_restart,
            watch: self.config.watch,
            cron_restart: self.config.cron_restart.clone(),
            wait_ready: self.config.wait_ready,
            shutdown_with_message: self.config.shutdown_with_message,
        }
    }
}

impl ProcessTable {
    /// The process list at `now`: one line per record, in the order of
    /// creation.
    pub fn list(&self, now: u64) -> (out: Vec<ProcessInfo>)
        ensures
            crate::protocol::views(out@) == self@.records.map_values(
                |r: RecordView| summary_of(r, now),
            ),
    {
        let mut out: Vec<ProcessInfo> = Vec::new();
        let mut i: usize = 0;
        while i < self.records.len()
            invariant
                i <= self.records.len(),
                out@.len() == i,
                forall|j: int|
                    0 <= j < i ==> (#[trigger] out@[j])@ == summary_of(self.records@[j]@, now),
            decreases self.records.len() - i,
        {
            out.push(self.records[i].summary(now));
            i += 1;
        }
        assert(crate::protocol::views(out@) =~= self@.records.map_values(
            |r: RecordView| summary_of(r, now),
        ));
        out
    }

    /// The detail of the record with the given id at `now`.
    pub fn detail(&self, id: u32, now: u64) -> (r: Option<ProcessDetail>)
        ensures
            match self@.index_of(id) {
                Some(i) => r matches Some(d) && d@ == detail_of(self@.records[i], now),
                None => r is None,
            },
    {
        match self.get(id) {
            Some(record) => Some(record.detail(now)),
            None => None,
        }
    }
}

} // verus!
