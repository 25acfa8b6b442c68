//! The snapshot of the process list that lets the daemon start the same
//! processes again after it was restarted: the names and the start
//! payloads of all records, written with the primitives of the wire.

use vstd::prelude::*;

use crate::codec::{
    lemma_parse_string, lemma_parse_u32, lemma_start_encode_decode, parse_start, start_fits,
    start_view, StartView,
};
use crate::error::VelosError;
use crate::protocol::{
    fault, parse_bytes, parse_string, parse_u32, prepend, rest, val, BinaryReader, BinaryWriter,
    Parsed, StartPayload,
};
use crate::table::{lemma_created, lemma_index_of_name, ProcessTable, RecordView, TableView};
use crate::text::byte_len;
use crate::wire::{bytes_le, string_le, u32_le};

verus! {

/// One process of a snapshot: the name of its record and what it was
/// started with.
pub struct SavedProcess {
    pub name: String,
    pub payload: StartPayload,
}

/// The mathematical content of a [`SavedProcess`] as it is stored.
pub struct SavedView {
    pub name: Seq<char>,
    pub payload: StartView,
}

impl View for SavedProcess {
    type V = SavedView;

    open spec fn view(&self) -> SavedView {
        SavedView { name: self.name@, payload: start_view(self.payload) }
    }
}

/// The views of a list of saved processes.
pub open spec fn saved_views(items: Seq<SavedProcess>) -> Seq<SavedView> {
    items.map_values(|p: SavedProcess| p@)
}

/// A run of bytes that was written is read back, provided that its length
/// fits the prefix.
pub proof fn lemma_parse_bytes(b: Seq<u8>, rest: Seq<u8>)
    requires
        b.len() <= u32::MAX,
    ensures
        parse_bytes(bytes_le(b) + rest) == Ok::<(Seq<u8>, Seq<u8>), Seq<char>>((b, rest)),
{
    reveal(parse_bytes);
    reveal(bytes_le);
    let n = b.len() as u32;
    assert(bytes_le(b) + rest =~= u32_le(n) + (b + rest));
    lemma_parse_u32(n, b + rest);
    assert((b + rest).take(n as int) =~= b);
    assert((b + rest).skip(n as int) =~= rest);
}

/// The bytes of a saved process, followed by `rest`: the name, then the
/// start payload as a run of bytes of its own.
pub open spec fn saved_wire(name: Seq<char>, payload: Seq<u8>, rest: Seq<u8>) -> Seq<u8> {
    string_le(name) + (bytes_le(payload) + rest)
}

/// Reads a saved process: the name, then the run of bytes that holds the
/// start payload, which is read by itself, so that fields missing at its
/// end have their defaults.
pub open spec fn parse_saved(s: Seq<u8>) -> Parsed<SavedView> {
    let name = parse_string(s);
    let blob = parse_bytes(rest(name));
    let payload = parse_start(val(blob));
    if name is Err {
        Err(fault(name))
    } else if blob is Err {
        Err(fault(blob))
    } else if payload is Err {
        Err(fault(payload))
    } else {
        Ok((SavedView { name: val(name), payload: val(payload) }, rest(blob)))
    }
}

/// Reads `n` saved processes, one after the other.
pub open spec fn parse_saved_list(s: Seq<u8>, n: nat) -> Result<Seq<SavedView>, Seq<char>>
    decreases n,
{
    if n == 0 {
        Ok(Seq::empty())
    } else {
        match parse_saved(s) {
            Err(m) => Err(m),
            Ok((p, rest)) => prepend(seq![p], parse_saved_list(rest, (n - 1) as nat)),
        }
    }
}

/// Reads a snapshot: a count, then that many saved processes.
pub open spec fn parse_snapshot(data: Seq<u8>) -> Result<Seq<SavedView>, Seq<char>> {
    match parse_u32(data) {
        Err(m) => Err(m),
        Ok((count, rest)) => parse_saved_list(rest, count as nat),
    }
}

/// The bytes of a list of saved processes, followed by `rest`.
pub open spec fn saved_list_wire(items: Seq<SavedProcess>, rest: Seq<u8>) -> Seq<u8>
    decreases items.len(),
{
    if items.len() == 0 {
        rest
    } else {
        saved_wire(
            items[0].name@,
            items[0].payload.wire(),
            saved_list_wire(items.drop_first(), rest),
        )
    }
}

/// The bytes of a snapshot.
pub open spec fn snapshot_wire(items: Seq<SavedProcess>) -> Seq<u8> {
    u32_le((items.len() as int % 4294967296) as u32) + saved_list_wire(items, Seq::empty())
}

/// Whether a saved process can be stored and read back: its strings fit
/// their length prefixes, and so does its payload.
pub open spec fn storable(p: SavedProcess) -> bool {
    &&& byte_len(p.name@) <= u32::MAX
    &&& start_fits(start_view(p.payload))
    &&& p.payload.wire().len() <= u32::MAX
}

/// A saved process that was written is read back.
pub proof fn lemma_saved_roundtrip(p: SavedProcess, rest: Seq<u8>)
    requires
        storable(p),
    ensures
        parse_saved(saved_wire(p.name@, p.payload.wire(), rest)) == Ok::<
            (SavedView, Seq<u8>),
            Seq<char>,
        >((p@, rest)),
{
    lemma_parse_string(p.name@, bytes_le(p.payload.wire()) + rest);
    lemma_parse_bytes(p.payload.wire(), rest);
    lemma_start_encode_decode(p.payload);
}

/// Saved processes that were written one after the other are read back.
pub proof fn lemma_saved_list_roundtrip(items: Seq<SavedProcess>, rest: Seq<u8>)
    requires
        forall|i: int| 0 <= i < items.len() ==> storable(#[trigger] items[i]),
    ensures
        parse_saved_list(saved_list_wire(items, rest), items.len()) == Ok::<
            Seq<SavedView>,
            Seq<char>,
        >(saved_views(items)),
    decreases items.len(),
{
    if items.len() > 0 {
        let tail = items.drop_first();
        assert forall|i: int| 0 <= i < tail.len() implies storable(#[trigger] tail[i]) by {
            assert(tail[i] == items[i + 1]);
        }
        assert(storable(items[0]));
        lemma_saved_roundtrip(items[0], saved_list_wire(tail, rest));
        lemma_saved_list_roundtrip(tail, rest);
        assert(seq![items[0]@] + saved_views(tail) =~= saved_views(items));
        assert((items.len() - 1) as nat == tail.len());
    } else {
        assert(saved_views(items) =~= Seq::<SavedView>::empty());
    }
}

/// Snapshot round trip: a snapshot that was written is read back as the
/// same processes, name by name and setting by setting, in the same
/// order, provided that there are fewer than 2^32 of them and each can be
/// stored.
pub proof fn lemma_snapshot_roundtrip(items: Seq<SavedProcess>)
    requires
        items.len() <= u32::MAX,
        forall|i: int| 0 <= i < items.len() ==> storable(#[trigger] items[i]),
    ensures
        parse_snapshot(snapshot_wire(items)) == Ok::<Seq<SavedView>, Seq<char>>(
            saved_views(items),
        ),
{
    lemma_parse_u32(items.len() as u32, saved_list_wire(items, Seq::empty()));
    lemma_saved_list_roundtrip(items, Seq::empty());
}

/// What follows a saved process can be written after it or with it.
proof fn lemma_saved_wire_append(name: Seq<char>, payload: Seq<u8>, rest: Seq<u8>, more: Seq<u8>)
    ensures
        saved_wire(name, payload, rest) + more == saved_wire(name, payload, rest + more),
{
    assert(saved_wire(name, payload, rest) + more =~= saved_wire(name, payload, rest + more));
}

/// The bytes of some saved processes followed by more bytes are the bytes
/// of the processes with those bytes after them.
proof fn lemma_saved_list_append(items: Seq<SavedProcess>, more: Seq<u8>)
    ensures
        saved_list_wire(items, Seq::empty()) + more == saved_list_wire(items, more),
    decreases items.len(),
{
    if items.len() == 0 {
        assert(Seq::<u8>::empty() + more =~= more);
    } else {
        lemma_saved_list_append(items.drop_first(), more);
        lemma_saved_wire_append(
            items[0].name@,
            items[0].payload.wire(),
            saved_list_wire(items.drop_first(), Seq::empty()),
            more,
        );
    }
}

/// Writing one more saved process after some is writing all.
proof fn lemma_saved_list_push(items: Seq<SavedProcess>, last: SavedProcess)
    ensures
        saved_list_wire(items, saved_wire(last.name@, last.payload.wire(), Seq::empty()))
            == saved_list_wire(items.push(last), Seq::empty()),
    decreases items.len(),
{
    let all = items.push(last);
    if items.len() == 0 {
        assert(all.drop_first() =~= Seq::<SavedProcess>::empty());
        assert(all[0] == last);
        assert(saved_list_wire(all.drop_first(), Seq::empty()) == Seq::<u8>::empty());
    } else {
        lemma_saved_list_push(items.drop_first(), last);
        assert(all.drop_first() =~= items.drop_first().push(last));
        assert(all[0] == items[0]);
    }
}

/// Writes a snapshot. A list of 2^32 processes or more does not fit the
/// count, which then holds the number modulo 2^32.
pub fn encode_snapshot(items: &[SavedProcess]) -> (out: Vec<u8>)
    ensures
        out@ == snapshot_wire(items@),
{
    let mut w = BinaryWriter::new();
    w.write_u32((items.len() as u64 % 4294967296) as u32);
    let ghost head = w.buf@;
    let mut i: usize = 0;
    assert(items@.take(0) =~= Seq::<SavedProcess>::empty());
    assert(w.buf@ =~= head + saved_list_wire(items@.take(0), Seq::empty()));
    while i < items.len()
        invariant
            i <= items.len(),
            w.buf@ == head + saved_list_wire(items@.take(i as int), Seq::empty()),
        decreases items.len() - i,
    {
        let ghost done = items@.take(i as int);
        let ghost before = w.buf@;
        let item = &items[i];
        w.write_string(item.name.as_str());
        let payload = item.payload.encode();
        w.write_bytes(payload.as_slice());
        proof {
            let one = saved_wire(item.name@, item.payload.wire(), Seq::empty());
            assert(w.buf@ =~= before + one);
            lemma_saved_list_append(done, one);
            lemma_saved_list_push(done, *item);
            assert(items@.take(i + 1) =~= done.push(*item));
            assert(w.buf@ =~= head + saved_list_wire(items@.take(i + 1), Seq::empty()));
        }
        i += 1;
    }
    assert(items@.take(items@.len() as int) =~= items@);
    w.buf
}

/// Reads one saved process with `r`.
fn read_saved(r: &mut BinaryReader) -> (res: Result<SavedProcess, VelosError>)
    ensures
        match parse_saved(old(r)@) {
            Ok((v, rest)) => res matches Ok(p) && p@ == v && final(r)@ == rest,
            Err(m) => res matches Err(e) && e.is_protocol(m),
        },
{
    let name: String = r.read_string()?;
    let blob: Vec<u8> = r.read_bytes()?;
    let payload: StartPayload = StartPayload::decode(blob.as_slice())?;
    Ok(SavedProcess { name, payload })
}

/// Reads a snapshot. Fails with the protocol error of the first field
/// that cannot be read; bytes after the last process are ignored.
pub fn decode_snapshot(data: &[u8]) -> (r: Result<Vec<SavedProcess>, VelosError>)
    ensures
        match parse_snapshot(data@) {
            Ok(items) => r matches Ok(v) && saved_views(v@) == items,
            Err(m) => r matches Err(e) && e.is_protocol(m),
        },
{
    let mut r = BinaryReader::new(data);
    let count: u32 = r.read_u32()?;
    let mut items: Vec<SavedProcess> = Vec::new();
    let mut i: u32 = 0;
    assert(saved_views(items@) =~= Seq::<SavedView>::empty());
    assert(prepend(Seq::<SavedView>::empty(), parse_saved_list(r@, count as nat))
        == parse_saved_list(r@, count as nat)) by {
        let tail = parse_saved_list(r@, count as nat);
        if tail is Ok {
            assert(Seq::<SavedView>::empty() + tail->Ok_0 =~= tail->Ok_0);
        }
    }
    while i < count
        invariant
            i <= count,
            parse_snapshot(data@) == prepend(
                saved_views(items@),
                parse_saved_list(r@, (count - i) as nat),
            ),
        decreases count - i,
    {
        let ghost done = saved_views(items@);
        let p = read_saved(&mut r)?;
        let ghost pv = p@;
        items.push(p);
        i += 1;
        proof {
            let tail = parse_saved_list(r@, (count - i) as nat);
            assert(saved_views(items@) =~= done + seq![pv]);
            assert(prepend(done, prepend(seq![pv], tail)) == prepend(saved_views(items@), tail)) by {
                if tail is Ok {
                    assert(done + (seq![pv] + tail->Ok_0) =~= saved_views(items@) + tail->Ok_0);
                }
            }
        }
    }
    proof {
        assert(saved_views(items@) + Seq::<SavedView>::empty() =~= saved_views(items@));
    }
    Ok(items)
}

// ------------------------------------------------------------------
// Saving and resurrecting a table
// ------------------------------------------------------------------
/// What is saved of a table: the name and the configuration of every
/// record, in the order of creation.
pub open spec fn saved_of(v: TableView) -> Seq<(Seq<char>, StartPayload)> {
    v.records.map_values(|r: RecordView| (r.name, r.config))
}

/// The names and payloads of a list of saved processes.
pub open spec fn saved_pairs(items: Seq<SavedProcess>) -> Seq<(Seq<char>, StartPayload)> {
    items.map_values(|p: SavedProcess| (p.name@, p.payload))
}

/// The table after a start was issued for each saved process in order, and
/// the number of starts that succeeded. A start that the table refuses is
/// passed over.
pub open spec fn resurrected(v: TableView, saved: Seq<(Seq<char>, StartPayload)>) -> (
    TableView,
    nat,
)
    decreases saved.len(),
{
    if saved.len() == 0 {
        (v, 0)
    } else {
        let (before, count) = resurrected(v, saved.drop_last());
        match before.created(saved.last().1, saved.last().0) {
            Ok((after, _)) => (after, count + 1),
            Err(_) => (before, count),
        }
    }
}

/// Resurrect round trip: starting what was saved of a table, in a table
/// that is empty, succeeds for every record and gives a table of the same
/// names and configurations in the same order; the ids are assigned anew.
pub proof fn lemma_resurrect_all(v: TableView)
    requires
        v.wf(),
        v.records.len() < u32::MAX,
    ensures
        resurrected(TableView::empty(), saved_of(v)).1 == v.records.len(),
        saved_of(resurrected(TableView::empty(), saved_of(v)).0) == saved_of(v),
        resurrected(TableView::empty(), saved_of(v)).0.wf(),
{
    lemma_resurrect_prefix(v, v.records.len() as int);
    assert(saved_of(v).take(v.records.len() as int) =~= saved_of(v));
}

/// The first `k` records are resurrected as they were.
proof fn lemma_resurrect_prefix(v: TableView, k: int)
    requires
        v.wf(),
        v.records.len() < u32::MAX,
        0 <= k <= v.records.len(),
    ensures
        ({
            let (t, count) = resurrected(TableView::empty(), saved_of(v).take(k));
            &&& count == k
            &&& t.wf()
            &&& t.next_id == k
            &&& saved_of(t) == saved_of(v).take(k)
        }),
    decreases k,
{
    let saved = saved_of(v).take(k);
    if k == 0 {
        assert(saved_of(TableView::empty()) =~= saved);
    } else {
        lemma_resurrect_prefix(v, k - 1);
        assert(saved.drop_last() =~= saved_of(v).take(k - 1));
        let (before, count) = resurrected(TableView::empty(), saved.drop_last());
        let name = saved.last().0;
        let config = saved.last().1;
        assert(saved.last() == (v.records[k - 1].name, v.records[k - 1].config));
        lemma_index_of_name(before, name);
        if before.index_of_name(name) is Some {
            let i = before.index_of_name(name)->0;
            assert(saved_of(before)[i] == saved_of(v).take(k - 1)[i]);
            assert(before.records[i].name == v.records[i].name);
            assert(v.records[i].name != v.records[k - 1].name);
        }
        lemma_created(before, config, name);
        let after = before.created(config, name)->Ok_0.0;
        assert(saved_of(after) =~= saved) by {
            assert forall|i: int| 0 <= i < saved.len() implies saved_of(after)[i] == saved[i] by {
                if i < k - 1 {
                    assert(after.records[i] == before.records[i]);
                    assert(saved_of(before)[i] == saved_of(v).take(k - 1)[i]);
                }
            }
        }
    }
}

/// Saves a table: the name and the configuration of every record, in the
/// order of creation.
pub fn snapshot(table: &ProcessTable) -> (out: Vec<SavedProcess>)
    ensures
        saved_pairs(out@) == saved_of(table@),
{
    let mut out: Vec<SavedProcess> = Vec::new();
    let n: usize = table.len();
    let mut i: usize = 0;
    while i < n
        invariant
            i <= n,
            n == table@.records.len(),
            out@.len() == i,
            forall|j: int|
                0 <= j < i ==> (#[trigger] out@[j]).name@ == table@.records[j].name && out@[j].payload
                    == table@.records[j].config,
        decreases n - i,
    {
        let record = table.record_at(i);
        out.push(SavedProcess { name: record.name.clone(), payload: record.config.duplicate() });
        i += 1;
    }
    assert(saved_pairs(out@) =~= saved_of(table@));
    out
}

/// Issues a start for each saved process, in order, and counts those that
/// succeeded.
pub fn resurrect(table: &mut ProcessTable, saved: &Vec<SavedProcess>) -> (count: u32)
    ensures
        (final(table)@, count as nat) == resurrected(old(table)@, saved_pairs(saved@)),
{
    let mut count: u32 = 0;
    let mut i: usize = 0;
    assert(saved_pairs(saved@).take(0) =~= Seq::<(Seq<char>, StartPayload)>::empty());
    while i < saved.len()
        invariant
            i <= saved.len(),
            count <= table@.next_id,
            (table@, count as nat) == resurrected(old(table)@, saved_pairs(saved@).take(i as int)),
        decreases saved.len() - i,
    {
        table.recall_wf();
        let ghost pairs = saved_pairs(saved@);
        assert(pairs.take(i + 1).drop_last() =~= pairs.take(i as int));
        assert(pairs.take(i + 1).last() == (saved@[i as int].name@, saved@[i as int].payload));
        let payload = saved[i].payload.duplicate();
        match table.create(payload, saved[i].name.as_str()) {
            Ok(_) => {
                count += 1;
            },
            Err(_) => {},
        }
        i += 1;
    }
    assert(saved_pairs(saved@).take(saved@.len() as int) =~= saved_pairs(saved@));
    count
}

} // verus!
