//! The device manager: the discovery sources, the factory, and the table of
//! connected devices.
//!
//! The manager decides; it does not talk to devices or sources. Scanning takes
//! what the sources reported, connecting takes the outcome of the connection
//! attempt, and disconnecting hands the device back to be disconnected.

use crate::discovery::{
    deduplicated, find_device, first_failure, first_with_id, found, has_id, merge_scans,
};
use crate::error::{YKeyError, YKeyErrorView, YKeyResult};
use crate::factory::{
    lemma_built_in_factory_builds, mock_created, resolved, DeviceFactory, MockDevice,
};
use crate::text::str_eq;
use crate::types::DeviceInfo;
use vstd::prelude::*;
use vstd::string::*;

verus! {

/// A connected device with its identifier.
pub struct Connection<D> {
    /// The device's identifier.
    pub id: String,
    /// The device.
    pub device: D,
}

/// The connection table as a list of identifiers with their devices, in the
/// order in which the identifiers were first connected.
pub type Table<D> = Seq<(Seq<char>, D)>;

/// The table that a list of connections stands for.
pub open spec fn table_of<D>(entries: Seq<Connection<D>>) -> Table<D> {
    Seq::new(entries.len(), |i: int| (entries[i].id@, entries[i].device))
}

/// No identifier stands in the table twice.
pub open spec fn distinct_ids<D>(table: Table<D>) -> bool {
    forall|i: int, j: int|
        #![trigger table[i], table[j]]
        0 <= i < j < table.len() ==> table[i].0 != table[j].0
}

/// Whether the entry at `i` is the entry of the identifier.
pub open spec fn entry_at<D>(table: Table<D>, id: Seq<char>, i: int) -> bool {
    0 <= i < table.len() && table[i].0 == id
}

/// Whether the identifier is connected.
pub open spec fn is_connected<D>(table: Table<D>, id: Seq<char>) -> bool {
    exists|i: int| entry_at(table, id, i)
}

/// The place of the identifier's entry.
pub open spec fn place_of<D>(table: Table<D>, id: Seq<char>) -> int {
    choose|i: int| entry_at(table, id, i)
}

/// The device connected under the identifier, if there is one.
pub open spec fn device_of<D>(table: Table<D>, id: Seq<char>) -> Option<D> {
    if is_connected(table, id) {
        Some(table[place_of(table, id)].1)
    } else {
        None
    }
}

/// The table with the device connected under the identifier: in place of
/// the device that was connected under it, or as a new entry at the end.
pub open spec fn with_connection<D>(table: Table<D>, id: Seq<char>, device: D) -> Table<D> {
    if is_connected(table, id) {
        table.update(place_of(table, id), (id, device))
    } else {
        table.push((id, device))
    }
}

/// The table without the identifier's entry.
pub open spec fn without_connection<D>(table: Table<D>, id: Seq<char>) -> Table<D> {
    if is_connected(table, id) {
        table.remove(place_of(table, id))
    } else {
        table
    }
}

/// How many entries of the table have the identifier.
pub open spec fn entries_of<D>(table: Table<D>, id: Seq<char>) -> nat
    decreases table.len(),
{
    if table.len() == 0 {
        0
    } else {
        entries_of(table.drop_last(), id) + if table.last().0 == id {
            1nat
        } else {
            0nat
        }
    }
}

/// In a table without duplicates, an identifier has one place at most.
pub proof fn lemma_place_is_unique<D>(table: Table<D>, id: Seq<char>, i: int)
    requires
        distinct_ids(table),
        entry_at(table, id, i),
    ensures
        is_connected(table, id),
        place_of(table, id) == i,
{
    let p = place_of(table, id);
    assert(entry_at(table, id, p));
    if p < i {
        assert(table[p].0 != table[i].0);
    } else if i < p {
        assert(table[i].0 != table[p].0);
    }
}

/// Connecting keeps the table free of duplicates.
pub proof fn lemma_connect_keeps_distinct<D>(table: Table<D>, id: Seq<char>, device: D)
    requires
        distinct_ids(table),
    ensures
        distinct_ids(with_connection(table, id, device)),
        is_connected(with_connection(table, id, device), id),
        device_of(with_connection(table, id, device), id) == Some(device),
{
    let after = with_connection(table, id, device);
    if is_connected(table, id) {
        let p = place_of(table, id);
        assert(entry_at(table, id, p));
        assert forall|i: int, j: int| 0 <= i < j < after.len() implies (#[trigger] after[i]).0 != (
        #[trigger] after[j]).0 by {
            assert(table[i].0 != table[j].0);
        }
        assert(entry_at(after, id, p));
        lemma_place_is_unique(after, id, p);
    } else {
        let p = table.len() as int;
        assert forall|i: int, j: int| 0 <= i < j < after.len() implies (#[trigger] after[i]).0 != (
        #[trigger] after[j]).0 by {
            if j == p {
                assert(!entry_at(table, id, i));
            } else {
                assert(table[i].0 != table[j].0);
            }
        }
        assert(entry_at(after, id, p));
        lemma_place_is_unique(after, id, p);
    }
}

/// Disconnecting keeps the table free of duplicates, and leaves the
/// identifier unconnected.
pub proof fn lemma_disconnect_keeps_distinct<D>(table: Table<D>, id: Seq<char>)
    requires
        distinct_ids(table),
    ensures
        distinct_ids(without_connection(table, id)),
        !is_connected(without_connection(table, id), id),
{
    let after = without_connection(table, id);
    if is_connected(table, id) {
        let p = place_of(table, id);
        assert(entry_at(table, id, p));
        assert forall|i: int, j: int| 0 <= i < j < after.len() implies (#[trigger] after[i]).0 != (
        #[trigger] after[j]).0 by {
            let bi = if i < p { i } else { i + 1 };
            let bj = if j < p { j } else { j + 1 };
            assert(table[bi].0 != table[bj].0);
        }
        assert forall|i: int| !entry_at(after, id, i) by {
            if 0 <= i < after.len() {
                let bi = if i < p { i } else { i + 1 };
                if table[bi].0 == id {
                    lemma_place_is_unique(table, id, bi);
                }
            }
        }
    } else {
        assert forall|i: int| !entry_at(after, id, i) by {
            if entry_at(table, id, i) {
            }
        }
    }
}

proof fn lemma_entries_of_none<D>(table: Table<D>, id: Seq<char>)
    requires
        !is_connected(table, id),
    ensures
        entries_of(table, id) == 0,
    decreases table.len(),
{
    if table.len() > 0 {
        let last = table.len() - 1;
        assert(!entry_at(table, id, last));
        assert forall|i: int| !entry_at(table.drop_last(), id, i) by {
            if entry_at(table.drop_last(), id, i) {
                assert(entry_at(table, id, i));
            }
        }
        lemma_entries_of_none(table.drop_last(), id);
    }
}

/// In a table without duplicates, a connected identifier has exactly one
/// entry and an identifier that is not connected has none.
pub proof fn lemma_one_entry_per_id<D>(table: Table<D>, id: Seq<char>)
    requires
        distinct_ids(table),
    ensures
        entries_of(table, id) == if is_connected(table, id) {
            1nat
        } else {
            0nat
        },
    decreases table.len(),
{
    if !is_connected(table, id) {
        lemma_entries_of_none(table, id);
    } else {
        let p = place_of(table, id);
        assert(entry_at(table, id, p));
        let last = table.len() - 1;
        let rest = table.drop_last();
        assert(distinct_ids(rest)) by {
            assert forall|i: int, j: int| 0 <= i < j < rest.len() implies (#[trigger] rest[i]).0
                != (#[trigger] rest[j]).0 by {
                assert(table[i].0 != table[j].0);
            }
        }
        if p == last {
            assert forall|i: int| !entry_at(rest, id, i) by {
                if entry_at(rest, id, i) {
                    assert(table[i].0 != table[last].0);
                }
            }
            lemma_entries_of_none(rest, id);
        } else {
            assert(table[p].0 != table[last].0);
            assert(entry_at(rest, id, p));
            lemma_one_entry_per_id(rest, id);
        }
    }
}

/// Disconnecting an identifier that is not connected leaves the table as it
/// is.
pub proof fn lemma_disconnect_is_idempotent<D>(table: Table<D>, id: Seq<char>)
    requires
        distinct_ids(table),
    ensures
        !is_connected(table, id) ==> without_connection(table, id) == table,
        without_connection(without_connection(table, id), id) == without_connection(table, id),
{
    lemma_disconnect_keeps_distinct(table, id);
}

/// Connecting the same identifier twice leaves exactly one entry for it,
/// which holds the device of the second connection; the table is as long as
/// after the first.
pub proof fn lemma_connect_is_exclusive<D>(table: Table<D>, id: Seq<char>, first: D, second: D)
    requires
        distinct_ids(table),
    ensures
        ({
            let once = with_connection(table, id, first);
            let twice = with_connection(once, id, second);
            &&& distinct_ids(twice)
            &&& entries_of(twice, id) == 1
            &&& device_of(twice, id) == Some(second)
            &&& twice.len() == once.len()
        }),
{
    let once = with_connection(table, id, first);
    let twice = with_connection(once, id, second);
    lemma_connect_keeps_distinct(table, id, first);
    lemma_connect_keeps_distinct(once, id, second);
    lemma_one_entry_per_id(twice, id);
}

/// The table of connected devices: a list with one entry for each
/// identifier, in the order in which the identifiers were first connected,
/// so that what the manager lists does not depend on how a hash falls.
struct ConnectionTable<D> {
    entries: Vec<Connection<D>>,
}

fn device_at<D>(entries: &mut Vec<Connection<D>>, i: usize) -> (r: &mut D)
    requires
        i < old(entries)@.len(),
    ensures
        *r == old(entries)@[i as int].device,
        final(entries)@.len() == old(entries)@.len(),
        final(entries)@[i as int].device == *final(r),
        final(entries)@[i as int].id == old(entries)@[i as int].id,
        forall|k: int|
            0 <= k < old(entries)@.len() && k != i ==> final(entries)@[k] == old(entries)@[k],
    no_unwind
{
    &mut entries[i].device
}

impl<D> ConnectionTable<D> {
    #[verifier::type_invariant]
    spec fn one_entry_per_id(self) -> bool {
        forall|i: int, j: int|
            #![trigger self.entries@[i], self.entries@[j]]
            0 <= i < j < self.entries@.len() ==> self.entries@[i].id@ != self.entries@[j].id@
    }

    spec fn table(&self) -> Table<D> {
        table_of(self.entries@)
    }

    fn new() -> (r: Self)
        ensures
            r.table() == Seq::<(Seq<char>, D)>::empty(),
    {
        let r = ConnectionTable { entries: Vec::new() };
        assert(r.table() =~= Seq::<(Seq<char>, D)>::empty());
        r
    }

    /// Brings into view that no identifier stands in the table twice.
    fn note_distinct(&self)
        ensures
            distinct_ids(self.table()),
    {
        proof {
            use_type_invariant(self);
            let t = self.table();
            assert forall|i: int, j: int| 0 <= i < j < t.len() implies (#[trigger] t[i]).0 != (
            #[trigger] t[j]).0 by {
                assert(self.entries@[i].id@ != self.entries@[j].id@);
            }
        }
    }

    fn place(&self, device_id: &str) -> (r: Option<usize>)
        ensures
            distinct_ids(self.table()),
            match r {
                Some(i) => entry_at(self.table(), device_id@, i as int) && is_connected(
                    self.table(),
                    device_id@,
                ) && place_of(self.table(), device_id@) == i,
                None => !is_connected(self.table(), device_id@),
            },
    {
        self.note_distinct();
        let mut i: usize = 0;
        while i < self.entries.len()
            invariant
                i <= self.entries@.len(),
                distinct_ids(self.table()),
                forall|k: int| 0 <= k < i ==> !entry_at(self.table(), device_id@, k),
            decreases self.entries@.len() - i,
        {
            if str_eq(self.entries[i].id.as_str(), device_id) {
                proof {
                    assert(entry_at(self.table(), device_id@, i as int));
                    lemma_place_is_unique(self.table(), device_id@, i as int);
                }
                return Some(i);
            }
            i = i + 1;
        }
        None
    }

    fn put(&mut self, device_id: &str, device: D) -> (r: Option<D>)
        ensures
            final(self).table() == with_connection(old(self).table(), device_id@, device),
            r == device_of(old(self).table(), device_id@),
            distinct_ids(final(self).table()),
            is_connected(final(self).table(), device_id@),
            device_of(final(self).table(), device_id@) == Some(device),
    {
        let found = self.place(device_id);
        let mut entries: Vec<Connection<D>> = Vec::new();
        std::mem::swap(&mut self.entries, &mut entries);
        let ghost before = table_of(entries@);
        proof {
            lemma_connect_keeps_distinct(before, device_id@, device);
        }
        let mut entry = Connection { id: String::from_str(device_id), device };
        let r = match found {
            Some(i) => {
                entries.set_and_swap(i, &mut entry);
                assert(table_of(entries@) =~= with_connection(before, device_id@, device));
                Some(entry.device)
            },
            None => {
                entries.push(entry);
                assert(table_of(entries@) =~= with_connection(before, device_id@, device));
                None
            },
        };
        proof {
            let after = table_of(entries@);
            assert forall|i: int, j: int| 0 <= i < j < entries@.len() implies (
            #[trigger] entries@[i]).id@ != (#[trigger] entries@[j]).id@ by {
                assert(after[i].0 != after[j].0);
            }
        }
        self.entries = entries;
        r
    }

    fn take(&mut self, device_id: &str) -> (r: Option<D>)
        ensures
            final(self).table() == without_connection(old(self).table(), device_id@),
            r == device_of(old(self).table(), device_id@),
            distinct_ids(old(self).table()),
            distinct_ids(final(self).table()),
    {
        let found = self.place(device_id);
        proof {
            lemma_disconnect_keeps_distinct(self.table(), device_id@);
        }
        match found {
            Some(i) => {
                let mut entries: Vec<Connection<D>> = Vec::new();
                std::mem::swap(&mut self.entries, &mut entries);
                let ghost before = table_of(entries@);
                let entry = entries.remove(i);
                proof {
                    let after = table_of(entries@);
                    assert(after =~= without_connection(before, device_id@));
                    assert forall|i: int, j: int| 0 <= i < j < entries@.len() implies (
                    #[trigger] entries@[i]).id@ != (#[trigger] entries@[j]).id@ by {
                        assert(after[i].0 != after[j].0);
                    }
                }
                self.entries = entries;
                Some(entry.device)
            },
            None => None,
        }
    }

    fn take_all(&mut self) -> (r: Vec<Connection<D>>)
        ensures
            final(self).table() == Seq::<(Seq<char>, D)>::empty(),
            table_of(r@) == old(self).table(),
            distinct_ids(old(self).table()),
    {
        self.note_distinct();
        let mut entries: Vec<Connection<D>> = Vec::new();
        std::mem::swap(&mut self.entries, &mut entries);
        assert(self.table() =~= Seq::<(Seq<char>, D)>::empty());
        entries
    }

    fn device_mut(&mut self, i: usize) -> (r: &mut D)
        requires
            i < old(self).table().len(),
        ensures
            *r == old(self).table()[i as int].1,
            final(self).table() == old(self).table().update(
                i as int,
                (old(self).table()[i as int].0, *final(r)),
            ),
    {
        proof {
            use_type_invariant(&*self);
        }
        device_at(&mut self.entries, i)
    }

    fn ids(&self) -> (r: Vec<String>)
        ensures
            r@.len() == self.table().len(),
            forall|i: int| 0 <= i < r@.len() ==> (#[trigger] r@[i])@ == self.table()[i].0,
            distinct_ids(self.table()),
    {
        self.note_distinct();
        let mut out: Vec<String> = Vec::new();
        let mut i: usize = 0;
        while i < self.entries.len()
            invariant
                i <= self.entries@.len(),
                out@.len() == i,
                forall|k: int| 0 <= k < i ==> (#[trigger] out@[k])@ == self.table()[k].0,
            decreases self.entries@.len() - i,
        {
            out.push(self.entries[i].id.clone());
            i = i + 1;
        }
        out
    }

    fn len(&self) -> (r: usize)
        ensures
            r == self.table().len(),
    {
        self.entries.len()
    }
}

/// Device manager: the discovery sources in their order, the factory, and
/// the table of connected devices, in which each identifier has at most one
/// entry.
#[verifier::reject_recursive_types(D)]
pub struct DeviceManager<D, S> {
    factory: DeviceFactory<D>,
    discoveries: Vec<S>,
    connected_devices: ConnectionTable<D>,
}

impl<D, S> DeviceManager<D, S> {
    /// The connection table.
    pub closed spec fn table(&self) -> Table<D> {
        self.connected_devices.table()
    }

    /// The discovery sources, in the order in which they were added.
    pub closed spec fn sources(&self) -> Seq<S> {
        self.discoveries@
    }

    /// The factory.
    pub closed spec fn factory_spec(&self) -> DeviceFactory<D> {
        self.factory
    }

    /// A manager with the factory, without sources and without connected
    /// devices.
    pub fn with_factory(factory: DeviceFactory<D>) -> (r: Self)
        ensures
            r.factory_spec() == factory,
            r.sources() == Seq::<S>::empty(),
            r.table() == Seq::<(Seq<char>, D)>::empty(),
    {
        DeviceManager {
            factory,
            discoveries: Vec::new(),
            connected_devices: ConnectionTable::new(),
        }
    }

    /// Adds a discovery source after those that are there.
    pub fn add_discovery(&mut self, discovery: S)
        ensures
            final(self).sources() == old(self).sources().push(discovery),
            final(self).table() == old(self).table(),
            final(self).factory_spec() == old(self).factory_spec(),
    {
        self.discoveries.push(discovery);
    }

    /// The discovery sources, in the order in which they were added.
    pub fn discoveries(&self) -> (r: &Vec<S>)
        ensures
            r@ == self.sources(),
    {
        &self.discoveries
    }

    /// The factory.
    pub fn factory(&self) -> (r: &DeviceFactory<D>)
        ensures
            *r == self.factory_spec(),
    {
        &self.factory
    }

    /// The devices that a scan found, given what each source reported, the
    /// sources in their order. If a source failed, the error of the first
    /// that did comes back. Otherwise the result holds one entry per
    /// identifier, the first one met, in ascending order of the identifiers.
    pub fn scan_devices(&self, results: Vec<YKeyResult<Vec<DeviceInfo>>>) -> (r: YKeyResult<
        Vec<DeviceInfo>,
    >)
        ensures
            match r {
                Ok(out) => first_failure(results@) is None && deduplicated(found(results@), out@),
                Err(e) => first_failure(results@) == Some(e@),
            },
    {
        merge_scans(results)
    }

    /// Builds the device for an identifier out of the latest scan, ready to
    /// be connected. An identifier that the scan did not find fails with
    /// `DeviceNotFound`. Otherwise the factory builds the device from the
    /// first description with the identifier: the creator registered for
    /// the device's type, else the one for `Generic`, is asked, and what it
    /// returns comes back as it is; a device type that neither serves fails
    /// with `UnsupportedDevice`. The connection table is not touched.
    pub fn prepare_device(&self, devices: &Vec<DeviceInfo>, device_id: &str) -> (r: YKeyResult<D>)
        ensures
            !has_id(devices@, device_id@) ==> (r matches Err(e) && e@
                == YKeyErrorView::DeviceNotFound(device_id@)),
            has_id(devices@, device_id@) ==> ({
                let info = devices@[first_with_id(devices@, device_id@)];
                match resolved(self.factory_spec().registered(), info.device_type) {
                    Some(t) => self.factory_spec().served(t, info, r),
                    None => r matches Err(e) && e@ == YKeyErrorView::UnsupportedDevice(
                        info.device_type,
                    ),
                }
            }),
    {
        match find_device(devices, device_id) {
            None => Err(YKeyError::DeviceNotFound(String::from_str(device_id))),
            Some(i) => self.factory.create_device(&devices[i]),
        }
    }

    /// Enters a device into the connection table, given the outcome of the
    /// attempt to connect it. Only a device that was connected is entered:
    /// it takes the place of the device that was connected under the
    /// identifier before, which is handed back, or becomes a new entry. After
    /// a failed attempt the table is as it was and the error comes back.
    pub fn connect_device(&mut self, device_id: &str, device: D, attempt: YKeyResult<()>) -> (r:
        YKeyResult<Option<D>>)
        ensures
            match r {
                Ok(previous) => {
                    &&& attempt is Ok
                    &&& final(self).table() == with_connection(
                        old(self).table(),
                        device_id@,
                        device,
                    )
                    &&& previous == device_of(old(self).table(), device_id@)
                    &&& device_of(final(self).table(), device_id@) == Some(device)
                },
                Err(e) => {
                    &&& attempt == Err::<(), YKeyError>(e)
                    &&& final(self).table() == old(self).table()
                },
            },
            distinct_ids(final(self).table()),
            final(self).sources() == old(self).sources(),
            final(self).factory_spec() == old(self).factory_spec(),
    {
        match attempt {
            Ok(_) => Ok(self.connected_devices.put(device_id, device)),
            Err(e) => {
                self.connected_devices.note_distinct();
                Err(e)
            },
        }
    }

    /// Takes the identifier's entry out of the connection table and hands
    /// the device back, to be disconnected. An identifier that is not
    /// connected is no error: nothing comes back and the table is as it was.
    pub fn disconnect_device(&mut self, device_id: &str) -> (r: Option<D>)
        ensures
            r == device_of(old(self).table(), device_id@),
            final(self).table() == without_connection(old(self).table(), device_id@),
            !is_connected(old(self).table(), device_id@) ==> final(self).table()
                == old(self).table(),
            !is_connected(final(self).table(), device_id@),
            distinct_ids(final(self).table()),
            final(self).sources() == old(self).sources(),
            final(self).factory_spec() == old(self).factory_spec(),
    {
        let r = self.connected_devices.take(device_id);
        proof {
            lemma_disconnect_keeps_distinct(old(self).table(), device_id@);
        }
        r
    }

    /// Whether a device is connected under the identifier.
    pub fn is_device_connected(&self, device_id: &str) -> (r: bool)
        ensures
            r == is_connected(self.table(), device_id@),
    {
        self.connected_devices.place(device_id).is_some()
    }

    /// The device connected under the identifier, for the caller's exclusive
    /// use; `DeviceNotFound` if none is connected under it. Whatever is done
    /// to the device, it stays in its entry and no other entry changes.
    pub fn with_device(&mut self, device_id: &str) -> (r: YKeyResult<&mut D>)
        ensures
            match r {
                Ok(device) => {
                    &&& device_of(old(self).table(), device_id@) == Some(*device)
                    &&& final(self).table() == with_connection(
                        old(self).table(),
                        device_id@,
                        *final(device),
                    )
                },
                Err(e) => {
                    &&& !is_connected(old(self).table(), device_id@)
                    &&& e@ == YKeyErrorView::DeviceNotFound(device_id@)
                    &&& final(self).table() == old(self).table()
                },
            },
            final(self).sources() == old(self).sources(),
            final(self).factory_spec() == old(self).factory_spec(),
    {
        match self.connected_devices.place(device_id) {
            Some(i) => Ok(self.connected_devices.device_mut(i)),
            None => Err(YKeyError::DeviceNotFound(String::from_str(device_id))),
        }
    }

    /// The identifiers of the connected devices, each once, in the order in
    /// which they were first connected.
    pub fn connected_device_ids(&self) -> (r: Vec<String>)
        ensures
            r@.len() == self.table().len(),
            forall|i: int| 0 <= i < r@.len() ==> (#[trigger] r@[i])@ == self.table()[i].0,
            distinct_ids(self.table()),
    {
        self.connected_devices.ids()
    }

    /// The number of connected devices.
    pub fn device_count(&self) -> (r: usize)
        ensures
            r == self.table().len(),
    {
        self.connected_devices.len()
    }

    /// Empties the connection table and hands every connection back, to be
    /// disconnected one by one, whatever becomes of each.
    pub fn disconnect_all(&mut self) -> (r: Vec<Connection<D>>)
        ensures
            final(self).table() == Seq::<(Seq<char>, D)>::empty(),
            table_of(r@) == old(self).table(),
            distinct_ids(old(self).table()),
            final(self).sources() == old(self).sources(),
            final(self).factory_spec() == old(self).factory_spec(),
    {
        self.connected_devices.take_all()
    }
}

impl<S> DeviceManager<MockDevice, S> {
    /// A manager with the factory of in-memory devices, without sources and
    /// without connected devices.
    pub fn new() -> (r: Self)
        ensures
            DeviceFactory::<MockDevice>::is_built_in(r.factory_spec()),
            r.sources() == Seq::<S>::empty(),
            r.table() == Seq::<(Seq<char>, MockDevice)>::empty(),
    {
        DeviceManager::with_factory(DeviceFactory::new())
    }
}

impl<S> Default for DeviceManager<MockDevice, S> {
    fn default() -> (r: Self)
        ensures
            DeviceFactory::<MockDevice>::is_built_in(r.factory_spec()),
            r.sources() == Seq::<S>::empty(),
            r.table() == Seq::<(Seq<char>, MockDevice)>::empty(),
    {
        DeviceManager::new()
    }
}

/// A manager with the built-in creators prepares a device for every
/// identifier that the scan found: an in-memory device, not yet connected,
/// that carries the first description with the identifier.
pub proof fn lemma_built_in_manager_prepares<S>(
    manager: DeviceManager<MockDevice, S>,
    devices: Seq<DeviceInfo>,
    id: Seq<char>,
    r: YKeyResult<MockDevice>,
)
    requires
        DeviceFactory::<MockDevice>::is_built_in(manager.factory_spec()),
        has_id(devices, id),
        match resolved(
            manager.factory_spec().registered(),
            devices[first_with_id(devices, id)].device_type,
        ) {
            Some(t) => manager.factory_spec().served(t, devices[first_with_id(devices, id)], r),
            None => r is Err,
        },
    ensures
        mock_created(devices[first_with_id(devices, id)], r),
{
    lemma_built_in_factory_builds(
        manager.factory_spec(),
        devices[first_with_id(devices, id)],
        r,
    );
}

} // verus!
