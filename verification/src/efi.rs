//! The firmware's tables as plain values, the write-once registry of the
//! system table's address, and the search of the configuration table.
//!
//! A pointer of the firmware's C layout is held as the address it carries;
//! address zero is the null pointer.

use vstd::prelude::*;

verus! {

/// An opaque handle that the firmware gives out.
#[derive(Clone, Copy, Debug, PartialEq, Eq, Structural)]
pub struct EfiHandle(pub usize);

/// The status that a firmware call returns. Zero is success.
#[derive(Clone, Copy, Debug, Default, PartialEq, Eq, Structural)]
pub struct EfiStatus(pub usize);

/// The header that starts each of the firmware's standard tables.
#[derive(Clone, Copy, Debug, PartialEq, Eq, Structural)]
pub struct EfiTableHeader {
    /// Identifies the kind of table that follows.
    pub signature: u64,
    /// The revision of the firmware specification the table conforms to.
    pub revision: u32,
    /// The size of the whole table in bytes, this header included.
    pub header_size: u32,
    /// The checksum over `header_size` bytes.
    pub crc32: u32,
    /// Always zero.
    pub reserved: u32,
}

/// The firmware's system table, with each pointer held as its address.
#[derive(Clone, Copy, Debug, PartialEq, Eq, Structural)]
pub struct EfiSystemTable {
    /// The table header.
    pub hdr: EfiTableHeader,
    /// Address of the null-terminated vendor string.
    pub firmware_vendor: usize,
    /// The vendor's revision of the firmware.
    pub firmware_revision: u32,
    /// The handle of the active console input device.
    pub console_in_handle: EfiHandle,
    /// Address of the text input interface.
    pub con_in: usize,
    /// The handle of the active console output device.
    pub console_out_handle: EfiHandle,
    /// Address of the text output interface; zero where there is none.
    pub con_out: usize,
    /// The handle of the active standard error device.
    pub standard_error_handle: EfiHandle,
    /// Address of the text output interface for errors.
    pub std_err: usize,
    /// Address of the runtime services table.
    pub runtime_services: usize,
    /// Address of the boot services table.
    pub boot_services: usize,
    /// The number of entries in the configuration table.
    pub number_of_table_entries: usize,
    /// Address of the configuration table.
    pub configuration_table: usize,
}

/// A 128-bit identifier: a 32-bit field, two 16-bit fields and a group of
/// eight bytes.
#[derive(Clone, Copy, Debug)]
pub struct EfiGuid(pub u32, pub u16, pub u16, pub [u8; 8]);

/// Whether two identifiers agree in all 128 bits.
pub open spec fn same_guid(a: EfiGuid, b: EfiGuid) -> bool {
    &&& a.0 == b.0
    &&& a.1 == b.1
    &&& a.2 == b.2
    &&& a.3@ == b.3@
}

impl PartialEq for EfiGuid {
    fn eq(&self, other: &Self) -> (r: bool) {
        if self.0 != other.0 || self.1 != other.1 || self.2 != other.2 {
            return false;
        }
        let mut i: usize = 0;
        while i < 8
            invariant
                i <= 8,
                forall|k: int| 0 <= k < i ==> self.3@[k] == other.3@[k],
            decreases 8 - i,
        {
            if self.3[i] != other.3[i] {
                return false;
            }
            i += 1;
        }
        assert(self.3@ =~= other.3@);
        true
    }
}

impl vstd::std_specs::cmp::PartialEqSpecImpl for EfiGuid {
    open spec fn obeys_eq_spec() -> bool {
        true
    }

    open spec fn eq_spec(&self, other: &Self) -> bool {
        same_guid(*self, *other)
    }
}

impl Eq for EfiGuid {

}

/// One entry of the configuration table: an identifier and the address of
/// the table that it names.
#[derive(Clone, Copy, Debug)]
pub struct EfiConfigurationTable {
    /// The identifier of the table.
    pub guid: EfiGuid,
    /// The address of the table.
    pub table: usize,
}

/// The address that stands for "no system table registered": the null
/// pointer.
pub const UNSET: usize = 0;

/// The state after an attempt to register `handle` in a registry that holds
/// `state`, and whether the attempt succeeded: a compare-and-swap against
/// the unset address.
pub open spec fn registered(state: usize, handle: usize) -> (usize, bool) {
    if state == UNSET {
        (handle, true)
    } else {
        (state, false)
    }
}

/// The single, write-once holder of the system table's address.
///
/// It starts unset, takes an address once, and is only read from then on.
pub struct SystemTableRegistry {
    table: usize,
}

impl View for SystemTableRegistry {
    type V = usize;

    closed spec fn view(&self) -> usize {
        self.table
    }
}

impl SystemTableRegistry {
    /// A registry in which nothing is registered.
    pub fn new() -> (registry: Self)
        ensures
            registry@ == UNSET,
    {
        SystemTableRegistry { table: UNSET }
    }

    /// The registered address, or `UNSET` where there is none yet.
    pub fn current(&self) -> (handle: usize)
        ensures
            handle == self@,
    {
        self.table
    }

    /// Stores `new` if the registry holds `current`, and says what it held:
    /// in `Ok` where the exchange was made, in `Err` where it was not.
    fn compare_exchange(&mut self, current: usize, new: usize) -> (held: Result<usize, usize>)
        ensures
            old(self)@ == current ==> held == Ok::<usize, usize>(current) && final(self)@ == new,
            old(self)@ != current ==> held == Err::<usize, usize>(old(self)@) && final(self)@
                == old(self)@,
    {
        let held = self.table;
        if held == current {
            self.table = new;
            Ok(held)
        } else {
            Err(held)
        }
    }
}

/// Registers the address of the system table. Succeeds if nothing is
/// registered yet; fails, and leaves the registry as it is, once an address
/// is held, whatever the value offered.
pub fn register_system_table(registry: &mut SystemTableRegistry, system_table: usize) -> (res:
    Result<(), ()>)
    ensures
        final(registry)@ == registered(old(registry)@, system_table).0,
        res is Ok <==> registered(old(registry)@, system_table).1,
        res is Ok <==> old(registry)@ == UNSET,
{
    let res = registry.compare_exchange(UNSET, system_table);
    match res {
        Ok(_) => Ok(()),
        Err(_) => Err(()),
    }
}

/// The first registration of an address other than the unset one succeeds
/// and is what the registry then holds; every later one fails, whether it
/// offers the same address or another, and the registry still holds the
/// first.
pub proof fn lemma_registered_once(first: usize, second: usize)
    requires
        first != UNSET,
    ensures
        registered(UNSET, first) == (first, true),
        registered(registered(UNSET, first).0, second) == (first, false),
{
}

/// The index of the first entry of `tables` that carries `guid`, or the
/// length of `tables` where none does.
pub open spec fn first_match(tables: Seq<EfiConfigurationTable>, guid: EfiGuid) -> int
    decreases tables.len(),
{
    if tables.len() == 0 {
        0
    } else if same_guid(tables[0].guid, guid) {
        0
    } else {
        1 + first_match(tables.drop_first(), guid)
    }
}

/// The address that the first entry carrying `guid` names, if there is one.
pub open spec fn found_table(tables: Seq<EfiConfigurationTable>, guid: EfiGuid) -> Option<usize> {
    let at = first_match(tables, guid);
    if at < tables.len() {
        Some(tables[at].table)
    } else {
        None
    }
}

/// `first_match` is the least index whose entry carries `guid`.
pub proof fn lemma_first_match(tables: Seq<EfiConfigurationTable>, guid: EfiGuid)
    ensures
        0 <= first_match(tables, guid) <= tables.len(),
        first_match(tables, guid) < tables.len() ==> same_guid(
            tables[first_match(tables, guid)].guid,
            guid,
        ),
        forall|i: int|
            0 <= i < first_match(tables, guid) ==> !same_guid((#[trigger] tables[i]).guid, guid),
    decreases tables.len(),
{
    if tables.len() > 0 && !same_guid(tables[0].guid, guid) {
        let rest = tables.drop_first();
        lemma_first_match(rest, guid);
        assert forall|i: int| 0 <= i < first_match(tables, guid) implies !same_guid(
            (#[trigger] tables[i]).guid,
            guid,
        ) by {
            if i > 0 {
                assert(tables[i] == rest[i - 1]);
            }
        }
    }
}

/// Scans the configuration table in order for an entry whose identifier is
/// `guid` and returns the address that the first such entry names.
pub fn find_table(tables: &[EfiConfigurationTable], guid: &EfiGuid) -> (found: Option<usize>)
    ensures
        found == found_table(tables@, *guid),
        found is None <==> forall|i: int|
            0 <= i < tables@.len() ==> !same_guid((#[trigger] tables@[i]).guid, *guid),
{
    proof {
        lemma_first_match(tables@, *guid);
    }
    let mut i: usize = 0;
    while i < tables.len()
        invariant
            i <= tables@.len(),
            i <= first_match(tables@, *guid) <= tables@.len(),
        decreases tables@.len() - i,
    {
        proof {
            lemma_first_match(tables@, *guid);
        }
        if tables[i].guid == *guid {
            return Some(tables[i].table);
        }
        i += 1;
    }
    None
}

/// The identifier under which the configuration table lists the ACPI root
/// table.
pub open spec fn acpi_table_guid() -> EfiGuid {
    EfiGuid(0x8868e871, 0xe4f1, 0x11d3, [0xbc, 0x22, 0x00, 0x80, 0xc7, 0x3c, 0x88, 0x81])
}

/// The identifier of the ACPI root table.
pub fn acpi_guid() -> (guid: EfiGuid)
    ensures
        guid == acpi_table_guid(),
{
    EfiGuid(0x8868e871, 0xe4f1, 0x11d3, [0xbc, 0x22, 0x00, 0x80, 0xc7, 0x3c, 0x88, 0x81])
}

/// The entries of `tables` that the system table vouches for: the first
/// `number_of_table_entries` of them, or all where there are fewer.
pub open spec fn listed_tables(
    st: EfiSystemTable,
    tables: Seq<EfiConfigurationTable>,
) -> Seq<EfiConfigurationTable> {
    if st.number_of_table_entries <= tables.len() {
        tables.take(st.number_of_table_entries as int)
    } else {
        tables
    }
}

/// Finds the address of the ACPI root table among the configuration table
/// entries that the system table lists. `st` is the registered system table,
/// or `None` while nothing is registered, in which case nothing is found.
pub fn get_acpi_base(st: Option<&EfiSystemTable>, tables: &[EfiConfigurationTable]) -> (acpi:
    Option<usize>)
    ensures
        st is None ==> acpi is None,
        st matches Some(table) ==> acpi == found_table(
            listed_tables(*table, tables@),
            acpi_table_guid(),
        ),
{
    match st {
        None => None,
        Some(table) => {
            let guid = acpi_guid();
            let count = if table.number_of_table_entries <= tables.len() {
                table.number_of_table_entries
            } else {
                tables.len()
            };
            let listed = vstd::slice::slice_subrange(tables, 0, count);
            assert(listed@ =~= listed_tables(*table, tables@));
            find_table(listed, &guid)
        },
    }
}


} // verus!
