//! Buffer objects, and the pages through which the guest sees them.

use std::collections::HashMap;

use vstd::prelude::*;
use vstd::std_specs::iter::IteratorSpec;

verus! {

/// The bytes of a guest page.
pub const PAGE_SIZE: usize = 4096;

/// A buffer object of the host: its handle, the `size` that the guest asked for, where `mapped` bytes
/// of it are mapped, and the guest pages that hold the guest's copy, first page first.
#[derive(Debug)]
pub struct HostBo {
    pub handle: u32,
    pub va: usize,
    pub size: usize,
    pub mapped: usize,
    pub gpas: Vec<u64>,
}

/// What a `HostBo` says.
#[verifier::ext_equal]
pub ghost struct BoView {
    pub handle: u32,
    pub va: usize,
    pub size: usize,
    pub mapped: usize,
    pub gpas: Seq<u64>,
}

impl View for HostBo {
    type V = BoView;

    open spec fn view(&self) -> BoView {
        BoView {
            handle: self.handle,
            va: self.va,
            size: self.size,
            mapped: self.mapped,
            gpas: self.gpas@,
        }
    }
}

/// One page to be copied between guest memory at `gpa` and `len` bytes at `offset` of the mapping
/// that starts at `va`.
#[derive(Clone, Copy, Debug, PartialEq, Eq, Structural)]
pub struct PageCopy {
    pub gpa: u64,
    pub va: usize,
    pub offset: usize,
    pub len: usize,
}

/// A mapping of the host: `size` bytes at `va`, of the buffer object that the guest calls `gid`.
#[derive(Clone, Copy, Debug, PartialEq, Eq, Structural)]
pub struct BoMapping {
    pub gid: u32,
    pub va: usize,
    pub size: usize,
}

impl BoView {
    /// The bytes that can be copied: those that the guest asked for, as far as they are mapped.
    pub open spec fn copyable(self) -> int {
        if self.size <= self.mapped {
            self.size as int
        } else {
            self.mapped as int
        }
    }

    /// Where page `i` starts in the mapping; a page behind the end starts at the end.
    pub open spec fn page_offset(self, i: int) -> int {
        if PAGE_SIZE * i <= self.copyable() {
            PAGE_SIZE * i
        } else {
            self.copyable()
        }
    }

    /// The bytes of the mapping that page `i` stands for: a full page, or what is left of the
    /// buffer; none for a page behind the end.
    pub open spec fn page_len(self, i: int) -> int {
        if self.copyable() - self.page_offset(i) < PAGE_SIZE {
            self.copyable() - self.page_offset(i)
        } else {
            PAGE_SIZE as int
        }
    }

    /// The copy that brings page `i` across, in either direction.
    pub open spec fn page_copy(self, i: int) -> PageCopy {
        PageCopy {
            gpa: self.gpas[i],
            va: self.va,
            offset: self.page_offset(i) as usize,
            len: self.page_len(i) as usize,
        }
    }
}

impl HostBo {
    /// The copy that brings page `i` across. It stays within the mapping.
    pub fn page_copy(&self, i: usize) -> (copy: PageCopy)
        requires
            i < self@.gpas.len(),
        ensures
            copy == self@.page_copy(i as int),
            copy.offset + copy.len <= self.size,
            copy.offset + copy.len <= self.mapped,
            copy.gpa == self.gpas@[i as int] && copy.va == self.va && copy.len <= 4096,
            4096 * i < self.size && 4096 * i < self.mapped ==> copy.offset == 4096 * i && (copy.len
                == 4096 || copy.offset + copy.len == self.size || copy.offset + copy.len
                == self.mapped),
    {
        let end: usize = if self.size <= self.mapped {
            self.size
        } else {
            self.mapped
        };
        let offset: usize = if i <= end / PAGE_SIZE {
            i * PAGE_SIZE
        } else {
            end
        };
        let left: usize = end - offset;
        let len: usize = if left < PAGE_SIZE {
            left
        } else {
            PAGE_SIZE
        };
        PageCopy { gpa: self.gpas[i], va: self.va, offset, len }
    }
}

/// The buffer objects that the guest has made, by the ids that it gave them.
#[derive(Debug)]
pub struct BoTable {
    bos: HashMap<u32, HostBo>,
}

impl View for BoTable {
    type V = Map<u32, BoView>;

    closed spec fn view(&self) -> Map<u32, BoView> {
        self.bos@.map_values(|bo: HostBo| bo@)
    }
}

impl BoTable {
    /// A table without buffer objects.
    pub fn new() -> (table: BoTable)
        ensures
            table@ == Map::<u32, BoView>::empty(),
    {
        BoTable { bos: HashMap::new() }
    }

    /// The buffer object of that id.
    pub fn get(&self, gid: u32) -> (r: Option<&HostBo>)
        ensures
            match r {
                Some(bo) => self@.contains_key(gid) && bo@ == self@[gid],
                None => !self@.contains_key(gid),
            },
    {
        self.bos.get(&gid)
    }

    /// Enters a buffer object and hands out the one whose id it takes.
    pub fn insert(&mut self, gid: u32, bo: HostBo) -> (r: Option<HostBo>)
        ensures
            final(self)@ == old(self)@.insert(gid, bo@),
            match r {
                Some(former) => old(self)@.contains_key(gid) && former@ == old(self)@[gid],
                None => !old(self)@.contains_key(gid),
            },
    {
        self.bos.insert(gid, bo)
    }

    /// Takes the buffer object of that id out.
    pub fn remove(&mut self, gid: u32) -> (r: Option<HostBo>)
        ensures
            final(self)@ == old(self)@.remove(gid),
            match r {
                Some(bo) => old(self)@.contains_key(gid) && bo@ == old(self)@[gid],
                None => !old(self)@.contains_key(gid),
            },
    {
        self.bos.remove(&gid)
    }

    /// The mappings of all buffer objects, in no particular order.
    pub fn mappings(&self) -> (r: Vec<BoMapping>)
        ensures
            lists_mappings(r@, self@),
    {
        let mut r: Vec<BoMapping> = Vec::new();
        let iter = self.bos.iter();
        let ghost entries = iter.remaining();
        for (gid, bo) in it: iter
            invariant
                r@.len() == it.index(),
                it.seq() == entries,
                forall|i: int|
                    0 <= i < r@.len() ==> #[trigger] r@[i] == (BoMapping {
                        gid: *entries[i].0,
                        va: entries[i].1.va,
                        size: entries[i].1.mapped,
                    }),
        {
            r.push(BoMapping { gid: *gid, va: bo.va, size: bo.mapped });
        }
        proof {
            assert forall|gid: u32| #[trigger] self@.contains_key(gid) implies exists|i: int|
                0 <= i < r@.len() && (#[trigger] r@[i]).gid == gid by {
                assert(self.bos@.contains_key(gid));
                let i = choose|i: int|
                    0 <= i < entries.len() && entries[i] == (&gid, &self.bos@[gid]);
                assert(r@[i].gid == gid);
            }
            assert forall|i: int, j: int| 0 <= i < j < r@.len() implies (#[trigger] r@[i]).gid != (
            #[trigger] r@[j]).gid by {
                assert(self.bos@[*entries[i].0] == *entries[i].1);
                assert(self.bos@[*entries[j].0] == *entries[j].1);
            }
            assert forall|i: int| 0 <= i < r@.len() implies {
                let m = #[trigger] r@[i];
                &&& self@.contains_key(m.gid)
                &&& m.va == self@[m.gid].va
                &&& m.size == self@[m.gid].mapped
            } by {
                assert(self.bos@[*entries[i].0] == *entries[i].1);
            }
        }
        r
    }
}

/// The list holds the mapping of every buffer object of the table, once, and nothing else.
pub open spec fn lists_mappings(list: Seq<BoMapping>, bos: Map<u32, BoView>) -> bool {
    &&& forall|i: int|
        0 <= i < list.len() ==> {
            let m = #[trigger] list[i];
            &&& bos.contains_key(m.gid)
            &&& m.va == bos[m.gid].va
            &&& m.size == bos[m.gid].mapped
        }
    &&& forall|gid: u32| #[trigger]
        bos.contains_key(gid) ==> exists|i: int|
            0 <= i < list.len() && (#[trigger] list[i]).gid == gid
    &&& forall|i: int, j: int|
        0 <= i < j < list.len() ==> (#[trigger] list[i]).gid != (#[trigger] list[j]).gid
}

/// The pages of a buffer object lie in its mapping without gap or overlap, the first at its start,
/// however many the guest gave. A page that is not a full one reaches the end, and behind the end
/// nothing is copied.
pub proof fn law_pages_tile_the_mapping(bo: BoView, i: int)
    requires
        0 <= i,
    ensures
        bo.page_copy(0).offset == 0,
        bo.page_copy(i).gpa == bo.gpas[i],
        bo.page_copy(i).va == bo.va,
        bo.page_copy(i).offset + bo.page_copy(i).len <= bo.size,
        bo.page_copy(i).offset + bo.page_copy(i).len <= bo.mapped,
        bo.page_copy(i).len <= PAGE_SIZE,
        bo.page_copy(i + 1).offset == bo.page_copy(i).offset + bo.page_copy(i).len,
        bo.page_copy(i).len < PAGE_SIZE ==> bo.page_copy(i).offset + bo.page_copy(i).len
            == bo.copyable(),
        PAGE_SIZE * i >= bo.copyable() ==> bo.page_copy(i).len == 0,
        bo.page_copy(i).len > 0 ==> bo.page_copy(i).offset == PAGE_SIZE * i,
{
}

/// If the guest gives as many pages as the buffer takes, the copies reach its last byte.
pub proof fn law_enough_pages_cover_the_mapping(bo: BoView)
    requires
        bo.gpas.len() > 0,
        PAGE_SIZE * bo.gpas.len() >= bo.copyable(),
    ensures
        ({
            let last = bo.page_copy(bo.gpas.len() - 1);
            last.offset + last.len == bo.copyable()
        }),
{
}

/// A page that starts inside of the buffer stands for the bytes from 4096 times its number on: 4096 of
/// them, or as many as there are up to where the size that was asked for or the mapping ends,
/// whichever comes first. All other pages stand for none.
pub proof fn law_page_stands_for_its_bytes(bo: BoView, i: int)
    requires
        0 <= i,
    ensures
        bo.page_copy(i).gpa == bo.gpas[i],
        bo.page_copy(i).va == bo.va,
        4096 * i < bo.size && 4096 * i < bo.mapped ==> {
            let copy = bo.page_copy(i);
            &&& copy.offset == 4096 * i
            &&& copy.len <= 4096 && copy.len <= bo.size - 4096 * i && copy.len <= bo.mapped - 4096
                * i
            &&& copy.len == 4096 || copy.len == bo.size - 4096 * i || copy.len == bo.mapped - 4096
                * i
        },
        4096 * i >= bo.size || 4096 * i >= bo.mapped ==> {
            let copy = bo.page_copy(i);
            &&& copy.len == 0
            &&& copy.offset <= bo.size && copy.offset <= bo.mapped
            &&& copy.offset == bo.size || copy.offset == bo.mapped
        },
{
}

/// Every byte of the buffer that was asked for and is mapped goes across with just one page: the one
/// whose number is the byte's place divided by 4096.
pub proof fn law_every_byte_goes_across(bo: BoView, k: int, i: int)
    requires
        0 <= k < bo.size,
        k < bo.mapped,
        0 <= i,
    ensures
        bo.page_copy(i).offset <= k < bo.page_copy(i).offset + bo.page_copy(i).len <==> i == k
            / 4096,
{
}

/// A list of mappings names every buffer object of the table just once, with where it is mapped and how
/// much of it is, and names nothing else.
pub proof fn law_listed_mappings(list: Seq<BoMapping>, bos: Map<u32, BoView>, gid: u32, i: int, j: int)
    requires
        lists_mappings(list, bos),
        0 <= i < list.len(),
        0 <= j < list.len(),
    ensures
        bos.contains_key(gid) <==> exists|k: int|
            0 <= k < list.len() && (#[trigger] list[k]).gid == gid,
        list[i].gid == list[j].gid ==> i == j,
        list[i].va == bos[list[i].gid].va,
        list[i].size == bos[list[i].gid].mapped,
{
}

/// If nothing is listed, there is no buffer object.
pub proof fn law_empty_list(list: Seq<BoMapping>, bos: Map<u32, BoView>, gid: u32)
    requires
        lists_mappings(list, bos),
        list.len() == 0,
    ensures
        !bos.contains_key(gid),
{
}

} // verus!
