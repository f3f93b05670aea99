//! Paths of the host's file system.

use vstd::prelude::*;
use vstd::slice::slice_subrange;

verus! {

/// A path, as the bytes that the host keeps.
#[derive(Debug)]
pub struct HostPath {
    pub bytes: Vec<u8>,
}

impl View for HostPath {
    type V = Seq<u8>;

    open spec fn view(&self) -> Seq<u8> {
        self.bytes@
    }
}

/// What separates the components, `/`.
pub const SEPARATOR: u8 = 0x2f;

/// The byte `.`.
pub const DOT: u8 = 0x2e;

/// How far the last component reaches in the first `end` bytes: separators at the end do not count,
/// and neither does a component `.`.
pub open spec fn name_end(path: Seq<u8>, end: nat) -> nat
    decreases end,
{
    if end == 0 {
        0
    } else if path[end - 1] == SEPARATOR {
        name_end(path, (end - 1) as nat)
    } else if path[end - 1] == DOT && (end == 1 || path[end - 2] == SEPARATOR) {
        name_end(path, (end - 1) as nat)
    } else {
        end
    }
}

/// Where the component starts that ends at `end`.
pub open spec fn name_start(path: Seq<u8>, end: nat) -> nat
    decreases end,
{
    if end == 0 || path[end - 1] == SEPARATOR {
        end
    } else {
        name_start(path, (end - 1) as nat)
    }
}

/// The last component of a path, unless there is none or it is `..`.
pub open spec fn file_name(path: Seq<u8>) -> Option<Seq<u8>> {
    let end = name_end(path, path.len());
    let name = path.subrange(name_start(path, end) as int, end as int);
    if name.len() == 0 || name =~= seq![DOT, DOT] {
        None
    } else {
        Some(name)
    }
}

impl HostPath {
    /// The same path once more.
    pub fn duplicate(&self) -> (r: HostPath)
        ensures
            r@ == self@,
    {
        let bytes: Vec<u8> = self.bytes.clone();
        assert(bytes@ =~= self.bytes@);
        HostPath { bytes }
    }

    /// The last component, unless there is none or it is `..`.
    pub fn file_name(&self) -> (r: Option<&[u8]>)
        ensures
            match r {
                Some(name) => file_name(self@) == Some(name@),
                None => file_name(self@) is None,
            },
    {
        let path = self.bytes.as_slice();
        let mut end: usize = path.len();
        while end > 0 && (path[end - 1] == SEPARATOR || (path[end - 1] == DOT && (end == 1
            || path[end - 2] == SEPARATOR)))
            invariant
                end <= path@.len(),
                name_end(path@, path@.len()) == name_end(path@, end as nat),
            decreases end,
        {
            end = end - 1;
        }
        let mut start: usize = end;
        while start > 0 && path[start - 1] != SEPARATOR
            invariant
                start <= end <= path@.len(),
                name_start(path@, end as nat) == name_start(path@, start as nat),
            decreases start,
        {
            start = start - 1;
        }
        let name = slice_subrange(path, start, end);
        if name.len() == 0 || (name.len() == 2 && name[0] == DOT && name[1] == DOT) {
            None
        } else {
            Some(name)
        }
    }
}

/// A name holds no separator, and it is not empty, `.` or `..`.
pub proof fn law_file_name_is_one_component(path: Seq<u8>)
    ensures
        file_name(path) matches Some(name) ==> {
            &&& name.len() > 0
            &&& !name.contains(SEPARATOR)
            &&& name != seq![DOT]
            &&& name != seq![DOT, DOT]
        },
{
    let end = name_end(path, path.len());
    lemma_name_end(path, path.len());
    lemma_name_start(path, end);
    if file_name(path) is Some {
        let start = name_start(path, end);
        let name = path.subrange(start as int, end as int);
        assert forall|i: int| 0 <= i < name.len() implies name[i] != SEPARATOR by {
            assert(name[i] == path[start + i]);
        }
        if name =~= seq![DOT] {
            assert(path[end - 1] == name[0]);
        }
    }
}

/// The name of a file in a directory is found behind the separator.
pub proof fn law_file_name_of_entry(dir: Seq<u8>, name: Seq<u8>)
    requires
        name.len() > 0,
        !name.contains(SEPARATOR),
        name != seq![DOT],
        name != seq![DOT, DOT],
    ensures
        file_name(dir.push(SEPARATOR) + name) == Some(name),
{
    let path = dir.push(SEPARATOR) + name;
    let n = path.len();
    let start = dir.len() + 1;
    assert forall|i: int| start <= i < n implies path[i] != SEPARATOR by {
        assert(path[i] == name[i - start]);
        if path[i] == SEPARATOR {
            assert(name.contains(SEPARATOR));
        }
    }
    assert(path[start - 1] == SEPARATOR);
    if path[n - 1] == DOT && path[n - 2] == SEPARATOR {
        assert(n - 1 == start);
        assert(name =~= seq![DOT]);
    }
    lemma_name_start(path, n);
    assert(name_start(path, n) == start) by {
        let s = name_start(path, n);
        if s > start {
            assert(path[s - 1] == SEPARATOR);
        }
    }
    assert(path.subrange(start as int, n as int) =~= name);
}

/// Ahead of where the last component ends stands something that counts.
proof fn lemma_name_end(path: Seq<u8>, end: nat)
    requires
        end <= path.len(),
    ensures
        name_end(path, end) <= end,
        ({
            let e = name_end(path, end);
            e > 0 ==> {
                &&& path[e - 1] != SEPARATOR
                &&& path[e - 1] == DOT ==> e > 1 && path[e - 2] != SEPARATOR
            }
        }),
    decreases end,
{
    if end > 0 {
        lemma_name_end(path, (end - 1) as nat);
    }
}

/// A component starts behind a separator or at the start of the path, and holds none.
proof fn lemma_name_start(path: Seq<u8>, end: nat)
    requires
        end <= path.len(),
    ensures
        name_start(path, end) <= end,
        forall|i: int| name_start(path, end) <= i < end ==> path[i] != SEPARATOR,
        name_start(path, end) > 0 ==> path[name_start(path, end) - 1] == SEPARATOR,
    decreases end,
{
    if end > 0 && path[end - 1] != SEPARATOR {
        lemma_name_start(path, (end - 1) as nat);
    }
}

/// Separators and components `.` at the end of a path do not change its name, and a path that is
/// nothing else has none.
pub proof fn law_what_does_not_count(path: Seq<u8>)
    ensures
        file_name(path.push(0x2f)) == file_name(path),
        file_name(path.push(0x2f).push(0x2e)) == file_name(path),
        file_name(Seq::empty()) is None,
        file_name(seq![0x2eu8]) is None,
{
    let one = path.push(0x2f);
    let two = one.push(0x2e);
    lemma_same_end(path, one, path.len());
    lemma_same_end(path, two, path.len());
    lemma_name_end(path, path.len());
    let e = name_end(path, path.len());
    lemma_same_start(path, one, e);
    lemma_same_start(path, two, e);
    lemma_name_start(path, e);
    reveal_with_fuel(name_end, 3);
    let start = name_start(path, e) as int;
    assert(one.subrange(start, e as int) =~= path.subrange(start, e as int));
    assert(two.subrange(start, e as int) =~= path.subrange(start, e as int));
    assert(name_end(seq![0x2eu8], 1) == 0);
}

/// What stands behind an end does not matter for it.
proof fn lemma_same_end(a: Seq<u8>, b: Seq<u8>, end: nat)
    requires
        end <= a.len(),
        end <= b.len(),
        forall|i: int| 0 <= i < end ==> a[i] == b[i],
    ensures
        name_end(a, end) == name_end(b, end),
    decreases end,
{
    if end > 0 {
        lemma_same_end(a, b, (end - 1) as nat);
    }
}

/// What stands behind a component does not matter for its start.
proof fn lemma_same_start(a: Seq<u8>, b: Seq<u8>, end: nat)
    requires
        end <= a.len(),
        end <= b.len(),
        forall|i: int| 0 <= i < end ==> a[i] == b[i],
    ensures
        name_start(a, end) == name_start(b, end),
    decreases end,
{
    if end > 0 {
        lemma_same_start(a, b, (end - 1) as nat);
    }
}

/// A single component is its own name, unless it is `.` or `..`; and a path that ends in a component
/// `..` has none.
pub proof fn law_single_component(dir: Seq<u8>, name: Seq<u8>)
    requires
        name.len() > 0,
        !name.contains(0x2f),
        name != seq![0x2eu8],
    ensures
        name != seq![0x2eu8, 0x2e] ==> file_name(name) == Some(name),
        name == seq![0x2eu8, 0x2e] ==> file_name(name) is None && file_name(dir.push(0x2f) + name)
            is None,
{
    let n = name.len();
    assert forall|i: int| 0 <= i < n implies name[i] != SEPARATOR by {
        assert(name.contains(name[i]));
    }
    if n == 1 {
        assert(name =~= seq![name[0]]);
    }
    lemma_name_start(name, n);
    assert(name_start(name, n) == 0);
    assert(name.subrange(0, n as int) =~= name);
    if name == seq![0x2eu8, 0x2e] {
        let path = dir.push(0x2f) + name;
        let m = path.len();
        assert(path[m - 1] == DOT && path[m - 2] == DOT && path[m - 3] == SEPARATOR);
        assert(name_end(path, m) == m);
        reveal_with_fuel(name_start, 4);
        assert(name_start(path, m) == m - 2);
        assert(path.subrange(m - 2, m as int) =~= seq![DOT, DOT]);
    }
}

} // verus!
