//! The disc's name-to-entry filesystem tree, and lookups into it.
//!
//! Paths are byte strings whose segments are separated by `/`; empty
//! segments are skipped.

use vstd::prelude::*;
use crate::bytes::Cursor;
use crate::pak::Pak;
use crate::area::Dependency;

verus! {

/// What a file holds: still-raw bytes, a parsed archive, or owned
/// replacement bytes.
#[derive(Debug)]
pub enum FstEntryFile {
    Unknown(Cursor),
    Pak(Pak),
    ExternalFile(Vec<u8>),
}

/// A node of the filesystem tree.
#[derive(Debug)]
pub enum FstEntry {
    Dir(Vec<u8>, Vec<FstEntry>),
    File(Vec<u8>, FstEntryFile),
}

impl FstEntry {
    pub open spec fn name(self) -> Seq<u8> {
        match self {
            FstEntry::Dir(n, _) => n@,
            FstEntry::File(n, _) => n@,
        }
    }
}

/// The first entry with the given name, if any.
pub open spec fn spec_find_named(entries: Seq<FstEntry>, name: Seq<u8>) -> Option<int>
    decreases entries.len(),
{
    if entries.len() == 0 {
        None
    } else if entries[0].name() == name {
        Some(0int)
    } else {
        match spec_find_named(entries.skip(1), name) {
            Some(i) => Some(i + 1),
            None => None,
        }
    }
}

/// Walk the tree by path segments; `None` when a segment is absent or a
/// segment expected to be a directory is a file.
pub open spec fn spec_find_entry(entries: Seq<FstEntry>, segs: Seq<Seq<u8>>) -> Option<FstEntry>
    decreases segs.len(),
{
    if segs.len() == 0 {
        None
    } else {
        match spec_find_named(entries, segs[0]) {
            None => None,
            Some(i) => {
                if segs.len() == 1 {
                    Some(entries[i])
                } else {
                    match entries[i] {
                        FstEntry::Dir(_, kids) => spec_find_entry(kids@, segs.skip(1)),
                        FstEntry::File(_, _) => None,
                    }
                }
            },
        }
    }
}

/// Find the first entry with `name` in a sibling list.
pub fn find_named(entries: &Vec<FstEntry>, name: &Vec<u8>) -> (r: Option<usize>)
    ensures
        match r {
            Some(i) => {
                &&& spec_find_named(entries@, name@) == Some(i as int)
                &&& i < entries@.len()
                &&& entries@[i as int].name() == name@
            },
            None => spec_find_named(entries@, name@) is None,
        },
{
    let mut i: usize = 0;
    assert(entries@.skip(0) =~= entries@);
    while i < entries.len()
        invariant
            i <= entries@.len(),
            forall|j: int| 0 <= j < i ==> entries@[j].name() != name@,
            spec_find_named(entries@, name@) == match spec_find_named(
                entries@.skip(i as int),
                name@,
            ) {
                Some(k) => Some(k + i),
                None => None::<int>,
            },
        decreases entries@.len() - i,
    {
        let n = match &entries[i] {
            FstEntry::Dir(n, _) => n,
            FstEntry::File(n, _) => n,
        };
        let eq = vec_u8_eq(n, name);
        proof {
            assert(entries@.skip(i as int)[0] == entries@[i as int]);
            assert(entries@.skip(i as int).skip(1) =~= entries@.skip(i + 1));
        }
        if eq {
            return Some(i);
        }
        i = i + 1;
    }
    proof {
        assert(entries@.skip(entries@.len() as int).len() == 0);
    }
    None
}

/// Byte-string equality.
pub fn vec_u8_eq(a: &Vec<u8>, b: &Vec<u8>) -> (r: bool)
    ensures
        r <==> a@ == b@,
{
    if a.len() != b.len() {
        proof {
            assert(a@.len() != b@.len());
        }
        return false;
    }
    let mut i: usize = 0;
    while i < a.len()
        invariant
            a@.len() == b@.len(),
            i <= a@.len(),
            forall|j: int| 0 <= j < i ==> a@[j] == b@[j],
        decreases a@.len() - i,
    {
        if a[i] != b[i] {
            return false;
        }
        i = i + 1;
    }
    proof {
        assert(a@ =~= b@);
    }
    true
}

/// Split a path into its non-empty `/`-separated segments.
pub open spec fn spec_split_path(p: Seq<u8>) -> Seq<Seq<u8>>
    decreases p.len(),
{
    spec_split_from(p, 0, Seq::empty())
}

pub open spec fn spec_split_from(p: Seq<u8>, i: int, cur: Seq<u8>) -> Seq<Seq<u8>>
    decreases p.len() - i,
{
    if i >= p.len() {
        if cur.len() == 0 {
            Seq::empty()
        } else {
            seq![cur]
        }
    } else if p[i] == 0x2F {
        if cur.len() == 0 {
            spec_split_from(p, i + 1, Seq::empty())
        } else {
            seq![cur] + spec_split_from(p, i + 1, Seq::empty())
        }
    } else {
        spec_split_from(p, i + 1, cur.push(p[i]))
    }
}

/// Split a path into segments, skipping empty ones.
pub fn split_path(p: &Vec<u8>) -> (r: Vec<Vec<u8>>)
    ensures
        r@.map_values(|s: Vec<u8>| s@) == spec_split_path(p@),
{
    let mut out: Vec<Vec<u8>> = Vec::new();
    let mut cur: Vec<u8> = Vec::new();
    let mut i: usize = 0;
    while i < p.len()
        invariant
            i <= p@.len(),
            spec_split_path(p@) == out@.map_values(|s: Vec<u8>| s@) + spec_split_from(
                p@,
                i as int,
                cur@,
            ),
        decreases p@.len() - i,
    {
        let b = p[i];
        let ghost curg = cur@;
        if b == 0x2F {
            if cur.len() == 0 {
                proof {
                    assert(cur@ =~= Seq::<u8>::empty());
                    assert(spec_split_from(p@, i as int, curg) == spec_split_from(
                        p@,
                        i + 1,
                        Seq::empty(),
                    ));
                }
            }
            if cur.len() > 0 {
                let ghost out0 = out@;
                let ghost cur0 = cur@;
                out.push(cur);
                cur = Vec::new();
                proof {
                    assert(spec_split_from(p@, i as int, cur0) == seq![cur0] + spec_split_from(
                        p@,
                        i + 1,
                        Seq::empty(),
                    ));
                    assert(out@.map_values(|s: Vec<u8>| s@) =~~= out0.map_values(|s: Vec<u8>| s@)
                        + seq![cur0]);
                    assert(out0.map_values(|s: Vec<u8>| s@) + (seq![cur0] + spec_split_from(
                        p@,
                        i + 1,
                        Seq::empty(),
                    )) =~~= out@.map_values(|s: Vec<u8>| s@) + spec_split_from(
                        p@,
                        i + 1,
                        Seq::empty(),
                    ));
                }
            }
        } else {
            cur.push(b);
            proof {
                assert(cur@ == curg.push(p@[i as int]));
                assert(spec_split_from(p@, i as int, curg) == spec_split_from(p@, i + 1, cur@));
            }
        }
        i = i + 1;
    }
    if cur.len() > 0 {
        let ghost out0 = out@;
        let ghost cur0 = cur@;
        out.push(cur);
        proof {
            assert(spec_split_from(p@, p@.len() as int, cur0) == seq![cur0]);
            assert(out@.map_values(|s: Vec<u8>| s@) =~~= out0.map_values(|s: Vec<u8>| s@) + seq![
                cur0,
            ]);
        }
    } else {
        proof {
            assert(out@.map_values(|s: Vec<u8>| s@) =~~= out@.map_values(|s: Vec<u8>| s@)
                + spec_split_from(p@, p@.len() as int, cur@));
        }
    }
    out
}

/// The disc: identifying header fields plus the filesystem tree.
#[derive(Debug)]
pub struct GcDisc {
    pub game_id: Vec<u8>,
    pub disc_id: u8,
    pub version: u8,
    pub file_system_root: Vec<FstEntry>,
}

impl GcDisc {
    /// Walk the tree by path; fails when a segment is absent or when a
    /// segment expected to be a directory is a file.  A path with no
    /// nonempty segments names nothing (there is no entry for the root
    /// itself) and yields `None`.
    pub fn find_file(&self, segs: &Vec<Vec<u8>>) -> (r: Option<&FstEntry>)
        ensures
            match r {
                Some(e) => spec_find_entry(
                    self.file_system_root@,
                    segs@.map_values(|s: Vec<u8>| s@),
                ) == Some(*e),
                None => spec_find_entry(
                    self.file_system_root@,
                    segs@.map_values(|s: Vec<u8>| s@),
                ) is None,
            },
    {
        proof {
            assert(segs@.map_values(|s: Vec<u8>| s@).skip(0) =~= segs@.map_values(
                |s: Vec<u8>| s@,
            ));
        }
        find_file_in(&self.file_system_root, segs, 0)
    }
}

/// Recursive path walk from segment `k`.
pub fn find_file_in<'a>(entries: &'a Vec<FstEntry>, segs: &Vec<Vec<u8>>, k: usize) -> (r: Option<
    &'a FstEntry,
>)
    requires
        k <= segs@.len(),
    ensures
        match r {
            Some(e) => spec_find_entry(entries@, segs@.map_values(|s: Vec<u8>| s@).skip(k as int))
                == Some(*e),
            None => spec_find_entry(
                entries@,
                segs@.map_values(|s: Vec<u8>| s@).skip(k as int),
            ) is None,
        },
    decreases segs@.len() - k,
{
    let ghost ss = segs@.map_values(|s: Vec<u8>| s@).skip(k as int);
    if k == segs.len() {
        assert(ss.len() == 0);
        return None;
    }
    assert(ss[0] == segs@[k as int]@);
    let i = match find_named(entries, &segs[k]) {
        Some(i) => i,
        None => { return None; },
    };
    if segs.len() - k == 1 {
        assert(ss.len() == 1);
        Some(&entries[i])
    } else {
        proof {
            assert(ss.skip(1) =~= segs@.map_values(|s: Vec<u8>| s@).skip(k + 1));
        }
        match &entries[i] {
            FstEntry::Dir(_, kids) => find_file_in(kids, segs, k + 1),
            FstEntry::File(_, _) => None,
        }
    }
}

/// The first resource of the archive matching `(id, fourcc)`.
pub fn find_resource_idx(pak: &Pak, id: u32, fourcc: u32) -> (r: Option<usize>)
    ensures
        match r {
            Some(i) => {
                &&& i < pak.resources@.len()
                &&& pak.resources@[i as int].id == id
                &&& pak.resources@[i as int].fourcc == fourcc
                &&& forall|j: int|
                    0 <= j < i ==> !(pak.resources@[j].id == id && pak.resources@[j].fourcc
                        == fourcc)
            },
            None => forall|j: int|
                0 <= j < pak.resources@.len() ==> !(pak.resources@[j].id == id
                    && pak.resources@[j].fourcc == fourcc),
        },
{
    let mut i: usize = 0;
    while i < pak.resources.len()
        invariant
            i <= pak.resources@.len(),
            forall|j: int|
                0 <= j < i ==> !(pak.resources@[j].id == id && pak.resources@[j].fourcc == fourcc),
        decreases pak.resources@.len() - i,
    {
        let res = &pak.resources[i];
        if res.id == id && res.fourcc == fourcc {
            return Some(i);
        }
        i = i + 1;
    }
    None
}

/// Whether some archive of the set holds the `(id, type)` key.
pub open spec fn key_in_paks(paks: Seq<Pak>, key: Dependency) -> bool {
    exists|p: int, j: int|
        0 <= p < paks.len() && 0 <= j < paks[p].resources@.len()
            && paks[p].resources@[j].id == key.asset_id && paks[p].resources@[j].fourcc
            == key.asset_type
}

/// Dependency closure over a set of archives: scan every archive once and
/// report exactly the keys that no archive holds.  An empty result means
/// every key was resolved; a non-empty result names every unresolved key so
/// the configuration error is diagnosable in one pass.
pub fn unresolved_keys(paks: &Vec<Pak>, keys: &Vec<Dependency>) -> (missing: Vec<Dependency>)
    ensures
        missing@ == keys@.filter(|k: Dependency| !key_in_paks(paks@, k)),
{
    let mut missing: Vec<Dependency> = Vec::new();
    let mut i: usize = 0;
    while i < keys.len()
        invariant
            i <= keys@.len(),
            missing@ == keys@.take(i as int).filter(|k: Dependency| !key_in_paks(paks@, k)),
        decreases keys@.len() - i,
    {
        let k = keys[i];
        let mut found = false;
        let mut p: usize = 0;
        while p < paks.len()
            invariant
                p <= paks@.len(),
                found <==> exists|q: int, j: int|
                    0 <= q < p && 0 <= j < paks@[q].resources@.len()
                        && paks@[q].resources@[j].id == k.asset_id
                        && paks@[q].resources@[j].fourcc == k.asset_type,
            decreases paks@.len() - p,
        {
            match find_resource_idx(&paks[p], k.asset_id, k.asset_type) {
                Some(j) => {
                    proof {
                        let q0 = p as int;
                        let j0 = j as int;
                        assert(0 <= q0 < p + 1 && 0 <= j0 < paks@[q0].resources@.len()
                            && paks@[q0].resources@[j0].id == k.asset_id
                            && paks@[q0].resources@[j0].fourcc == k.asset_type);
                    }
                    found = true;
                },
                None => (),
            };
            p = p + 1;
        }
        proof {
            assert(found <==> key_in_paks(paks@, k));
            assert(keys@.take(i + 1).drop_last() =~= keys@.take(i as int));
            assert(keys@.take(i + 1).last() == k);
            reveal_with_fuel(Seq::filter, 2);
        }
        if !found {
            missing.push(k);
        }
        i = i + 1;
    }
    assert(keys@.take(keys@.len() as int) =~= keys@);
    missing
}

/// A byte-for-byte copy of a name.
pub fn clone_bytes(v: &Vec<u8>) -> (r: Vec<u8>)
    ensures
        r@ == v@,
{
    let mut out: Vec<u8> = Vec::new();
    let mut i: usize = 0;
    while i < v.len()
        invariant
            i <= v@.len(),
            out@ == v@.take(i as int),
        decreases v@.len() - i,
    {
        out.push(v[i]);
        assert(out@ =~= v@.take(i + 1));
        i = i + 1;
    }
    assert(v@.take(v@.len() as int) =~= v@);
    out
}

/// A path can take an insertion: every segment before the last resolves to a
/// directory or to nothing.
pub open spec fn spec_can_add(entries: Seq<FstEntry>, segs: Seq<Seq<u8>>) -> bool
    decreases segs.len(),
{
    if segs.len() <= 1 {
        true
    } else {
        match spec_find_named(entries, segs[0]) {
            None => true,
            Some(i) => entries[i] is Dir && spec_can_add(entries[i]->Dir_1@, segs.skip(1)),
        }
    }
}

/// The tree after the insertion: every existing entry keeps its place and
/// value; each missing directory is created empty and appended at the end of
/// its parent; the new file is appended as the last child of the final
/// directory, carrying exactly the given contents.
pub open spec fn spec_added(
    olds: Seq<FstEntry>,
    news: Seq<FstEntry>,
    segs: Seq<Seq<u8>>,
    f: FstEntryFile,
) -> bool
    decreases segs.len(),
{
    if segs.len() == 0 {
        false
    } else if segs.len() == 1 {
        &&& news.len() == olds.len() + 1
        &&& (forall|j: int| 0 <= j < olds.len() ==> news[j] == olds[j])
        &&& (news.last() matches FstEntry::File(n, f2) && n@ == segs[0] && f2 == f)
    } else {
        match spec_find_named(olds, segs[0]) {
            Some(i) => {
                &&& olds[i] is Dir
                &&& news.len() == olds.len()
                &&& (forall|j: int| 0 <= j < olds.len() && j != i ==> news[j] == olds[j])
                &&& news[i] is Dir
                &&& news[i].name() == olds[i].name()
                &&& spec_added(olds[i]->Dir_1@, news[i]->Dir_1@, segs.skip(1), f)
            },
            None => {
                &&& news.len() == olds.len() + 1
                &&& (forall|j: int| 0 <= j < olds.len() ==> news[j] == olds[j])
                &&& (news.last() matches FstEntry::Dir(n, kids) && n@ == segs[0] && spec_added(
                    Seq::empty(),
                    kids@,
                    segs.skip(1),
                    f,
                ))
            },
        }
    }
}

/// Whether the path from segment `k` on can take an insertion.
fn can_add_check(entries: &Vec<FstEntry>, segs: &Vec<Vec<u8>>, k: usize) -> (b: bool)
    requires
        k < segs@.len(),
    ensures
        b == spec_can_add(entries@, segs@.map_values(|s: Vec<u8>| s@).skip(k as int)),
    decreases segs@.len() - k,
{
    let ghost ss = segs@.map_values(|s: Vec<u8>| s@).skip(k as int);
    proof {
        assert(ss[0] == segs@[k as int]@);
        assert(ss.skip(1) =~= segs@.map_values(|s: Vec<u8>| s@).skip(k + 1));
    }
    if segs.len() - k == 1 {
        return true;
    }
    match find_named(entries, &segs[k]) {
        None => true,
        Some(i) => {
            match &entries[i] {
                FstEntry::Dir(_, kids) => can_add_check(kids, segs, k + 1),
                FstEntry::File(_, _) => false,
            }
        },
    }
}

/// Insert `file` at the path from segment `k` on, creating every missing
/// intermediate directory.  The caller has checked that the path can take
/// the insertion.
fn add_file_in(entries: &mut Vec<FstEntry>, segs: &Vec<Vec<u8>>, k: usize, file: FstEntryFile)
    requires
        k < segs@.len(),
        spec_can_add(old(entries)@, segs@.map_values(|s: Vec<u8>| s@).skip(k as int)),
    ensures
        spec_added(
            old(entries)@,
            final(entries)@,
            segs@.map_values(|s: Vec<u8>| s@).skip(k as int),
            file,
        ),
    decreases segs@.len() - k,
{
    let ghost ss = segs@.map_values(|s: Vec<u8>| s@).skip(k as int);
    proof {
        assert(ss[0] == segs@[k as int]@);
        assert(ss.skip(1) =~= segs@.map_values(|s: Vec<u8>| s@).skip(k + 1));
    }
    if segs.len() - k == 1 {
        let name = clone_bytes(&segs[k]);
        let ghost olds = entries@;
        entries.push(FstEntry::File(name, file));
        proof {
            assert(entries@.last() == entries@[olds.len() as int]);
            assert(spec_added(olds, entries@, ss, file));
        }
        return ;
    }
    match find_named(entries, &segs[k]) {
        Some(i) => {
            let ghost olds = entries@;
            let entry = entries.remove(i);
            match entry {
                FstEntry::Dir(name, mut kids) => {
                    add_file_in(&mut kids, segs, k + 1, file);
                    let ghost kids1 = kids@;
                    entries.insert(i, FstEntry::Dir(name, kids));
                    proof {
                        assert(entries@ =~= olds.update(i as int, entries@[i as int]));
                        assert(entries@[i as int]->Dir_1@ == kids1);
                        assert(spec_added(olds, entries@, ss, file));
                    }
                },
                FstEntry::File(name, f0) => {
                    // ruled out by the path check
                    proof {
                        assert(false);
                    }
                    entries.insert(i, FstEntry::File(name, f0));
                },
            }
        },
        None => {
            let mut kids: Vec<FstEntry> = Vec::new();
            proof {
                assert(spec_can_add(kids@, ss.skip(1)));
            }
            add_file_in(&mut kids, segs, k + 1, file);
            let name = clone_bytes(&segs[k]);
            let ghost olds = entries@;
            let ghost kids1 = kids@;
            entries.push(FstEntry::Dir(name, kids));
            proof {
                assert(entries@.last() == entries@[olds.len() as int]);
                assert(entries@.last() matches FstEntry::Dir(n, kk) && n@ == ss[0] && kk@
                    == kids1);
                assert(spec_added(olds, entries@, ss, file));
            }
        },
    }
}

impl GcDisc {
    /// Insert a new file, creating any missing intermediate directories.
    /// Succeeds exactly when no intermediate segment names a file; then
    /// every existing entry is preserved in place and the file with the
    /// given contents is appended under the final directory.  On failure the
    /// tree is untouched.
    pub fn add_file(&mut self, segs: &Vec<Vec<u8>>, file: FstEntryFile) -> (r: Result<(), ()>)
        requires
            segs@.len() > 0,
        ensures
            final(self).game_id == old(self).game_id,
            final(self).disc_id == old(self).disc_id,
            final(self).version == old(self).version,
            r is Ok <==> spec_can_add(
                old(self).file_system_root@,
                segs@.map_values(|s: Vec<u8>| s@),
            ),
            r is Ok ==> spec_added(
                old(self).file_system_root@,
                final(self).file_system_root@,
                segs@.map_values(|s: Vec<u8>| s@),
                file,
            ),
            r is Err ==> *final(self) == *old(self),
    {
        proof {
            assert(segs@.map_values(|s: Vec<u8>| s@).skip(0) =~= segs@.map_values(
                |s: Vec<u8>| s@,
            ));
        }
        if !can_add_check(&self.file_system_root, segs, 0) {
            return Err(());
        }
        add_file_in(&mut self.file_system_root, segs, 0, file);
        Ok(())
    }
}

} // verus!
