//! The numbers under which Linux knows the paths of the device.

use std::collections::HashMap;

use vstd::hash_map::StringHashMap;
use vstd::prelude::*;
use vstd::string::*;

use crate::text;

verus! {

broadcast use vstd::std_specs::hash::group_hash_axioms;

/// The number of the root directory.
pub const ROOT: u64 = 1;

/// The path of an entry of a directory.
pub open spec fn child_path(parent: Seq<char>, name: Seq<char>) -> Seq<char> {
    if parent == seq!['/'] {
        seq!['/'] + name
    } else {
        parent + seq!['/'] + name
    }
}

/// The path of the directory that a path is an entry of; the root directory is its own parent, and
/// what holds no separator lies in the root directory.
pub open spec fn parent_path(path: Seq<char>) -> Seq<char> {
    match text::last_index(path, '/') {
        Some(k) if k > 0 => path.take(k),
        _ => seq!['/'],
    }
}

/// The directory of an entry is the directory that the entry's path was made from.
pub proof fn law_parent_of_child(parent: Seq<char>, name: Seq<char>)
    requires
        parent.len() > 0,
        !name.contains('/'),
    ensures
        parent_path(child_path(parent, name)) == parent,
{
    let path = child_path(parent, name);
    text::lemma_last_index(path, '/');
    let k = if parent == seq!['/'] {
        0
    } else {
        parent.len() as int
    };
    assert(path[k] == '/');
    assert forall|j: int| k < j < path.len() implies path[j] != '/' by {
        assert(path[j] == name[j - k - 1]);
    }
    assert(text::last_index(path, '/') == Some(k));
    assert(path.take(k) =~= parent || k == 0);
}

/// The path of an entry of a directory.
pub fn child(parent: &str, name: &str) -> (r: String)
    ensures
        r@ == child_path(parent@, name@),
{
    proof {
        reveal_strlit("/");
        assert("/"@ =~= seq!['/']);
    }
    if text::same(parent, "/") {
        text::joined("/", name)
    } else {
        text::joined3(parent, "/", name)
    }
}

/// The path of the directory that a path is an entry of.
pub fn parent<'a>(path: &'a str) -> (r: &'a str)
    ensures
        r@ == parent_path(path@),
{
    proof {
        reveal_strlit("/");
        assert("/"@ =~= seq!['/']);
        text::lemma_last_index(path@, '/');
    }
    let list: Vec<char> = text::chars(path);
    match text::rfind(list.as_slice(), '/') {
        Some(k) if k > 0 => {
            assert(path@.subrange(0, k as int) =~= path@.take(k as int));
            path.substring_char(0, k)
        },
        _ => "/",
    }
}

/// Whether `path` is `dir` or lies below it.
pub open spec fn in_subtree(dir: Seq<char>, path: Seq<char>) -> bool {
    text::has_prefix(path, dir) && (path.len() == dir.len() || path[dir.len() as int] == '/')
}

/// The subtree of a directory is the directory and what lies below it, and nothing else: a path that
/// only begins with the same letters is not in it.
pub proof fn law_subtree_is_what_lies_below(dir: Seq<char>, path: Seq<char>)
    ensures
        in_subtree(dir, path) <==> path == dir || text::has_prefix(path, dir + seq!['/']),
{
    let longer = dir + seq!['/'];
    assert(path.take(path.len() as int) =~= path);
    if path.len() > dir.len() {
        assert(path.take(longer.len() as int) =~= path.take(dir.len() as int).push(
            path[dir.len() as int],
        ));
        assert(longer =~= dir.push('/'));
        if text::has_prefix(path, longer) {
            assert(path.take(dir.len() as int) =~= longer.take(dir.len() as int));
            assert(longer.take(dir.len() as int) =~= dir);
            assert(path[dir.len() as int] == longer[dir.len() as int]);
        }
    }
}

/// Where a path of the subtree of `from` is once that subtree has become the subtree of `to`.
pub open spec fn moved_path(from: Seq<char>, to: Seq<char>, path: Seq<char>) -> Seq<char> {
    to + path.skip(from.len() as int)
}

/// What an inode table holds: the next number to give out, the path of each number, and the number
/// of each path.
#[verifier::ext_equal]
pub struct Inodes {
    pub next: u64,
    pub paths: Map<u64, Seq<char>>,
    pub inodes: Map<Seq<char>, u64>,
}

impl Inodes {
    /// Every path that has a number is the path of that number, and every number that was given
    /// out is below the next one.
    pub open spec fn wf(self) -> bool {
        &&& forall|p: Seq<char>| #[trigger]
            self.inodes.contains_key(p) ==> self.paths.contains_key(self.inodes[p])
                && self.paths[self.inodes[p]] == p
        &&& forall|i: u64| #[trigger] self.paths.contains_key(i) ==> ROOT <= i < self.next
        &&& ROOT < self.next
    }

    /// The table of a new mount: only the root directory has a number.
    pub open spec fn initial() -> Inodes {
        Inodes {
            next: 2,
            paths: Map::<u64, Seq<char>>::empty().insert(ROOT, seq!['/']),
            inodes: Map::<Seq<char>, u64>::empty().insert(seq!['/'], ROOT),
        }
    }

    /// The number of a path, once it has one.
    pub open spec fn number(self, path: Seq<char>) -> u64 {
        if self.inodes.contains_key(path) {
            self.inodes[path]
        } else {
            self.next
        }
    }

    /// Whether a path has a number or can get one.
    pub open spec fn can_number(self, path: Seq<char>) -> bool {
        self.inodes.contains_key(path) || self.next < u64::MAX
    }

    /// The table once a path has a number: a path without one gets the next.
    pub open spec fn numbered(self, path: Seq<char>) -> Inodes {
        if self.inodes.contains_key(path) {
            self
        } else {
            Inodes {
                next: (self.next + 1) as u64,
                paths: self.paths.insert(self.next, path),
                inodes: self.inodes.insert(path, self.next),
            }
        }
    }

    /// Whether a number is that of a path of the subtree of `dir`.
    pub open spec fn lies_in(self, dir: Seq<char>, inode: u64) -> bool {
        &&& self.paths.contains_key(inode)
        &&& in_subtree(dir, self.paths[inode])
        &&& self.inodes.contains_key(self.paths[inode])
        &&& self.inodes[self.paths[inode]] == inode
    }

    /// The path of the subtree of `from` that becomes `path` when the subtree becomes that of `to`.
    pub open spec fn origin(from: Seq<char>, to: Seq<char>, path: Seq<char>) -> Seq<char> {
        from + path.skip(to.len() as int)
    }

    /// Whether some path with a number becomes `path` when the subtree of `from` becomes that of
    /// `to`.
    pub open spec fn arrives(self, from: Seq<char>, to: Seq<char>, path: Seq<char>) -> bool {
        in_subtree(to, path) && self.inodes.contains_key(Self::origin(from, to, path))
    }

    /// The table once the subtree of `from` has become the subtree of `to`: every number of the
    /// subtree goes with its path, and takes over from a number that had the new path before.
    pub open spec fn renamed(self, from: Seq<char>, to: Seq<char>) -> Inodes {
        Inodes {
            next: self.next,
            paths: Map::new(
                |i: u64| self.paths.contains_key(i),
                |i: u64|
                    if self.lies_in(from, i) {
                        moved_path(from, to, self.paths[i])
                    } else {
                        self.paths[i]
                    },
            ),
            inodes: Map::new(
                |p: Seq<char>|
                    self.arrives(from, to, p) || (self.inodes.contains_key(p) && !in_subtree(
                        from,
                        p,
                    )),
                |p: Seq<char>|
                    if self.arrives(from, to, p) {
                        self.inodes[Self::origin(from, to, p)]
                    } else {
                        self.inodes[p]
                    },
            ),
        }
    }

    /// The table once the subtree of `dir` is gone: its paths have no numbers any more, and its
    /// numbers no paths.
    pub open spec fn removed(self, dir: Seq<char>) -> Inodes {
        Inodes {
            next: self.next,
            paths: Map::new(
                |i: u64| self.paths.contains_key(i) && !self.lies_in(dir, i),
                |i: u64| self.paths[i],
            ),
            inodes: Map::new(
                |p: Seq<char>| self.inodes.contains_key(p) && !in_subtree(dir, p),
                |p: Seq<char>| self.inodes[p],
            ),
        }
    }
}

proof fn lemma_moved_path(from: Seq<char>, to: Seq<char>, path: Seq<char>)
    requires
        in_subtree(from, path),
    ensures
        in_subtree(to, moved_path(from, to, path)),
        Inodes::origin(from, to, moved_path(from, to, path)) == path,
{
    let new = moved_path(from, to, path);
    assert(new.take(to.len() as int) =~= to);
    assert(new.skip(to.len() as int) =~= path.skip(from.len() as int));
    assert(path =~= path.take(from.len() as int) + path.skip(from.len() as int));
    if path.len() > from.len() {
        assert(new[to.len() as int] == path[from.len() as int]);
    }
}

proof fn lemma_origin(from: Seq<char>, to: Seq<char>, path: Seq<char>)
    requires
        in_subtree(to, path),
    ensures
        in_subtree(from, Inodes::origin(from, to, path)),
        moved_path(from, to, Inodes::origin(from, to, path)) == path,
{
    lemma_moved_path(to, from, path);
}

/// Whatever is done to a table, every path that has a number stays the path of that number, and no
/// number at or above the next one is in use.
pub proof fn law_table_stays_consistent(
    table: Inodes,
    path: Seq<char>,
    from: Seq<char>,
    to: Seq<char>,
)
    requires
        table.wf(),
    ensures
        Inodes::initial().wf(),
        table.can_number(path) ==> table.numbered(path).wf(),
        table.renamed(from, to).wf(),
        table.removed(path).wf(),
{
    if table.next < u64::MAX && !table.inodes.contains_key(path) {
        let n = table.numbered(path);
        assert forall|p: Seq<char>| #[trigger]
            n.inodes.contains_key(p) implies n.paths.contains_key(n.inodes[p])
            && n.paths[n.inodes[p]] == p by {
            if p != path {
                assert(table.inodes.contains_key(p));
            }
        }
    }
    let r = table.renamed(from, to);
    assert forall|p: Seq<char>| #[trigger] r.inodes.contains_key(p) implies r.paths.contains_key(
        r.inodes[p],
    ) && r.paths[r.inodes[p]] == p by {
        if table.arrives(from, to, p) {
            let q = Inodes::origin(from, to, p);
            lemma_origin(from, to, p);
            assert(table.inodes.contains_key(q));
            assert(table.lies_in(from, table.inodes[q]));
        } else {
            assert(table.inodes.contains_key(p));
            assert(!table.lies_in(from, table.inodes[p]));
        }
    }
    let d = table.removed(path);
    assert forall|p: Seq<char>| #[trigger] d.inodes.contains_key(p) implies d.paths.contains_key(
        d.inodes[p],
    ) && d.paths[d.inodes[p]] == p by {
        assert(table.inodes.contains_key(p));
    }
}

/// A path that was given a number keeps it however often it is asked for, the number leads back
/// to the path, and every other path and number is as it was.
pub proof fn law_number_leads_back(table: Inodes, path: Seq<char>, other: Seq<char>)
    requires
        table.wf(),
        table.can_number(path),
    ensures
        table.numbered(path).number(path) == table.number(path),
        table.numbered(path).numbered(path) == table.numbered(path),
        table.numbered(path).paths.contains_key(table.number(path)),
        table.numbered(path).paths[table.number(path)] == path,
        table.inodes.contains_key(other) ==> table.numbered(path).inodes.contains_key(other)
            && table.numbered(path).inodes[other] == table.inodes[other],
        forall|i: u64|
            table.paths.contains_key(i) ==> #[trigger] table.numbered(path).paths.contains_key(i)
                && table.numbered(path).paths[i] == table.paths[i],
{
}

/// Two paths never have the same number.
pub proof fn law_numbers_distinct(table: Inodes, a: Seq<char>, b: Seq<char>)
    requires
        table.wf(),
        table.inodes.contains_key(a),
        table.inodes.contains_key(b),
        table.inodes[a] == table.inodes[b],
    ensures
        a == b,
{
}

/// Renaming moves a whole subtree: every path below the old name is found below the new one, under
/// the number it had, and is gone from where it was.
pub proof fn law_rename_moves_subtree(
    table: Inodes,
    from: Seq<char>,
    to: Seq<char>,
    path: Seq<char>,
)
    requires
        table.wf(),
        table.inodes.contains_key(path),
        in_subtree(from, path),
    ensures
        ({
            let after = table.renamed(from, to);
            let new = moved_path(from, to, path);
            &&& after.inodes.contains_key(new)
            &&& after.inodes[new] == table.inodes[path]
            &&& after.paths[table.inodes[path]] == new
            &&& !in_subtree(to, path) ==> !after.inodes.contains_key(path)
        }),
{
    lemma_moved_path(from, to, path);
    assert(table.lies_in(from, table.inodes[path]));
}

/// Renaming leaves alone what lies neither below the old name nor below the new one, and every
/// number keeps a path.
pub proof fn law_rename_leaves_the_rest(
    table: Inodes,
    from: Seq<char>,
    to: Seq<char>,
    path: Seq<char>,
)
    requires
        table.wf(),
        !in_subtree(from, path),
        !in_subtree(to, path),
    ensures
        table.renamed(from, to).inodes.contains_key(path) == table.inodes.contains_key(path),
        table.inodes.contains_key(path) ==> table.renamed(from, to).inodes[path]
            == table.inodes[path],
        table.inodes.contains_key(path) ==> table.renamed(from, to).paths[table.inodes[path]]
            == path,
        table.renamed(from, to).paths.dom() == table.paths.dom(),
        table.renamed(from, to).next == table.next,
{
    assert(table.renamed(from, to).paths.dom() =~= table.paths.dom());
}

/// Renaming there and back changes nothing, where nothing known lay below the new name and neither
/// name lies below the other.
pub proof fn law_rename_undone(table: Inodes, from: Seq<char>, to: Seq<char>)
    requires
        table.wf(),
        forall|p: Seq<char>| #[trigger] table.inodes.contains_key(p) ==> !in_subtree(to, p),
        forall|p: Seq<char>| in_subtree(from, p) ==> !(#[trigger] in_subtree(to, p)),
    ensures
        table.renamed(from, to).renamed(to, from) == table,
{
    let there = table.renamed(from, to);
    let back = there.renamed(to, from);
    assert forall|p: Seq<char>| back.inodes.contains_key(p) == #[trigger] table.inodes.contains_key(
        p,
    ) && (table.inodes.contains_key(p) ==> back.inodes[p] == table.inodes[p]) by {
        if in_subtree(from, p) {
            lemma_moved_path(from, to, p);
            assert(there.arrives(to, from, p) == table.inodes.contains_key(p));
        }
    }
    assert(back.inodes =~= table.inodes);
    assert forall|i: u64| #[trigger] table.paths.contains_key(i) implies back.paths[i]
        == table.paths[i] by {
        let p = table.paths[i];
        if table.lies_in(from, i) {
            let new = moved_path(from, to, p);
            lemma_moved_path(from, to, p);
            lemma_moved_path(to, from, new);
            assert(table.arrives(from, to, new));
            assert(there.lies_in(to, i));
            assert(moved_path(to, from, new) =~= p);
        } else {
            assert(there.paths[i] == p);
            if there.lies_in(to, i) {
                assert(there.inodes.contains_key(p));
                lemma_origin(from, to, p);
                let q = Inodes::origin(from, to, p);
                assert(table.inodes.contains_key(q));
                assert(table.inodes[q] == i);
                assert(false);
            }
        }
    }
    assert(back.paths =~= table.paths);
}

/// A removed subtree is forgotten, the rest is kept, and a removed number never comes back: a path
/// that gets a number later gets one that was never used.
pub proof fn law_remove_forgets_subtree(table: Inodes, dir: Seq<char>, path: Seq<char>)
    requires
        table.wf(),
    ensures
        ({
            let after = table.removed(dir);
            &&& in_subtree(dir, path) ==> !after.inodes.contains_key(path)
            &&& in_subtree(dir, path) && table.inodes.contains_key(path)
                ==> !after.paths.contains_key(table.inodes[path])
            &&& !in_subtree(dir, path) && table.inodes.contains_key(path)
                ==> after.inodes.contains_key(path) && after.inodes[path] == table.inodes[path]
                && after.paths.contains_key(table.inodes[path])
            &&& in_subtree(dir, path) ==> !table.paths.contains_key(after.number(path))
        }),
{
}

/// The two directions of a table, and the next number to give out.
struct Table {
    next: u64,
    by_inode: HashMap<u64, String>,
    by_path: StringHashMap<u64>,
}

impl View for Table {
    type V = Inodes;

    closed spec fn view(&self) -> Inodes {
        Inodes {
            next: self.next,
            paths: self.by_inode@.map_values(|s: String| s@),
            inodes: self.by_path@,
        }
    }
}

impl Table {
    /// A table in which nothing has a number.
    fn empty() -> (r: Self)
        ensures
            r@.wf(),
    {
        Table { next: 2, by_inode: HashMap::new(), by_path: StringHashMap::new() }
    }

    /// The table of a new mount: only the root directory has a number.
    fn initial() -> (r: Self)
        ensures
            r@ == Inodes::initial(),
            r@.wf(),
    {
        proof {
            reveal_strlit("/");
            assert("/"@ =~= seq!['/']);
        }
        let mut by_inode: HashMap<u64, String> = HashMap::new();
        let mut by_path: StringHashMap<u64> = StringHashMap::new();
        by_inode.insert(ROOT, "/".to_owned());
        by_path.insert("/".to_owned(), ROOT);
        let r = Table { next: 2, by_inode, by_path };
        assert(r@.paths =~= Inodes::initial().paths);
        assert(r@.inodes =~= Inodes::initial().inodes);
        r
    }

    /// The path of a number.
    fn path(&self, inode: u64) -> (r: Option<String>)
        ensures
            match r {
                Some(path) => self@.paths.contains_key(inode) && path@ == self@.paths[inode],
                None => !self@.paths.contains_key(inode),
            },
    {
        match self.by_inode.get(&inode) {
            Some(path) => Some(path.clone()),
            None => None,
        }
    }

    /// Whether there are numbers left to give out.
    fn has_room(&self) -> (r: bool)
        ensures
            r == (self@.next < u64::MAX),
    {
        self.next < u64::MAX
    }

    /// The number of a path; a path without one gets the next.
    fn inode(&mut self, path: &str) -> (r: u64)
        requires
            old(self)@.wf(),
            old(self)@.can_number(path@),
        ensures
            r == old(self)@.number(path@),
            final(self)@ == old(self)@.numbered(path@),
            final(self)@.wf(),
    {
        if let Some(inode) = self.by_path.get(path) {
            return *inode;
        }
        let inode: u64 = self.next;
        self.next = self.next + 1;
        self.by_inode.insert(inode, path.to_owned());
        self.by_path.insert(path.to_owned(), inode);
        assert(self@.paths =~= old(self)@.numbered(path@).paths);
        assert(self@.inodes =~= old(self)@.numbered(path@).inodes);
        proof {
            law_table_stays_consistent(old(self)@, path@, path@, path@);
        }
        inode
    }

    /// The numbers that have a path.
    fn numbers(&self) -> (r: Vec<u64>)
        ensures
            r@.no_duplicates(),
            forall|i: u64| #[trigger] r@.contains(i) <==> self@.paths.contains_key(i),
    {
        let mut out: Vec<u64> = Vec::new();
        for key in it: self.by_inode.keys()
            invariant
                it.seq().unref().to_set() == self.by_inode@.dom(),
                it.seq().no_duplicates(),
                out@ == it.seq().unref().take(it.index() as int),
                it.index() == it.seq().len() ==> out@ == it.seq().unref(),
        {
            assert(it.seq().unref()[it.index() as int] == *key);
            out.push(*key);
            assert(out@ =~= it.seq().unref().take(it.index() as int + 1));
        }
        proof {
            assert forall|i: u64| #[trigger] out@.contains(i) <==> self@.paths.contains_key(i) by {
                assert(out@.to_set().contains(i) == self.by_inode@.dom().contains(i));
            }
        }
        out
    }

    /// The numbers of the paths of a subtree.
    fn subtree(&self, dir: &[char]) -> (r: Vec<u64>)
        requires
            self@.wf(),
        ensures
            r@.no_duplicates(),
            forall|i: u64| #[trigger] r@.contains(i) <==> self@.lies_in(dir@, i),
    {
        let all: Vec<u64> = self.numbers();
        let mut out: Vec<u64> = Vec::new();
        let mut k: usize = 0;
        while k < all.len()
            invariant
                k <= all@.len(),
                self@.wf(),
                all@.no_duplicates(),
                forall|i: u64| #[trigger] all@.contains(i) <==> self@.paths.contains_key(i),
                out@.no_duplicates(),
                forall|j: int| 0 <= j < out@.len() ==> all@.take(k as int).contains(#[trigger] out@[j]),
                forall|j: int| 0 <= j < out@.len() ==> self@.lies_in(dir@, #[trigger] out@[j]),
                forall|j: int|
                    0 <= j < k && self@.lies_in(dir@, #[trigger] all@[j]) ==> out@.contains(
                        all@[j],
                    ),
            decreases all.len() - k,
        {
            let inode: u64 = all[k];
            let mut lies: bool = false;
            if let Some(path) = self.by_inode.get(&inode) {
                let list: Vec<char> = text::chars(path.as_str());
                if text::starts_with(list.as_slice(), dir) && (list.len() == dir.len()
                    || list[dir.len()] == '/') {
                    if let Some(current) = self.by_path.get(path.as_str()) {
                        lies = *current == inode;
                    }
                }
            }
            assert(lies == self@.lies_in(dir@, inode));
            let ghost before = out@;
            assert(all@.take(k + 1) =~= all@.take(k as int).push(inode));
            if lies {
                assert(!before.contains(inode)) by {
                    if before.contains(inode) {
                        let j = choose|j: int| 0 <= j < before.len() && before[j] == inode;
                        assert(all@.take(k as int).contains(before[j]));
                        let m = choose|m: int| 0 <= m < k && all@.take(k as int)[m] == inode;
                        assert(all@[m] == all@[k as int]);
                    }
                }
                out.push(inode);
            }
            proof {
                assert forall|j: int| 0 <= j < out@.len() implies all@.take(k + 1).contains(
                    #[trigger] out@[j],
                ) by {
                    if j < before.len() {
                        assert(out@[j] == before[j]);
                        let m = choose|m: int| 0 <= m < k && all@.take(k as int)[m] == before[j];
                        assert(all@.take(k + 1)[m] == before[j]);
                    } else {
                        assert(all@.take(k + 1)[k as int] == inode);
                    }
                }
                assert forall|j: int| 0 <= j < k + 1 && self@.lies_in(dir@, #[trigger] all@[j])
                    implies out@.contains(all@[j]) by {
                    if j < k {
                        let m = choose|m: int| 0 <= m < before.len() && before[m] == all@[j];
                        assert(out@[m] == all@[j]);
                    } else {
                        assert(out@[before.len() as int] == inode);
                    }
                }
            }
            k += 1;
        }
        proof {
            assert forall|i: u64| #[trigger] out@.contains(i) <==> self@.lies_in(dir@, i) by {
                if self@.lies_in(dir@, i) {
                    assert(all@.contains(i));
                    let j = choose|j: int| 0 <= j < all@.len() && all@[j] == i;
                    assert(self@.lies_in(dir@, all@[j]));
                }
            }
        }
        out
    }

    /// Takes the paths of the given numbers out of the paths that have a number.
    fn detach(&mut self, list: &Vec<u64>)
        requires
            forall|j: int| 0 <= j < list@.len() ==> old(self)@.paths.contains_key(#[trigger] list@[j]),
        ensures
            final(self)@.next == old(self)@.next,
            final(self)@.paths == old(self)@.paths,
            forall|p: Seq<char>| #[trigger]
                final(self)@.inodes.contains_key(p) <==> old(self)@.inodes.contains_key(p) && !exists|
                    j: int,
                |
                    0 <= j < list@.len() && old(self)@.paths[#[trigger] list@[j]] == p,
            forall|p: Seq<char>| #[trigger]
                final(self)@.inodes.contains_key(p) ==> final(self)@.inodes[p] == old(
                    self,
                )@.inodes[p],
    {
        let mut k: usize = 0;
        while k < list.len()
            invariant
                k <= list@.len(),
                forall|j: int|
                    0 <= j < list@.len() ==> old(self)@.paths.contains_key(#[trigger] list@[j]),
                self@.next == old(self)@.next,
                self@.paths == old(self)@.paths,
                forall|p: Seq<char>| #[trigger]
                    self@.inodes.contains_key(p) <==> old(self)@.inodes.contains_key(p) && !exists|
                        j: int,
                    |
                        0 <= j < k && old(self)@.paths[#[trigger] list@[j]] == p,
                forall|p: Seq<char>| #[trigger]
                    self@.inodes.contains_key(p) ==> self@.inodes[p] == old(self)@.inodes[p],
            decreases list.len() - k,
        {
            let inode: u64 = list[k];
            assert(self@.paths.contains_key(list@[k as int]));
            let ghost before = self@;
            match self.path(inode) {
                Some(path) => {
                    self.by_path.remove(path.as_str());
                    assert(self@.inodes == before.inodes.remove(path@));
                },
                None => {},
            }
            assert(old(self)@.paths[list@[k as int]] == before.paths[inode]);
            k += 1;
        }
    }

    /// Lets the subtree of `from` become the subtree of `to`. All old paths are given up before
    /// the first new one is taken.
    #[verifier::spinoff_prover]
    fn rename(&mut self, from: &str, to: &str)
        requires
            old(self)@.wf(),
        ensures
            final(self)@ == old(self)@.renamed(from@, to@),
            final(self)@.wf(),
    {
        let source: Vec<char> = text::chars(from);
        let moves: Vec<u64> = self.subtree(source.as_slice());
        proof {
            assert forall|j: int| 0 <= j < moves@.len() implies self@.paths.contains_key(
                #[trigger] moves@[j],
            ) by {
                assert(moves@.contains(moves@[j]));
            }
        }
        self.detach(&moves);
        let ghost table = old(self)@;
        let ghost base = self@.inodes;
        let mut k: usize = 0;
        while k < moves.len()
            invariant
                k <= moves@.len(),
                source@ == from@,
                table.wf(),
                moves@.no_duplicates(),
                forall|i: u64| #[trigger] moves@.contains(i) <==> table.lies_in(from@, i),
                self@.next == table.next,
                self@.paths.dom() == table.paths.dom(),
                forall|j: int|
                    k <= j < moves@.len() ==> self@.paths[#[trigger] moves@[j]]
                        == table.paths[moves@[j]],
                forall|j: int|
                    0 <= j < k ==> self@.paths[#[trigger] moves@[j]] == moved_path(
                        from@,
                        to@,
                        table.paths[moves@[j]],
                    ),
                forall|i: u64| #[trigger]
                    table.paths.contains_key(i) && !table.lies_in(from@, i) ==> self@.paths[i]
                        == table.paths[i],
                forall|p: Seq<char>| #[trigger]
                    self@.inodes.contains_key(p) <==> base.contains_key(p) || exists|j: int|
                        0 <= j < k && moved_path(
                            from@,
                            to@,
                            table.paths[#[trigger] moves@[j]],
                        ) == p,
                forall|j: int|
                    0 <= j < k ==> self@.inodes[moved_path(
                        from@,
                        to@,
                        table.paths[#[trigger] moves@[j]],
                    )] == moves@[j],
                forall|p: Seq<char>|
                    base.contains_key(p) && !(exists|j: int|
                        0 <= j < k && moved_path(
                            from@,
                            to@,
                            table.paths[#[trigger] moves@[j]],
                        ) == p) ==> #[trigger] self@.inodes[p] == base[p],
            decreases moves.len() - k,
        {
            let ghost before = self@;
            let inode: u64 = moves[k];
            assert(moves@.contains(moves@[k as int]));
            assert(table.lies_in(from@, inode));
            assert(self@.paths.dom().contains(inode));
            let ghost new = moved_path(from@, to@, table.paths[inode]);
            match self.path(inode) {
                Some(path) => {
                    let list: Vec<char> = text::chars(path.as_str());
                    let suffix: String = text::text(
                        vstd::slice::slice_subrange(list.as_slice(), source.len(), list.len()),
                    );
                    assert(suffix@ =~= path@.skip(from@.len() as int));
                    let target: String = text::joined(to, suffix.as_str());
                    assert(target@ == new);
                    self.by_path.insert(target.clone(), inode);
                    self.by_inode.insert(inode, target);
                    assert(self@.paths =~= before.paths.insert(inode, new));
                    assert(self@.inodes == before.inodes.insert(new, inode));
                },
                None => {},
            }
            proof {
                assert(self@.paths.dom() =~= table.paths.dom());
                assert forall|j: int| 0 <= j < k implies moved_path(
                    from@,
                    to@,
                    table.paths[#[trigger] moves@[j]],
                ) != new by {
                    assert(moves@.contains(moves@[j]));
                    assert(table.lies_in(from@, moves@[j]));
                    lemma_moved_path(from@, to@, table.paths[moves@[j]]);
                    lemma_moved_path(from@, to@, table.paths[inode]);
                    assert(moves@[j] != moves@[k as int]);
                }
                assert forall|p: Seq<char>| #[trigger]
                    self@.inodes.contains_key(p) <==> base.contains_key(p) || exists|j: int|
                        0 <= j < k + 1 && moved_path(
                            from@,
                            to@,
                            table.paths[#[trigger] moves@[j]],
                        ) == p by {
                    if p == new {
                        assert(moved_path(from@, to@, table.paths[moves@[k as int]]) == p);
                    } else {
                        assert(before.inodes.contains_key(p) == self@.inodes.contains_key(p));
                    }
                }
                assert forall|p: Seq<char>|
                    base.contains_key(p) && !(exists|j: int|
                        0 <= j < k + 1 && moved_path(
                            from@,
                            to@,
                            table.paths[#[trigger] moves@[j]],
                        ) == p) implies #[trigger] self@.inodes[p] == base[p] by {
                    assert(moved_path(from@, to@, table.paths[moves@[k as int]]) != p);
                    assert(before.inodes[p] == base[p]);
                }
            }
            k += 1;
        }
        proof {
            let goal = table.renamed(from@, to@);
            assert forall|p: Seq<char>| self@.inodes.contains_key(p)
                == #[trigger] goal.inodes.contains_key(p) && (self@.inodes.contains_key(p)
                ==> self@.inodes[p] == goal.inodes[p]) by {
                if table.arrives(from@, to@, p) {
                    let q = Inodes::origin(from@, to@, p);
                    lemma_origin(from@, to@, p);
                    let i = table.inodes[q];
                    assert(table.inodes.contains_key(q));
                    assert(table.lies_in(from@, i));
                    assert(moves@.contains(i));
                    let j = choose|j: int| 0 <= j < moves@.len() && moves@[j] == i;
                    assert(moved_path(from@, to@, table.paths[moves@[j]]) == p);
                } else {
                    assert(!exists|j: int|
                        0 <= j < moves@.len() && moved_path(
                            from@,
                            to@,
                            table.paths[#[trigger] moves@[j]],
                        ) == p) by {
                        if exists|j: int|
                            0 <= j < moves@.len() && moved_path(
                                from@,
                                to@,
                                table.paths[#[trigger] moves@[j]],
                            ) == p {
                            let j = choose|j: int|
                                0 <= j < moves@.len() && moved_path(
                                    from@,
                                    to@,
                                    table.paths[#[trigger] moves@[j]],
                                ) == p;
                            assert(moves@.contains(moves@[j]));
                            assert(table.lies_in(from@, moves@[j]));
                            lemma_moved_path(from@, to@, table.paths[moves@[j]]);
                        }
                    }
                    assert(base.contains_key(p) == (table.inodes.contains_key(p) && !in_subtree(
                        from@,
                        p,
                    ))) by {
                        if table.inodes.contains_key(p) && in_subtree(from@, p) {
                            assert(table.lies_in(from@, table.inodes[p]));
                            assert(moves@.contains(table.inodes[p]));
                            let j = choose|j: int|
                                0 <= j < moves@.len() && moves@[j] == table.inodes[p];
                            assert(table.paths[moves@[j]] == p);
                        }
                        if table.inodes.contains_key(p) && !base.contains_key(p) {
                            let j = choose|j: int|
                                0 <= j < moves@.len() && table.paths[#[trigger] moves@[j]] == p;
                            assert(moves@.contains(moves@[j]));
                            assert(table.lies_in(from@, moves@[j]));
                        }
                    }
                }
            }
            assert(self@.inodes =~= goal.inodes);
            assert forall|i: u64| #[trigger] table.paths.contains_key(i) implies self@.paths[i]
                == goal.paths[i] by {
                if table.lies_in(from@, i) {
                    assert(moves@.contains(i));
                    let j = choose|j: int| 0 <= j < moves@.len() && moves@[j] == i;
                    assert(self@.paths[moves@[j]] == goal.paths[i]);
                }
            }
            assert(self@.paths =~= goal.paths) by {
                assert(goal.paths.dom() =~= table.paths.dom());
            }
            law_table_stays_consistent(table, from@, from@, to@);
        }
    }

    /// Forgets the subtree of `path`.
    #[verifier::spinoff_prover]
    fn remove(&mut self, path: &str)
        requires
            old(self)@.wf(),
        ensures
            final(self)@ == old(self)@.removed(path@),
            final(self)@.wf(),
    {
        let dir: Vec<char> = text::chars(path);
        let removals: Vec<u64> = self.subtree(dir.as_slice());
        proof {
            assert forall|j: int| 0 <= j < removals@.len() implies self@.paths.contains_key(
                #[trigger] removals@[j],
            ) by {
                assert(removals@.contains(removals@[j]));
            }
        }
        self.detach(&removals);
        let ghost table = old(self)@;
        let ghost base = self@.inodes;
        let mut k: usize = 0;
        while k < removals.len()
            invariant
                k <= removals@.len(),
                self@.next == table.next,
                self@.inodes == base,
                forall|i: u64| #[trigger]
                    self@.paths.contains_key(i) <==> table.paths.contains_key(i) && !removals@.take(
                        k as int,
                    ).contains(i),
                forall|i: u64| #[trigger]
                    self@.paths.contains_key(i) ==> self@.paths[i] == table.paths[i],
            decreases removals.len() - k,
        {
            let ghost before = self@;
            let inode: u64 = removals[k];
            self.by_inode.remove(&inode);
            proof {
                assert(self@.paths =~= before.paths.remove(inode));
                let done = removals@.take(k as int);
                let done_next = removals@.take(k + 1);
                assert(done_next =~= done.push(inode));
                assert forall|i: u64| #[trigger]
                    self@.paths.contains_key(i) <==> table.paths.contains_key(i)
                        && !done_next.contains(i) by {
                    if done_next.contains(i) && i != inode {
                        let m = choose|m: int| 0 <= m < done_next.len() && done_next[m] == i;
                        assert(done[m] == i);
                    }
                    if done.contains(i) {
                        let m = choose|m: int| 0 <= m < done.len() && done[m] == i;
                        assert(done_next[m] == i);
                    }
                    assert(done_next[k as int] == inode);
                    assert(before.paths.contains_key(i) || !self@.paths.contains_key(i));
                }
            }
            k += 1;
        }
        proof {
            let goal = table.removed(path@);
            assert(removals@.take(k as int) =~= removals@);
            assert(self@.paths =~= goal.paths);
            assert forall|p: Seq<char>|
                #![trigger goal.inodes.dom().contains(p)]
                #![trigger self@.inodes.dom().contains(p)]
                self@.inodes.dom().contains(p) == goal.inodes.dom().contains(p) && (
                goal.inodes.dom().contains(p) ==> self@.inodes[p] == goal.inodes[p]) by {
                assert(base.contains_key(p) == self@.inodes.contains_key(p));
                if table.inodes.contains_key(p) && in_subtree(path@, p) {
                    assert(table.lies_in(path@, table.inodes[p]));
                    assert(removals@.contains(table.inodes[p]));
                    let j = choose|j: int|
                        0 <= j < removals@.len() && removals@[j] == table.inodes[p];
                    assert(table.paths[removals@[j]] == p);
                }
                if table.inodes.contains_key(p) && !base.contains_key(p) {
                    let j = choose|j: int|
                        0 <= j < removals@.len() && table.paths[#[trigger] removals@[j]] == p;
                    assert(removals@.contains(removals@[j]));
                    assert(table.lies_in(path@, removals@[j]));
                }
            }
            assert(self@.inodes =~= goal.inodes);
            law_table_stays_consistent(table, path@, path@, path@);
        }
    }
}

/// The numbers under which the paths of a mount are known.
pub struct InodeTable {
    table: Table,
}

impl View for InodeTable {
    type V = Inodes;

    closed spec fn view(&self) -> Inodes {
        self.table@
    }
}

impl Default for InodeTable {
    /// The table of a new mount: only the root directory has a number.
    fn default() -> (r: Self)
        ensures
            r@ == Inodes::initial(),
    {
        InodeTable { table: Table::initial() }
    }
}

impl InodeTable {
    /// Every path that has a number is the path of that number, and every number that was given
    /// out is below the next one.
    #[verifier::type_invariant]
    pub open spec fn is_consistent(self) -> bool {
        self@.wf()
    }

    /// The path of a number.
    pub fn path(&self, inode: u64) -> (r: Option<String>)
        ensures
            match r {
                Some(path) => self@.paths.contains_key(inode) && path@ == self@.paths[inode],
                None => !self@.paths.contains_key(inode),
            },
    {
        self.table.path(inode)
    }

    /// Whether there are numbers left to give out.
    pub fn has_room(&self) -> (r: bool)
        ensures
            r == (self@.next < u64::MAX),
    {
        self.table.has_room()
    }

    /// The number of a path; a path without one gets the next.
    pub fn inode(&mut self, path: &str) -> (r: u64)
        requires
            old(self)@.can_number(path@),
        ensures
            r == old(self)@.number(path@),
            final(self)@ == old(self)@.numbered(path@),
    {
        proof {
            use_type_invariant(&*self);
        }
        let mut table = Table::empty();
        std::mem::swap(&mut table, &mut self.table);
        let inode: u64 = table.inode(path);
        self.table = table;
        inode
    }

    /// Lets the subtree of `from` become the subtree of `to`.
    pub fn rename(&mut self, from: &str, to: &str)
        ensures
            final(self)@ == old(self)@.renamed(from@, to@),
    {
        proof {
            use_type_invariant(&*self);
        }
        let mut table = Table::empty();
        std::mem::swap(&mut table, &mut self.table);
        table.rename(from, to);
        self.table = table;
    }

    /// Forgets the subtree of `path`.
    pub fn remove(&mut self, path: &str)
        ensures
            final(self)@ == old(self)@.removed(path@),
    {
        proof {
            use_type_invariant(&*self);
        }
        let mut table = Table::empty();
        std::mem::swap(&mut table, &mut self.table);
        table.remove(path);
        self.table = table;
    }
}

/// A path has one number for as long as it is known, and no other path has it: asked twice it is the
/// same, asked for another it is another, and it leads back to the path. The root directory has the
/// number one from the start.
pub proof fn law_paths_have_numbers_of_their_own(
    fresh: InodeTable,
    root: Option<String>,
    first: &mut InodeTable,
    path: &str,
    a: u64,
    again: &mut InodeTable,
    b: u64,
    second: &mut InodeTable,
    other: &str,
    c: u64,
    after: InodeTable,
    back: Option<String>,
)
    requires
        call_ensures(<InodeTable as Default>::default, (), fresh),
        call_ensures(InodeTable::path, (&fresh, 1), root),
        old(first)@.wf(),
        old(first)@.next < u64::MAX - 1,
        call_ensures(InodeTable::inode, (first, path), a),
        *old(again) == *final(first),
        call_ensures(InodeTable::inode, (again, path), b),
        *old(second) == *final(first),
        call_ensures(InodeTable::inode, (second, other), c),
        after@ == final(second)@,
        call_ensures(InodeTable::path, (&after, a), back),
    ensures
        root matches Some(found) && found@ == seq!['/'],
        a == b,
        path@ == other@ <==> a == c,
        back matches Some(found) && found@ == path@,
{
    law_number_leads_back(old(first)@, path@, other@);
    law_table_stays_consistent(old(first)@, path@, path@, path@);
    law_number_leads_back(final(first)@, other@, path@);
    law_table_stays_consistent(final(first)@, other@, other@, other@);
}

/// The path of an entry is that of its directory, a separator and its name, and the root directory
/// brings its own separator; the directory of the root directory is itself.
pub proof fn law_entries_lie_in_their_directory(dir: &str, name: &str, r: String, up: &str)
    requires
        call_ensures(child, (dir, name), r),
        call_ensures(parent, (dir,), up),
    ensures
        dir@ == seq!['/'] ==> r@ == seq!['/'] + name@ && up@ == seq!['/'],
        dir@ != seq!['/'] ==> r@ == dir@ + seq!['/'] + name@,
        dir@.len() > 0 && !name@.contains('/') ==> parent_path(r@) == dir@,
        forall|k: int|
            0 < k < dir@.len() && dir@[k] == '/' && (forall|j: int|
                k < j < dir@.len() ==> dir@[j] != '/') ==> up@ == #[trigger] dir@.take(k),
{
    text::lemma_last_index(dir@, '/');
    if dir@.len() > 0 && !name@.contains('/') {
        law_parent_of_child(dir@, name@);
    }
    if dir@ == seq!['/'] {
        assert(dir@[0] == '/');
    }
}

} // verus!
