//! What a user may do with the entries of a view, and how permissions are
//! written down.
use vstd::prelude::*;
use crate::text::{is_white_space, is_white_space_char, str_to_chars, trim_end, trim_end_len};

verus! {

/// A permission a user can have on the entries of a view.
#[derive(Clone, Copy, Debug, PartialEq, Eq, Structural, Hash, PartialOrd, Ord)]
pub enum UserPermission {
    /// Written `r`.
    Read,
    /// Written `w`.
    Write,
    /// Written `a`.
    Append,
    /// Written `c`.
    Create,
    /// Written `e`.
    Execute,
    /// Written `f`.
    Rename,
    /// Written `l`.
    List,
    /// Written `d`.
    Delete,
}

/// The kinds of directory entries.
#[derive(Clone, Copy, Debug, PartialEq, Eq, Structural, Hash)]
pub enum EntryType {
    File,
    Dir,
    /// The current directory (`.`).
    Cdir,
    /// The parent directory (`..`).
    Pdir,
    Link,
}

/// The letter that writes a permission down.
pub open spec fn permission_letter(p: UserPermission) -> char {
    match p {
        UserPermission::Read => 'r',
        UserPermission::Write => 'w',
        UserPermission::Append => 'a',
        UserPermission::Create => 'c',
        UserPermission::Execute => 'e',
        UserPermission::Rename => 'f',
        UserPermission::List => 'l',
        UserPermission::Delete => 'd',
    }
}

/// The permission a piece of text writes down: one letter, in either case.
pub open spec fn permission_of(s: Seq<char>) -> Option<UserPermission> {
    if s.len() != 1 {
        None
    } else {
        let c = s[0];
        if c == 'r' || c == 'R' {
            Some(UserPermission::Read)
        } else if c == 'w' || c == 'W' {
            Some(UserPermission::Write)
        } else if c == 'a' || c == 'A' {
            Some(UserPermission::Append)
        } else if c == 'c' || c == 'C' {
            Some(UserPermission::Create)
        } else if c == 'e' || c == 'E' {
            Some(UserPermission::Execute)
        } else if c == 'f' || c == 'F' {
            Some(UserPermission::Rename)
        } else if c == 'l' || c == 'L' {
            Some(UserPermission::List)
        } else if c == 'd' || c == 'D' {
            Some(UserPermission::Delete)
        } else {
            None
        }
    }
}

/// The permissions that apply to an entry of the given kind, in order.
pub open spec fn applicable_permissions(entry_type: EntryType) -> Seq<UserPermission> {
    match entry_type {
        EntryType::File => seq![
            UserPermission::Read,
            UserPermission::Write,
            UserPermission::Append,
            UserPermission::Rename,
            UserPermission::Delete,
        ],
        EntryType::Dir | EntryType::Cdir | EntryType::Pdir => seq![
            UserPermission::Create,
            UserPermission::Execute,
            UserPermission::Rename,
            UserPermission::List,
            UserPermission::Delete,
        ],
        EntryType::Link => seq![UserPermission::Delete, UserPermission::Rename],
    }
}

impl UserPermission {
    /// The permissions that apply to an entry of the given kind.
    pub fn get_applicable_permissions(entry_type: &EntryType) -> (v: Vec<UserPermission>)
        ensures
            v@ == applicable_permissions(*entry_type),
    {
        match entry_type {
            EntryType::File => vec![
                UserPermission::Read,
                UserPermission::Write,
                UserPermission::Append,
                UserPermission::Rename,
                UserPermission::Delete,
            ],
            EntryType::Dir | EntryType::Cdir | EntryType::Pdir => vec![
                UserPermission::Create,
                UserPermission::Execute,
                UserPermission::Rename,
                UserPermission::List,
                UserPermission::Delete,
            ],
            EntryType::Link => vec![UserPermission::Delete, UserPermission::Rename],
        }
    }

    /// Every permission, in declaration order.
    pub fn all() -> (v: Vec<UserPermission>)
        ensures
            v@.len() == 8,
            forall|p: UserPermission| v@.contains(p),
            v@.no_duplicates(),
    {
        let v = vec![
            UserPermission::Read,
            UserPermission::Write,
            UserPermission::Append,
            UserPermission::Create,
            UserPermission::Execute,
            UserPermission::Rename,
            UserPermission::List,
            UserPermission::Delete
        ];
        assert forall|p: UserPermission| v@.contains(p) by {
            match p {
                UserPermission::Read => assert(v@[0] == p),
                UserPermission::Write => assert(v@[1] == p),
                UserPermission::Append => assert(v@[2] == p),
                UserPermission::Create => assert(v@[3] == p),
                UserPermission::Execute => assert(v@[4] == p),
                UserPermission::Rename => assert(v@[5] == p),
                UserPermission::List => assert(v@[6] == p),
                UserPermission::Delete => assert(v@[7] == p),
            }
        }
        v
    }

    /// The letters that write this permission down.
    pub fn get_serializations(&self) -> (v: Vec<&'static str>)
        ensures
            v@.len() == 1,
            v@[0]@ == seq![permission_letter(*self)],
    {
        match self {
            UserPermission::Read => {
                proof {
                    reveal_strlit("r");
                }
                vec!["r"]
            },
            UserPermission::Write => {
                proof {
                    reveal_strlit("w");
                }
                vec!["w"]
            },
            UserPermission::Append => {
                proof {
                    reveal_strlit("a");
                }
                vec!["a"]
            },
            UserPermission::Create => {
                proof {
                    reveal_strlit("c");
                }
                vec!["c"]
            },
            UserPermission::Execute => {
                proof {
                    reveal_strlit("e");
                }
                vec!["e"]
            },
            UserPermission::Rename => {
                proof {
                    reveal_strlit("f");
                }
                vec!["f"]
            },
            UserPermission::List => {
                proof {
                    reveal_strlit("l");
                }
                vec!["l"]
            },
            UserPermission::Delete => {
                proof {
                    reveal_strlit("d");
                }
                vec!["d"]
            },
        }
    }

    /// The permission a piece of text writes down.
    pub fn from_chars(s: &[char]) -> (r: Option<UserPermission>)
        ensures
            r == permission_of(s@),
    {
        if s.len() != 1 {
            return None;
        }
        let c = s[0];
        if c == 'r' || c == 'R' {
            Some(UserPermission::Read)
        } else if c == 'w' || c == 'W' {
            Some(UserPermission::Write)
        } else if c == 'a' || c == 'A' {
            Some(UserPermission::Append)
        } else if c == 'c' || c == 'C' {
            Some(UserPermission::Create)
        } else if c == 'e' || c == 'E' {
            Some(UserPermission::Execute)
        } else if c == 'f' || c == 'F' {
            Some(UserPermission::Rename)
        } else if c == 'l' || c == 'L' {
            Some(UserPermission::List)
        } else if c == 'd' || c == 'D' {
            Some(UserPermission::Delete)
        } else {
            None
        }
    }

    /// The permission a string writes down: one letter, in either case.
    pub fn from_str(s: &str) -> (r: Option<UserPermission>)
        ensures
            r == permission_of(s@),
    {
        let chars = str_to_chars(s);
        UserPermission::from_chars(chars.as_slice())
    }
}

/// Reading a permission's letter, in either case, gives the permission back.
pub proof fn lemma_permission_letter_parses_back(p: UserPermission)
    ensures
        permission_of(seq![permission_letter(p)]) == Some(p),
{
}

/// A set of permissions.
#[derive(Clone, Copy, Debug, PartialEq, Eq, Structural, Hash)]
pub struct PermissionSet {
    read: bool,
    write: bool,
    append: bool,
    create: bool,
    execute: bool,
    rename: bool,
    list: bool,
    delete: bool,
}

impl PermissionSet {
    /// Whether the set holds a permission.
    pub closed spec fn has(self, p: UserPermission) -> bool {
        match p {
            UserPermission::Read => self.read,
            UserPermission::Write => self.write,
            UserPermission::Append => self.append,
            UserPermission::Create => self.create,
            UserPermission::Execute => self.execute,
            UserPermission::Rename => self.rename,
            UserPermission::List => self.list,
            UserPermission::Delete => self.delete,
        }
    }
}

impl View for PermissionSet {
    type V = Set<UserPermission>;

    closed spec fn view(&self) -> Set<UserPermission> {
        Set::new(|p: UserPermission| self.has(p))
    }
}

impl PermissionSet {
    /// The empty set.
    pub fn new() -> (s: PermissionSet)
        ensures
            s@ == Set::<UserPermission>::empty(),
    {
        let s = PermissionSet {
            read: false,
            write: false,
            append: false,
            create: false,
            execute: false,
            rename: false,
            list: false,
            delete: false,
        };
        assert(s@ =~= Set::<UserPermission>::empty());
        s
    }

    /// Whether the set holds a permission.
    pub fn contains(&self, p: UserPermission) -> (b: bool)
        ensures
            b == self@.contains(p),
    {
        match p {
            UserPermission::Read => self.read,
            UserPermission::Write => self.write,
            UserPermission::Append => self.append,
            UserPermission::Create => self.create,
            UserPermission::Execute => self.execute,
            UserPermission::Rename => self.rename,
            UserPermission::List => self.list,
            UserPermission::Delete => self.delete,
        }
    }

    /// Adds a permission.
    pub fn insert(&mut self, p: UserPermission)
        ensures
            final(self)@ == old(self)@.insert(p),
    {
        match p {
            UserPermission::Read => self.read = true,
            UserPermission::Write => self.write = true,
            UserPermission::Append => self.append = true,
            UserPermission::Create => self.create = true,
            UserPermission::Execute => self.execute = true,
            UserPermission::Rename => self.rename = true,
            UserPermission::List => self.list = true,
            UserPermission::Delete => self.delete = true,
        }
        assert(self@ =~= old(self)@.insert(p));
    }

    /// The set of the given permissions.
    pub fn from_permissions(ps: &[UserPermission]) -> (s: PermissionSet)
        ensures
            forall|p: UserPermission| s@.contains(p) <==> ps@.contains(p),
    {
        let mut s = PermissionSet::new();
        let mut i: usize = 0;
        while i < ps.len()
            invariant
                i <= ps.len(),
                forall|p: UserPermission| s@.contains(p) <==> ps@.take(i as int).contains(p),
            decreases ps.len() - i,
        {
            let x = ps[i];
            s.insert(x);
            proof {
                let before = ps@.take(i as int);
                let after = ps@.take(i + 1);
                assert(after =~= before.push(x));
                assert forall|p: UserPermission| s@.contains(p) <==> after.contains(p) by {
                    if p == x {
                        assert(after[i as int] == x);
                    }
                    if before.contains(p) {
                        let j = choose|j: int| 0 <= j < before.len() && before[j] == p;
                        assert(after[j] == p);
                    }
                    if after.contains(p) && p != x {
                        let j = choose|j: int| 0 <= j < after.len() && after[j] == p;
                        assert(j < i);
                        assert(before[j] == p);
                    }
                }
            }
            i = i + 1;
        }
        assert(ps@.take(i as int) =~= ps@);
        s
    }
}

/// The text without leading white space, as `str::trim_start` gives it.
pub open spec fn trim_start(s: Seq<char>) -> Seq<char>
    decreases s.len(),
{
    if s.len() > 0 && is_white_space(s[0]) {
        trim_start(s.drop_first())
    } else {
        s
    }
}

/// The text without white space at either end, as `str::trim` gives it.
pub open spec fn trim(s: Seq<char>) -> Seq<char> {
    trim_start(trim_end(s))
}

/// The pieces between semicolons, as `str::split(";")` gives them: one more
/// piece than there are semicolons, empty pieces included.
pub open spec fn split_semicolons(s: Seq<char>) -> Seq<Seq<char>>
    decreases s.len(),
{
    if s.len() == 0 {
        seq![Seq::<char>::empty()]
    } else {
        let init = split_semicolons(s.drop_last());
        if s.last() == ';' {
            init.push(Seq::<char>::empty())
        } else {
            init.update(init.len() - 1, init.last().push(s.last()))
        }
    }
}

/// The permissions the pieces write down, skipping empty pieces; `None` if a
/// non-empty piece writes no permission.
pub open spec fn fold_permissions(pieces: Seq<Seq<char>>) -> Option<Set<UserPermission>>
    decreases pieces.len(),
{
    if pieces.len() == 0 {
        Some(Set::empty())
    } else {
        match fold_permissions(pieces.drop_last()) {
            None => None,
            Some(set) => if pieces.last().len() == 0 {
                Some(set)
            } else {
                match permission_of(pieces.last()) {
                    None => None,
                    Some(p) => Some(set.insert(p)),
                }
            },
        }
    }
}

/// The permissions a list such as `r;w;l` writes down: the text is trimmed,
/// split at semicolons, empty pieces are skipped and every other piece must be
/// one permission letter.
pub open spec fn permission_list(s: Seq<char>) -> Option<Set<UserPermission>> {
    fold_permissions(split_semicolons(trim(s)))
}

proof fn lemma_split_semicolons_nonempty(s: Seq<char>)
    ensures
        split_semicolons(s).len() >= 1,
    decreases s.len(),
{
    if s.len() > 0 {
        lemma_split_semicolons_nonempty(s.drop_last());
    }
}

proof fn lemma_fold_none_stays(pieces: Seq<Seq<char>>, more: Seq<Seq<char>>)
    requires
        fold_permissions(pieces) is None,
    ensures
        fold_permissions(pieces + more) is None,
    decreases more.len(),
{
    if more.len() == 0 {
        assert(pieces + more =~= pieces);
    } else {
        assert((pieces + more).drop_last() =~= pieces + more.drop_last());
        lemma_fold_none_stays(pieces, more.drop_last());
    }
}

fn split_semicolons_exec(s: &[char]) -> (r: Vec<Vec<char>>)
    ensures
        crate::reply::pieces_view(r@) == split_semicolons(s@),
{
    let mut done: Vec<Vec<char>> = Vec::new();
    let mut cur: Vec<char> = Vec::new();
    let mut i: usize = 0;
    assert(s@.take(0) =~= Seq::<char>::empty());
    assert(crate::reply::pieces_view(done@).push(cur@) =~= seq![Seq::<char>::empty()]);
    while i < s.len()
        invariant
            i <= s.len(),
            split_semicolons(s@.take(i as int)) == crate::reply::pieces_view(done@).push(cur@),
        decreases s.len() - i,
    {
        let c = s[i];
        assert(s@.take(i + 1).drop_last() =~= s@.take(i as int));
        let ghost before = crate::reply::pieces_view(done@);
        let ghost old_cur = cur@;
        if c == ';' {
            done.push(cur);
            cur = Vec::new();
            assert(crate::reply::pieces_view(done@).push(cur@) =~= before.push(old_cur).push(Seq::<char>::empty()));
        } else {
            cur.push(c);
            assert(crate::reply::pieces_view(done@).push(cur@) =~= before.push(old_cur).update(before.len() as int, old_cur.push(c)));
        }
        i = i + 1;
    }
    assert(s@.take(i as int) =~= s@);
    let ghost before = crate::reply::pieces_view(done@);
    done.push(cur);
    assert(crate::reply::pieces_view(done@) =~= before.push(cur@));
    done
}

/// Reads a permission list such as `r;w;l`.
pub fn parse_permission_list(s: &str) -> (r: Option<PermissionSet>)
    ensures
        r matches Some(set) ==> permission_list(s@) == Some(set@),
        r is None ==> permission_list(s@) is None,
{
    let chars = str_to_chars(s);
    let end = trim_end_len(chars.as_slice());
    let mut start: usize = 0;
    assert(chars@.take(end as int).skip(0) =~= chars@.take(end as int));
    while start < end && is_white_space_char(chars[start])
        invariant
            start <= end <= chars.len(),
            trim_start(chars@.take(end as int).skip(start as int)) == trim(s@),
        decreases end - start,
    {
        assert(chars@.take(end as int).skip(start as int).drop_first() =~= chars@.take(end as int).skip(start + 1));
        start = start + 1;
    }
    let trimmed = crate::reply::sub_chars(chars.as_slice(), start, end);
    assert(trimmed@ =~= chars@.take(end as int).skip(start as int));
    assert(trimmed@ == trim(s@));
    let pieces = split_semicolons_exec(trimmed.as_slice());
    let ghost all = crate::reply::pieces_view(pieces@);
    let mut set = PermissionSet::new();
    let mut k: usize = 0;
    assert(all.take(0) =~= Seq::<Seq<char>>::empty());
    while k < pieces.len()
        invariant
            k <= pieces.len(),
            all == crate::reply::pieces_view(pieces@),
            all == split_semicolons(trim(s@)),
            fold_permissions(all.take(k as int)) == Some(set@),
        decreases pieces.len() - k,
    {
        let piece = pieces[k].as_slice();
        assert(all.take(k + 1).drop_last() =~= all.take(k as int));
        assert(all.take(k + 1).last() == piece@);
        if piece.len() > 0 {
            match UserPermission::from_chars(piece) {
                None => {
                    proof {
                        assert(fold_permissions(all.take(k + 1)) is None);
                        lemma_fold_none_stays(all.take(k + 1), all.skip(k + 1));
                        assert(all.take(k + 1) + all.skip(k + 1) =~= all);
                    }
                    return None;
                },
                Some(p) => {
                    set.insert(p);
                },
            }
        }
        k = k + 1;
    }
    assert(all.take(k as int) =~= all);
    Some(set)
}

} // verus!
