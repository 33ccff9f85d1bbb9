//! How managed worktrees are listed, for people and for programs.

use vstd::prelude::*;
#[allow(unused_imports)]
use vstd::string::*;

use crate::bytes;
use crate::bytes::{copy_bytes, lossy_text, push_bytes};
use crate::layout;
use crate::path;
use crate::path::strip_base;
use crate::worktree::{Worktree, WorktreeModel};

verus! {

/// What is known of the session of a worktree.
#[derive(Clone, Copy, Debug, PartialEq, Eq, Structural)]
pub enum SessionStatus {
    Active,
    Inactive,
    Unknown,
}

pub open spec fn status_text(status: SessionStatus) -> Seq<char> {
    match status {
        SessionStatus::Active => "active"@,
        SessionStatus::Inactive => "inactive"@,
        SessionStatus::Unknown => "unknown"@,
    }
}

impl SessionStatus {
    pub fn as_str(self) -> (text: &'static str)
        ensures
            text@ == status_text(self),
    {
        match self {
            SessionStatus::Active => "active",
            SessionStatus::Inactive => "inactive",
            SessionStatus::Unknown => "unknown",
        }
    }
}

#[derive(Debug)]
pub struct ManagedWorktree {
    pub name: String,
    pub branch: String,
    pub agent: String,
    pub session: SessionStatus,
    pub path: Vec<u8>,
}

#[verifier::ext_equal]
pub struct EntryModel {
    pub name: Seq<char>,
    pub branch: Seq<char>,
    pub agent: Seq<char>,
    pub session: SessionStatus,
    pub path: Seq<u8>,
}

impl View for ManagedWorktree {
    type V = EntryModel;

    open spec fn view(&self) -> EntryModel {
        EntryModel {
            name: self.name@,
            branch: self.branch@,
            agent: self.agent@,
            session: self.session,
            path: self.path@,
        }
    }
}

pub open spec fn entry_views(list: Seq<ManagedWorktree>) -> Seq<EntryModel> {
    list.map_values(|entry: ManagedWorktree| entry@)
}

/// A key, its value and the delimiter that ends them.
pub open spec fn porcelain_field(key: Seq<char>, value: Seq<u8>, delimiter: u8) -> Seq<u8> {
    vstd::utf8::encode_utf8(key) + value + seq![delimiter]
}

/// The five fields of an entry.
pub open spec fn porcelain_record(entry: EntryModel, delimiter: u8) -> Seq<u8> {
    porcelain_field("name "@, vstd::utf8::encode_utf8(entry.name), delimiter) + porcelain_field(
        "branch "@,
        vstd::utf8::encode_utf8(entry.branch),
        delimiter,
    ) + porcelain_field("agent "@, vstd::utf8::encode_utf8(entry.agent), delimiter)
        + porcelain_field(
        "session "@,
        vstd::utf8::encode_utf8(status_text(entry.session)),
        delimiter,
    ) + porcelain_field("path "@, entry.path, delimiter)
}

/// All entries, with an empty item between two of them.
pub open spec fn porcelain(entries: Seq<EntryModel>, delimiter: u8) -> Seq<u8>
    decreases entries.len(),
{
    if entries.len() == 0 {
        Seq::empty()
    } else if entries.len() == 1 {
        porcelain_record(entries[0], delimiter)
    } else {
        porcelain(entries.drop_last(), delimiter) + seq![delimiter] + porcelain_record(
            entries.last(),
            delimiter,
        )
    }
}

pub open spec fn delimiter_of(zero: bool) -> u8 {
    if zero {
        0
    } else {
        '\n' as u8
    }
}

pub fn write_porcelain_field(output: &mut Vec<u8>, key: &str, value: &[u8], delimiter: u8)
    ensures
        final(output)@ == old(output)@ + porcelain_field(key@, value@, delimiter),
{
    push_bytes(output, key.as_bytes());
    push_bytes(output, value);
    output.push(delimiter);
    assert(output@ =~= old(output)@ + porcelain_field(key@, value@, delimiter));
}

/// The list for programs, with LF or NUL behind each item.
pub fn write_porcelain_list(entries: &Vec<ManagedWorktree>, zero: bool) -> (output: Vec<u8>)
    ensures
        output@ == porcelain(entry_views(entries@), delimiter_of(zero)),
{
    let delimiter: u8 = if zero {
        0
    } else {
        0x0a
    };
    let ghost all = entry_views(entries@);
    let mut output: Vec<u8> = Vec::new();
    let mut i: usize = 0;
    assert(all.take(0) =~= Seq::<EntryModel>::empty());
    while i < entries.len()
        invariant
            all == entry_views(entries@),
            i <= entries@.len(),
            output@ == porcelain(all.take(i as int), delimiter),
        decreases entries@.len() - i,
    {
        let entry: &ManagedWorktree = &entries[i];
        let ghost before = output@;
        if i > 0 {
            output.push(delimiter);
        }
        let ghost opened = output@;
        write_porcelain_field(&mut output, "name ", entry.name.as_str().as_bytes(), delimiter);
        write_porcelain_field(&mut output, "branch ", entry.branch.as_str().as_bytes(), delimiter);
        write_porcelain_field(&mut output, "agent ", entry.agent.as_str().as_bytes(), delimiter);
        write_porcelain_field(
            &mut output,
            "session ",
            entry.session.as_str().as_bytes(),
            delimiter,
        );
        write_porcelain_field(&mut output, "path ", entry.path.as_slice(), delimiter);
        proof {
            let next = all.take(i + 1);
            assert(next.last() == entry@);
            assert(next.drop_last() =~= all.take(i as int));
            assert(output@ =~= opened + porcelain_record(entry@, delimiter));
            if i > 0 {
                assert(output@ =~= before + seq![delimiter] + porcelain_record(entry@, delimiter));
            } else {
                assert(output@ =~= porcelain_record(entry@, delimiter));
            }
        }
        i = i + 1;
    }
    assert(all.take(i as int) =~= all);
    output
}

/// A line of the table.
pub open spec fn table_row(entry: EntryModel) -> Seq<char> {
    entry.name + "\t"@ + entry.branch + "\t"@ + entry.agent + "\t"@ + bytes::utf8_lossy(entry.path)
        + "\n"@
}

pub open spec fn table_rows(entries: Seq<EntryModel>) -> Seq<char>
    decreases entries.len(),
{
    if entries.len() == 0 {
        Seq::empty()
    } else {
        table_rows(entries.drop_last()) + table_row(entries.last())
    }
}

/// The list for people: a header and a row for each entry, or a sentence if
/// there is none.
pub open spec fn table(entries: Seq<EntryModel>) -> Seq<char> {
    if entries.len() == 0 {
        "No managed worktrees.\n"@
    } else {
        "NAME\tBRANCH\tAGENT\tPATH\n"@ + table_rows(entries)
    }
}

pub fn list_table(entries: &Vec<ManagedWorktree>) -> (output: String)
    ensures
        output@ == table(entry_views(entries@)),
{
    if entries.len() == 0 {
        return "No managed worktrees.\n".to_owned();
    }
    let ghost all = entry_views(entries@);
    let mut output: String = "NAME\tBRANCH\tAGENT\tPATH\n".to_owned();
    let mut i: usize = 0;
    assert(all.take(0) =~= Seq::<EntryModel>::empty());
    assert(output@ =~= "NAME\tBRANCH\tAGENT\tPATH\n"@ + table_rows(all.take(0)));
    while i < entries.len()
        invariant
            all == entry_views(entries@),
            i <= entries@.len(),
            output@ == "NAME\tBRANCH\tAGENT\tPATH\n"@ + table_rows(all.take(i as int)),
        decreases entries@.len() - i,
    {
        let entry: &ManagedWorktree = &entries[i];
        let ghost before = output@;
        output.append(entry.name.as_str());
        output.append("\t");
        output.append(entry.branch.as_str());
        output.append("\t");
        output.append(entry.agent.as_str());
        output.append("\t");
        output.append(lossy_text(entry.path.as_slice()).as_str());
        output.append("\n");
        proof {
            let next = all.take(i + 1);
            assert(next.last() == entry@);
            assert(next.drop_last() =~= all.take(i as int));
            assert(output@ =~= before + table_row(entry@));
            assert(output@ =~= "NAME\tBRANCH\tAGENT\tPATH\n"@ + (table_rows(all.take(i as int))
                + table_row(entry@)));
        }
        i = i + 1;
    }
    assert(all.take(i as int) =~= all);
    output
}

/// The name of a worktree below the directory of its repository; none for one
/// that lies elsewhere.
pub open spec fn managed_name_of(base: Seq<u8>, worktree: Seq<u8>) -> Option<Seq<char>> {
    match path::relative(worktree, base) {
        Some(rest) => if rest.len() > 0 {
            Some(bytes::utf8_lossy(rest))
        } else {
            None
        },
        None => None,
    }
}

pub fn managed_name(base: &[u8], worktree: &[u8]) -> (name: Option<String>)
    ensures
        match name {
            Some(name) => managed_name_of(base@, worktree@) == Some(name@),
            None => managed_name_of(base@, worktree@) is None,
        },
{
    match strip_base(worktree, base) {
        Some(rest) => if rest.len() > 0 {
            Some(lossy_text(rest.as_slice()))
        } else {
            None
        },
        None => None,
    }
}

/// A worktree that Git lists, and whether it resolves to a place inside the
/// managed directory.
#[derive(Debug)]
pub struct FoundWorktree {
    pub worktree: Worktree,
    pub contained: bool,
}

/// A worktree that is listed, under its name.
#[derive(Debug)]
pub struct NamedWorktree {
    pub name: String,
    pub worktree: Worktree,
}

impl View for FoundWorktree {
    type V = (WorktreeModel, bool);

    open spec fn view(&self) -> (WorktreeModel, bool) {
        (self.worktree@, self.contained)
    }
}

impl View for NamedWorktree {
    type V = (Seq<char>, WorktreeModel);

    open spec fn view(&self) -> (Seq<char>, WorktreeModel) {
        (self.name@, self.worktree@)
    }
}

pub open spec fn found_views(list: Seq<FoundWorktree>) -> Seq<(WorktreeModel, bool)> {
    list.map_values(|item: FoundWorktree| item@)
}

pub open spec fn named_views(list: Seq<NamedWorktree>) -> Seq<(Seq<char>, WorktreeModel)> {
    list.map_values(|item: NamedWorktree| item@)
}

/// The worktrees below the directory of their repository that are contained, in
/// the order of Git, each with its name.
pub open spec fn managed_of(base: Seq<u8>, found: Seq<(WorktreeModel, bool)>) -> Seq<
    (Seq<char>, WorktreeModel),
>
    decreases found.len(),
{
    if found.len() == 0 {
        Seq::empty()
    } else {
        let before = managed_of(base, found.drop_last());
        match managed_name_of(base, found.last().0.path) {
            Some(name) => if found.last().1 {
                before.push((name, found.last().0))
            } else {
                before
            },
            None => before,
        }
    }
}

/// The worktrees to list.
pub fn managed_worktrees(base: &[u8], found: &Vec<FoundWorktree>) -> (list: Vec<NamedWorktree>)
    ensures
        named_views(list@) == managed_of(base@, found_views(found@)),
{
    let ghost all = found_views(found@);
    let mut list: Vec<NamedWorktree> = Vec::new();
    let mut i: usize = 0;
    assert(named_views(list@) =~= managed_of(base@, all.take(0)));
    while i < found.len()
        invariant
            all == found_views(found@),
            i <= found@.len(),
            named_views(list@) == managed_of(base@, all.take(i as int)),
        decreases found@.len() - i,
    {
        let ghost before = named_views(list@);
        assert(all.take(i + 1).drop_last() =~= all.take(i as int));
        assert(all.take(i + 1).last() == found@[i as int]@);
        if found[i].contained {
            if let Some(name) = managed_name(base, found[i].worktree.path.as_slice()) {
                let item: NamedWorktree = NamedWorktree { name, worktree: found[i].worktree.copy() };
                list.push(item);
                assert(named_views(list@) =~= before.push(item@));
            }
        }
        i = i + 1;
    }
    assert(all.take(i as int) =~= all);
    list
}

/// Every listed worktree is one that Git knows, lies below the directory of its
/// repository and is contained; and every such worktree is listed.
pub proof fn exactly_the_contained_worktrees_are_listed(
    base: Seq<u8>,
    found: Seq<(WorktreeModel, bool)>,
    name: Seq<char>,
    worktree: WorktreeModel,
)
    ensures
        managed_of(base, found).contains((name, worktree)) <==> found.contains((worktree, true))
            && managed_name_of(base, worktree.path) == Some(name),
    decreases found.len(),
{
    let one = (name, worktree);
    let all = managed_of(base, found);
    if found.len() > 0 {
        let rest = found.drop_last();
        let before = managed_of(base, rest);
        exactly_the_contained_worktrees_are_listed(base, rest, name, worktree);
        assert(found =~= rest.push(found.last()));
        if rest.contains((worktree, true)) {
            let i = rest.index_of((worktree, true));
            assert(found[i] == (worktree, true));
        }
        if found.contains((worktree, true)) && !rest.contains((worktree, true)) {
            let i = found.index_of((worktree, true));
            assert(i == found.len() - 1) by {
                if i < found.len() - 1 {
                    assert(rest[i] == (worktree, true));
                }
            }
        }
        if found.last() == (worktree, true) {
            assert(found[found.len() - 1] == (worktree, true));
        }
        if before.contains(one) {
            let i = before.index_of(one);
            assert(all[i] == one);
        }
        if all.contains(one) && !before.contains(one) {
            let i = all.index_of(one);
            assert(i == all.len() - 1) by {
                if i < before.len() {
                    assert(before[i] == one);
                }
            }
        }
        if all.len() > before.len() {
            assert(all[all.len() - 1] == all.last());
        }
    }
}

/// The entry for a worktree.
pub open spec fn entry_of(
    name: Seq<char>,
    worktree: WorktreeModel,
    agent: Seq<char>,
    session: SessionStatus,
) -> EntryModel {
    EntryModel {
        name,
        branch: match worktree.branch {
            Some(branch) => branch,
            None => "(detached)"@,
        },
        agent,
        session,
        path: worktree.path,
    }
}

impl ManagedWorktree {
    pub fn new(name: String, worktree: &Worktree, agent: String, session: SessionStatus) -> (entry:
        ManagedWorktree)
        ensures
            entry@ == entry_of(name@, worktree@, agent@, session),
    {
        let branch: String = match &worktree.branch {
            Some(branch) => branch.clone(),
            None => "(detached)".to_owned(),
        };
        ManagedWorktree {
            name,
            branch,
            agent,
            session,
            path: copy_bytes(worktree.path.as_slice()),
        }
    }
}

/// A path with what ends it.
pub fn path_line(path: &[u8], zero: bool) -> (out: Vec<u8>)
    ensures
        out@ == path@ + seq![delimiter_of(zero)],
{
    let mut out: Vec<u8> = copy_bytes(path);
    out.push(
        if zero {
            0
        } else {
            0x0a
        },
    );
    assert(out@ =~= path@ + seq![delimiter_of(zero)]);
    out
}

/// An entry without a NUL in it.
pub open spec fn nul_free(entry: EntryModel) -> bool {
    &&& !entry.name.contains('\0')
    &&& !entry.branch.contains('\0')
    &&& !entry.agent.contains('\0')
    &&& !entry.path.contains(0u8)
}

/// Two byte strings that start with an item and its delimiter: the items are the
/// same if neither holds the delimiter.
proof fn lemma_item(a: Seq<u8>, x: Seq<u8>, b: Seq<u8>, y: Seq<u8>)
    requires
        !a.contains(0u8),
        !b.contains(0u8),
        a + seq![0u8] + x == b + seq![0u8] + y,
    ensures
        a == b,
        x == y,
{
    let left = a + seq![0u8] + x;
    let right = b + seq![0u8] + y;
    assert(a.len() == b.len()) by {
        if a.len() < b.len() {
            assert(left[a.len() as int] == 0u8);
            assert(right[a.len() as int] == b[a.len() as int]);
            assert(b.contains(b[a.len() as int]));
        }
        if b.len() < a.len() {
            assert(right[b.len() as int] == 0u8);
            assert(left[b.len() as int] == a[b.len() as int]);
            assert(a.contains(a[b.len() as int]));
        }
    }
    assert(a =~= left.take(a.len() as int));
    assert(b =~= right.take(b.len() as int));
    assert(x =~= left.skip(a.len() as int + 1));
    assert(y =~= right.skip(b.len() as int + 1));
}

/// The same for a field with its key.
proof fn lemma_field(key: Seq<char>, a: Seq<u8>, x: Seq<u8>, b: Seq<u8>, y: Seq<u8>)
    requires
        !key.contains('\0'),
        !a.contains(0u8),
        !b.contains(0u8),
        porcelain_field(key, a, 0) + x == porcelain_field(key, b, 0) + y,
    ensures
        a == b,
        x == y,
{
    let k = vstd::utf8::encode_utf8(key);
    bytes::lemma_nul_free_text(key);
    bytes::lemma_concat_free(k, a);
    bytes::lemma_concat_free(k, b);
    lemma_item(k + a, x, k + b, y);
    assert((k + a).skip(k.len() as int) =~= a);
    assert((k + b).skip(k.len() as int) =~= b);
}

/// Texts with the same encoding are the same.
proof fn lemma_same_encoding(a: Seq<char>, b: Seq<char>)
    requires
        vstd::utf8::encode_utf8(a) == vstd::utf8::encode_utf8(b),
    ensures
        a == b,
{
    vstd::utf8::encode_utf8_decode_utf8(a);
    vstd::utf8::encode_utf8_decode_utf8(b);
}

proof fn lemma_statuses(a: SessionStatus, b: SessionStatus)
    ensures
        !status_text(a).contains('\0'),
        status_text(a) == status_text(b) ==> a == b,
{
    reveal_strlit("active");
    reveal_strlit("inactive");
    reveal_strlit("unknown");
    assert("active"@.len() == 6);
    assert("inactive"@.len() == 8);
    assert("unknown"@.len() == 7);
}

proof fn lemma_field_keys()
    ensures
        !"name "@.contains('\0'),
        !"branch "@.contains('\0'),
        !"agent "@.contains('\0'),
        !"session "@.contains('\0'),
        !"path "@.contains('\0'),
{
    reveal_strlit("name ");
    reveal_strlit("branch ");
    reveal_strlit("agent ");
    reveal_strlit("session ");
    reveal_strlit("path ");
}

/// A record at the start of a byte string determines its entry.
proof fn lemma_record(a: EntryModel, x: Seq<u8>, b: EntryModel, y: Seq<u8>)
    requires
        nul_free(a),
        nul_free(b),
        porcelain_record(a, 0) + x == porcelain_record(b, 0) + y,
    ensures
        a == b,
        x == y,
{
    lemma_field_keys();
    lemma_statuses(a.session, b.session);
    lemma_statuses(b.session, a.session);
    bytes::lemma_nul_free_text(a.name);
    bytes::lemma_nul_free_text(a.branch);
    bytes::lemma_nul_free_text(a.agent);
    bytes::lemma_nul_free_text(status_text(a.session));
    bytes::lemma_nul_free_text(b.name);
    bytes::lemma_nul_free_text(b.branch);
    bytes::lemma_nul_free_text(b.agent);
    bytes::lemma_nul_free_text(status_text(b.session));
    let x4 = porcelain_field("path "@, a.path, 0) + x;
    let y4 = porcelain_field("path "@, b.path, 0) + y;
    let a4 = vstd::utf8::encode_utf8(status_text(a.session));
    let b4 = vstd::utf8::encode_utf8(status_text(b.session));
    let x3 = porcelain_field("session "@, a4, 0) + x4;
    let y3 = porcelain_field("session "@, b4, 0) + y4;
    let a3 = vstd::utf8::encode_utf8(a.agent);
    let b3 = vstd::utf8::encode_utf8(b.agent);
    let x2 = porcelain_field("agent "@, a3, 0) + x3;
    let y2 = porcelain_field("agent "@, b3, 0) + y3;
    let a2 = vstd::utf8::encode_utf8(a.branch);
    let b2 = vstd::utf8::encode_utf8(b.branch);
    let x1 = porcelain_field("branch "@, a2, 0) + x2;
    let y1 = porcelain_field("branch "@, b2, 0) + y2;
    let a1 = vstd::utf8::encode_utf8(a.name);
    let b1 = vstd::utf8::encode_utf8(b.name);
    lemma_regrouped(a, x);
    lemma_regrouped(b, y);
    lemma_field("name "@, a1, x1, b1, y1);
    lemma_field("branch "@, a2, x2, b2, y2);
    lemma_field("agent "@, a3, x3, b3, y3);
    lemma_field("session "@, a4, x4, b4, y4);
    lemma_field("path "@, a.path, x, b.path, y);
    lemma_same_encoding(a.name, b.name);
    lemma_same_encoding(a.branch, b.branch);
    lemma_same_encoding(a.agent, b.agent);
    lemma_same_encoding(status_text(a.session), status_text(b.session));
    assert(a =~= b);
}

/// A record and what follows it, field by field.
proof fn lemma_regrouped(entry: EntryModel, rest: Seq<u8>)
    ensures
        porcelain_record(entry, 0) + rest == porcelain_field(
            "name "@,
            vstd::utf8::encode_utf8(entry.name),
            0,
        ) + (porcelain_field("branch "@, vstd::utf8::encode_utf8(entry.branch), 0) + (
        porcelain_field("agent "@, vstd::utf8::encode_utf8(entry.agent), 0) + (porcelain_field(
            "session "@,
            vstd::utf8::encode_utf8(status_text(entry.session)),
            0,
        ) + (porcelain_field("path "@, entry.path, 0) + rest)))),
{
    lemma_five(
        porcelain_field("name "@, vstd::utf8::encode_utf8(entry.name), 0),
        porcelain_field("branch "@, vstd::utf8::encode_utf8(entry.branch), 0),
        porcelain_field("agent "@, vstd::utf8::encode_utf8(entry.agent), 0),
        porcelain_field("session "@, vstd::utf8::encode_utf8(status_text(entry.session)), 0),
        porcelain_field("path "@, entry.path, 0),
        rest,
    );
}

proof fn lemma_five(a: Seq<u8>, b: Seq<u8>, c: Seq<u8>, d: Seq<u8>, e: Seq<u8>, f: Seq<u8>)
    ensures
        a + b + c + d + e + f == a + (b + (c + (d + (e + f)))),
{
    assert(a + b + c + d + e + f =~= a + (b + (c + (d + (e + f)))));
}

proof fn lemma_record_len(entry: EntryModel)
    ensures
        porcelain_record(entry, 0).len() > 0,
{
}

/// What follows the first entry.
spec fn porcelain_tail(entries: Seq<EntryModel>) -> Seq<u8>
    decreases entries.len(),
{
    if entries.len() == 0 {
        Seq::empty()
    } else {
        seq![0u8] + (porcelain_record(entries[0], 0) + porcelain_tail(entries.skip(1)))
    }
}

proof fn lemma_tail_push(entries: Seq<EntryModel>, last: EntryModel)
    ensures
        porcelain_tail(entries.push(last)) == porcelain_tail(entries) + (seq![0u8]
            + porcelain_record(last, 0)),
    decreases entries.len(),
{
    let all = entries.push(last);
    if entries.len() == 0 {
        assert(all.skip(1) =~= Seq::<EntryModel>::empty());
        assert(porcelain_tail(all.skip(1)) =~= Seq::<u8>::empty());
        assert(all[0] == last);
        assert(porcelain_tail(all) =~= porcelain_tail(entries) + (seq![0u8] + porcelain_record(
            last,
            0,
        )));
    } else {
        lemma_tail_push(entries.skip(1), last);
        assert(all.skip(1) =~= entries.skip(1).push(last));
        assert(all[0] == entries[0]);
        assert(porcelain_tail(all) =~= porcelain_tail(entries) + (seq![0u8] + porcelain_record(
            last,
            0,
        )));
    }
}

proof fn lemma_front(entries: Seq<EntryModel>)
    requires
        entries.len() > 0,
    ensures
        porcelain(entries, 0) == porcelain_record(entries[0], 0) + porcelain_tail(entries.skip(1)),
    decreases entries.len(),
{
    if entries.len() == 1 {
        assert(entries.skip(1) =~= Seq::<EntryModel>::empty());
        assert(porcelain(entries, 0) =~= porcelain_record(entries[0], 0) + porcelain_tail(
            entries.skip(1),
        ));
    } else {
        let front = entries.drop_last();
        lemma_front(front);
        lemma_tail_push(front.skip(1), entries.last());
        assert(front.skip(1).push(entries.last()) =~= entries.skip(1));
        assert(porcelain(entries, 0) =~= porcelain_record(entries[0], 0) + porcelain_tail(
            entries.skip(1),
        ));
    }
}

proof fn lemma_tail(a: Seq<EntryModel>, b: Seq<EntryModel>)
    requires
        forall|i: int| 0 <= i < a.len() ==> nul_free(#[trigger] a[i]),
        forall|i: int| 0 <= i < b.len() ==> nul_free(#[trigger] b[i]),
        porcelain_tail(a) == porcelain_tail(b),
    ensures
        a == b,
    decreases a.len(),
{
    if a.len() == 0 || b.len() == 0 {
        if a.len() > 0 {
            assert(porcelain_tail(a).len() > 0);
        }
        if b.len() > 0 {
            assert(porcelain_tail(b).len() > 0);
        }
        assert(a =~= b);
    } else {
        let x = porcelain_record(a[0], 0) + porcelain_tail(a.skip(1));
        let y = porcelain_record(b[0], 0) + porcelain_tail(b.skip(1));
        assert((seq![0u8] + x).skip(1) =~= x);
        assert((seq![0u8] + y).skip(1) =~= y);
        lemma_record(a[0], porcelain_tail(a.skip(1)), b[0], porcelain_tail(b.skip(1)));
        lemma_tail(a.skip(1), b.skip(1));
        assert(a =~= seq![a[0]] + a.skip(1));
        assert(b =~= seq![b[0]] + b.skip(1));
    }
}

/// The list with NUL behind each item can be read in one way only, whatever line
/// breaks names and paths hold.
pub proof fn nul_lists_are_unambiguous(a: Seq<EntryModel>, b: Seq<EntryModel>)
    requires
        forall|i: int| 0 <= i < a.len() ==> nul_free(#[trigger] a[i]),
        forall|i: int| 0 <= i < b.len() ==> nul_free(#[trigger] b[i]),
        porcelain(a, delimiter_of(true)) == porcelain(b, delimiter_of(true)),
    ensures
        a == b,
{
    if a.len() == 0 || b.len() == 0 {
        if a.len() > 0 {
            lemma_front(a);
            lemma_record_len(a[0]);
        }
        if b.len() > 0 {
            lemma_front(b);
            lemma_record_len(b[0]);
        }
        assert(a =~= b);
    } else {
        lemma_front(a);
        lemma_front(b);
        lemma_record(a[0], porcelain_tail(a.skip(1)), b[0], porcelain_tail(b.skip(1)));
        lemma_tail(a.skip(1), b.skip(1));
        assert(a =~= seq![a[0]] + a.skip(1));
        assert(b =~= seq![b[0]] + b.skip(1));
    }
}

/// The list for people has a header and, for every entry whatever its session, a row
/// with its name, its branch, its agent and its path, in the order of the list.
pub proof fn tables_show_every_entry(entries: Seq<EntryModel>, entry: EntryModel)
    ensures
        ({
            let row = entry.name + seq!['\t'] + entry.branch + seq!['\t'] + entry.agent + seq![
                '\t',
            ] + bytes::utf8_lossy(entry.path) + seq!['\n'];
            &&& entries.len() > 0 ==> table(entries.push(entry)) == table(entries) + row
            &&& table(seq![entry]) == "NAME\tBRANCH\tAGENT\tPATH\n"@ + row
            &&& table(Seq::empty()) == "No managed worktrees.\n"@
        }),
{
    reveal_strlit("\t");
    reveal_strlit("\n");
    assert("\t"@ =~= seq!['\t']);
    assert("\n"@ =~= seq!['\n']);
    let row = table_row(entry);
    assert(entries.push(entry).drop_last() =~= entries);
    assert(entries.push(entry).last() == entry);
    assert(seq![entry].drop_last() =~= Seq::<EntryModel>::empty());
    assert(table_rows(seq![entry].drop_last()) =~= Seq::<char>::empty());
    assert(table(seq![entry]) =~= "NAME\tBRANCH\tAGENT\tPATH\n"@ + row);
    if entries.len() > 0 {
        assert(table(entries.push(entry)) =~= table(entries) + row);
    }
}

/// The list for programs has a record for every entry, in the order of the list: name,
/// branch, agent, session and path, each behind its key and with the delimiter behind
/// it, and one more delimiter between two records.
pub proof fn porcelain_lists_show_every_entry(
    entries: Seq<EntryModel>,
    entry: EntryModel,
    delimiter: u8,
)
    ensures
        ({
            let word = match entry.session {
                SessionStatus::Active => "active"@,
                SessionStatus::Inactive => "inactive"@,
                SessionStatus::Unknown => "unknown"@,
            };
            let end = seq![delimiter];
            let record = vstd::utf8::encode_utf8("name "@) + vstd::utf8::encode_utf8(entry.name)
                + end + vstd::utf8::encode_utf8("branch "@) + vstd::utf8::encode_utf8(entry.branch)
                + end + vstd::utf8::encode_utf8("agent "@) + vstd::utf8::encode_utf8(entry.agent)
                + end + vstd::utf8::encode_utf8("session "@) + vstd::utf8::encode_utf8(word) + end
                + vstd::utf8::encode_utf8("path "@) + entry.path + end;
            &&& entries.len() > 0 ==> porcelain(entries.push(entry), delimiter) == porcelain(
                entries,
                delimiter,
            ) + end + record
            &&& porcelain(seq![entry], delimiter) == record
            &&& porcelain(Seq::empty(), delimiter) == Seq::<u8>::empty()
        }),
{
    let word = match entry.session {
        SessionStatus::Active => "active"@,
        SessionStatus::Inactive => "inactive"@,
        SessionStatus::Unknown => "unknown"@,
    };
    let end = seq![delimiter];
    let record = vstd::utf8::encode_utf8("name "@) + vstd::utf8::encode_utf8(entry.name) + end
        + vstd::utf8::encode_utf8("branch "@) + vstd::utf8::encode_utf8(entry.branch) + end
        + vstd::utf8::encode_utf8("agent "@) + vstd::utf8::encode_utf8(entry.agent) + end
        + vstd::utf8::encode_utf8("session "@) + vstd::utf8::encode_utf8(word) + end
        + vstd::utf8::encode_utf8("path "@) + entry.path + end;
    assert(porcelain_record(entry, delimiter) =~= record);
    assert(entries.push(entry).drop_last() =~= entries);
    assert(entries.push(entry).last() == entry);
}

/// Items end with a NUL if that is asked for, and otherwise with a line break.
pub proof fn items_end_with_nul_or_line_break()
    ensures
        delimiter_of(true) == 0,
        delimiter_of(false) == 10,
{
}

/// A worktree that Git lists behind others is listed behind them, if it is contained
/// and has a name, and changes nothing of what comes before it.
pub proof fn worktrees_are_listed_in_order(
    base: Seq<u8>,
    found: Seq<(WorktreeModel, bool)>,
    worktree: WorktreeModel,
    contained: bool,
)
    ensures
        managed_of(base, found.push((worktree, contained))) == (match managed_name_of(
            base,
            worktree.path,
        ) {
            Some(name) => if contained {
                managed_of(base, found).push((name, worktree))
            } else {
                managed_of(base, found)
            },
            None => managed_of(base, found),
        }),
{
    assert(found.push((worktree, contained)).drop_last() =~= found);
}

/// An entry tells its worktree as it is: a branch by its name, and without one that it
/// is detached.
pub proof fn entries_tell_their_worktree(
    name: Seq<char>,
    worktree: WorktreeModel,
    agent: Seq<char>,
    session: SessionStatus,
)
    ensures
        ({
            let entry = entry_of(name, worktree, agent, session);
            &&& entry.name == name
            &&& entry.agent == agent
            &&& entry.session == session
            &&& entry.path == worktree.path
            &&& worktree.branch matches Some(branch) ==> entry.branch == branch
            &&& worktree.branch is None ==> entry.branch == "(detached)"@
        }),
{
}

/// A worktree below the directory of its repository is listed by its name there, whether
/// that is one component or two.
pub proof fn worktrees_are_listed_by_their_name(
    base: Seq<u8>,
    first: Seq<char>,
    second: Seq<char>,
)
    requires
        path::rooted(base),
        layout::is_component(vstd::utf8::encode_utf8(first)),
        layout::is_component(vstd::utf8::encode_utf8(second)),
    ensures
        managed_name_of(base, path::joined(base, vstd::utf8::encode_utf8(first))) == Some(first),
        managed_name_of(
            base,
            path::joined(
                path::joined(base, vstd::utf8::encode_utf8(first)),
                vstd::utf8::encode_utf8(second),
            ),
        ) == Some(first + seq!['/'] + second),
        managed_name_of(base, base) is None,
{
    let a = vstd::utf8::encode_utf8(first);
    let b = vstd::utf8::encode_utf8(second);
    layout::joined_components_are_the_last(base, a);
    layout::nested_components_are_kept(base, a, b);
    bytes::lemma_lossless(first);
    bytes::lemma_slash();
    bytes::lemma_encode_concat(first, seq!['/']);
    bytes::lemma_encode_concat(first + seq!['/'], second);
    bytes::lemma_lossless(first + seq!['/'] + second);
}

/// A worktree that does not lie below the directory of its repository is not listed.
pub proof fn other_worktrees_have_no_name(base: Seq<u8>, worktree: Seq<u8>)
    requires
        !path::has_prefix(worktree, base),
    ensures
        managed_name_of(base, worktree) is None,
{
}

} // verus!
