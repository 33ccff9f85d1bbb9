//! The worktree list that Git prints, in its line and its NUL form.

use vstd::prelude::*;

use crate::bytes;
use crate::bytes::{copy_bytes, lossy_text, split_bytes, stripped_bytes, utf8_of};
use crate::config;
use crate::text;
use crate::text::{lines_of, stripped};

verus! {

/// A worktree as Git reports it.
#[derive(Debug)]
pub struct Worktree {
    pub path: Vec<u8>,
    pub head: String,
    pub branch: Option<String>,
}

#[verifier::ext_equal]
pub struct WorktreeModel {
    pub path: Seq<u8>,
    pub head: Seq<char>,
    pub branch: Option<Seq<char>>,
}

impl View for Worktree {
    type V = WorktreeModel;

    open spec fn view(&self) -> WorktreeModel {
        WorktreeModel {
            path: self.path@,
            head: self.head@,
            branch: config::optional_text(self.branch),
        }
    }
}

impl Worktree {
    pub fn copy(&self) -> (out: Worktree)
        ensures
            out@ == self@,
    {
        Worktree {
            path: copy_bytes(self.path.as_slice()),
            head: self.head.clone(),
            branch: match &self.branch {
                Some(branch) => Some(branch.clone()),
                None => None,
            },
        }
    }
}

/// What one item of the list says.
#[derive(Debug)]
pub enum Item {
    /// The end of a record.
    End,
    /// The start of a record, with the path of the worktree.
    Path(Vec<u8>),
    Head(String),
    Branch(String),
    /// Something that is of no interest here.
    Other,
}

#[verifier::ext_equal]
pub enum ItemModel {
    End,
    Path(Seq<u8>),
    Head(Seq<char>),
    Branch(Seq<char>),
    Other,
}

impl View for Item {
    type V = ItemModel;

    open spec fn view(&self) -> ItemModel {
        match self {
            Item::End => ItemModel::End,
            Item::Path(path) => ItemModel::Path(path@),
            Item::Head(head) => ItemModel::Head(head@),
            Item::Branch(branch) => ItemModel::Branch(branch@),
            Item::Other => ItemModel::Other,
        }
    }
}

pub open spec fn after<T>(s: Seq<T>, prefix: Seq<T>) -> Seq<T> {
    s.skip(prefix.len() as int)
}

/// A branch by its short name.
pub open spec fn short_branch<T>(reference: Seq<T>, heads: Seq<T>) -> Seq<T> {
    if text::starts_with(reference, heads) {
        after(reference, heads)
    } else {
        reference
    }
}

/// The meaning of an item of the NUL form.
pub open spec fn byte_item(field: Seq<u8>) -> ItemModel {
    let worktree = vstd::utf8::encode_utf8("worktree "@);
    let head = vstd::utf8::encode_utf8("HEAD "@);
    let branch = vstd::utf8::encode_utf8("branch "@);
    let heads = vstd::utf8::encode_utf8("refs/heads/"@);
    if field.len() == 0 {
        ItemModel::End
    } else if text::starts_with(field, worktree) {
        ItemModel::Path(after(field, worktree))
    } else if text::starts_with(field, head) {
        ItemModel::Head(bytes::utf8_lossy(after(field, head)))
    } else if text::starts_with(field, branch) {
        ItemModel::Branch(bytes::utf8_lossy(short_branch(after(field, branch), heads)))
    } else {
        ItemModel::Other
    }
}

/// The meaning of a line of the line form.
pub open spec fn line_item(line: Seq<char>) -> ItemModel {
    if line.len() == 0 {
        ItemModel::End
    } else if text::starts_with(line, "worktree "@) {
        ItemModel::Path(vstd::utf8::encode_utf8(after(line, "worktree "@)))
    } else if text::starts_with(line, "HEAD "@) {
        ItemModel::Head(after(line, "HEAD "@))
    } else if text::starts_with(line, "branch "@) {
        ItemModel::Branch(short_branch(after(line, "branch "@), "refs/heads/"@))
    } else {
        ItemModel::Other
    }
}

pub open spec fn finished(current: Option<WorktreeModel>) -> Seq<WorktreeModel> {
    match current {
        Some(worktree) => seq![worktree],
        None => Seq::empty(),
    }
}

/// The worktrees of a list of items, where `current` is the record that is
/// open before the first of them. Items outside of a record mean nothing.
pub open spec fn records(items: Seq<ItemModel>, current: Option<WorktreeModel>) -> Seq<WorktreeModel>
    decreases items.len(),
{
    if items.len() == 0 {
        finished(current)
    } else {
        let rest = items.skip(1);
        match (items[0], current) {
            (ItemModel::End, _) => finished(current) + records(rest, None),
            (ItemModel::Path(path), _) => finished(current) + records(
                rest,
                Some(WorktreeModel { path, head: Seq::empty(), branch: None }),
            ),
            (ItemModel::Head(head), Some(worktree)) => records(
                rest,
                Some(WorktreeModel { head, ..worktree }),
            ),
            (ItemModel::Branch(branch), Some(worktree)) => records(
                rest,
                Some(WorktreeModel { branch: Some(branch), ..worktree }),
            ),
            (_, _) => records(rest, current),
        }
    }
}

pub open spec fn worktrees_of_bytes(input: Seq<u8>) -> Seq<WorktreeModel> {
    records(text::split(input, 0u8).map_values(|field: Seq<u8>| byte_item(field)), None)
}

pub open spec fn worktrees_of_text(input: Seq<char>) -> Seq<WorktreeModel> {
    records(text::lines(input).map_values(|line: Seq<char>| line_item(line)), None)
}

pub open spec fn item_views(items: Seq<Item>) -> Seq<ItemModel> {
    items.map_values(|item: Item| item@)
}

pub open spec fn worktree_views(list: Seq<Worktree>) -> Seq<WorktreeModel> {
    list.map_values(|worktree: Worktree| worktree@)
}

fn read_field(field: &[u8]) -> (item: Item)
    ensures
        item@ == byte_item(field@),
{
    if field.len() == 0 {
        return Item::End;
    }
    if let Some(path) = stripped_bytes(field, "worktree ".as_bytes()) {
        return Item::Path(path);
    }
    if let Some(head) = stripped_bytes(field, "HEAD ".as_bytes()) {
        return Item::Head(lossy_text(head.as_slice()));
    }
    if let Some(branch) = stripped_bytes(field, "branch ".as_bytes()) {
        return match stripped_bytes(branch.as_slice(), "refs/heads/".as_bytes()) {
            Some(short) => Item::Branch(lossy_text(short.as_slice())),
            None => Item::Branch(lossy_text(branch.as_slice())),
        };
    }
    Item::Other
}

fn read_line(line: &str) -> (item: Item)
    ensures
        item@ == line_item(line@),
{
    if line.is_empty() {
        return Item::End;
    }
    if let Some(path) = stripped(line, "worktree ") {
        return Item::Path(utf8_of(path.as_str()));
    }
    if let Some(head) = stripped(line, "HEAD ") {
        return Item::Head(head);
    }
    if let Some(branch) = stripped(line, "branch ") {
        return match stripped(branch.as_str(), "refs/heads/") {
            Some(short) => Item::Branch(short),
            None => Item::Branch(branch),
        };
    }
    Item::Other
}

pub open spec fn optional_worktree(current: Option<Worktree>) -> Option<WorktreeModel> {
    match current {
        Some(worktree) => Some(worktree@),
        None => None,
    }
}

fn finish(worktrees: &mut Vec<Worktree>, current: Option<Worktree>)
    ensures
        worktree_views(final(worktrees)@) == worktree_views(old(worktrees)@) + finished(
            optional_worktree(current),
        ),
{
    match current {
        Some(worktree) => {
            let ghost before = worktree_views(worktrees@);
            worktrees.push(worktree);
            assert(worktree_views(worktrees@) =~= before + seq![worktree@]);
        },
        None => {
            assert(worktree_views(worktrees@) =~= worktree_views(worktrees@) + Seq::<
                WorktreeModel,
            >::empty());
        },
    }
}

fn collect(items: Vec<Item>) -> (worktrees: Vec<Worktree>)
    ensures
        worktree_views(worktrees@) == records(item_views(items@), None),
{
    let ghost all = item_views(items@);
    let mut worktrees: Vec<Worktree> = Vec::new();
    let mut current: Option<Worktree> = None;
    let mut i: usize = 0;
    assert(all.skip(0) =~= all);
    assert(worktree_views(worktrees@) + records(all.skip(0), None) =~= records(all, None));
    while i < items.len()
        invariant
            all == item_views(items@),
            i <= items@.len(),
            worktree_views(worktrees@) + records(all.skip(i as int), optional_worktree(current))
                == records(all, None),
        decreases items@.len() - i,
    {
        let ghost rest = all.skip(i as int);
        let ghost before = worktree_views(worktrees@);
        let ghost open = optional_worktree(current);
        assert(rest[0] == items@[i as int]@);
        assert(rest.skip(1) =~= all.skip(i + 1));
        match &items[i] {
            Item::End => {
                finish(&mut worktrees, current);
                current = None;
                assert(before + (finished(open) + records(rest.skip(1), None)) =~= before + finished(
                    open,
                ) + records(rest.skip(1), None));
            },
            Item::Path(path) => {
                finish(&mut worktrees, current);
                let started: Worktree = Worktree {
                    path: copy_bytes(path.as_slice()),
                    head: String::new(),
                    branch: None,
                };
                current = Some(started);
                assert(before + (finished(open) + records(rest.skip(1), Some(started@))) =~= before
                    + finished(open) + records(rest.skip(1), Some(started@)));
            },
            Item::Head(head) => {
                if let Some(worktree) = current {
                    current =
                    Some(
                        Worktree {
                            path: worktree.path,
                            head: head.clone(),
                            branch: worktree.branch,
                        },
                    );
                }
            },
            Item::Branch(branch) => {
                if let Some(worktree) = current {
                    current =
                    Some(
                        Worktree {
                            path: worktree.path,
                            head: worktree.head,
                            branch: Some(branch.clone()),
                        },
                    );
                }
            },
            Item::Other => {},
        }
        i = i + 1;
    }
    assert(all.skip(i as int) =~= Seq::<ItemModel>::empty());
    finish(&mut worktrees, current);
    worktrees
}

/// Reads the output of `git worktree list --porcelain -z`.
pub fn parse_worktree_list_bytes(input: &[u8]) -> (worktrees: Vec<Worktree>)
    ensures
        worktree_views(worktrees@) == worktrees_of_bytes(input@),
{
    let fields: Vec<Vec<u8>> = split_bytes(input, 0);
    let ghost wanted = text::split(input@, 0u8).map_values(|field: Seq<u8>| byte_item(field));
    let mut items: Vec<Item> = Vec::new();
    let mut i: usize = 0;
    while i < fields.len()
        invariant
            bytes::byte_views(fields@) == text::split(input@, 0u8),
            wanted == text::split(input@, 0u8).map_values(|field: Seq<u8>| byte_item(field)),
            i <= fields@.len(),
            item_views(items@) == wanted.take(i as int),
        decreases fields@.len() - i,
    {
        let ghost before = item_views(items@);
        let item: Item = read_field(fields[i].as_slice());
        assert(bytes::byte_views(fields@)[i as int] == fields@[i as int]@);
        assert(wanted[i as int] == item@);
        items.push(item);
        assert(item_views(items@) =~= before.push(item@));
        assert(wanted.take(i + 1) =~= wanted.take(i as int).push(item@));
        i = i + 1;
    }
    assert(fields@.len() == bytes::byte_views(fields@).len());
    assert(wanted.take(i as int) =~= wanted);
    collect(items)
}

/// Reads the output of `git worktree list --porcelain`.
pub fn parse_worktree_list(input: &str) -> (worktrees: Vec<Worktree>)
    ensures
        worktree_views(worktrees@) == worktrees_of_text(input@),
{
    let lines: Vec<String> = lines_of(input);
    let ghost wanted = text::lines(input@).map_values(|line: Seq<char>| line_item(line));
    let mut items: Vec<Item> = Vec::new();
    let mut i: usize = 0;
    while i < lines.len()
        invariant
            text::views(lines@) == text::lines(input@),
            wanted == text::lines(input@).map_values(|line: Seq<char>| line_item(line)),
            i <= lines@.len(),
            item_views(items@) == wanted.take(i as int),
        decreases lines@.len() - i,
    {
        let ghost before = item_views(items@);
        let item: Item = read_line(lines[i].as_str());
        assert(text::views(lines@)[i as int] == lines@[i as int]@);
        assert(wanted[i as int] == item@);
        items.push(item);
        assert(item_views(items@) =~= before.push(item@));
        assert(wanted.take(i + 1) =~= wanted.take(i as int).push(item@));
        i = i + 1;
    }
    assert(lines@.len() == text::views(lines@).len());
    assert(wanted.take(i as int) =~= wanted);
    collect(items)
}

/// A worktree as Git lists it, before anything is decoded. A bare repository has no
/// commit, and a detached worktree no branch; the branch is the full reference. The
/// notes are the other items of the record, such as `bare`, `detached` or `locked`.
#[verifier::ext_equal]
pub struct Listed {
    pub path: Seq<u8>,
    pub head: Option<Seq<u8>>,
    pub branch: Option<Seq<u8>>,
    pub notes: Seq<Seq<u8>>,
}

/// An item that may or may not be there.
pub open spec fn listed_item(key: Seq<char>, value: Option<Seq<u8>>) -> Seq<Seq<u8>> {
    match value {
        Some(value) => seq![vstd::utf8::encode_utf8(key) + value],
        None => Seq::empty(),
    }
}

/// The items of a record, but for the empty one that ends it.
pub open spec fn listed_items(worktree: Listed) -> Seq<Seq<u8>> {
    listed_item("worktree "@, Some(worktree.path)) + listed_item("HEAD "@, worktree.head)
        + listed_item("branch "@, worktree.branch) + worktree.notes
}

/// Items of Git's NUL form, each with the NUL behind it.
pub open spec fn terminated(items: Seq<Seq<u8>>) -> Seq<u8>
    decreases items.len(),
{
    if items.len() == 0 {
        Seq::empty()
    } else {
        items[0] + seq![0u8] + terminated(items.skip(1))
    }
}

/// A record of Git's NUL form, with the empty item that ends it.
pub open spec fn listed_record(worktree: Listed) -> Seq<u8> {
    terminated(listed_items(worktree).push(Seq::empty()))
}

pub open spec fn listing_of(list: Seq<Listed>) -> Seq<u8>
    decreases list.len(),
{
    if list.len() == 0 {
        Seq::empty()
    } else {
        listed_record(list[0]) + listing_of(list.skip(1))
    }
}

pub open spec fn decoded(worktree: Listed) -> WorktreeModel {
    WorktreeModel {
        path: worktree.path,
        head: match worktree.head {
            Some(head) => bytes::utf8_lossy(head),
            None => Seq::empty(),
        },
        branch: match worktree.branch {
            Some(reference) => Some(
                bytes::utf8_lossy(
                    short_branch(reference, vstd::utf8::encode_utf8("refs/heads/"@)),
                ),
            ),
            None => None,
        },
    }
}

/// No item holds the NUL that parts them, and the notes are none of the items that
/// a worktree is made of.
pub open spec fn is_listable(worktree: Listed) -> bool {
    &&& !worktree.path.contains(0u8)
    &&& worktree.head matches Some(head) ==> !head.contains(0u8)
    &&& worktree.branch matches Some(branch) ==> !branch.contains(0u8)
    &&& forall|i: int|
        0 <= i < worktree.notes.len() ==> !(#[trigger] worktree.notes[i]).contains(0u8)
            && byte_item(worktree.notes[i]) == ItemModel::Other
}

proof fn lemma_split_item(item: Seq<u8>, rest: Seq<u8>)
    requires
        !item.contains(0u8),
    ensures
        text::split(item + seq![0u8] + rest, 0u8) == seq![item] + text::split(rest, 0u8),
{
    let whole = item + seq![0u8] + rest;
    let n = item.len() as int;
    assert forall|i: int| 0 <= i < n implies whole[i] != 0u8 by {
        assert(whole[i] == item[i]);
        assert(item.contains(item[i]));
    }
    assert(whole[n] == 0u8);
    text::lemma_find_is(whole, 0u8, n);
    assert(whole.take(n) =~= item);
    assert(whole.skip(n + 1) =~= rest);
}

/// Items come out as they went in.
proof fn lemma_split_items(items: Seq<Seq<u8>>, rest: Seq<u8>)
    requires
        forall|i: int| 0 <= i < items.len() ==> !(#[trigger] items[i]).contains(0u8),
    ensures
        text::split(terminated(items) + rest, 0u8) == items + text::split(rest, 0u8),
    decreases items.len(),
{
    if items.len() == 0 {
        assert(terminated(items) + rest =~= rest);
        assert(items + text::split(rest, 0u8) =~= text::split(rest, 0u8));
    } else {
        let later = items.skip(1);
        assert forall|i: int| 0 <= i < later.len() implies !(#[trigger] later[i]).contains(
            0u8,
        ) by {
            assert(later[i] == items[i + 1]);
        }
        lemma_split_items(later, rest);
        lemma_split_item(items[0], terminated(later) + rest);
        assert(terminated(items) + rest =~= items[0] + seq![0u8] + (terminated(later) + rest));
        assert(seq![items[0]] + (later + text::split(rest, 0u8)) =~= items + text::split(
            rest,
            0u8,
        ));
    }
}

/// What the items of Git's list mean, by their first bytes.
proof fn lemma_items(value: Seq<u8>)
    ensures
        byte_item(vstd::utf8::encode_utf8("worktree "@) + value) == ItemModel::Path(value),
        byte_item(vstd::utf8::encode_utf8("HEAD "@) + value) == ItemModel::Head(
            bytes::utf8_lossy(value),
        ),
        byte_item(vstd::utf8::encode_utf8("branch "@) + value) == ItemModel::Branch(
            bytes::utf8_lossy(short_branch(value, vstd::utf8::encode_utf8("refs/heads/"@))),
        ),
        !vstd::utf8::encode_utf8("worktree "@).contains(0u8),
        !vstd::utf8::encode_utf8("HEAD "@).contains(0u8),
        !vstd::utf8::encode_utf8("branch "@).contains(0u8),
{
    reveal_strlit("worktree ");
    reveal_strlit("HEAD ");
    reveal_strlit("branch ");
    let worktree = vstd::utf8::encode_utf8("worktree "@);
    let head = vstd::utf8::encode_utf8("HEAD "@);
    let branch = vstd::utf8::encode_utf8("branch "@);
    bytes::lemma_first_byte("worktree "@);
    bytes::lemma_first_byte("HEAD "@);
    bytes::lemma_first_byte("branch "@);
    bytes::lemma_nul_free_text("worktree "@);
    bytes::lemma_nul_free_text("HEAD "@);
    bytes::lemma_nul_free_text("branch "@);
    lemma_key(worktree, value);
    lemma_key(head, value);
    lemma_key(branch, value);
    lemma_other(worktree, head, value);
    lemma_other(worktree, branch, value);
    lemma_other(head, branch, value);
}

proof fn lemma_key(key: Seq<u8>, value: Seq<u8>)
    ensures
        text::starts_with(key + value, key),
        after(key + value, key) == value,
{
    assert((key + value).take(key.len() as int) =~= key);
    assert((key + value).skip(key.len() as int) =~= value);
}

/// Items with different first bytes are not taken for each other.
proof fn lemma_other(key: Seq<u8>, other: Seq<u8>, value: Seq<u8>)
    requires
        key.len() > 0,
        other.len() > 0,
        key[0] != other[0],
    ensures
        !text::starts_with(other + value, key),
{
    if text::starts_with(other + value, key) {
        assert((other + value).take(key.len() as int)[0] == other[0]);
    }
}

/// What Git notes of a worktree besides its path, its commit and its branch means
/// nothing here, whatever reason it gives.
pub proof fn notes_mean_nothing(reason: Seq<u8>)
    ensures
        byte_item(vstd::utf8::encode_utf8("bare"@)) == ItemModel::Other,
        byte_item(vstd::utf8::encode_utf8("detached"@)) == ItemModel::Other,
        byte_item(vstd::utf8::encode_utf8("locked"@) + reason) == ItemModel::Other,
        byte_item(vstd::utf8::encode_utf8("prunable"@) + reason) == ItemModel::Other,
{
    reveal_strlit("worktree ");
    reveal_strlit("HEAD ");
    reveal_strlit("branch ");
    reveal_strlit("bare");
    reveal_strlit("detached");
    reveal_strlit("locked");
    reveal_strlit("prunable");
    lemma_same_item("bare"@);
    lemma_same_item("detached"@);
    assert("detached"@.take(7)[0] == 'd');
    assert("detached"@.take(5)[0] == 'd');
    bytes::lemma_first_byte("worktree "@);
    bytes::lemma_first_byte("HEAD "@);
    bytes::lemma_first_byte("branch "@);
    bytes::lemma_first_byte("locked"@);
    bytes::lemma_first_byte("prunable"@);
    let worktree = vstd::utf8::encode_utf8("worktree "@);
    let head = vstd::utf8::encode_utf8("HEAD "@);
    let branch = vstd::utf8::encode_utf8("branch "@);
    let locked = vstd::utf8::encode_utf8("locked"@);
    let prunable = vstd::utf8::encode_utf8("prunable"@);
    lemma_other(worktree, locked, reason);
    lemma_other(head, locked, reason);
    lemma_other(branch, locked, reason);
    lemma_other(worktree, prunable, reason);
    lemma_other(head, prunable, reason);
    lemma_other(branch, prunable, reason);
}

/// The end of a record parts a list of items.
proof fn lemma_records_end(
    first: Seq<ItemModel>,
    second: Seq<ItemModel>,
    current: Option<WorktreeModel>,
)
    ensures
        records(first + seq![ItemModel::End] + second, current) == records(first, current)
            + records(second, None),
    decreases first.len(),
{
    let all = first + seq![ItemModel::End] + second;
    if first.len() == 0 {
        assert(all.skip(1) =~= second);
    } else {
        let rest = first.skip(1);
        let next = match (first[0], current) {
            (ItemModel::End, _) => None,
            (ItemModel::Path(path), _) => Some(
                WorktreeModel { path, head: Seq::empty(), branch: None },
            ),
            (ItemModel::Head(head), Some(worktree)) => Some(WorktreeModel { head, ..worktree }),
            (ItemModel::Branch(branch), Some(worktree)) => Some(
                WorktreeModel { branch: Some(branch), ..worktree },
            ),
            (_, _) => current,
        };
        assert(all[0] == first[0]);
        assert(all.skip(1) =~= rest + seq![ItemModel::End] + second);
        lemma_records_end(rest, second, next);
        assert(finished(current) + (records(rest, next) + records(second, None)) =~= finished(
            current,
        ) + records(rest, next) + records(second, None));
    }
}

/// Items that mean nothing leave a record as it is.
proof fn lemma_notes_read(items: Seq<ItemModel>, current: Option<WorktreeModel>)
    requires
        forall|i: int| 0 <= i < items.len() ==> #[trigger] items[i] == ItemModel::Other,
    ensures
        records(items, current) == finished(current),
    decreases items.len(),
{
    if items.len() > 0 {
        let rest = items.skip(1);
        assert(items[0] == ItemModel::Other);
        assert forall|i: int| 0 <= i < rest.len() implies #[trigger] rest[i]
            == ItemModel::Other by {
            assert(rest[i] == items[i + 1]);
        }
        lemma_notes_read(rest, current);
    }
}

/// The items of a record are free of NULs and are read into its worktree.
proof fn lemma_record_read(worktree: Listed)
    requires
        is_listable(worktree),
    ensures
        forall|i: int|
            0 <= i < listed_items(worktree).len() ==> !(#[trigger] listed_items(
                worktree,
            )[i]).contains(0u8),
        records(listed_items(worktree).map_values(|field: Seq<u8>| byte_item(field)), None)
            == seq![decoded(worktree)],
{
    let to_item = |field: Seq<u8>| byte_item(field);
    let path = vstd::utf8::encode_utf8("worktree "@) + worktree.path;
    let heads = listed_item("HEAD "@, worktree.head);
    let branches = listed_item("branch "@, worktree.branch);
    let notes = worktree.notes.map_values(to_item);
    lemma_items(worktree.path);
    bytes::lemma_concat_free(vstd::utf8::encode_utf8("worktree "@), worktree.path);
    if let Some(head) = worktree.head {
        lemma_items(head);
        bytes::lemma_concat_free(vstd::utf8::encode_utf8("HEAD "@), head);
    }
    if let Some(branch) = worktree.branch {
        lemma_items(branch);
        bytes::lemma_concat_free(vstd::utf8::encode_utf8("branch "@), branch);
    }
    let fields = listed_items(worktree);
    assert forall|i: int| 0 <= i < fields.len() implies !(#[trigger] fields[i]).contains(0u8) by {
        let n = 1 + heads.len() + branches.len();
        if i >= n {
            assert(fields[i] == worktree.notes[i - n]);
        }
    }
    let opened = WorktreeModel { path: worktree.path, head: Seq::empty(), branch: None };
    let headed = WorktreeModel { head: decoded(worktree).head, ..opened };
    let i2 = branches.map_values(to_item) + notes;
    let i1 = heads.map_values(to_item) + i2;
    let items = fields.map_values(to_item);
    assert(items =~= seq![ItemModel::Path(worktree.path)] + i1);
    assert(items.skip(1) =~= i1);
    assert forall|i: int| 0 <= i < notes.len() implies #[trigger] notes[i]
        == ItemModel::Other by {
        assert(byte_item(worktree.notes[i]) == ItemModel::Other);
    }
    lemma_notes_read(notes, Some(decoded(worktree)));
    assert(records(i2, Some(headed)) == seq![decoded(worktree)]) by {
        match worktree.branch {
            Some(_) => {
                assert(i2.skip(1) =~= notes);
            },
            None => {
                assert(i2 =~= notes);
                assert(headed =~= decoded(worktree));
            },
        }
    }
    assert(records(i1, Some(opened)) == records(i2, Some(headed))) by {
        match worktree.head {
            Some(_) => {
                assert(i1.skip(1) =~= i2);
            },
            None => {
                assert(i1 =~= i2);
            },
        }
    }
    assert(records(items, None) =~= records(i1, Some(opened)));
}

/// What Git lists in its NUL form is read back worktree by worktree, with or without
/// a commit and a branch, and whatever line breaks the paths hold.
pub proof fn listed_worktrees_are_read_back(list: Seq<Listed>)
    requires
        forall|i: int| 0 <= i < list.len() ==> is_listable(#[trigger] list[i]),
    ensures
        worktrees_of_bytes(listing_of(list)) == list.map_values(
            |worktree: Listed| decoded(worktree),
        ),
    decreases list.len(),
{
    let to_item = |field: Seq<u8>| byte_item(field);
    let nothing = Seq::<u8>::empty();
    if list.len() == 0 {
        text::lemma_find(nothing, 0u8);
        assert(text::split(nothing, 0u8) =~= seq![nothing]);
        let items = seq![nothing].map_values(to_item);
        assert(items =~= seq![ItemModel::End]);
        assert(items.skip(1) =~= Seq::<ItemModel>::empty());
        assert(records(items.skip(1), None) =~= Seq::<WorktreeModel>::empty());
        assert(worktrees_of_bytes(listing_of(list)) =~= list.map_values(
            |worktree: Listed| decoded(worktree),
        ));
    } else {
        let first = list[0];
        let rest = list.skip(1);
        assert forall|i: int| 0 <= i < rest.len() implies is_listable(#[trigger] rest[i]) by {
            assert(rest[i] == list[i + 1]);
        }
        listed_worktrees_are_read_back(rest);
        lemma_record_read(first);
        let fields = listed_items(first);
        let record = fields.push(nothing);
        assert forall|i: int| 0 <= i < record.len() implies !(#[trigger] record[i]).contains(
            0u8,
        ) by {
            if i < fields.len() {
                assert(record[i] == fields[i]);
            }
        }
        lemma_split_items(record, listing_of(rest));
        let head = fields.map_values(to_item);
        let tail = text::split(listing_of(rest), 0u8).map_values(to_item);
        let items = text::split(listing_of(list), 0u8).map_values(to_item);
        assert(items =~= head + seq![ItemModel::End] + tail);
        lemma_records_end(head, tail, None);
        assert(list.map_values(|worktree: Listed| decoded(worktree)) =~= seq![decoded(first)]
            + rest.map_values(|worktree: Listed| decoded(worktree)));
    }
}

/// The lines of a text that an empty line ends, and of what follows it.
proof fn lemma_lines_part(a: Seq<char>, b: Seq<char>)
    requires
        a.len() > 0 ==> a.last() != '\r',
    ensures
        text::lines(a + "\n\n"@ + b) == text::lines(a) + (if a.len() == 0 || a.last() == '\n' {
            seq![Seq::<char>::empty(), Seq::<char>::empty()]
        } else {
            seq![Seq::<char>::empty()]
        }) + text::lines(b),
    decreases a.len(),
{
    reveal_strlit("\n\n");
    let none = Seq::<char>::empty();
    let whole = a + "\n\n"@ + b;
    let once = seq!['\n'] + b;
    text::lemma_find_is(once, '\n', 0);
    assert(once.take(0) =~= none);
    assert(once.skip(1) =~= b);
    assert(text::lines(once) == seq![none] + text::lines(b));
    text::lemma_find(a, '\n');
    let k = text::find(a, '\n');
    if a.len() == 0 {
        text::lemma_find_is(whole, '\n', 0);
        assert(whole.take(0) =~= none);
        assert(whole.skip(1) =~= once);
        assert(seq![none] + (seq![none] + text::lines(b)) =~= text::lines(a) + seq![none, none]
            + text::lines(b));
    } else if k >= a.len() {
        let n = a.len() as int;
        assert(a.last() != '\n') by {
            assert(a.contains(a.last()));
        }
        text::lemma_find_is(whole, '\n', n);
        assert(whole.take(n) =~= a);
        assert(whole.skip(n + 1) =~= once);
        assert(seq![a] + (seq![none] + text::lines(b)) =~= seq![a] + seq![none] + text::lines(b));
    } else {
        let rest = a.skip(k + 1);
        text::lemma_find_is(whole, '\n', k);
        assert(whole.take(k) =~= a.take(k));
        assert(whole.skip(k + 1) =~= rest + "\n\n"@ + b);
        lemma_lines_part(rest, b);
        let first = seq![text::without_cr(a.take(k))];
        let gap = if a.last() == '\n' {
            seq![none, none]
        } else {
            seq![none]
        };
        assert(first + (text::lines(rest) + gap + text::lines(b)) =~= first + text::lines(rest)
            + gap + text::lines(b));
    }
}

/// An empty line parts a list of worktrees into two that are read on their own. The
/// first part has to end in something other than a carriage return, which would
/// otherwise become part of a line ending.
pub proof fn lists_are_read_part_by_part(a: Seq<char>, b: Seq<char>)
    requires
        a.len() > 0 ==> a.last() != '\r',
    ensures
        worktrees_of_text(a + "\n\n"@ + b) == worktrees_of_text(a) + worktrees_of_text(b),
{
    let to_item = |line: Seq<char>| line_item(line);
    let first = text::lines(a).map_values(to_item);
    let second = text::lines(b).map_values(to_item);
    let all = text::lines(a + "\n\n"@ + b).map_values(to_item);
    lemma_lines_part(a, b);
    if a.len() == 0 || a.last() == '\n' {
        let later = Seq::<ItemModel>::empty() + seq![ItemModel::End] + second;
        assert(all =~= first + seq![ItemModel::End] + later);
        lemma_records_end(first, later, None);
        lemma_records_end(Seq::empty(), second, None);
        assert(records(later, None) =~= records(second, None));
    } else {
        assert(all =~= first + seq![ItemModel::End] + second);
        lemma_records_end(first, second, None);
    }
}

/// No line break of the text has a carriage return before it.
pub open spec fn has_plain_breaks(s: Seq<char>) -> bool {
    forall|i: int| 0 < i < s.len() && #[trigger] s[i] == '\n' ==> s[i - 1] != '\r'
}

/// The text with a NUL in place of each line break.
pub open spec fn nul_form(s: Seq<char>) -> Seq<char> {
    s.map_values(
        |c: char|
            if c == '\n' {
                '\0'
            } else {
                c
            },
    )
}

/// An item means the same in both forms.
proof fn lemma_same_item(line: Seq<char>)
    ensures
        byte_item(vstd::utf8::encode_utf8(line)) == line_item(line),
{
    reveal_strlit("worktree ");
    reveal_strlit("HEAD ");
    reveal_strlit("branch ");
    reveal_strlit("refs/heads/");
    bytes::lemma_encoded_prefix(line, "worktree "@);
    bytes::lemma_encoded_prefix(line, "HEAD "@);
    bytes::lemma_encoded_prefix(line, "branch "@);
    let head = after(line, "HEAD "@);
    let branch = after(line, "branch "@);
    bytes::lemma_encoded_prefix(branch, "refs/heads/"@);
    bytes::lemma_lossless(head);
    bytes::lemma_lossless(short_branch(branch, "refs/heads/"@));
    if line.len() > 0 {
        vstd::utf8::char_is_scalar(line[0]);
        assert(vstd::utf8::encode_scalar(line[0] as u32).len() > 0);
    }
}

/// The items of the two forms agree, but for the end that the NUL form has behind
/// its last separator.
proof fn lemma_same_items(s: Seq<char>)
    requires
        !s.contains('\0'),
        has_plain_breaks(s),
    ensures
        text::split(vstd::utf8::encode_utf8(nul_form(s)), 0u8).map_values(
            |field: Seq<u8>| byte_item(field),
        ) == text::lines(s).map_values(|line: Seq<char>| line_item(line)) + (if s.len() == 0
            || s.last() == '\n' {
            seq![ItemModel::End]
        } else {
            Seq::<ItemModel>::empty()
        }),
    decreases s.len(),
{
    let of_bytes = |field: Seq<u8>| byte_item(field);
    let of_line = |line: Seq<char>| line_item(line);
    let bytes_form = vstd::utf8::encode_utf8(nul_form(s));
    text::lemma_find(s, '\n');
    let k = text::find(s, '\n');
    if k >= s.len() {
        assert(nul_form(s) =~= s);
        bytes::lemma_nul_free_text(s);
        text::lemma_find(bytes_form, 0u8);
        lemma_same_item(s);
        assert(text::split(bytes_form, 0u8) =~= seq![bytes_form]);
        if s.len() > 0 {
            assert(s.contains(s.last()));
        }
        assert(text::split(bytes_form, 0u8).map_values(of_bytes) =~= text::lines(s).map_values(
            of_line,
        ) + (if s.len() == 0 || s.last() == '\n' {
            seq![ItemModel::End]
        } else {
            Seq::<ItemModel>::empty()
        }));
    } else {
        let first = s.take(k);
        let rest = s.skip(k + 1);
        lemma_part_free(s, k);
        lemma_same_items(rest);
        lemma_same_item(first);
        bytes::lemma_nul_free_text(first);
        assert(nul_form(s) =~= first + seq!['\0'] + nul_form(rest));
        bytes::lemma_encode_concat(first + seq!['\0'], nul_form(rest));
        bytes::lemma_encode_concat(first, seq!['\0']);
        bytes::lemma_nul_byte();
        lemma_split_item(vstd::utf8::encode_utf8(first), vstd::utf8::encode_utf8(nul_form(rest)));
        assert(text::without_cr(first) == first) by {
            if first.len() > 0 {
                assert(s[k] == '\n' && s[k - 1] == first.last());
            }
        }
        let later = text::split(vstd::utf8::encode_utf8(nul_form(rest)), 0u8);
        assert(text::split(bytes_form, 0u8).map_values(of_bytes) =~= seq![line_item(first)]
            + later.map_values(of_bytes));
        assert(text::lines(s).map_values(of_line) =~= seq![line_item(first)] + text::lines(
            rest,
        ).map_values(of_line));
    }
}

proof fn lemma_part_free(s: Seq<char>, k: int)
    requires
        0 <= k < s.len(),
        !s.contains('\0'),
        has_plain_breaks(s),
    ensures
        !s.take(k).contains('\0'),
        !s.skip(k + 1).contains('\0'),
        has_plain_breaks(s.skip(k + 1)),
{
    let first = s.take(k);
    let rest = s.skip(k + 1);
    assert forall|i: int| 0 <= i < first.len() implies first[i] != '\0' by {
        assert(s.contains(s[i]));
    }
    assert forall|i: int| 0 <= i < rest.len() implies rest[i] != '\0' by {
        assert(s.contains(s[k + 1 + i]));
    }
    assert forall|i: int| 0 < i < rest.len() && #[trigger] rest[i] == '\n' implies rest[i - 1]
        != '\r' by {
        assert(s[k + 1 + i] == rest[i]);
    }
}

/// A list says the same in both forms: with NULs in place of its line breaks, it is
/// read into the same worktrees. A NUL inside a line would part it, and a carriage
/// return before a line break belongs to the line ending in the line form only.
pub proof fn both_forms_say_the_same(s: Seq<char>)
    requires
        !s.contains('\0'),
        has_plain_breaks(s),
    ensures
        worktrees_of_bytes(vstd::utf8::encode_utf8(nul_form(s))) == worktrees_of_text(s),
{
    let items = text::lines(s).map_values(|line: Seq<char>| line_item(line));
    lemma_same_items(s);
    if s.len() == 0 || s.last() == '\n' {
        let none = Seq::<ItemModel>::empty();
        assert(items + seq![ItemModel::End] =~= items + seq![ItemModel::End] + none);
        lemma_records_end(items, none, None);
        assert(records(items, None) + records(none, None) =~= records(items, None));
    } else {
        assert(items + Seq::<ItemModel>::empty() =~= items);
    }
}

/// A record of Git's NUL form is read into its worktree, whatever follows it.
pub proof fn records_are_read_into_worktrees(
    path: Seq<u8>,
    head: Seq<u8>,
    branch: Seq<u8>,
    rest: Seq<u8>,
)
    requires
        !path.contains(0u8),
        !head.contains(0u8),
        !branch.contains(0u8),
    ensures
        ({
            let text = |t: Seq<char>| vstd::utf8::encode_utf8(t);
            let nul = seq![0u8];
            worktrees_of_bytes(
                text("worktree "@) + path + nul + text("HEAD "@) + head + nul + text("branch "@) + (
                text("refs/heads/"@) + branch) + nul + nul + rest,
            ) == seq![
                WorktreeModel {
                    path,
                    head: bytes::utf8_lossy(head),
                    branch: Some(bytes::utf8_lossy(branch)),
                },
            ] + worktrees_of_bytes(rest)
        }),
{
    let nul = seq![0u8];
    let none = Seq::<u8>::empty();
    let heads = vstd::utf8::encode_utf8("refs/heads/"@);
    let one = vstd::utf8::encode_utf8("worktree "@) + path;
    let two = vstd::utf8::encode_utf8("HEAD "@) + head;
    let three = vstd::utf8::encode_utf8("branch "@) + (heads + branch);
    reveal_strlit("refs/heads/");
    bytes::lemma_nul_free_text("refs/heads/"@);
    bytes::lemma_concat_free(heads, branch);
    let worktree = Listed {
        path,
        head: Some(head),
        branch: Some(heads + branch),
        notes: Seq::empty(),
    };
    lemma_record_read(worktree);
    lemma_key(heads, branch);
    let fields = listed_items(worktree);
    assert(fields =~= seq![one, two, three]);
    let record = fields.push(none);
    assert(record =~= seq![one, two, three, none]);
    assert forall|i: int| 0 <= i < record.len() implies !(#[trigger] record[i]).contains(0u8) by {
        if i < fields.len() {
            assert(record[i] == fields[i]);
        }
    }
    lemma_split_items(record, rest);
    assert(record.skip(1) =~= seq![two, three, none]);
    assert(record.skip(1).skip(1) =~= seq![three, none]);
    assert(record.skip(1).skip(1).skip(1) =~= seq![none]);
    assert(seq![none].skip(1) =~= Seq::<Seq<u8>>::empty());
    reveal_with_fuel(terminated, 5);
    assert(terminated(record) =~= one + nul + (two + nul + (three + nul + (none + nul + none))));
    assert(terminated(record) + rest =~= one + nul + vstd::utf8::encode_utf8("HEAD "@) + head + nul
        + vstd::utf8::encode_utf8("branch "@) + (heads + branch) + nul + nul + rest);
    let to_item = |field: Seq<u8>| byte_item(field);
    let front = fields.map_values(to_item);
    let tail = text::split(rest, 0u8).map_values(to_item);
    let items = text::split(terminated(record) + rest, 0u8).map_values(to_item);
    assert(items =~= front + seq![ItemModel::End] + tail);
    lemma_records_end(front, tail, None);
}

} // verus!
