//! Directory listings and mount points: what is shown, and in what order.

use vstd::prelude::*;
use vstd::string::*;
use crate::text::texts_of;

verus! {

broadcast use vstd::seq_lib::group_to_multiset_ensures;

/// One entry of a directory, as the file system reports it.
#[derive(Debug, Clone)]
pub struct DirEntry {
    /// The last component of the entry's path.
    pub name: String,
    pub is_dir: bool,
    /// What follows the last dot of the name, if there is one.
    pub extension: Option<String>,
}

/// How an entry is listed, if it is: a directory under its name and a slash,
/// a document under its name, anything else not at all.
pub open spec fn listing_of(entry: DirEntry) -> Option<Seq<char>> {
    if entry.is_dir {
        Some(entry.name@ + "/"@)
    } else if entry.extension matches Some(extension) && extension@ == "eki"@ {
        Some(entry.name@)
    } else {
        None
    }
}

/// The listings of `entries`, in their order.
pub open spec fn listings(entries: Seq<DirEntry>) -> Seq<Seq<char>>
    decreases entries.len(),
{
    if entries.len() == 0 {
        Seq::empty()
    } else {
        match listing_of(entries.last()) {
            Some(name) => listings(entries.drop_last()).push(name),
            None => listings(entries.drop_last()),
        }
    }
}

/// Whether `a` comes no later than `b` when the two are compared byte by
/// byte, a proper prefix coming first.
pub open spec fn bytes_le(a: Seq<u8>, b: Seq<u8>) -> bool
    decreases a.len(),
{
    if a.len() == 0 {
        true
    } else if b.len() == 0 {
        false
    } else if a[0] != b[0] {
        a[0] < b[0]
    } else {
        bytes_le(a.drop_first(), b.drop_first())
    }
}

/// Whether a listing names a directory: whether it ends in a slash.
pub open spec fn names_dir(name: Seq<u8>) -> bool {
    name.len() > 0 && name.last() == 47
}

/// Whether the listing `a` stands no later than the listing `b`. The two
/// kinds stand apart, directories first or documents first; each kind is in
/// the order of its bytes.
pub open spec fn listed_before(a: Seq<u8>, b: Seq<u8>, dirs_first: bool) -> bool {
    if names_dir(a) == names_dir(b) {
        bytes_le(a, b)
    } else if dirs_first {
        names_dir(a)
    } else {
        names_dir(b)
    }
}

pub open spec fn bytes_of(name: Seq<char>) -> Seq<u8> {
    vstd::utf8::encode_utf8(name)
}

/// Whether `names` stand in listing order.
pub open spec fn in_listing_order(names: Seq<Seq<char>>, dirs_first: bool) -> bool {
    forall|i: int, j: int|
        0 <= i < j < names.len() ==> listed_before(
            bytes_of(names[i]),
            bytes_of(names[j]),
            dirs_first,
        )
}

/// Of two texts one stands no later than the other, byte by byte.
pub proof fn lemma_bytes_le_total(a: Seq<u8>, b: Seq<u8>)
    ensures
        bytes_le(a, b) || bytes_le(b, a),
    decreases a.len(),
{
    if a.len() > 0 && b.len() > 0 && a[0] == b[0] {
        lemma_bytes_le_total(a.drop_first(), b.drop_first());
    }
}

/// What stands no later than something that stands no later than a third
/// stands no later than the third.
pub proof fn lemma_bytes_le_transitive(a: Seq<u8>, b: Seq<u8>, c: Seq<u8>)
    requires
        bytes_le(a, b),
        bytes_le(b, c),
    ensures
        bytes_le(a, c),
    decreases a.len(),
{
    if a.len() > 0 && b.len() > 0 && c.len() > 0 && a[0] == b[0] && b[0] == c[0] {
        lemma_bytes_le_transitive(a.drop_first(), b.drop_first(), c.drop_first());
    }
}

/// Of two listings one stands no later than the other.
pub proof fn lemma_listed_before_total(a: Seq<u8>, b: Seq<u8>, dirs_first: bool)
    ensures
        listed_before(a, b, dirs_first) || listed_before(b, a, dirs_first),
{
    lemma_bytes_le_total(a, b);
}

/// The listing order is transitive.
pub proof fn lemma_listed_before_transitive(
    a: Seq<u8>,
    b: Seq<u8>,
    c: Seq<u8>,
    dirs_first: bool,
)
    requires
        listed_before(a, b, dirs_first),
        listed_before(b, c, dirs_first),
    ensures
        listed_before(a, c, dirs_first),
{
    if names_dir(a) == names_dir(b) && names_dir(b) == names_dir(c) {
        lemma_bytes_le_transitive(a, b, c);
    }
}

fn ends_in_slash(name: &str) -> (b: bool)
    ensures
        b == names_dir(name.spec_bytes()),
{
    let bytes = name.as_bytes();
    bytes.len() > 0 && bytes[bytes.len() - 1] == 47
}

fn bytes_no_later(a: &[u8], b: &[u8]) -> (r: bool)
    ensures
        r == bytes_le(a@, b@),
{
    let mut i: usize = 0;
    proof {
        assert(a@.skip(0) =~= a@);
        assert(b@.skip(0) =~= b@);
    }
    while i < a.len() && i < b.len() && a[i] == b[i]
        invariant
            i <= a.len(),
            i <= b.len(),
            bytes_le(a@, b@) == bytes_le(a@.skip(i as int), b@.skip(i as int)),
        decreases a.len() - i,
    {
        proof {
            assert(a@.skip(i as int).drop_first() =~= a@.skip(i + 1));
            assert(b@.skip(i as int).drop_first() =~= b@.skip(i + 1));
        }
        i = i + 1;
    }
    if i == a.len() {
        true
    } else if i == b.len() {
        false
    } else {
        a[i] < b[i]
    }
}

fn name_no_later(a: &str, b: &str, dirs_first: bool) -> (r: bool)
    ensures
        r == listed_before(a.spec_bytes(), b.spec_bytes(), dirs_first),
{
    let a_dir = ends_in_slash(a);
    let b_dir = ends_in_slash(b);
    if a_dir == b_dir {
        bytes_no_later(a.as_bytes(), b.as_bytes())
    } else if dirs_first {
        a_dir
    } else {
        b_dir
    }
}

/// Puts `name` into `names` where it belongs: behind everything that stands
/// no later than it.
fn insert_listed(names: &mut Vec<String>, name: String, dirs_first: bool)
    requires
        in_listing_order(texts_of(old(names)@), dirs_first),
    ensures
        in_listing_order(texts_of(final(names)@), dirs_first),
        texts_of(final(names)@).to_multiset() == texts_of(old(names)@).to_multiset().insert(name@),
{
    let mut at: usize = 0;
    while at < names.len() && name_no_later(names[at].as_str(), name.as_str(), dirs_first)
        invariant
            at <= names.len(),
            forall|k: int|
                0 <= k < at ==> listed_before(
                    bytes_of(#[trigger] texts_of(names@)[k]),
                    bytes_of(name@),
                    dirs_first,
                ),
        decreases names.len() - at,
    {
        at = at + 1;
    }
    let ghost before = texts_of(names@);
    proof {
        if at < names.len() {
            assert(before[at as int] == names@[at as int]@);
            lemma_listed_before_total(bytes_of(before[at as int]), bytes_of(name@), dirs_first);
        }
    }
    names.insert(at, name);
    proof {
        let after = texts_of(names@);
        assert(after =~= before.insert(at as int, name@));
        vstd::seq_lib::to_multiset_insert(before, at as int, name@);
        assert forall|p: int, q: int| 0 <= p < q < after.len() implies listed_before(
            bytes_of(after[p]),
            bytes_of(after[q]),
            dirs_first,
        ) by {
            if q < at {
                assert(after[p] == before[p] && after[q] == before[q]);
            } else if q == at {
                assert(after[p] == before[p]);
            } else if p < at {
                assert(after[p] == before[p] && after[q] == before[q - 1]);
            } else if p == at {
                assert(after[q] == before[q - 1]);
                if q - 1 > at {
                    lemma_listed_before_transitive(
                        bytes_of(name@),
                        bytes_of(before[at as int]),
                        bytes_of(before[q - 1]),
                        dirs_first,
                    );
                }
            } else {
                assert(after[p] == before[p - 1] && after[q] == before[q - 1]);
            }
        }
    }
}

fn listing(entry: &DirEntry) -> (r: Option<String>)
    ensures
        match r {
            Some(name) => listing_of(*entry) == Some(name@),
            None => listing_of(*entry) is None,
        },
{
    if entry.is_dir {
        let mut name = entry.name.clone();
        name.append("/");
        Some(name)
    } else {
        let document = match &entry.extension {
            Some(extension) => {
                let eki = String::from_str("eki");
                *extension == eki
            },
            None => false,
        };
        if document {
            Some(entry.name.clone())
        } else {
            None
        }
    }
}

/// The listing of a directory: its subdirectories and its documents, the
/// documents first, each kind in the order of its bytes. Nothing is listed
/// twice that was reported once, and nothing is left out.
pub fn get_files(entries: &Vec<DirEntry>) -> (names: Vec<String>)
    ensures
        texts_of(names@).to_multiset() == listings(entries@).to_multiset(),
        in_listing_order(texts_of(names@), false),
{
    let mut names: Vec<String> = Vec::new();
    let mut i: usize = 0;
    proof {
        assert(texts_of(names@) =~= listings(entries@.take(0)));
    }
    while i < entries.len()
        invariant
            i <= entries.len(),
            texts_of(names@).to_multiset() == listings(entries@.take(i as int)).to_multiset(),
            in_listing_order(texts_of(names@), false),
        decreases entries.len() - i,
    {
        proof {
            assert(entries@.take(i + 1).drop_last() =~= entries@.take(i as int));
            assert(entries@.take(i + 1).last() == entries@[i as int]);
        }
        match listing(&entries[i]) {
            None => {},
            Some(name) => {
                proof {
                    vstd::seq_lib::to_multiset_build(listings(entries@.take(i as int)), name@);
                }
                insert_listed(&mut names, name, false);
            },
        }
        i = i + 1;
    }
    proof {
        assert(entries@.take(entries.len() as int) =~= entries@);
    }
    names
}

/// What walking a directory gave for one of its entries.
#[derive(Debug, Clone)]
pub enum Walked {
    /// An entry with a name.
    Entry(DirEntry),
    /// An entry whose path has no last component; the path stands for it.
    Nameless(String),
    /// The walk failed here; the text of the failure stands for the entry.
    Failed(String),
}

/// How the full listing shows what the walk gave: a directory under its name
/// and a slash, anything else under its name, and what has no name under the
/// text that stands for it.
pub open spec fn shown_as(walked: Walked) -> Seq<char> {
    match walked {
        Walked::Entry(entry) => if entry.is_dir {
            entry.name@ + "/"@
        } else {
            entry.name@
        },
        Walked::Nameless(path) => path@,
        Walked::Failed(fault) => fault@,
    }
}

fn show(walked: &Walked) -> (r: String)
    ensures
        r@ == shown_as(*walked),
{
    match walked {
        Walked::Entry(entry) => {
            let mut name = entry.name.clone();
            if entry.is_dir {
                name.append("/");
            }
            name
        },
        Walked::Nameless(path) => path.clone(),
        Walked::Failed(fault) => fault.clone(),
    }
}

/// The full listing of a directory: everything that the walk gave, the
/// directories first, each kind in the order of its bytes.
pub fn list_directory(walked: &Vec<Walked>) -> (names: Vec<String>)
    ensures
        texts_of(names@).to_multiset() == walked@.map_values(|w: Walked| shown_as(w)).to_multiset(),
        in_listing_order(texts_of(names@), true),
{
    let ghost all = walked@.map_values(|w: Walked| shown_as(w));
    let mut names: Vec<String> = Vec::new();
    let mut i: usize = 0;
    proof {
        assert(texts_of(names@) =~= all.take(0));
    }
    while i < walked.len()
        invariant
            i <= walked.len(),
            all == walked@.map_values(|w: Walked| shown_as(w)),
            texts_of(names@).to_multiset() == all.take(i as int).to_multiset(),
            in_listing_order(texts_of(names@), true),
        decreases walked.len() - i,
    {
        let name = show(&walked[i]);
        proof {
            assert(all.take(i + 1) =~= all.take(i as int).push(name@));
            vstd::seq_lib::to_multiset_build(all.take(i as int), name@);
        }
        insert_listed(&mut names, name, true);
        i = i + 1;
    }
    proof {
        assert(all.take(walked.len() as int) =~= all);
    }
    names
}

/// `text` with `to` in the place of every `from`.
pub open spec fn replaced(text: Seq<char>, from: char, to: Seq<char>) -> Seq<char>
    decreases text.len(),
{
    if text.len() == 0 {
        Seq::<char>::empty()
    } else if text.last() == from {
        replaced(text.drop_last(), from, to) + to
    } else {
        replaced(text.drop_last(), from, to).push(text.last())
    }
}

/// Replaces with `str::replace`. Trusted: every `from` in `text` gives way to
/// `to`, and nothing else changes.
#[verifier::external_body]
fn replace_char(text: &str, from: char, to: &str) -> (r: String)
    ensures
        r@ == replaced(text@, from, to@),
{
    text.replace(from, to)
}

/// A mount path as it is shown: with slashes for backslashes.
pub open spec fn shown_path(path: Seq<char>) -> Seq<char> {
    replaced(path, '\\', "/"@)
}

/// The mount paths that can be shown, in their order: those that are text.
pub open spec fn shown_paths(paths: Seq<Option<String>>) -> Seq<Seq<char>>
    decreases paths.len(),
{
    if paths.len() == 0 {
        Seq::empty()
    } else {
        match paths.last() {
            Some(path) => shown_paths(paths.drop_last()).push(shown_path(path@)),
            None => shown_paths(paths.drop_last()),
        }
    }
}

/// The mount points to show. `paths` holds what the system reports, `None`
/// standing for a path that is not text; such a path is left out.
pub fn get_mount_points(paths: &Vec<Option<String>>) -> (shown: Vec<String>)
    ensures
        texts_of(shown@) == shown_paths(paths@),
{
    let mut shown: Vec<String> = Vec::new();
    let mut i: usize = 0;
    proof {
        assert(texts_of(shown@) =~= shown_paths(paths@.take(0)));
    }
    while i < paths.len()
        invariant
            i <= paths.len(),
            texts_of(shown@) == shown_paths(paths@.take(i as int)),
        decreases paths.len() - i,
    {
        proof {
            assert(paths@.take(i + 1).drop_last() =~= paths@.take(i as int));
            assert(paths@.take(i + 1).last() == paths@[i as int]);
        }
        let ghost before = texts_of(shown@);
        match &paths[i] {
            Some(path) => {
                shown.push(replace_char(path.as_str(), '\\', "/"));
                proof {
                    assert(texts_of(shown@) =~= before.push(shown_path(path@)));
                }
            },
            None => {},
        }
        i = i + 1;
    }
    proof {
        assert(paths@.take(paths.len() as int) =~= paths@);
    }
    shown
}

/// The mount points that are offered: those to show, and after them the
/// drive `D:/`, which is offered whatever the system reports.
pub fn offered_mount_points(paths: &Vec<Option<String>>) -> (offered: Vec<String>)
    ensures
        texts_of(offered@) == shown_paths(paths@).push("D:/"@),
{
    let mut offered = get_mount_points(paths);
    let ghost shown = texts_of(offered@);
    offered.push(String::from_str("D:/"));
    proof {
        assert(texts_of(offered@) =~= shown.push("D:/"@));
    }
    offered
}

} // verus!
