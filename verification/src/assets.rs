//! The files that the program carries: the browser's extension and the agent's skill.
use crate::codec;
use crate::codec::{base64_decode, sha256};
use crate::commands::setup::nm_host;
use crate::json;
use crate::json::{Json, JsonView};
use crate::model;
use crate::paths;
use crate::paths::{file_name_of, strip_path};
use crate::text;
use crate::text::same;
use vstd::prelude::*;

verus! {

/// The version in the manifest of an extension.
pub fn version_of(manifest: &Json) -> (r: Option<String>)
    ensures
        model::maybe(r) == manifest@.get_str("version"@),
{
    match manifest.get_str("version") {
        Some(v) => Some(v.to_owned()),
        None => None,
    }
}

/// The version in the text of a manifest; `None` where it holds none.
pub fn expected_extension_version(manifest: &str) -> (r: Option<String>)
    ensures
        model::maybe(r) == (match json::parsed_json(manifest@) {
            Ok(m) => m.get_str("version"@),
            Err(_) => None,
        }),
{
    match Json::parse(manifest) {
        Ok(m) => version_of(&m),
        Err(_) => None,
    }
}

/// The letter for four bits.
pub open spec fn id_letter(n: int) -> char {
    (97 + n) as char
}

/// The id that a browser gives an extension with this digest of its key: the first 16 bytes, four
/// bits a letter.
pub open spec fn id_of_digest(digest: Seq<u8>) -> Seq<char> {
    Seq::new(
        32,
        |i: int|
            id_letter(
                if i % 2 == 0 {
                    digest[i / 2] as int / 16
                } else {
                    digest[i / 2] as int % 16
                },
            ),
    )
}

fn letter(n: u8) -> (r: char)
    requires
        n < 16,
    ensures
        r == id_letter(n as int),
{
    (97 + n) as char
}

/// The id that a browser gives an extension with this digest of its key.
pub fn id_from_digest(digest: &Vec<u8>) -> (r: String)
    requires
        digest@.len() >= 16,
    ensures
        r@ == id_of_digest(digest@),
{
    let mut id = String::new();
    let ghost whole = id_of_digest(digest@);
    assert(whole.take(0) =~= Seq::empty());
    for i in 0..16usize
        invariant
            digest@.len() >= 16,
            whole == id_of_digest(digest@),
            id@ == whole.take(2 * i),
    {
        let b = digest[i];
        id.push(letter(b / 16));
        id.push(letter(b % 16));
        assert(id@ =~= whole.take(2 * i).push(id_letter(b as int / 16)).push(
            id_letter(b as int % 16),
        ));
        assert(whole[2 * i] == id_letter(b as int / 16));
        assert(whole[2 * i + 1] == id_letter(b as int % 16));
        assert(id@ =~= whole.take(2 * (i + 1)));
    }
    assert(whole.take(32) =~= whole);
    id
}

/// The id of an extension by its manifest, where that pins a key.
pub open spec fn manifest_id(manifest: JsonView) -> Option<Seq<char>> {
    match manifest.get_str("key"@) {
        Some(key) => match codec::base64_bytes(key) {
            Ok(der) => Some(id_of_digest(codec::sha256_digest(der))),
            Err(_) => None,
        },
        None => None,
    }
}

/// The id of an extension by its manifest; `None` where that pins no key.
pub fn id_of_manifest(manifest: &Json) -> (r: Option<String>)
    ensures
        model::maybe(r) == manifest_id(manifest@),
{
    match manifest.get_str("key") {
        Some(key) => match base64_decode(key) {
            Ok(der) => Some(id_from_digest(&sha256(der.as_slice()))),
            Err(_) => None,
        },
        None => None,
    }
}

/// The id of an extension by the text of its manifest.
pub fn expected_extension_id(manifest: &str) -> (r: Option<String>)
    ensures
        model::maybe(r) == (match json::parsed_json(manifest@) {
            Ok(m) => manifest_id(m),
            Err(_) => None,
        }),
{
    match Json::parse(manifest) {
        Ok(m) => id_of_manifest(&m),
        Err(_) => None,
    }
}

/// What the program carries under a path: a file with its bytes, or a directory with what it
/// holds.
#[derive(Debug, PartialEq, Eq)]
pub enum Asset {
    File { path: String, bytes: Vec<u8> },
    Dir { path: String, entries: Vec<Asset> },
}

/// What is carried under a path.
pub enum Carried {
    File(Seq<char>, Seq<u8>),
    Dir(Seq<char>, Seq<Carried>),
}

/// The model of what is carried.
pub open spec fn asset_view(asset: Asset) -> Carried
    decreases asset,
{
    match asset {
        Asset::File { path, bytes } => Carried::File(path@, bytes@),
        Asset::Dir { path, entries } => Carried::Dir(path@, assets_view(entries@)),
    }
}

/// The models of what a directory holds.
pub open spec fn assets_view(assets: Seq<Asset>) -> Seq<Carried>
    decreases assets,
{
    if assets.len() == 0 {
        Seq::empty()
    } else {
        assets_view(assets.drop_last()).push(asset_view(assets.last()))
    }
}

impl View for Asset {
    type V = Carried;

    open spec fn view(&self) -> Carried {
        asset_view(*self)
    }
}

impl Carried {
    /// The path it is carried under.
    pub open spec fn path(self) -> Seq<char> {
        match self {
            Carried::File(path, _) => path,
            Carried::Dir(path, _) => path,
        }
    }
}

/// A step of a write: a file to put in place, or a directory to write into. `target` is where it
/// stands in the directory that is written.
#[derive(Debug, PartialEq, Eq)]
pub enum Write {
    File { target: String, bytes: Vec<u8> },
    Dir { target: String, writes: Vec<Write> },
}

/// What a step is.
pub enum WriteView {
    File(Seq<char>, Seq<u8>),
    Dir(Seq<char>, Seq<WriteView>),
}

/// The model of a step.
pub open spec fn write_view(write: Write) -> WriteView
    decreases write,
{
    match write {
        Write::File { target, bytes } => WriteView::File(target@, bytes@),
        Write::Dir { target, writes } => WriteView::Dir(target@, writes_view(writes@)),
    }
}

/// The models of steps.
pub open spec fn writes_view(writes: Seq<Write>) -> Seq<WriteView>
    decreases writes,
{
    if writes.len() == 0 {
        Seq::empty()
    } else {
        writes_view(writes.drop_last()).push(write_view(writes.last()))
    }
}

impl View for Write {
    type V = WriteView;

    open spec fn view(&self) -> WriteView {
        write_view(*self)
    }
}

impl WriteView {
    /// Where it stands in the directory that is written.
    pub open spec fn target(self) -> Seq<char> {
        match self {
            WriteView::File(target, _) => target,
            WriteView::Dir(target, _) => target,
        }
    }
}

proof fn lemma_writes_push(writes: Seq<Write>, write: Write)
    ensures
        writes_view(writes.push(write)) == writes_view(writes).push(write_view(write)),
{
    assert(writes.push(write).drop_last() =~= writes);
}

proof fn lemma_assets_push(assets: Seq<Asset>, asset: Asset)
    ensures
        assets_view(assets.push(asset)) == assets_view(assets).push(asset_view(asset)),
{
    assert(assets.push(asset).drop_last() =~= assets);
}

proof fn lemma_writes_index(writes: Seq<Write>)
    ensures
        writes_view(writes).len() == writes.len(),
        forall|i: int| 0 <= i < writes.len() ==> #[trigger] writes_view(writes)[i] == writes[i]@,
    decreases writes.len(),
{
    if writes.len() > 0 {
        lemma_writes_index(writes.drop_last());
    }
}

proof fn lemma_dir_views(path: String, entries: Vec<Asset>, writes: Vec<Write>)
    ensures
        asset_view(Asset::Dir { path, entries }) == Carried::Dir(path@, assets_view(entries@)),
        write_view(Write::Dir { target: path, writes }) == WriteView::Dir(
            path@,
            writes_view(writes@),
        ),
{
    reveal_with_fuel(asset_view, 2);
    reveal_with_fuel(assets_view, 2);
    reveal_with_fuel(write_view, 2);
    reveal_with_fuel(writes_view, 2);
}

/// A path without what the entries' own directory is called.
pub open spec fn stripped(path: Seq<char>, root: Seq<char>) -> Seq<char> {
    match paths::path_behind(path, root) {
        Some(rest) => rest,
        None => path,
    }
}

fn strip_root(path: &str, root: &str) -> (r: String)
    ensures
        r@ == stripped(path@, root@),
{
    match strip_path(path, root) {
        Some(rest) => rest,
        None => path.to_owned(),
    }
}

/// A file that is carried but never written: what a file manager leaves behind.
pub open spec fn excluded(path: Seq<char>) -> bool {
    paths::file_name(path) == Some(".DS_Store"@)
}

/// Whether a file is carried but never written.
pub fn is_excluded(path: &str) -> (r: bool)
    ensures
        r == excluded(path@),
{
    match file_name_of(path) {
        Some(name) => same(name.as_str(), ".DS_Store"),
        None => false,
    }
}

/// The steps that write what a directory holds, in its order. Every file is written but those that
/// are excluded.
pub open spec fn planned(carried: Seq<Carried>, root: Seq<char>) -> Seq<WriteView>
    decreases carried,
{
    if carried.len() == 0 {
        Seq::empty()
    } else {
        let before = planned(carried.drop_last(), root);
        match carried.last() {
            Carried::File(path, bytes) => if excluded(path) {
                before
            } else {
                before.push(WriteView::File(stripped(path, root), bytes))
            },
            Carried::Dir(path, inner) => before.push(
                WriteView::Dir(stripped(path, root), planned(inner, path)),
            ),
        }
    }
}

/// What is written into a directory for what the program carries of it: the steps that replace
/// whatever stands there. Behind them goes every name that `unexpected` finds.
pub fn write_dir(entries: &Vec<Asset>, root: &str) -> (r: Vec<Write>)
    ensures
        writes_view(r@) == planned(assets_view(entries@), root@),
    decreases entries,
{
    let mut out: Vec<Write> = Vec::new();
    assert(entries@.take(0) =~= Seq::empty());
    for i in 0..entries.len()
        invariant
            writes_view(out@) == planned(assets_view(entries@.take(i as int)), root@),
    {
        let ghost sofar = entries@.take(i as int);
        proof {
            assert(entries@.take(i + 1) =~= sofar.push(entries@[i as int]));
            lemma_assets_push(sofar, entries@[i as int]);
            let next = assets_view(sofar).push(asset_view(entries@[i as int]));
            assert(next.drop_last() =~= assets_view(sofar));
            assert(decreases_to!(entries@ => entries@[i as int]));
        }
        match &entries[i] {
            Asset::File { path, bytes } => {
                if !is_excluded(path.as_str()) {
                    let write = Write::File {
                        target: strip_root(path.as_str(), root),
                        bytes: bytes.clone(),
                    };
                    proof {
                        lemma_writes_push(out@, write);
                        assert(write->File_bytes@ =~= bytes@);
                    }
                    out.push(write);
                }
            },
            Asset::Dir { path, entries: inner } => {
                assert(decreases_to!(entries@[i as int] => entries@[i as int]->Dir_entries));
                let writes = write_dir(inner, path.as_str());
                let target = strip_root(path.as_str(), root);
                proof {
                    lemma_dir_views(*path, *inner, writes);
                    lemma_dir_views(target, *inner, writes);
                }
                let write = Write::Dir { target, writes };
                proof {
                    lemma_writes_push(out@, write);
                }
                out.push(write);
            },
        }
    }
    assert(entries@.take(entries@.len() as int) =~= entries@);
    out
}

/// The names that are to stand in a directory once the steps are done.
pub open spec fn names(writes: Seq<WriteView>) -> Seq<Seq<char>>
    decreases writes.len(),
{
    if writes.len() == 0 {
        Seq::empty()
    } else {
        let before = names(writes.drop_last());
        match paths::file_name(writes.last().target()) {
            Some(name) => before.push(name),
            None => before,
        }
    }
}

/// The names that are to stand in a directory once the steps are done.
pub fn expected_names(writes: &Vec<Write>) -> (r: Vec<String>)
    ensures
        text::texts(r@) == names(writes_view(writes@)),
{
    let ghost all = writes_view(writes@);
    let mut out: Vec<String> = Vec::new();
    proof {
        lemma_writes_index(writes@);
        assert(all.take(0) =~= Seq::empty());
        assert(text::texts(out@) =~= Seq::empty());
    }
    for i in 0..writes.len()
        invariant
            all == writes_view(writes@),
            all.len() == writes@.len(),
            forall|j: int| 0 <= j < writes@.len() ==> #[trigger] all[j] == writes@[j]@,
            text::texts(out@) == names(all.take(i as int)),
    {
        proof {
            assert(all.take(i + 1).drop_last() =~= all.take(i as int));
            assert(all.take(i + 1).last() == all[i as int]);
        }
        let target = match &writes[i] {
            Write::File { target, .. } => target,
            Write::Dir { target, .. } => target,
        };
        assert(target@ == all[i as int].target());
        if let Some(name) = file_name_of(target.as_str()) {
            proof {
                text::lemma_texts_push(out@, name);
            }
            out.push(name);
        }
    }
    assert(all.take(writes@.len() as int) =~= all);
    out
}

fn listed(names: &Vec<String>, name: &str) -> (r: bool)
    ensures
        r == text::texts(names@).contains(name@),
{
    proof {
        text::lemma_texts_index(names@);
    }
    for i in 0..names.len()
        invariant
            text::texts(names@).len() == names@.len(),
            forall|j: int|
                0 <= j < names@.len() ==> #[trigger] text::texts(names@)[j] == names@[j]@,
            forall|j: int| 0 <= j < i ==> #[trigger] text::texts(names@)[j] != name@,
    {
        if same(names[i].as_str(), name) {
            assert(text::texts(names@)[i as int] == name@);
            return true;
        }
        assert(text::texts(names@)[i as int] != name@);
    }
    false
}

/// The names in a directory that are not to stand there.
pub open spec fn leftovers(found: Seq<Seq<char>>, expected: Seq<Seq<char>>) -> Seq<Seq<char>> {
    model::picked(found, |name: Seq<char>| !expected.contains(name))
}

/// The names in a directory that are not to stand there, which are removed from it.
pub fn unexpected(found: &Vec<String>, expected: &Vec<String>) -> (r: Vec<String>)
    ensures
        text::texts(r@) == leftovers(text::texts(found@), text::texts(expected@)),
{
    let ghost all = text::texts(found@);
    let ghost pick = |name: Seq<char>| !text::texts(expected@).contains(name);
    let mut out: Vec<String> = Vec::new();
    proof {
        text::lemma_texts_index(found@);
        assert(all.take(0) =~= Seq::empty());
        assert(text::texts(out@) =~= Seq::empty());
    }
    for i in 0..found.len()
        invariant
            all.len() == found@.len(),
            forall|j: int| 0 <= j < found@.len() ==> (#[trigger] found@[j])@ == all[j],
            pick == (|name: Seq<char>| !text::texts(expected@).contains(name)),
            text::texts(out@) == model::picked(all.take(i as int), pick),
    {
        proof {
            assert(all.take(i + 1).drop_last() =~= all.take(i as int));
            assert(all.take(i + 1).last() == found@[i as int]@);
        }
        if !listed(expected, found[i].as_str()) {
            let name = found[i].clone();
            proof {
                text::lemma_texts_push(out@, name);
            }
            out.push(name);
        }
    }
    assert(all.take(found@.len() as int) =~= all);
    out
}

/// The id of an extension is always one that a manifest may authorise.
pub proof fn law_ids_are_valid(manifest: JsonView)
    ensures
        manifest_id(manifest) matches Some(id) ==> nm_host::is_extension_id(id),
{
    if let Some(id) = manifest_id(manifest) {
        assert forall|i: int| 0 <= i < id.len() implies nm_host::is_id_char(#[trigger] id[i]) by {
        }
    }
}

/// What stands in a directory afterwards is what the program carries: of the names that are found
/// there, none is left that is not expected, and none that is expected goes.
pub proof fn law_nothing_lingers(found: Seq<Seq<char>>, expected: Seq<Seq<char>>, name: Seq<char>)
    requires
        found.contains(name),
    ensures
        leftovers(found, expected).contains(name) <==> !expected.contains(name),
    decreases found.len(),
{
    let pick = |n: Seq<char>| !expected.contains(n);
    let front = found.drop_last();
    let before = leftovers(front, expected);
    let k = choose|k: int| 0 <= k < found.len() && found[k] == name;
    if front.contains(name) {
        law_nothing_lingers(front, expected, name);
        if before.contains(name) {
            let j = choose|j: int| 0 <= j < before.len() && before[j] == name;
            assert(leftovers(found, expected)[j] == name);
        } else if leftovers(found, expected).contains(name) {
            let j = choose|j: int|
                0 <= j < leftovers(found, expected).len() && leftovers(found, expected)[j] == name;
            assert(j < before.len() ==> before[j] == name);
        }
    } else {
        assert(k == found.len() - 1) by {
            if k < front.len() {
                assert(front[k] == name);
            }
        }
        lemma_leftovers_are_found(front, expected);
        if expected.contains(name) {
            assert(leftovers(found, expected) == before);
        } else {
            assert(leftovers(found, expected) == before.push(name));
            assert(before.push(name)[before.len() as int] == name);
        }
    }
}

proof fn lemma_leftovers_are_found(found: Seq<Seq<char>>, expected: Seq<Seq<char>>)
    ensures
        forall|name: Seq<char>| #[trigger]
            leftovers(found, expected).contains(name) ==> found.contains(name),
    decreases found.len(),
{
    if found.len() > 0 {
        let front = found.drop_last();
        lemma_leftovers_are_found(front, expected);
        assert forall|name: Seq<char>| #[trigger]
            leftovers(found, expected).contains(name) implies found.contains(name) by {
            let j = choose|j: int|
                0 <= j < leftovers(found, expected).len() && leftovers(found, expected)[j] == name;
            if j < leftovers(front, expected).len() {
                assert(leftovers(front, expected)[j] == name);
                assert(leftovers(front, expected).contains(name));
                let k = choose|k: int| 0 <= k < front.len() && front[k] == name;
                assert(found[k] == name);
            } else {
                assert(found[found.len() - 1] == name);
            }
        }
    }
}

/// What stands on disk under a name.
pub enum Node {
    File(Seq<u8>),
    Dir(Map<Seq<char>, Node>),
}

/// The name of what is carried in its directory.
pub open spec fn name_in(c: Carried, root: Seq<char>) -> Option<Seq<char>> {
    paths::file_name(stripped(c.path(), root))
}

/// Whether everything that is carried stands right under its directory, under a name of its own.
pub open spec fn is_tree(carried: Seq<Carried>, root: Seq<char>) -> bool
    decreases carried,
{
    carried.len() > 0 ==> {
        let front = carried.drop_last();
        &&& is_tree(front, root)
        &&& name_in(carried.last(), root) == Some(stripped(carried.last().path(), root))
        &&& forall|i: int|
            0 <= i < front.len() ==> name_in(#[trigger] front[i], root) != name_in(
                carried.last(),
                root,
            )
        &&& match carried.last() {
            Carried::File(..) => true,
            Carried::Dir(path, inner) => is_tree(inner, path),
        }
    }
}

/// What stands in a directory that holds what is carried of it and nothing else: every directory,
/// and every file that is not excluded, with its bytes.
pub open spec fn tree(carried: Seq<Carried>, root: Seq<char>) -> Map<Seq<char>, Node>
    decreases carried,
{
    if carried.len() == 0 {
        Map::empty()
    } else {
        let before = tree(carried.drop_last(), root);
        match (carried.last(), name_in(carried.last(), root)) {
            (_, None) => before,
            (Carried::File(path, bytes), Some(name)) => if excluded(path) {
                before
            } else {
                before.insert(name, Node::File(bytes))
            },
            (Carried::Dir(path, inner), Some(name)) => before.insert(
                name,
                Node::Dir(tree(inner, path)),
            ),
        }
    }
}

/// What stands in a directory once the steps have been taken over what stood there. A file
/// replaces a file, and a directory is written into; where one stands in the other's place the
/// write fails.
pub open spec fn laid(writes: Seq<WriteView>, disk: Map<Seq<char>, Node>) -> Option<
    Map<Seq<char>, Node>,
>
    decreases writes, 0int,
{
    if writes.len() == 0 {
        Some(disk)
    } else {
        let w = writes.last();
        match laid(writes.drop_last(), disk) {
            None => None,
            Some(before) => match (w, paths::file_name(w.target())) {
                (_, None) => Some(before),
                (WriteView::File(_, bytes), Some(name)) => if before.contains_key(name)
                    && before[name] is Dir {
                    None
                } else {
                    Some(before.insert(name, Node::File(bytes)))
                },
                (WriteView::Dir(_, inner), Some(name)) => if before.contains_key(name)
                    && before[name] is File {
                    None
                } else {
                    match replaced(inner, standing(before, name)) {
                        None => None,
                        Some(now) => Some(before.insert(name, Node::Dir(now))),
                    }
                },
            },
        }
    }
}

/// What stands in the directory of a name: nothing where there is none yet.
pub open spec fn standing(disk: Map<Seq<char>, Node>, name: Seq<char>) -> Map<Seq<char>, Node> {
    if disk.contains_key(name) {
        disk[name]->Dir_0
    } else {
        Map::empty()
    }
}

/// What is left of a directory once everything has gone that is not to stand there.
pub open spec fn pruned(disk: Map<Seq<char>, Node>, expected: Seq<Seq<char>>) -> Map<
    Seq<char>,
    Node,
> {
    disk.restrict(expected.to_set())
}

/// What stands in a directory once the steps have been taken and the rest has gone; `None` where
/// the write fails.
pub open spec fn replaced(writes: Seq<WriteView>, disk: Map<Seq<char>, Node>) -> Option<
    Map<Seq<char>, Node>,
>
    decreases writes, 1int,
{
    match laid(writes, disk) {
        None => None,
        Some(now) => Some(pruned(now, names(writes))),
    }
}

/// What the steps put in place.
spec fn put(writes: Seq<WriteView>) -> Map<Seq<char>, Node>
    decreases writes,
{
    if writes.len() == 0 {
        Map::empty()
    } else {
        let before = put(writes.drop_last());
        match (writes.last(), paths::file_name(writes.last().target())) {
            (_, None) => before,
            (WriteView::File(_, bytes), Some(name)) => before.insert(name, Node::File(bytes)),
            (WriteView::Dir(_, inner), Some(name)) => before.insert(name, Node::Dir(put(inner))),
        }
    }
}

/// What the planned steps put in place is what is carried.
proof fn lemma_put_is_tree(carried: Seq<Carried>, root: Seq<char>)
    ensures
        put(planned(carried, root)) == tree(carried, root),
    decreases carried,
{
    if carried.len() > 0 {
        let before = planned(carried.drop_last(), root);
        lemma_put_is_tree(carried.drop_last(), root);
        match carried.last() {
            Carried::File(path, bytes) => {
                let w = WriteView::File(stripped(path, root), bytes);
                assert(before.push(w).drop_last() =~= before);
            },
            Carried::Dir(path, inner) => {
                lemma_put_is_tree(inner, path);
                let w = WriteView::Dir(stripped(path, root), planned(inner, path));
                assert(before.push(w).drop_last() =~= before);
            },
        }
    }
}

/// The names that are to stand in a directory are those that something is put under.
proof fn lemma_names_are_put(writes: Seq<WriteView>, name: Seq<char>)
    ensures
        names(writes).contains(name) <==> put(writes).contains_key(name),
    decreases writes.len(),
{
    if writes.len() > 0 {
        let front = writes.drop_last();
        lemma_names_are_put(front, name);
        let known = names(front);
        if let Some(own) = paths::file_name(writes.last().target()) {
            assert(names(writes) == known.push(own));
            if known.contains(name) {
                let j = choose|j: int| 0 <= j < known.len() && known[j] == name;
                assert(known.push(own)[j] == name);
            }
            assert(known.push(own)[known.len() as int] == own);
            if known.push(own).contains(name) && own != name {
                let j = choose|j: int|
                    0 <= j < known.push(own).len() && known.push(own)[j] == name;
                assert(known[j] == name);
            }
        }
    }
}

/// Whatever stood there before, a name holds what was put under it once the steps have been
/// taken; no other name is touched.
proof fn lemma_laid(writes: Seq<WriteView>, disk: Map<Seq<char>, Node>, name: Seq<char>)
    ensures
        laid(writes, disk) matches Some(now) ==> if put(writes).contains_key(name) {
            now.contains_key(name) && now[name] == put(writes)[name]
        } else {
            now.contains_key(name) == disk.contains_key(name) && (disk.contains_key(name)
                ==> now[name] == disk[name])
        },
    decreases writes, 0int,
{
    if writes.len() > 0 {
        let front = writes.drop_last();
        lemma_laid(front, disk, name);
        if let Some(before) = laid(front, disk) {
            if let WriteView::Dir(_, inner) = writes.last() {
                if let Some(own) = paths::file_name(writes.last().target()) {
                    lemma_replaced(inner, standing(before, own));
                }
            }
        }
    }
}

proof fn lemma_replaced(writes: Seq<WriteView>, disk: Map<Seq<char>, Node>)
    ensures
        replaced(writes, disk) matches Some(now) ==> now == put(writes),
    decreases writes, 1int,
{
    if let Some(now) = laid(writes, disk) {
        let whole = put(writes);
        let left = pruned(now, names(writes));
        assert forall|name: Seq<char>| #[trigger]
            left.contains_key(name) == whole.contains_key(name) by {
            lemma_laid(writes, disk, name);
            lemma_names_are_put(writes, name);
        }
        assert forall|name: Seq<char>| #[trigger] whole.contains_key(name) implies left[name]
            == whole[name] by {
            lemma_laid(writes, disk, name);
            assert(left.contains_key(name) == whole.contains_key(name));
        }
        assert(left =~= whole);
    }
}

proof fn lemma_tree_is_named(carried: Seq<Carried>, root: Seq<char>, name: Seq<char>)
    ensures
        tree(carried, root).contains_key(name) ==> exists|i: int|
            0 <= i < carried.len() && name_in(#[trigger] carried[i], root) == Some(name),
    decreases carried.len(),
{
    if carried.len() > 0 {
        let front = carried.drop_last();
        lemma_tree_is_named(front, root, name);
        assert(carried.last() == carried[carried.len() - 1]);
        if tree(front, root).contains_key(name) {
            let i = choose|i: int|
                0 <= i < front.len() && name_in(#[trigger] front[i], root) == Some(name);
            assert(name_in(carried[i], root) == Some(name));
        }
    }
}

/// Where nothing stands in the way a write succeeds: under each name there is nothing yet, or just
/// what is carried.
proof fn lemma_lays(carried: Seq<Carried>, root: Seq<char>, disk: Map<Seq<char>, Node>)
    requires
        is_tree(carried, root),
        forall|name: Seq<char>| #[trigger]
            tree(carried, root).contains_key(name) && disk.contains_key(name) ==> disk[name]
                == tree(carried, root)[name],
    ensures
        laid(planned(carried, root), disk) is Some,
    decreases carried,
{
    if carried.len() > 0 {
        let front = carried.drop_last();
        let c = carried.last();
        let own = name_in(c, root)->0;
        lemma_tree_is_named(front, root, own);
        assert(!tree(front, root).contains_key(own));
        assert forall|name: Seq<char>| #[trigger]
            tree(front, root).contains_key(name) && disk.contains_key(name) implies disk[name]
            == tree(front, root)[name] by {
            assert(tree(carried, root).contains_key(name));
        }
        lemma_lays(front, root, disk);
        lemma_put_is_tree(front, root);
        let steps = planned(front, root);
        lemma_laid(steps, disk, own);
        let before = laid(steps, disk)->0;
        match c {
            Carried::File(path, bytes) => {
                if !excluded(path) {
                    let w = WriteView::File(stripped(path, root), bytes);
                    assert(steps.push(w).drop_last() =~= steps);
                    assert(tree(carried, root).contains_key(own));
                    assert(before.contains_key(own) ==> before[own] is File);
                }
            },
            Carried::Dir(path, inner) => {
                let w = WriteView::Dir(stripped(path, root), planned(inner, path));
                assert(steps.push(w).drop_last() =~= steps);
                assert(tree(carried, root).contains_key(own));
                assert(before.contains_key(own) ==> before[own] == Node::Dir(tree(inner, path)));
                lemma_lays(inner, path, standing(before, own));
                assert(replaced(planned(inner, path), standing(before, own)) is Some);
            },
        }
    }
}

/// What is written depends on what is carried alone: whatever stood in the directory before, of
/// this version or of any other, a write that succeeds leaves what is carried, file by file and
/// directory by directory, and nothing else.
pub proof fn law_written_is_what_is_carried(
    carried: Seq<Carried>,
    root: Seq<char>,
    disk: Map<Seq<char>, Node>,
)
    requires
        is_tree(carried, root),
    ensures
        replaced(planned(carried, root), disk) matches Some(now) ==> now == tree(carried, root),
{
    lemma_replaced(planned(carried, root), disk);
    lemma_put_is_tree(carried, root);
}

/// Into a directory that is empty a write succeeds, and a second write succeeds too and leaves what
/// the first one wrote.
pub proof fn law_writing_again_changes_nothing(carried: Seq<Carried>, root: Seq<char>)
    requires
        is_tree(carried, root),
    ensures
        replaced(planned(carried, root), Map::empty()) == Some(tree(carried, root)),
        replaced(planned(carried, root), tree(carried, root)) == Some(tree(carried, root)),
{
    lemma_lays(carried, root, Map::empty());
    law_written_is_what_is_carried(carried, root, Map::empty());
    lemma_lays(carried, root, tree(carried, root));
    law_written_is_what_is_carried(carried, root, tree(carried, root));
}

/// What is carried is written verbatim: every directory, and every file with the very bytes that
/// are carried. Only what is excluded is not there.
pub proof fn law_tree_is_verbatim(carried: Seq<Carried>, root: Seq<char>, i: int)
    requires
        is_tree(carried, root),
        0 <= i < carried.len(),
    ensures
        name_in(carried[i], root) matches Some(name) && match carried[i] {
            Carried::File(path, bytes) => if excluded(path) {
                !tree(carried, root).contains_key(name)
            } else {
                tree(carried, root).contains_key(name) && tree(carried, root)[name] == Node::File(
                    bytes,
                )
            },
            Carried::Dir(path, inner) => tree(carried, root).contains_key(name) && tree(
                carried,
                root,
            )[name] == Node::Dir(tree(inner, path)),
        },
    decreases carried.len(),
{
    let front = carried.drop_last();
    if i < front.len() {
        law_tree_is_verbatim(front, root, i);
        assert(front[i] == carried[i]);
    } else {
        lemma_tree_is_named(front, root, name_in(carried.last(), root)->0);
    }
}

/// What goes is what is found and not to stand there: however a directory lists its names, taking
/// away the unexpected ones leaves just what is to stand there.
pub proof fn law_pruning_takes_the_leftovers(
    disk: Map<Seq<char>, Node>,
    found: Seq<Seq<char>>,
    expected: Seq<Seq<char>>,
)
    requires
        forall|name: Seq<char>| #[trigger] disk.contains_key(name) <==> found.contains(name),
    ensures
        disk.remove_keys(leftovers(found, expected).to_set()) == pruned(disk, expected),
{
    let rest = disk.remove_keys(leftovers(found, expected).to_set());
    assert forall|name: Seq<char>| rest.contains_key(name) == pruned(disk, expected).contains_key(
        name,
    ) by {
        if disk.contains_key(name) {
            law_nothing_lingers(found, expected, name);
        }
    }
    assert(rest =~= pruned(disk, expected));
}

/// The id that a browser gives an extension spells the first 16 bytes of the digest of its key, two
/// letters a byte, the upper four bits first, from `a` for none to `p` for all of them.
pub proof fn law_ids_spell_the_digest(digest: Vec<u8>, r: String, i: int)
    requires
        digest@.len() >= 16,
        call_ensures(id_from_digest, (&digest,), r),
        0 <= i < 16,
    ensures
        r@.len() == 32,
        'a' <= r@[2 * i] <= 'p',
        'a' <= r@[2 * i + 1] <= 'p',
        (r@[2 * i] as int - 'a' as int) * 16 + (r@[2 * i + 1] as int - 'a' as int) == digest@[i],
{
    let b = digest@[i] as int;
    assert((2 * i) / 2 == i && (2 * i) % 2 == 0);
    assert((2 * i + 1) / 2 == i && (2 * i + 1) % 2 == 1);
    assert(r@[2 * i] == id_letter(b / 16));
    assert(r@[2 * i + 1] == id_letter(b % 16));
    assert(b == (b / 16) * 16 + b % 16);
}

/// An extension has an id exactly where its manifest pins a key that can be decoded; the id is that of
/// the digest of what was decoded. Its version is what the manifest says.
pub proof fn law_manifests_pin_ids_and_versions(
    manifest: Json,
    id: Option<String>,
    version: Option<String>,
    content: &str,
    of_text: Option<String>,
    version_of_text: Option<String>,
)
    requires
        call_ensures(id_of_manifest, (&manifest,), id),
        call_ensures(version_of, (&manifest,), version),
        json::parsed_json(content@) == Ok::<JsonView, Seq<char>>(manifest@),
        call_ensures(expected_extension_id, (content,), of_text),
        call_ensures(expected_extension_version, (content,), version_of_text),
    ensures
        match manifest@.get("key"@) {
            Some(JsonView::Str(key)) => {
                &&& id is Some <==> codec::base64_bytes(key) is Ok
                &&& id matches Some(i) ==> forall|digest: Vec<u8>, spelt: String|
                    digest@ == codec::sha256_digest(codec::base64_bytes(key)->Ok_0)
                        && #[trigger] call_ensures(id_from_digest, (&digest,), spelt) ==> i@
                        == spelt@
            },
            _ => id is None,
        },
        match manifest@.get("version"@) {
            Some(JsonView::Str(v)) => version is Some && version->0@ == v,
            _ => version is None,
        },
        of_text is Some <==> id is Some,
        id matches Some(i) ==> of_text->0@ == i@,
        version_of_text is Some <==> version is Some,
        version matches Some(v) ==> version_of_text->0@ == v@,
{
}

/// Of the files that are carried only those that a file manager leaves behind are not written: they
/// are known by their name, in whatever directory they stand.
pub proof fn law_only_leavings_are_excluded(dir: Seq<char>, name: Seq<char>, path: &str, r: bool)
    requires
        path@ == dir + seq!['/'] + name,
        name.len() > 2,
        forall|i: int| 0 <= i < name.len() ==> #[trigger] name[i] != '/',
        call_ensures(is_excluded, (path,), r),
    ensures
        r <==> name == ".DS_Store"@,
{
    paths::lemma_named(dir, name);
}

/// What is not to stand in a directory is exactly what is found there under a name that no step puts
/// anything under.
pub proof fn law_the_unexpected_goes(
    found: Vec<String>,
    expected: Vec<String>,
    r: Vec<String>,
    name: Seq<char>,
)
    requires
        call_ensures(unexpected, (&found, &expected), r),
    ensures
        (exists|i: int| 0 <= i < r@.len() && (#[trigger] r@[i])@ == name) <==> {
            &&& exists|i: int| 0 <= i < found@.len() && (#[trigger] found@[i])@ == name
            &&& !(exists|i: int| 0 <= i < expected@.len() && (#[trigger] expected@[i])@ == name)
        },
{
    lemma_holds_text(r@, name);
    lemma_holds_text(found@, name);
    lemma_holds_text(expected@, name);
    let all = text::texts(found@);
    if all.contains(name) {
        law_nothing_lingers(all, text::texts(expected@), name);
    }
    lemma_leftovers_are_found(all, text::texts(expected@));
}

proof fn lemma_holds_text(list: Seq<String>, name: Seq<char>)
    ensures
        text::texts(list).contains(name) <==> exists|i: int|
            0 <= i < list.len() && (#[trigger] list[i])@ == name,
{
    text::lemma_texts_index(list);
    if text::texts(list).contains(name) {
        let i = choose|i: int| 0 <= i < text::texts(list).len() && text::texts(list)[i] == name;
        assert(list[i]@ == name);
    }
    if exists|i: int| 0 <= i < list.len() && (#[trigger] list[i])@ == name {
        let i = choose|i: int| 0 <= i < list.len() && (#[trigger] list[i])@ == name;
        assert(text::texts(list)[i] == name);
    }
}

/// The names that are to stand in a directory are the last parts of what is written into it.
pub proof fn law_expected_names_are_those_written(writes: Vec<Write>, r: Vec<String>, name: Seq<char>)
    requires
        call_ensures(expected_names, (&writes,), r),
    ensures
        text::texts(r@).contains(name) <==> exists|i: int|
            0 <= i < writes@.len() && paths::file_name(
                match #[trigger] writes@[i] {
                    Write::File { target, .. } => target@,
                    Write::Dir { target, .. } => target@,
                },
            ) == Some(name),
{
    let all = writes_view(writes@);
    lemma_names(all, name);
    lemma_writes_index(writes@);
    assert forall|i: int| 0 <= i < writes@.len() implies (#[trigger] all[i]).target() == (
    match writes@[i] {
        Write::File { target, .. } => target@,
        Write::Dir { target, .. } => target@,
    }) by {
        assert(all[i] == writes@[i]@);
    }
    if exists|i: int| 0 <= i < all.len() && paths::file_name(#[trigger] all[i].target()) == Some(name) {
        let i = choose|i: int|
            0 <= i < all.len() && paths::file_name(#[trigger] all[i].target()) == Some(name);
        assert(paths::file_name(
            match writes@[i] {
                Write::File { target, .. } => target@,
                Write::Dir { target, .. } => target@,
            },
        ) == Some(name));
    }
    if exists|i: int|
        0 <= i < writes@.len() && paths::file_name(
            match #[trigger] writes@[i] {
                Write::File { target, .. } => target@,
                Write::Dir { target, .. } => target@,
            },
        ) == Some(name) {
        let i = choose|i: int|
            0 <= i < writes@.len() && paths::file_name(
                match #[trigger] writes@[i] {
                    Write::File { target, .. } => target@,
                    Write::Dir { target, .. } => target@,
                },
            ) == Some(name);
        assert(paths::file_name(all[i].target()) == Some(name));
    }
}

proof fn lemma_names(writes: Seq<WriteView>, name: Seq<char>)
    ensures
        names(writes).contains(name) <==> exists|i: int|
            0 <= i < writes.len() && paths::file_name(#[trigger] writes[i].target()) == Some(name),
    decreases writes.len(),
{
    if writes.len() > 0 {
        let front = writes.drop_last();
        lemma_names(front, name);
        let before = names(front);
        if names(writes).contains(name) {
            let k = choose|k: int| 0 <= k < names(writes).len() && names(writes)[k] == name;
            if k < before.len() {
                assert(before[k] == name);
                assert(before.contains(name));
                let i = choose|i: int|
                    0 <= i < front.len() && paths::file_name(#[trigger] front[i].target()) == Some(name);
                assert(writes[i].target() == front[i].target());
            } else {
                assert(writes[writes.len() - 1].target() == writes.last().target());
            }
        }
        if exists|i: int|
            0 <= i < writes.len() && paths::file_name(#[trigger] writes[i].target()) == Some(name) {
            let i = choose|i: int|
                0 <= i < writes.len() && paths::file_name(#[trigger] writes[i].target()) == Some(name);
            if i < front.len() {
                assert(front[i].target() == writes[i].target());
                let k = choose|k: int| 0 <= k < before.len() && before[k] == name;
                assert(names(writes)[k] == name);
            } else {
                assert(names(writes)[before.len() as int] == name);
            }
        }
    }
}

} // verus!
