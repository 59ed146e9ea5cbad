//! The flat record that carries one identification result to a foreign
//! caller, how it is made, and how it is given back.
//!
//! A record owns every buffer it points to. It is made in one piece or not
//! at all, and it is released in one piece: each string, then the array
//! that holds the extension strings, then the record itself.

use vstd::prelude::*;
use crate::codec::{
    decoded, encodable, foreign, lemma_round_trip, magika_string_free, to_foreign, ForeignString,
};
use crate::error::BoundaryError;

verus! {

/// What the engine knows about a file type, as values this library owns.
#[derive(Debug, PartialEq, Eq)]
pub struct TypeInfo {
    /// The unique name of the type.
    pub label: String,
    /// Its MIME type.
    pub mime_type: String,
    /// The category it belongs to.
    pub group: String,
    /// A description for people to read.
    pub description: String,
    /// The file extensions it goes by, in order of preference.
    pub extensions: Vec<String>,
    /// Whether files of the type are text.
    pub is_text: bool,
}

/// The record handed to a foreign caller: a deep copy of a [`TypeInfo`] in
/// which every text is a foreign string of its own.
#[derive(Debug, PartialEq, Eq)]
pub struct CTypeInfo {
    pub label: ForeignString,
    pub mime_type: ForeignString,
    pub group: ForeignString,
    pub description: ForeignString,
    pub extensions: Vec<ForeignString>,
    pub is_text: bool,
}

/// One allocation that belongs to a record.
#[derive(Clone, Copy, Debug, PartialEq, Eq, Structural)]
pub enum Block {
    Label,
    MimeType,
    Group,
    Description,
    /// The extension string at the given index.
    Extension(usize),
    /// The array that holds the extension strings.
    ExtensionArray,
    /// The record itself.
    Record,
}

/// The block is part of a record with `n` extensions.
pub open spec fn owns(n: nat, block: Block) -> bool {
    match block {
        Block::Extension(i) => i < n,
        _ => true,
    }
}

/// The blocks of a record with `n` extensions, in the order of their release.
pub open spec fn release_order(n: nat) -> Seq<Block>
    recommends
        n <= usize::MAX,
{
    seq![Block::Label, Block::MimeType, Block::Group, Block::Description] + Seq::new(
        n,
        |i: int| Block::Extension(i as usize),
    ) + seq![Block::ExtensionArray, Block::Record]
}

/// What releasing the record behind a pointer reclaims; `None` is the null
/// pointer.
pub open spec fn reclaimed_by_release(ptr: Option<CTypeInfo>) -> Seq<Block> {
    match ptr {
        None => Seq::empty(),
        Some(record) => record.blocks(),
    }
}

impl TypeInfo {
    /// Every text of the value can cross the boundary.
    pub open spec fn marshallable(&self) -> bool {
        &&& encodable(self.label@)
        &&& encodable(self.mime_type@)
        &&& encodable(self.group@)
        &&& encodable(self.description@)
        &&& forall|i: int|
            0 <= i < self.extensions@.len() ==> encodable(#[trigger] self.extensions@[i]@)
    }
}

impl CTypeInfo {
    /// The record is the image of `info`: field by field the foreign string
    /// of the text, the extensions in the same number and order.
    pub open spec fn mirrors(&self, info: &TypeInfo) -> bool {
        &&& self.label@ == foreign(info.label@)
        &&& self.mime_type@ == foreign(info.mime_type@)
        &&& self.group@ == foreign(info.group@)
        &&& self.description@ == foreign(info.description@)
        &&& self.extensions@.len() == info.extensions@.len()
        &&& forall|i: int|
            0 <= i < self.extensions@.len() ==> (#[trigger] self.extensions@[i])@ == foreign(
                info.extensions@[i]@,
            )
        &&& self.is_text == info.is_text
    }

    /// The allocations the record owns, in the order of their release.
    pub open spec fn blocks(&self) -> Seq<Block> {
        release_order(self.extensions@.len())
    }

    /// How many extension strings the record holds.
    pub fn extensions_len(&self) -> (n: usize)
        ensures
            n == self.extensions@.len(),
    {
        self.extensions.len()
    }

    /// The allocations the record owns, in the order of their release.
    pub fn owned_blocks(&self) -> (blocks: Vec<Block>)
        ensures
            blocks@ == self.blocks(),
    {
        plan_release(self.extensions.len())
    }
}

/// Lists the blocks of a record with `n` extensions in release order.
fn plan_release(n: usize) -> (plan: Vec<Block>)
    ensures
        plan@ == release_order(n as nat),
{
    let mut plan: Vec<Block> = Vec::new();
    plan.push(Block::Label);
    plan.push(Block::MimeType);
    plan.push(Block::Group);
    plan.push(Block::Description);
    let ghost head = plan@;
    let mut i: usize = 0;
    while i < n
        invariant
            i <= n,
            head == seq![Block::Label, Block::MimeType, Block::Group, Block::Description],
            plan@ == head + Seq::new(i as nat, |k: int| Block::Extension(k as usize)),
        decreases n - i,
    {
        plan.push(Block::Extension(i));
        i += 1;
        assert(plan@ =~= head + Seq::new(i as nat, |k: int| Block::Extension(k as usize)));
    }
    plan.push(Block::ExtensionArray);
    plan.push(Block::Record);
    assert(plan@ =~= release_order(n as nat));
    plan
}

/// Makes the record for one identification result.
///
/// Each text becomes a foreign string of its own. If any of them holds a
/// NUL, no record is made and what was built up to then is dropped: the
/// caller never sees a partial record.
pub fn convert_typeinfo(info: &TypeInfo) -> (r: Result<CTypeInfo, BoundaryError>)
    ensures
        r is Ok <==> info.marshallable(),
        r matches Ok(record) ==> record.mirrors(info),
        r matches Err(e) ==> e == BoundaryError::Encoding,
{
    let label = match to_foreign(info.label.as_str()) {
        Ok(s) => s,
        Err(e) => {
            return Err(e);
        },
    };
    let mime_type = match to_foreign(info.mime_type.as_str()) {
        Ok(s) => s,
        Err(e) => {
            return Err(e);
        },
    };
    let group = match to_foreign(info.group.as_str()) {
        Ok(s) => s,
        Err(e) => {
            return Err(e);
        },
    };
    let description = match to_foreign(info.description.as_str()) {
        Ok(s) => s,
        Err(e) => {
            return Err(e);
        },
    };
    let mut extensions: Vec<ForeignString> = Vec::new();
    let mut i: usize = 0;
    while i < info.extensions.len()
        invariant
            i <= info.extensions@.len(),
            extensions@.len() == i,
            forall|k: int| 0 <= k < i ==> encodable(#[trigger] info.extensions@[k]@),
            forall|k: int|
                0 <= k < i ==> (#[trigger] extensions@[k])@ == foreign(info.extensions@[k]@),
        decreases info.extensions@.len() - i,
    {
        match to_foreign(info.extensions[i].as_str()) {
            Ok(s) => {
                extensions.push(s);
            },
            Err(e) => {
                assert(!encodable(info.extensions@[i as int]@));
                return Err(e);
            },
        }
        i += 1;
    }
    Ok(CTypeInfo { label, mime_type, group, description, extensions, is_text: info.is_text })
}

/// Releases a record that came from [`convert_typeinfo`] and reports what
/// was reclaimed, in order: the four strings, each extension string, the
/// array of extensions, the record. A null pointer is left alone.
///
/// The record is taken by value: once released, it cannot be named again.
pub fn magika_typeinfo_free(ptr: Option<CTypeInfo>) -> (reclaimed: Vec<Block>)
    ensures
        reclaimed@ == reclaimed_by_release(ptr),
{
    let mut reclaimed: Vec<Block> = Vec::new();
    let record = match ptr {
        Some(record) => record,
        None => {
            return reclaimed;
        },
    };
    let CTypeInfo { label, mime_type, group, description, extensions, is_text: _ } = record;
    magika_string_free(Some(label));
    reclaimed.push(Block::Label);
    magika_string_free(Some(mime_type));
    reclaimed.push(Block::MimeType);
    magika_string_free(Some(group));
    reclaimed.push(Block::Group);
    magika_string_free(Some(description));
    reclaimed.push(Block::Description);
    let ghost head = reclaimed@;
    let n = extensions.len();
    let mut i: usize = 0;
    for extension in it: extensions.into_iter()
        invariant
            i == it.index(),
            it.seq().len() == n,
            head == seq![Block::Label, Block::MimeType, Block::Group, Block::Description],
            reclaimed@ == head + Seq::new(i as nat, |k: int| Block::Extension(k as usize)),
    {
        magika_string_free(Some(extension));
        reclaimed.push(Block::Extension(i));
        i += 1;
        assert(reclaimed@ =~= head + Seq::new(i as nat, |k: int| Block::Extension(k as usize)));
    }
    reclaimed.push(Block::ExtensionArray);
    reclaimed.push(Block::Record);
    assert(reclaimed@ =~= release_order(n as nat));
    reclaimed
}

/// A release reclaims every block of the record, each exactly once, the
/// record itself last: nothing leaks and nothing is freed twice.
pub proof fn lemma_release_exactly_once(n: nat)
    requires
        n <= usize::MAX,
    ensures
        release_order(n).len() == n + 6,
        release_order(n).no_duplicates(),
        forall|block: Block| owns(n, block) <==> release_order(n).contains(block),
        release_order(n).last() == Block::Record,
{
    let order = release_order(n);
    assert forall|block: Block| owns(n, block) implies order.contains(block) by {
        match block {
            Block::Label => {
                assert(order[0] == block);
            },
            Block::MimeType => {
                assert(order[1] == block);
            },
            Block::Group => {
                assert(order[2] == block);
            },
            Block::Description => {
                assert(order[3] == block);
            },
            Block::Extension(i) => {
                assert(order[i as int + 4] == block);
            },
            Block::ExtensionArray => {
                assert(order[n as int + 4] == block);
            },
            Block::Record => {
                assert(order[n as int + 5] == block);
            },
        }
    }
    assert forall|block: Block| order.contains(block) implies owns(n, block) by {
        let k = choose|k: int| 0 <= k < order.len() && order[k] == block;
        assert(order[k] == block);
    }
}

/// Releasing the record made for a result reclaims what making it
/// allocated, no more and no less: the four strings, one string for each
/// extension of the result, the array and the record, each once.
pub proof fn lemma_release_balances_marshal(info: TypeInfo, record: CTypeInfo)
    requires
        record.mirrors(&info),
    ensures
        reclaimed_by_release(Some(record)) == release_order(info.extensions@.len()),
        reclaimed_by_release(Some(record)).len() == info.extensions@.len() + 6,
        reclaimed_by_release(Some(record)).no_duplicates(),
        forall|block: Block|
            owns(info.extensions@.len(), block) <==> reclaimed_by_release(Some(record)).contains(
                block,
            ),
{
    assert(info.extensions.len() == info.extensions@.len());
    lemma_release_exactly_once(info.extensions@.len());
}

/// Every string of a record reads back as the text it was made from, and
/// the record holds as many extensions as the value it mirrors.
pub proof fn lemma_record_round_trip(info: TypeInfo, record: CTypeInfo)
    requires
        info.marshallable(),
        record.mirrors(&info),
    ensures
        record.extensions@.len() == info.extensions@.len(),
        decoded(Some(record.label@)) == Ok::<Seq<char>, BoundaryError>(info.label@),
        decoded(Some(record.mime_type@)) == Ok::<Seq<char>, BoundaryError>(info.mime_type@),
        decoded(Some(record.group@)) == Ok::<Seq<char>, BoundaryError>(info.group@),
        decoded(Some(record.description@)) == Ok::<Seq<char>, BoundaryError>(info.description@),
        forall|i: int|
            0 <= i < info.extensions@.len() ==> decoded(Some((#[trigger] record.extensions@[i])@))
                == Ok::<Seq<char>, BoundaryError>(info.extensions@[i]@),
{
    lemma_round_trip(info.label@);
    lemma_round_trip(info.mime_type@);
    lemma_round_trip(info.group@);
    lemma_round_trip(info.description@);
    assert forall|i: int| 0 <= i < info.extensions@.len() implies decoded(
        Some((#[trigger] record.extensions@[i])@),
    ) == Ok::<Seq<char>, BoundaryError>(info.extensions@[i]@) by {
        lemma_round_trip(info.extensions@[i]@);
    }
}

} // verus!
