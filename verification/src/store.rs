//! The four operations of the store, without the file system.
//!
//! Each operation is cut where it meets the disk. A save says under which
//! name which text is to be written; a listing takes what a scan of the
//! directory found; a load takes what reading the file gave; a removal takes
//! what the file system answered. What lies between is decided here.

use crate::error::StoreError;
use crate::ident::{
    fresh_id, fresh_prefix, is_decimal_digit, lemma_fresh_id_shape, resolve_id, resolved_id,
};
use crate::json::{
    json_of, member, member_of, parse_text, parsed, render_pretty, rendered, set_member,
    text_member_of, text_value, with_member, Json,
};
use crate::names::{chat_file_name, file_name_of, lemma_file_name_of_stem, record_stem, stem_of};
use crate::order::{models, newest_first, same_order_among_equals, sort_newest_first};
use vstd::prelude::*;
use vstd::string::*;

verus! {

/// What a save has decided: the identifier of the session, the name of its
/// file, and the text to write into it.
#[derive(Debug)]
pub struct SavedChat {
    pub id: String,
    pub file_name: String,
    pub content: String,
}

/// A file that a scan of the store directory found.
#[derive(Debug)]
pub struct ScannedFile {
    /// The name of the file, without its directory.
    pub name: String,
    /// What the file holds, or `None` if it could not be read.
    pub content: Option<String>,
    /// The time at which the file was created, as the JSON number of the
    /// milliseconds since the epoch, or `None` if the file system does not
    /// tell.
    pub created: Option<serde_json::Value>,
}

/// A scanned file as the contracts see it.
pub struct FileModel {
    pub name: Seq<char>,
    pub content: Option<Seq<char>>,
    pub created: Option<Json>,
}

impl View for ScannedFile {
    type V = FileModel;

    open spec fn view(&self) -> FileModel {
        FileModel {
            name: self.name@,
            content: match self.content {
                Some(text) => Some(text@),
                None => None,
            },
            created: match self.created {
                Some(stamp) => Some(json_of(stamp)),
                None => None,
            },
        }
    }
}

/// What each file of a scan is, as the contracts see it.
pub open spec fn file_models(files: Seq<ScannedFile>) -> Seq<FileModel> {
    files.map_values(|file: ScannedFile| file@)
}

/// The document that a save writes: the session with its identifier set
/// under `id`, whatever stood there before.
pub open spec fn saved_doc(session: Json, now_millis: nat) -> Json {
    with_member(session, "id"@, Json::Str(resolved_id(session, now_millis)))
}

/// A document read from a record's file, as a listing shows it. An object
/// gets the stem of the file name under `id`, whatever stood there, and, if
/// it has nothing under `timestamp` and the creation time is known, the
/// creation time under `timestamp`. A document that is no object stays as it
/// is.
pub open spec fn repaired(doc: Json, stem: Seq<char>, created: Option<Json>) -> Json {
    if doc is Object {
        let named = with_member(doc, "id"@, Json::Str(stem));
        match created {
            Some(stamp) => if member_of(named, "timestamp"@) is None {
                with_member(named, "timestamp"@, stamp)
            } else {
                named
            },
            None => named,
        }
    } else {
        doc
    }
}

/// The record that a scanned file contributes to a listing: none if its name
/// is not that of a record, if it could not be read, or if its text is no
/// JSON document; else the repaired document.
pub open spec fn record_of(file: FileModel) -> Option<Json> {
    match (stem_of(file.name), file.content) {
        (Some(stem), Some(text)) => match parsed(text) {
            Ok(doc) => Some(repaired(doc, stem, file.created)),
            Err(_) => None,
        },
        _ => None,
    }
}

/// The records of a scan, in the order of the scan.
pub open spec fn listed(files: Seq<FileModel>) -> Seq<Json> {
    files.filter_map(|file: FileModel| record_of(file))
}

/// Decides a save: under which identifier, into which file and with which
/// text. Nothing is written here; a session that is no object is refused
/// before anything could be.
pub fn save_chat(session: serde_json::Value, now_millis: u128) -> (res: Result<
    SavedChat,
    StoreError,
>)
    ensures
        match res {
            Ok(saved) => {
                &&& json_of(session) is Object
                &&& saved.id@ == resolved_id(json_of(session), now_millis as nat)
                &&& saved.file_name@ == file_name_of(saved.id@)
                &&& rendered(saved_doc(json_of(session), now_millis as nat)) == Ok::<
                    Seq<char>,
                    Seq<char>,
                >(saved.content@)
            },
            Err(StoreError::InvalidFormat) => !(json_of(session) is Object),
            Err(StoreError::IoFailure(message)) => {
                &&& json_of(session) is Object
                &&& rendered(saved_doc(json_of(session), now_millis as nat)) == Err::<
                    Seq<char>,
                    Seq<char>,
                >(message@)
            },
            Err(_) => false,
        },
{
    if !session.is_object() {
        return Err(StoreError::InvalidFormat);
    }
    let id = resolve_id(&session, now_millis);
    let mut doc = session;
    set_member(&mut doc, String::from_str("id"), text_value(id.clone()));
    match render_pretty(&doc) {
        Ok(content) => {
            let file_name = chat_file_name(id.as_str());
            Ok(SavedChat { id, file_name, content })
        },
        Err(message) => Err(StoreError::IoFailure(message)),
    }
}

/// Ends a save once the file system has answered: the identifier if the text
/// was written, else the failure with the message of the file system.
pub fn finish_save(saved: SavedChat, written: Result<(), String>) -> (res: Result<
    String,
    StoreError,
>)
    ensures
        match written {
            Ok(_) => res == Ok::<String, StoreError>(saved.id),
            Err(message) => res == Err::<String, StoreError>(StoreError::IoFailure(message)),
        },
{
    match written {
        Ok(_) => Ok(saved.id),
        Err(message) => Err(StoreError::IoFailure(message)),
    }
}

/// Repairs a document read from a record's file for a listing.
pub fn repair(doc: &mut serde_json::Value, stem: String, created: Option<serde_json::Value>)
    ensures
        json_of(*final(doc)) == repaired(
            json_of(*old(doc)),
            stem@,
            match created {
                Some(stamp) => Some(json_of(stamp)),
                None => None,
            },
        ),
{
    if doc.is_object() {
        set_member(doc, String::from_str("id"), text_value(stem));
        match created {
            Some(stamp) => {
                if member(doc, "timestamp").is_none() {
                    set_member(doc, String::from_str("timestamp"), stamp);
                }
            },
            None => {},
        }
    }
}

/// The record that a scanned file contributes to a listing, if any.
pub fn read_record(file: ScannedFile) -> (res: Option<serde_json::Value>)
    ensures
        match res {
            Some(record) => record_of(file@) == Some(json_of(record)),
            None => record_of(file@) is None,
        },
{
    let ScannedFile { name, content, created } = file;
    match record_stem(name.as_str()) {
        Some(stem) => match content {
            Some(text) => match parse_text(text.as_str()) {
                Ok(doc) => {
                    let mut record = doc;
                    repair(&mut record, stem, created);
                    Some(record)
                },
                Err(_) => None,
            },
            None => None,
        },
        None => None,
    }
}

/// Makes the listing from a scan of the store directory: the records of the
/// scan, newest first, equally recent ones in the order of the scan. A
/// directory that could not be scanned (`None`) gives the empty listing. A
/// file that is no record, could not be read or holds no JSON document is
/// passed over.
pub fn list_chats(scan: Option<Vec<ScannedFile>>) -> (records: Vec<serde_json::Value>)
    ensures
        match scan {
            Some(files) => {
                &&& records@.len() == listed(file_models(files@)).len()
                &&& models(records@).to_multiset() == listed(file_models(files@)).to_multiset()
                &&& same_order_among_equals(models(records@), listed(file_models(files@)))
            },
            None => records@.len() == 0,
        },
        newest_first(models(records@)),
{
    let files = match scan {
        Some(files) => files,
        None => {
            return Vec::new();
        },
    };
    let ghost all = file_models(files@);
    let mut found: Vec<serde_json::Value> = Vec::new();
    assert(all.take(0).filter_map(|file: FileModel| record_of(file)) =~= Seq::<Json>::empty());
    for file in it: files
        invariant
            all == file_models(files@),
            it.seq() == files@,
            models(found@) == listed(all.take(it.index() as int)),
    {
        let ghost before = found@;
        let ghost at = it.index() as int;
        proof {
            all.lemma_filter_map_take_succ(|file: FileModel| record_of(file), at);
            assert(all[at] == file@);
        }
        match read_record(file) {
            Some(record) => {
                found.push(record);
                assert(models(found@) =~= models(before).push(json_of(record)));
            },
            None => {},
        }
    }
    assert(all.take(all.len() as int) =~= all);
    sort_newest_first(found)
}

/// Decides a load from what reading the session's file gave: the document,
/// as it stands in the file; `NotFound` if the file could not be read,
/// whatever the reason; `ParseFailure` with the parser's message if its text
/// is no JSON document.
pub fn load_chat(read: Option<String>) -> (res: Result<serde_json::Value, StoreError>)
    ensures
        match res {
            Ok(doc) => read matches Some(text) && parsed(text@) == Ok::<Json, Seq<char>>(
                json_of(doc),
            ),
            Err(StoreError::NotFound) => read is None,
            Err(StoreError::ParseFailure(message)) => read matches Some(text) && parsed(text@)
                == Err::<Json, Seq<char>>(message@),
            Err(_) => false,
        },
{
    match read {
        Some(text) => match parse_text(text.as_str()) {
            Ok(doc) => Ok(doc),
            Err(message) => Err(StoreError::ParseFailure(message)),
        },
        None => Err(StoreError::NotFound),
    }
}

/// Decides a removal from what the file system answered: done, or the
/// failure with the message of the file system, a missing file included.
pub fn delete_chat(removed: Result<(), String>) -> (res: Result<(), StoreError>)
    ensures
        match removed {
            Ok(_) => res is Ok,
            Err(message) => res == Err::<(), StoreError>(StoreError::IoFailure(message)),
        },
{
    match removed {
        Ok(_) => Ok(()),
        Err(message) => Err(StoreError::IoFailure(message)),
    }
}

/// A session that brings a non-empty string under `id` is saved under it.
pub proof fn lemma_own_id_kept(session: Json, now_millis: nat, id: Seq<char>)
    requires
        member_of(session, "id"@) == Some(Json::Str(id)),
        id.len() > 0,
    ensures
        resolved_id(session, now_millis) == id,
{
}

/// A session that brings no string under `id`, or an empty one, is saved
/// under `chat_` and the time of the save in digits.
pub proof fn lemma_fresh_id_given(session: Json, now_millis: nat)
    requires
        !(member_of(session, "id"@) matches Some(Json::Str(id)) && id.len() > 0),
    ensures
        resolved_id(session, now_millis) == fresh_id(now_millis),
        fresh_id(now_millis).len() > 5,
        fresh_id(now_millis).subrange(0, 5) == fresh_prefix(),
        forall|i: int|
            5 <= i < fresh_id(now_millis).len() ==> is_decimal_digit(
                #[trigger] fresh_id(now_millis)[i],
            ),
{
    lemma_fresh_id_shape(now_millis);
}

/// The document that a save writes is the session with one change: under
/// `id` stands the identifier that the save returns. Every other member is
/// the session's own.
pub proof fn lemma_saved_doc_members(session: Json, now_millis: nat, key: Seq<char>)
    requires
        session is Object,
    ensures
        saved_doc(session, now_millis) is Object,
        member_of(saved_doc(session, now_millis), "id"@) == Some(
            Json::Str(resolved_id(session, now_millis)),
        ),
        key != "id"@ ==> member_of(saved_doc(session, now_millis), key) == member_of(
            session,
            key,
        ),
{
}

/// Whether a document, once written, is read back as itself. The parser
/// does not read every text of the writer back as the document that was
/// written: one nested deeper than the parser descends is written and then
/// refused.
pub open spec fn reads_back(doc: Json) -> bool {
    match rendered(doc) {
        Ok(text) => parsed(text) == Ok::<Json, Seq<char>>(doc),
        Err(_) => true,
    }
}

/// Saving and then loading gives the session back, but for its identifier.
///
/// Let a save of `session` have decided to write `content`, and let the
/// document that it wrote be one that reads back. Then a load that reads
/// `content` returns an object that holds under `id` the identifier that the
/// save returned, and under every other key what the session holds there.
pub proof fn lemma_save_then_load(
    session: Json,
    now_millis: nat,
    content: Seq<char>,
    key: Seq<char>,
)
    requires
        session is Object,
        rendered(saved_doc(session, now_millis)) == Ok::<Seq<char>, Seq<char>>(content),
        reads_back(saved_doc(session, now_millis)),
    ensures
        parsed(content) matches Ok(loaded) && {
            &&& loaded is Object
            &&& text_member_of(loaded, "id"@) == Some(resolved_id(session, now_millis))
            &&& key != "id"@ ==> member_of(loaded, key) == member_of(session, key)
        },
{
    lemma_saved_doc_members(session, now_millis, key);
}

/// A record of a listing that is an object holds under `id` the stem of its
/// file's name, whatever the file holds there.
pub proof fn lemma_record_id_is_stem(file: FileModel)
    ensures
        match record_of(file) {
            Some(doc) => doc is Object ==> stem_of(file.name) == text_member_of(doc, "id"@),
            None => true,
        },
{
    reveal_strlit("id");
    reveal_strlit("timestamp");
    assert("id"@ != "timestamp"@) by {
        assert("id"@.len() == 2);
        assert("timestamp"@.len() == 9);
    }
}

/// A listing of two scans, one after the other, is the listing of the first
/// followed by that of the second.
pub proof fn lemma_listed_in_parts(first: Seq<FileModel>, second: Seq<FileModel>)
    ensures
        listed(first + second) == listed(first) + listed(second),
    decreases second.len(),
{
    let f = |file: FileModel| record_of(file);
    if second.len() == 0 {
        assert(first + second =~= first);
        assert(listed(first) + listed(second) =~= listed(first));
    } else {
        lemma_listed_in_parts(first, second.drop_last());
        assert((first + second).drop_last() =~= first + second.drop_last());
        assert((first + second).last() == second.last());
        match f(second.last()) {
            Some(doc) => {
                assert(listed(first + second) =~= listed(first) + listed(second));
            },
            None => {},
        }
    }
}

/// A file that gives no record (it is no record by its name, could not be
/// read, or holds no JSON document) changes nothing in a listing: the files
/// before it and after it give what they give without it.
pub proof fn lemma_listing_passes_over(
    before: Seq<FileModel>,
    file: FileModel,
    after: Seq<FileModel>,
)
    requires
        record_of(file) is None,
    ensures
        listed(before + seq![file] + after) == listed(before + after),
{
    lemma_listed_in_parts(before + seq![file], after);
    lemma_listed_in_parts(before, seq![file]);
    lemma_listed_in_parts(before, after);
    Seq::lemma_filter_map_singleton(file, |file: FileModel| record_of(file));
    assert(listed(before) + Seq::<Json>::empty() =~= listed(before));
}

/// A file that gives a record gives exactly that one, at its place in the
/// order of the scan.
pub proof fn lemma_listing_takes_up(
    before: Seq<FileModel>,
    file: FileModel,
    after: Seq<FileModel>,
)
    requires
        record_of(file) is Some,
    ensures
        listed(before + seq![file] + after) == listed(before) + seq![record_of(file).unwrap()]
            + listed(after),
{
    lemma_listed_in_parts(before + seq![file], after);
    lemma_listed_in_parts(before, seq![file]);
    Seq::lemma_filter_map_singleton(file, |file: FileModel| record_of(file));
}

/// Every record of a listing comes from a file of the scan, and records
/// stand in the order of their files: for two places of a listing there are
/// two files, the first before the second, that gave the records there.
pub proof fn lemma_records_from_files(files: Seq<FileModel>, a: int, b: int) -> (from: (int, int))
    requires
        0 <= a < b < listed(files).len(),
    ensures
        0 <= from.0 < from.1 < files.len(),
        record_of(files[from.0]) == Some(listed(files)[a]),
        record_of(files[from.1]) == Some(listed(files)[b]),
    decreases files.len(),
{
    let head = files.drop_last();
    if record_of(files.last()) is Some && b == listed(head).len() {
        let i = lemma_record_from_file(head, a);
        (i, files.len() - 1)
    } else {
        lemma_records_from_files(head, a, b)
    }
}

/// Every record of a listing comes from a file of the scan.
pub proof fn lemma_record_from_file(files: Seq<FileModel>, at: int) -> (from: int)
    requires
        0 <= at < listed(files).len(),
    ensures
        0 <= from < files.len(),
        record_of(files[from]) == Some(listed(files)[at]),
    decreases files.len(),
{
    let head = files.drop_last();
    if record_of(files.last()) is Some && at == listed(head).len() {
        files.len() - 1
    } else {
        lemma_record_from_file(head, at)
    }
}

/// Whether no two files of a scan have the same name, as in a directory.
pub open spec fn distinct_names(files: Seq<FileModel>) -> bool {
    forall|i: int, j: int| 0 <= i < j < files.len() ==> files[i].name != files[j].name
}

/// A listing of a directory shows each identifier once: two records that
/// are objects hold different identifiers under `id`. So a session saved
/// twice under one identifier, which both times goes to the same file, is
/// listed once.
pub proof fn lemma_one_record_per_id(files: Seq<FileModel>, a: int, b: int)
    requires
        distinct_names(files),
        0 <= a < b < listed(files).len(),
        listed(files)[a] is Object,
        listed(files)[b] is Object,
    ensures
        text_member_of(listed(files)[a], "id"@) != text_member_of(listed(files)[b], "id"@),
{
    let from = lemma_records_from_files(files, a, b);
    lemma_record_id_is_stem(files[from.0]);
    lemma_record_id_is_stem(files[from.1]);
    lemma_file_name_of_stem(files[from.0].name);
    lemma_file_name_of_stem(files[from.1].name);
}

} // verus!
