//! Names in the store directory.
//!
//! The records live in the directory `chats` under the storage root. A
//! session with identifier `x` lives in the file `x.json`. A file of the
//! directory is a record when the extension of its name is exactly `json`;
//! its stem is then the identifier of the record. Extension and stem are
//! those of paths: the name is split at its last dot.

use vstd::prelude::*;
use vstd::string::*;

verus! {

/// The characters `.json`.
pub open spec fn json_suffix() -> Seq<char> {
    seq!['.', 'j', 's', 'o', 'n']
}

/// The characters `json`.
pub open spec fn json_word() -> Seq<char> {
    seq!['j', 's', 'o', 'n']
}

/// The place of the last dot of a name; -1 where it has none.
pub open spec fn last_dot(name: Seq<char>) -> int
    decreases name.len(),
{
    if name.len() == 0 {
        -1
    } else if name.last() == '.' {
        name.len() - 1
    } else {
        last_dot(name.drop_last())
    }
}

/// The extension of a file name: what follows its last dot. A name without
/// a dot has none, nor has a name whose only dot is its first character, nor
/// the name `..`.
pub open spec fn extension_of(name: Seq<char>) -> Option<Seq<char>> {
    let dot = last_dot(name);
    if dot <= 0 || name == seq!['.', '.'] {
        None
    } else {
        Some(name.skip(dot + 1))
    }
}

/// The stem of a file name: what stands before the dot of its extension, or
/// the whole name where it has no extension. The empty name and the name
/// `..` have none.
pub open spec fn file_stem_of(name: Seq<char>) -> Option<Seq<char>> {
    let dot = last_dot(name);
    if name.len() == 0 || name == seq!['.', '.'] {
        None
    } else if dot <= 0 {
        Some(name)
    } else {
        Some(name.take(dot))
    }
}

/// The name of the file that holds the session with this identifier.
pub open spec fn file_name_of(id: Seq<char>) -> Seq<char> {
    id + json_suffix()
}

/// Whether a file name is that of a record: its extension is `json`, in
/// lower case.
pub open spec fn is_record_name(name: Seq<char>) -> bool {
    extension_of(name) == Some(json_word())
}

/// The stem of a record's file name; `None` for a name that is no record's.
pub open spec fn stem_of(name: Seq<char>) -> Option<Seq<char>> {
    if is_record_name(name) {
        file_stem_of(name)
    } else {
        None
    }
}

/// The last dot of a name is a dot, and no dot follows it.
pub proof fn lemma_last_dot(name: Seq<char>)
    ensures
        -1 <= last_dot(name) < name.len(),
        last_dot(name) >= 0 ==> name[last_dot(name)] == '.',
        forall|i: int| last_dot(name) < i < name.len() ==> name[i] != '.',
    decreases name.len(),
{
    if name.len() > 0 && name.last() != '.' {
        let head = name.drop_last();
        lemma_last_dot(head);
        assert forall|i: int| last_dot(name) < i < name.len() implies name[i] != '.' by {
            if i < head.len() {
                assert(name[i] == head[i]);
            }
        }
    }
}

/// A name is a record's exactly when it ends in `.json` and has at least one
/// character before that; what stands before is its stem.
pub proof fn lemma_record_name_by_suffix(name: Seq<char>)
    ensures
        is_record_name(name) <==> name.len() > 5 && name.skip(name.len() - 5) == json_suffix(),
        is_record_name(name) ==> stem_of(name) == Some(name.take(name.len() - 5)),
{
    lemma_last_dot(name);
    let dot = last_dot(name);
    if is_record_name(name) {
        assert(name.skip(dot + 1).len() == 4);
        assert(dot == name.len() - 5);
        assert(name.skip(name.len() - 5) =~= json_suffix()) by {
            let tail = name.skip(name.len() - 5);
            assert(tail[0] == name[dot]);
            assert forall|i: int| 1 <= i < 5 implies tail[i] == json_suffix()[i] by {
                assert(tail[i] == name.skip(dot + 1)[i - 1]);
            }
        }
    }
    if name.len() > 5 && name.skip(name.len() - 5) == json_suffix() {
        let start = name.len() - 5;
        let tail = name.skip(start);
        assert(name[start] == tail[0]);
        assert(name[start + 1] == tail[1]);
        assert(name[start + 2] == tail[2]);
        assert(name[start + 3] == tail[3]);
        assert(name[start + 4] == tail[4]);
        assert(dot == start);
        assert(name.skip(dot + 1) =~= json_word());
        assert(name != seq!['.', '.']) by {
            assert(seq!['.', '.'].len() == 2);
        }
    }
}

/// The name of the directory, under the storage root, that holds the
/// records.
pub fn chats_directory() -> (name: &'static str)
    ensures
        name@ == "chats"@,
{
    "chats"
}

/// The name of the file that holds the session with this identifier. The
/// identifier is taken as it is: no character of it is checked or replaced.
pub fn chat_file_name(id: &str) -> (name: String)
    ensures
        name@ == file_name_of(id@),
{
    proof {
        reveal_strlit(".json");
    }
    let name = id.to_owned().concat(".json");
    assert(".json"@ =~= json_suffix());
    name
}

/// Whether a file of the store directory is a record, by its name.
pub fn is_record_file(name: &str) -> (res: bool)
    ensures
        res == is_record_name(name@),
{
    proof {
        lemma_record_name_by_suffix(name@);
    }
    let len: usize = name.unicode_len();
    if len <= 5 {
        return false;
    }
    let start: usize = len - 5;
    let matches = name.get_char(start) == '.' && name.get_char(start + 1) == 'j'
        && name.get_char(start + 2) == 's' && name.get_char(start + 3) == 'o' && name.get_char(
        start + 4,
    ) == 'n';
    proof {
        let tail = name@.skip(name@.len() - 5);
        assert(tail.len() == 5);
        assert(forall|i: int| 0 <= i < 5 ==> tail[i] == name@[start + i]);
        if matches {
            assert(tail =~= json_suffix());
        } else {
            assert(tail[0] == name@[start + 0]);
            assert(tail[1] == name@[start + 1]);
            assert(tail[2] == name@[start + 2]);
            assert(tail[3] == name@[start + 3]);
            assert(tail[4] == name@[start + 4]);
        }
    }
    matches
}

/// The identifier under which a file of the store directory is listed: the
/// stem of its name if it is a record, `None` if it is not.
pub fn record_stem(name: &str) -> (res: Option<String>)
    ensures
        match res {
            Some(stem) => stem_of(name@) == Some(stem@),
            None => stem_of(name@) is None,
        },
{
    proof {
        lemma_record_name_by_suffix(name@);
    }
    if is_record_file(name) {
        let len: usize = name.unicode_len();
        let stem = name.substring_char(0, len - 5).to_owned();
        assert(stem@ =~= name@.take(name@.len() - 5));
        Some(stem)
    } else {
        None
    }
}

/// A session is listed under the identifier it was saved with: the stem of
/// `x.json` is `x`, for every identifier `x` that is not empty. The file of
/// the empty identifier, `.json`, is no record.
pub proof fn lemma_stem_of_file_name(id: Seq<char>)
    ensures
        id.len() > 0 ==> stem_of(file_name_of(id)) == Some(id),
        id.len() == 0 ==> stem_of(file_name_of(id)) is None,
{
    let name = file_name_of(id);
    lemma_record_name_by_suffix(name);
    assert(name.len() == id.len() + 5);
    if id.len() > 0 {
        assert(name.skip(name.len() - 5) =~= json_suffix());
        assert(name.take(name.len() - 5) =~= id);
    }
}

/// Two identifiers share a file exactly when they are the same identifier.
pub proof fn lemma_file_name_injective(a: Seq<char>, b: Seq<char>)
    ensures
        file_name_of(a) == file_name_of(b) <==> a == b,
{
    if file_name_of(a) == file_name_of(b) {
        assert(file_name_of(a).len() == a.len() + 5);
        assert(file_name_of(b).len() == b.len() + 5);
        assert(file_name_of(a).take(a.len() as int) =~= a);
        assert(file_name_of(b).take(b.len() as int) =~= b);
    }
}

/// A record's file name is the file name of its stem.
pub proof fn lemma_file_name_of_stem(name: Seq<char>)
    requires
        is_record_name(name),
    ensures
        file_name_of(stem_of(name).unwrap()) == name,
{
    lemma_record_name_by_suffix(name);
    assert(name.take(name.len() - 5) + name.skip(name.len() - 5) =~= name);
}

} // verus!
