//! The saved connections: their passwords are kept Base64-encoded, their
//! ids are given by the user or generated.

use vstd::prelude::*;
use vstd::utf8::*;
use crate::text::{trimmed, trim_str};
use crate::value::utf8_string;
use base64::Engine;

verus! {

/// A connection as the user enters it; `id` is absent for a new one.
#[derive(Debug)]
pub struct ConnectionInput {
    pub id: Option<String>,
    pub name: String,
    pub host: String,
    pub port: u16,
    pub user: String,
    pub password: String,
    pub ssl: Option<bool>,
}

/// A connection as it is kept on disk, its password Base64-encoded.
#[derive(Debug)]
pub struct StoredConnection {
    pub id: String,
    pub name: String,
    pub host: String,
    pub port: u16,
    pub user: String,
    pub password_encrypted: String,
    pub ssl: Option<bool>,
}

/// A connection as the user sees it, its password in clear.
#[derive(Debug)]
pub struct SavedConnection {
    pub id: String,
    pub name: String,
    pub host: String,
    pub port: u16,
    pub user: String,
    pub password: String,
    pub ssl: Option<bool>,
}

/// The content of a connection record; `secret` is the password as the
/// record holds it (encoded in a stored record, in clear in a saved one).
pub struct ConnectionView {
    pub id: Seq<char>,
    pub name: Seq<char>,
    pub host: Seq<char>,
    pub port: u16,
    pub user: Seq<char>,
    pub secret: Seq<char>,
    pub ssl: Option<bool>,
}

impl View for StoredConnection {
    type V = ConnectionView;

    open spec fn view(&self) -> ConnectionView {
        ConnectionView {
            id: self.id@,
            name: self.name@,
            host: self.host@,
            port: self.port,
            user: self.user@,
            secret: self.password_encrypted@,
            ssl: self.ssl,
        }
    }
}

impl DeepView for StoredConnection {
    type V = ConnectionView;

    open spec fn deep_view(&self) -> ConnectionView {
        self@
    }
}

impl View for SavedConnection {
    type V = ConnectionView;

    open spec fn view(&self) -> ConnectionView {
        ConnectionView {
            id: self.id@,
            name: self.name@,
            host: self.host@,
            port: self.port,
            user: self.user@,
            secret: self.password@,
            ssl: self.ssl,
        }
    }
}

impl DeepView for SavedConnection {
    type V = ConnectionView;

    open spec fn deep_view(&self) -> ConnectionView {
        self@
    }
}

/// The standard Base64 text (with padding) that the `base64` crate gives
/// for `bytes`.
pub uninterp spec fn base64_encode(bytes: Seq<u8>) -> Seq<char>;

/// The bytes that the `base64` crate's standard engine decodes from `text`,
/// or none when it refuses the text.
pub uninterp spec fn base64_decode(text: Seq<char>) -> Option<Seq<u8>>;

#[verifier::external_type_specification]
#[verifier::external_body]
pub struct ExDecodeError(base64::DecodeError);

/// Calls `Engine::encode` of `general_purpose::STANDARD` on the UTF-8 bytes
/// of `text`. Claimed: the result is `base64_encode` of those bytes, and the
/// engine decodes it back to those bytes.
#[verifier::external_body]
fn base64_encode_text(text: &str) -> (s: String)
    ensures
        s@ == base64_encode(encode_utf8(text@)),
        base64_decode(s@) == Some(encode_utf8(text@)),
{
    base64::engine::general_purpose::STANDARD.encode(text.as_bytes())
}

/// Calls `Engine::decode` of `general_purpose::STANDARD` on `text`. Claimed:
/// it succeeds exactly when `base64_decode` gives bytes, with those bytes;
/// the text that `encode` gives for some bytes decodes to those bytes; and,
/// as the engine requires canonical padding and no trailing bits, a text it
/// decodes is the one that `encode` gives for the decoded bytes.
#[verifier::external_body]
fn base64_decode_text(text: &str) -> (r: Result<Vec<u8>, base64::DecodeError>)
    ensures
        match r {
            Ok(v) => base64_decode(text@) == Some(v@) && base64_encode(v@) == text@,
            Err(_) => base64_decode(text@) is None,
        },
        forall|b: Seq<u8>| #[trigger] base64_encode(b) == text@ ==> r is Ok && r->Ok_0@ == b,
{
    base64::engine::general_purpose::STANDARD.decode(text)
}

/// The hyphenated text of a version 4 UUID: 36 characters, hyphens at
/// positions 8, 13, 18 and 23, lowercase hexadecimal digits elsewhere, the
/// version digit `4` at position 14.
pub open spec fn is_uuid_text(s: Seq<char>) -> bool {
    &&& s.len() == 36
    &&& forall|i: int| 0 <= i < 36 ==> (if i == 8 || i == 13 || i == 18 || i == 23 {
            #[trigger] s[i] == '-'
        } else {
            ('0' <= s[i] && s[i] <= '9') || ('a' <= s[i] && s[i] <= 'f')
        })
    &&& s[14] == '4'
}

/// Calls `Uuid::new_v4` and formats the result with `to_string`. The value
/// is random; claimed of every outcome: the hyphenated form that
/// `is_uuid_text` describes.
#[verifier::external_body]
fn new_uuid_string() -> (s: String)
    ensures
        is_uuid_text(s@),
{
    uuid::Uuid::new_v4().to_string()
}

/// The stored form of a password: the Base64 text of its UTF-8 bytes.
pub open spec fn encoded_password(password: Seq<char>) -> Seq<char> {
    base64_encode(encode_utf8(password))
}

/// Whether `text` is the stored form of some password.
pub open spec fn is_stored_password(text: Seq<char>) -> bool {
    exists|p: Seq<char>| #[trigger] encoded_password(p) == text
}

/// The password that a stored text gives back: the characters of the bytes
/// it decodes to, empty when it does not decode or the bytes are not UTF-8.
pub open spec fn decoded_password(text: Seq<char>) -> Seq<char> {
    match base64_decode(text) {
        Some(bytes) => if valid_utf8(bytes) { decode_utf8(bytes) } else { Seq::empty() },
        None => Seq::empty(),
    }
}

/// The stored form of a password, as `encoded_password` says; it gives the
/// password back.
pub fn encode_password(password: &str) -> (s: String)
    ensures
        s@ == encoded_password(password@),
        decoded_password(s@) == password@,
{
    proof {
        broadcast use encode_utf8_decode_utf8, encode_utf8_valid_utf8;
    }
    base64_encode_text(password)
}

/// The password that a stored text gives back, as `decoded_password` says;
/// the stored form of a password gives that password back, and a text that
/// is the stored form of no password gives the empty password.
pub fn decode_password(password: &str) -> (s: String)
    ensures
        s@ == decoded_password(password@),
        forall|p: Seq<char>| #[trigger] encoded_password(p) == password@ ==> s@ == p,
        s@.len() == 0 || encoded_password(s@) == password@,
        !is_stored_password(password@) ==> s@.len() == 0,
{
    proof {
        broadcast use encode_utf8_decode_utf8, encode_utf8_valid_utf8, decode_utf8_encode_utf8;
    }
    match base64_decode_text(password) {
        Ok(bytes) => match utf8_string(bytes.as_slice()) {
            Some(s) => s,
            None => String::new(),
        },
        Err(_) => String::new(),
    }
}


/// A record with its stored password replaced by the password it gives back.
pub open spec fn saved_view(c: ConnectionView) -> ConnectionView {
    ConnectionView { secret: decoded_password(c.secret), ..c }
}

/// A stored connection as the user sees it, as `saved_view` says; the stored
/// form of a password gives that password back, and a stored text that is
/// the stored form of no password gives the empty password.
pub fn to_saved(connection: StoredConnection) -> (r: SavedConnection)
    ensures
        r@ == saved_view(connection@),
        forall|p: Seq<char>| #[trigger] encoded_password(p) == connection@.secret ==> r@.secret == p,
        !is_stored_password(connection@.secret) ==> r@.secret.len() == 0,
{
    let password = decode_password(connection.password_encrypted.as_str());
    SavedConnection {
        id: connection.id,
        name: connection.name,
        host: connection.host,
        port: connection.port,
        user: connection.user,
        password,
        ssl: connection.ssl,
    }
}

/// The stored connections as the user sees them, in order, as `saved_view`
/// says; each stored form of a password gives that password back, and a
/// stored text that is the stored form of no password gives the empty one.
pub fn list_connections(stored: Vec<StoredConnection>) -> (r: Vec<SavedConnection>)
    ensures
        r.deep_view() == Seq::new(stored.deep_view().len(), |i: int| saved_view(stored.deep_view()[i])),
        forall|i: int, p: Seq<char>| 0 <= i < r@.len() && #[trigger] encoded_password(p) == stored.deep_view()[i].secret
            ==> #[trigger] r.deep_view()[i].secret == p,
        forall|i: int| 0 <= i < r@.len() && !is_stored_password(stored.deep_view()[i].secret)
            ==> (#[trigger] r.deep_view()[i]).secret.len() == 0,
{
    let ghost v = stored.deep_view();
    // The records are moved out from the back, then put back in their order.
    let mut stored = stored;
    let mut reversed: Vec<SavedConnection> = Vec::new();
    while stored.len() > 0
        invariant
            stored@.len() <= v.len(),
            stored.deep_view() == v.take(stored@.len() as int),
            reversed@.len() == v.len() - stored@.len(),
            forall|k: int| 0 <= k < reversed@.len() ==> #[trigger] reversed@[k]@ == saved_view(v[v.len() - 1 - k]),
            forall|k: int, p: Seq<char>| 0 <= k < reversed@.len() && #[trigger] encoded_password(p) == v[v.len() - 1 - k].secret
                ==> #[trigger] reversed@[k]@.secret == p,
            forall|k: int| 0 <= k < reversed@.len() && !is_stored_password(v[v.len() - 1 - k].secret)
                ==> (#[trigger] reversed@[k])@.secret.len() == 0,
        decreases stored@.len(),
    {
        let ghost n = stored@.len();
        let ghost before = stored@;
        assert(before[n - 1]@ == v[n - 1]) by {
            assert(stored.deep_view()[n - 1] == before[n - 1]@);
        }
        let last = stored.pop().unwrap();
        assert(last == before[n - 1]);
        assert(stored.deep_view() =~= v.take(n - 1));
        reversed.push(to_saved(last));
    }
    let mut r: Vec<SavedConnection> = Vec::new();
    while reversed.len() > 0
        invariant
            reversed@.len() <= v.len(),
            r@.len() == v.len() - reversed@.len(),
            forall|k: int| 0 <= k < reversed@.len() ==> #[trigger] reversed@[k]@ == saved_view(v[v.len() - 1 - k]),
            forall|k: int, p: Seq<char>| 0 <= k < reversed@.len() && #[trigger] encoded_password(p) == v[v.len() - 1 - k].secret
                ==> #[trigger] reversed@[k]@.secret == p,
            forall|k: int| 0 <= k < reversed@.len() && !is_stored_password(v[v.len() - 1 - k].secret)
                ==> (#[trigger] reversed@[k])@.secret.len() == 0,
            forall|k: int| 0 <= k < r@.len() && !is_stored_password(v[k].secret)
                ==> (#[trigger] r@[k])@.secret.len() == 0,
            forall|k: int| 0 <= k < r@.len() ==> #[trigger] r@[k]@ == saved_view(v[k]),
            forall|k: int, p: Seq<char>| 0 <= k < r@.len() && #[trigger] encoded_password(p) == v[k].secret
                ==> #[trigger] r@[k]@.secret == p,
        decreases reversed@.len(),
    {
        let item = reversed.pop().unwrap();
        r.push(item);
    }
    assert(r.deep_view() =~= Seq::new(v.len(), |i: int| saved_view(v[i])));
    r
}


/// The id that the user asked for: the given id trimmed, when that is not
/// empty.
pub open spec fn requested_id(id: Option<String>) -> Option<Seq<char>> {
    match id {
        Some(i) => if trimmed(i@).len() > 0 { Some(trimmed(i@)) } else { None },
        None => None,
    }
}

/// The record stored for an entered connection under `id`: name, host and
/// user trimmed, the password in its stored form.
pub open spec fn stored_record(item: ConnectionInput, id: Seq<char>) -> ConnectionView {
    ConnectionView {
        id,
        name: trimmed(item.name@),
        host: trimmed(item.host@),
        port: item.port,
        user: trimmed(item.user@),
        secret: encoded_password(item.password@),
        ssl: item.ssl,
    }
}

/// The connection handed back after saving: the fields as entered, with the
/// id it was saved under.
pub open spec fn returned_record(item: ConnectionInput, id: Seq<char>) -> ConnectionView {
    ConnectionView {
        id,
        name: item.name@,
        host: item.host@,
        port: item.port,
        user: item.user@,
        secret: item.password@,
        ssl: item.ssl,
    }
}

/// The index of the first record with `id`.
pub open spec fn position_of(all: Seq<ConnectionView>, id: Seq<char>) -> Option<int> {
    if exists|i: int| 0 <= i < all.len() && #[trigger] all[i].id == id {
        Some(choose|i: int| 0 <= i < all.len() && #[trigger] all[i].id == id
            && forall|k: int| 0 <= k < i ==> all[k].id != id)
    } else {
        None
    }
}

/// The records after saving `entry`: it replaces the first record with its
/// id, or is added at the end when there is none.
pub open spec fn upserted(all: Seq<ConnectionView>, entry: ConnectionView) -> Seq<ConnectionView> {
    match position_of(all, entry.id) {
        Some(i) => all.update(i, entry),
        None => all.push(entry),
    }
}

/// Saves `item` under `id` into `all`: the records become `upserted` with the
/// stored record, and the connection handed back is `returned_record`; the
/// stored password gives the entered one back.
pub fn save_connection_with_id(all: Vec<StoredConnection>, item: ConnectionInput, id: String) -> (r: (Vec<StoredConnection>, SavedConnection))
    ensures
        r.0.deep_view() == upserted(all.deep_view(), stored_record(item, id@)),
        r.1@ == returned_record(item, id@),
        decoded_password(stored_record(item, r.1@.id).secret) == item.password@,
{
    let ghost v = all.deep_view();
    let ghost entry = stored_record(item, id@);
    let stored = StoredConnection {
        id: id.clone(),
        name: trim_str(item.name.as_str()),
        host: trim_str(item.host.as_str()),
        port: item.port,
        user: trim_str(item.user.as_str()),
        password_encrypted: encode_password(item.password.as_str()),
        ssl: item.ssl,
    };
    assert(stored@ == entry);
    let mut all = all;
    let saved = SavedConnection {
        id,
        name: item.name,
        host: item.host,
        port: item.port,
        user: item.user,
        password: item.password,
        ssl: item.ssl,
    };
    match find_connection(&all, &stored.id) {
        Some(i) => {
            all.set(i, stored);
            assert(all.deep_view() =~= v.update(i as int, entry));
        }
        None => {
            all.push(stored);
            assert(all.deep_view() =~= v.push(entry));
        }
    }
    (all, saved)
}

/// The index of the first record of `all` with `id`, as `position_of` says.
fn find_connection(all: &Vec<StoredConnection>, id: &String) -> (r: Option<usize>)
    ensures
        match r {
            Some(i) => position_of(all.deep_view(), id@) == Some(i as int) && i < all@.len(),
            None => position_of(all.deep_view(), id@) is None,
        },
{
    let ghost v = all.deep_view();
    let mut i: usize = 0;
    while i < all.len()
        invariant
            i <= all@.len(),
            v == all.deep_view(),
            forall|k: int| 0 <= k < i ==> v[k].id != id@,
        decreases all.len() - i,
    {
        assert(v[i as int] == all@[i as int]@);
        if all[i].id == *id {
            assert(v[i as int].id == id@);
            let ghost j = choose|j: int| 0 <= j < v.len() && #[trigger] v[j].id == id@
                && forall|k: int| 0 <= k < j ==> v[k].id != id@;
            assert(0 <= j < v.len() && v[j].id == id@ && forall|k: int| 0 <= k < j ==> v[k].id != id@);
            assert(j == i) by {
                if j < i {
                    assert(v[j].id != id@);
                } else if j > i {
                    assert(v[i as int].id != id@);
                }
            }
            return Some(i);
        }
        i = i + 1;
    }
    None
}

/// Saves `item` into `all` under the id it asks for, or under a new random
/// version 4 UUID when it asks for none: the records become `upserted` with
/// the stored record, and the connection handed back is `returned_record`.
pub fn save_connection(all: Vec<StoredConnection>, item: ConnectionInput) -> (r: (Vec<StoredConnection>, SavedConnection))
    ensures
        match requested_id(item.id) {
            Some(i) => r.1@.id == i,
            None => is_uuid_text(r.1@.id),
        },
        r.0.deep_view() == upserted(all.deep_view(), stored_record(item, r.1@.id)),
        r.1@ == returned_record(item, r.1@.id),
        decoded_password(stored_record(item, r.1@.id).secret) == item.password@,
{
    let requested = match &item.id {
        Some(i) => {
            let t = trim_str(i.as_str());
            if t.as_str().is_empty() { None } else { Some(t) }
        }
        None => None,
    };
    let id = match requested {
        Some(t) => t,
        None => new_uuid_string(),
    };
    save_connection_with_id(all, item, id)
}

/// The records without those with `id`, in order.
pub open spec fn without_id(all: Seq<ConnectionView>, id: Seq<char>) -> Seq<ConnectionView>
    decreases all.len(),
{
    if all.len() == 0 {
        all
    } else if all.last().id == id {
        without_id(all.drop_last(), id)
    } else {
        without_id(all.drop_last(), id).push(all.last())
    }
}

/// Whether no two records share an id.
pub open spec fn ids_distinct(all: Seq<ConnectionView>) -> bool {
    forall|i: int, j: int| 0 <= i < j < all.len() ==> #[trigger] all[i].id != #[trigger] all[j].id
}

proof fn lemma_first_match(all: Seq<ConnectionView>, id: Seq<char>, w: int)
    requires
        0 <= w < all.len(),
        all[w].id == id,
    ensures
        exists|i: int| 0 <= i < all.len() && #[trigger] all[i].id == id && forall|k: int| 0 <= k < i ==> all[k].id != id,
    decreases w,
{
    if exists|k: int| 0 <= k < w && #[trigger] all[k].id == id {
        let k = choose|k: int| 0 <= k < w && #[trigger] all[k].id == id;
        lemma_first_match(all, id, k);
    } else {
        assert(forall|k: int| 0 <= k < w ==> all[k].id != id);
    }
}

proof fn lemma_position_of(all: Seq<ConnectionView>, id: Seq<char>)
    ensures
        match position_of(all, id) {
            Some(i) => 0 <= i < all.len() && all[i].id == id && forall|k: int| 0 <= k < i ==> all[k].id != id,
            None => forall|k: int| 0 <= k < all.len() ==> all[k].id != id,
        },
{
    if exists|i: int| 0 <= i < all.len() && #[trigger] all[i].id == id {
        let w = choose|i: int| 0 <= i < all.len() && #[trigger] all[i].id == id;
        lemma_first_match(all, id, w);
    }
}

proof fn lemma_without_id_update(all: Seq<ConnectionView>, i: int, entry: ConnectionView)
    requires
        0 <= i < all.len(),
        all[i].id == entry.id,
    ensures
        without_id(all.update(i, entry), entry.id) == without_id(all, entry.id),
    decreases all.len(),
{
    let updated = all.update(i, entry);
    if i == all.len() - 1 {
        assert(updated.drop_last() == all.drop_last());
    } else {
        assert(updated.drop_last() == all.drop_last().update(i, entry));
        lemma_without_id_update(all.drop_last(), i, entry);
    }
}

/// Saving a connection leaves the other connections as they were, in order:
/// without the saved id, the records are the same before and after. When no
/// two records shared an id before, none do after, and the saved record is
/// the only one with its id.
pub proof fn lemma_save_keeps_others(all: Seq<ConnectionView>, entry: ConnectionView)
    ensures
        without_id(upserted(all, entry), entry.id) == without_id(all, entry.id),
        ids_distinct(all) ==> ids_distinct(upserted(all, entry)),
        exists|i: int| 0 <= i < upserted(all, entry).len() && #[trigger] upserted(all, entry)[i] == entry,
        ids_distinct(all) ==> forall|j: int| 0 <= j < upserted(all, entry).len()
            && #[trigger] upserted(all, entry)[j].id == entry.id ==> upserted(all, entry)[j] == entry,
{
    let result = upserted(all, entry);
    lemma_position_of(all, entry.id);
    match position_of(all, entry.id) {
        Some(i) => {
            lemma_without_id_update(all, i, entry);
            assert(result[i] == entry);
            if ids_distinct(all) {
                assert forall|a: int, b: int| 0 <= a < b < result.len() implies #[trigger] result[a].id != #[trigger] result[b].id by {
                    if a == i {
                        assert(all[b].id != all[i].id);
                    } else if b == i {
                        assert(all[a].id != all[i].id);
                    }
                }
                assert forall|j: int| 0 <= j < result.len() && #[trigger] result[j].id == entry.id implies result[j] == entry by {
                    if j != i {
                        if j < i {
                            assert(all[j].id != all[i].id);
                        } else {
                            assert(all[i].id != all[j].id);
                        }
                    }
                }
            }
        }
        None => {
            assert(result.drop_last() == all);
            assert(result[all.len() as int] == entry);
            assert(forall|k: int| 0 <= k < all.len() ==> all[k].id != entry.id);
        }
    }
}

proof fn lemma_without_id_len(all: Seq<ConnectionView>, id: Seq<char>)
    ensures
        without_id(all, id).len() <= all.len(),
        without_id(all, id).len() == all.len() <==> forall|k: int| 0 <= k < all.len() ==> #[trigger] all[k].id != id,
    decreases all.len(),
{
    if all.len() > 0 {
        lemma_without_id_len(all.drop_last(), id);
        if without_id(all, id).len() == all.len() {
            assert forall|k: int| 0 <= k < all.len() implies #[trigger] all[k].id != id by {
                if k < all.len() - 1 {
                    assert(all.drop_last()[k] == all[k]);
                }
            }
        } else {
            if forall|k: int| 0 <= k < all.len() ==> #[trigger] all[k].id != id {
                assert forall|k: int| 0 <= k < all.drop_last().len() implies #[trigger] all.drop_last()[k].id != id by {
                    assert(all.drop_last()[k] == all[k]);
                }
                assert(all[all.len() - 1].id != id);
            }
        }
    }
}

/// After a deletion no record has the deleted id, so deleting it again
/// changes nothing.
pub proof fn lemma_delete_removes_every_match(all: Seq<ConnectionView>, id: Seq<char>)
    ensures
        forall|i: int| 0 <= i < without_id(all, id).len() ==> #[trigger] without_id(all, id)[i].id != id,
        without_id(without_id(all, id), id) == without_id(all, id),
    decreases all.len(),
{
    if all.len() > 0 {
        lemma_delete_removes_every_match(all.drop_last(), id);
        let rest = without_id(all.drop_last(), id);
        if all.last().id != id {
            assert(rest.push(all.last()).drop_last() == rest);
        }
    }
}

/// Whether a record has another id than `id`.
pub open spec fn other_id(id: Seq<char>) -> spec_fn(ConnectionView) -> bool {
    |c: ConnectionView| c.id != id
}

/// Deleting keeps exactly the records with another id, in their order: the
/// result is the records filtered by their id differing from the deleted
/// one.
pub proof fn lemma_delete_keeps_the_others(all: Seq<ConnectionView>, id: Seq<char>)
    ensures
        without_id(all, id) == all.filter(other_id(id)),
    decreases all.len(),
{
    reveal(Seq::filter);
    if all.len() > 0 {
        lemma_delete_keeps_the_others(all.drop_last(), id);
    }
}

/// Removes the records with `id` from `all`, keeping the others in order;
/// says whether any was removed.
pub fn delete_connection(all: Vec<StoredConnection>, id: &str) -> (r: (Vec<StoredConnection>, bool))
    ensures
        r.0.deep_view() == without_id(all.deep_view(), id@),
        r.1 <==> exists|k: int| 0 <= k < all.deep_view().len() && #[trigger] all.deep_view()[k].id == id@,
{
    let ghost v = all.deep_view();
    let wanted = String::from_str(id);
    let before = all.len();
    let mut all = all;
    let mut i: usize = 0;
    let ghost mut k: int = 0;
    while i < all.len()
        invariant
            0 <= k <= v.len(),
            wanted@ == id@,
            i == without_id(v.take(k), id@).len(),
            all.deep_view() == without_id(v.take(k), id@) + v.skip(k),
        decreases all.len() - i,
    {
        assert(all.deep_view()[i as int] == v[k]);
        assert(v.take(k + 1).drop_last() == v.take(k));
        assert(all.deep_view()[i as int] == all@[i as int]@);
        if all[i].id == wanted {
            let ghost old_dv = all.deep_view();
            all.remove(i);
            assert(all.deep_view() =~= old_dv.remove(i as int));
            assert(all.deep_view() =~= without_id(v.take(k + 1), id@) + v.skip(k + 1));
        } else {
            assert(all.deep_view() =~= without_id(v.take(k + 1), id@) + v.skip(k + 1));
            i = i + 1;
        }
        proof {
            k = k + 1;
        }
    }
    assert(k == v.len());
    assert(v.take(k) == v);
    assert(all.deep_view() =~= without_id(v, id@));
    proof {
        lemma_without_id_len(v, id@);
    }
    let deleted = all.len() != before;
    (all, deleted)
}

} // verus!
