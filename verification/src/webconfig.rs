//! What the web editor does to `config.json`.
//!
//! The file is edited as JSON, never through the typed structs of
//! [`crate::config`]: those do not model every key the file may hold, and a
//! typed round-trip would drop the keys they do not know. Here a JSON object
//! is a [`JsonObject`]: its members, each value held as its compact JSON
//! text, as `serde_json` parses and prints it. Reading and writing the file
//! is the application's part.
use vstd::prelude::*;
use crate::text::{insert_sorted, str_eq};
use crate::text_map::TextMap;

verus! {

/// A JSON object: member names and, for each, the member's value as
/// compact JSON text.
pub struct JsonObject {
    members: TextMap<String>,
}

impl JsonObject {
    pub closed spec fn wf(&self) -> bool {
        self.members.wf()
    }

    /// The members, by name, as JSON texts.
    pub closed spec fn view(&self) -> Map<Seq<char>, Seq<char>> {
        self.members@.map_values(|s: String| s@)
    }

    /// The member names, in order.
    pub closed spec fn names(&self) -> Seq<Seq<char>> {
        self.members.key_seq()
    }

    pub proof fn lemma_names(&self)
        requires
            self.wf(),
        ensures
            forall|i: int| 0 <= i < self.names().len() ==> #[trigger] self@.contains_key(self.names()[i]),
            forall|k: Seq<char>| #[trigger] self@.contains_key(k) ==> self.names().contains(k),
    {
        self.members.lemma_entries();
        assert forall|k: Seq<char>| #[trigger] self@.contains_key(k) implies self.names().contains(k) by {
            let i = choose|i: int| 0 <= i < self.members.key_seq().len() && self.members.key_seq()[i] == k;
            assert(self.names()[i] == k);
        }
    }

    /// An object with no members.
    pub fn new() -> (o: Self)
        ensures
            o.wf(),
            o@ == Map::<Seq<char>, Seq<char>>::empty(),
    {
        let o = JsonObject { members: TextMap::new() };
        proof {
            assert(o@ =~= Map::<Seq<char>, Seq<char>>::empty());
        }
        o
    }

    /// The number of members.
    pub fn len(&self) -> (n: usize)
        requires
            self.wf(),
        ensures
            n == self.names().len(),
    {
        self.members.len()
    }

    /// The name of member `i`.
    pub fn name_at(&self, i: usize) -> (k: &String)
        requires
            self.wf(),
            i < self.names().len(),
        ensures
            k@ == self.names()[i as int],
    {
        self.members.key_at(i)
    }

    /// The JSON text of member `name`.
    pub fn get(&self, name: &str) -> (r: Option<&String>)
        requires
            self.wf(),
        ensures
            r is Some <==> self@.contains_key(name@),
            r matches Some(v) ==> v@ == self@[name@],
    {
        self.members.get(name)
    }

    /// Sets member `name` to the JSON text `value`.
    pub fn insert(&mut self, name: &str, value: String)
        requires
            old(self).wf(),
        ensures
            final(self).wf(),
            final(self)@ == old(self)@.insert(name@, value@),
    {
        let ghost before = self.members@;
        let ghost v = value@;
        self.members.insert(name, value);
        proof {
            assert(self@ =~= old(self)@.insert(name@, v));
        }
    }

    /// Removes member `name`, returning its JSON text if it was present.
    pub fn remove(&mut self, name: &str) -> (r: Option<String>)
        requires
            old(self).wf(),
        ensures
            final(self).wf(),
            final(self)@ == old(self)@.remove(name@),
            r is Some <==> old(self)@.contains_key(name@),
            r matches Some(v) ==> v@ == old(self)@[name@],
    {
        let r = self.members.remove(name);
        proof {
            assert(self@ =~= old(self)@.remove(name@));
        }
        r
    }
}

/// Whether a JSON text is a string other than the empty one. Compact JSON
/// writes a string, and nothing else, between double quotes, and the empty
/// string as `""`.
pub open spec fn nonempty_json_string(t: Seq<char>) -> bool {
    t.len() > 2 && t[0] == '"'
}

fn is_nonempty_json_string(t: &str) -> (b: bool)
    ensures
        b == nonempty_json_string(t@),
{
    let v = crate::text::chars_of(t);
    v.len() > 2 && v[0] == '"'
}

/// The JSON text of a boolean.
pub open spec fn json_bool(b: bool) -> Seq<char> {
    if b {
        "true"@
    } else {
        "false"@
    }
}

/// The JSON text of the empty string.
pub open spec fn json_empty_string() -> Seq<char> {
    "\"\""@
}

/// The `Mail` object as the editor shows it: without `Password`, with
/// `PasswordSet` telling whether a non-empty password was stored.
pub open spec fn redacted(mail: Map<Seq<char>, Seq<char>>) -> Map<Seq<char>, Seq<char>> {
    let was_set = mail.contains_key("Password"@) && nonempty_json_string(mail["Password"@]);
    mail.remove("Password"@).insert("PasswordSet"@, json_bool(was_set))
}

/// Removes the password from the `Mail` object of a configuration that is
/// to be shown.
///
/// The existing password is never sent to a client. The client learns only
/// whether one is set, so the editor can render "leave blank to keep".
pub fn redact_mail(mail: &mut JsonObject)
    requires
        old(mail).wf(),
    ensures
        final(mail).wf(),
        final(mail)@ == redacted(old(mail)@),
{
    let was_set = match mail.remove("Password") {
        Some(p) => is_nonempty_json_string(p.as_str()),
        None => false,
    };
    let text = if was_set {
        String::from_str("true")
    } else {
        String::from_str("false")
    };
    mail.insert("PasswordSet", text);
}

/// The `Mail` object to be saved: a non-empty password string that was
/// supplied is kept; a blank or absent one means "leave unchanged", and the
/// stored password (or the empty string when there is none) is put back.
/// `PasswordSet` is never saved.
pub open spec fn merged(candidate: Map<Seq<char>, Seq<char>>, current: Map<Seq<char>, Seq<char>>) -> Map<
    Seq<char>,
    Seq<char>,
> {
    if candidate.contains_key("Password"@) && nonempty_json_string(candidate["Password"@]) {
        candidate.remove("PasswordSet"@)
    } else {
        let existing = if current.contains_key("Password"@) {
            current["Password"@]
        } else {
            json_empty_string()
        };
        candidate.remove("PasswordSet"@).insert("Password"@, existing)
    }
}

/// Splice the stored password back into a candidate config's `Mail`
/// object, given the stored configuration's `Mail` object, if it has one.
///
/// A blank or absent `Mail.Password` means "leave unchanged". The editor's
/// password field is write-only, so this is the normal path, not the exception.
pub fn merge_password(candidate_mail: &mut JsonObject, current_mail: &JsonObject)
    requires
        old(candidate_mail).wf(),
        current_mail.wf(),
    ensures
        final(candidate_mail).wf(),
        final(candidate_mail)@ == merged(old(candidate_mail)@, current_mail@),
{
    let supplied = match candidate_mail.get("Password") {
        Some(p) => is_nonempty_json_string(p.as_str()),
        None => false,
    };
    if supplied {
        // Caller supplied a new password; keep it.
        candidate_mail.remove("PasswordSet");
        return;
    }
    let existing = match current_mail.get("Password") {
        Some(p) => p.clone(),
        None => String::from_str("\"\""),
    };
    candidate_mail.remove("PasswordSet");
    candidate_mail.insert("Password", existing);
}

/// Showing a configuration and saving it back unchanged keeps the stored
/// password: the redacted `Mail` object, merged with the stored one, is the
/// stored one again, with the empty string as password when none was
/// stored and without any `PasswordSet` it may have held.
pub proof fn lemma_redact_then_merge_keeps_password(mail: Map<Seq<char>, Seq<char>>)
    ensures
        merged(redacted(mail), mail) == (if mail.contains_key("Password"@) {
            mail.remove("PasswordSet"@)
        } else {
            mail.remove("PasswordSet"@).insert("Password"@, json_empty_string())
        }),
{
    reveal_strlit("Password");
    reveal_strlit("PasswordSet");
    assert("Password"@.len() != "PasswordSet"@.len());
    let r = redacted(mail);
    assert(!r.contains_key("Password"@));
    let m = merged(r, mail);
    if mail.contains_key("Password"@) {
        assert(m =~= mail.remove("PasswordSet"@));
    } else {
        assert(m =~= mail.remove("PasswordSet"@).insert("Password"@, json_empty_string()));
    }
}

/// Whether the top-level key `k` differs between `before` and `after`:
/// present on one side only, or present on both with different values.
pub open spec fn changed_key(before: Map<Seq<char>, Seq<char>>, after: Map<Seq<char>, Seq<char>>, k: Seq<char>) -> bool {
    ||| after.contains_key(k) && !(before.contains_key(k) && before[k] == after[k])
    ||| before.contains_key(k) && !after.contains_key(k)
}

/// Top-level keys whose contents differ, sorted, each once. Names only —
/// never values.
///
/// Feeds the audit log, which must never become a second copy of the password.
pub fn changed_keys(before: &JsonObject, after: &JsonObject) -> (keys: Vec<String>)
    requires
        before.wf(),
        after.wf(),
    ensures
        crate::text::strictly_sorted(crate::text::string_texts(keys@)),
        forall|k: Seq<char>| #[trigger] crate::text::string_texts(keys@).contains(k) <==> changed_key(before@, after@, k),
{
    proof {
        before.lemma_names();
        after.lemma_names();
    }
    let mut keys: Vec<String> = Vec::new();
    let mut i: usize = 0;
    while i < after.len()
        invariant
            before.wf(),
            after.wf(),
            i <= after.names().len(),
            forall|j: int| 0 <= j < after.names().len() ==> #[trigger] after@.contains_key(after.names()[j]),
            crate::text::strictly_sorted(crate::text::string_texts(keys@)),
            forall|k: Seq<char>|
                #[trigger] crate::text::string_texts(keys@).contains(k) <==> (exists|j: int|
                    0 <= j < i && after.names()[j] == k) && changed_key(before@, after@, k),
        decreases after.names().len() - i,
    {
        let name = after.name_at(i);
        proof {
            assert(after@.contains_key(after.names()[i as int]));
        }
        let value = match after.get(name.as_str()) {
            Some(v) => v,
            None => {
                proof {
                    assert(false);
                }
                return keys;
            },
        };
        let differs = match before.get(name.as_str()) {
            Some(b) => !str_eq(b.as_str(), value.as_str()),
            None => true,
        };
        let ghost old_keys = crate::text::string_texts(keys@);
        if differs {
            insert_sorted(&mut keys, name.clone());
        }
        proof {
            assert forall|k: Seq<char>| #[trigger] crate::text::string_texts(keys@).contains(k) <==> (exists|j: int|
                0 <= j < i + 1 && after.names()[j] == k) && changed_key(before@, after@, k) by {
                if k == name@ {
                    assert(after.names()[i as int] == k);
                } else {
                    if exists|j: int| 0 <= j < i + 1 && after.names()[j] == k {
                        let j = choose|j: int| 0 <= j < i + 1 && after.names()[j] == k;
                        assert(j < i);
                    }
                }
            }
        }
        i = i + 1;
    }
    let ghost after_names = after.names();
    proof {
        assert forall|k: Seq<char>| #[trigger] crate::text::string_texts(keys@).contains(k) <==> ((after_names.contains(k)
            || exists|j: int| 0 <= j < 0 && before.names()[j] == k) && changed_key(before@, after@, k)) by {
            if after_names.contains(k) {
                let j = choose|j: int| 0 <= j < after_names.len() && after_names[j] == k;
                assert(exists|j2: int| 0 <= j2 < i && after.names()[j2] == k);
            }
        }
    }
    let mut b: usize = 0;
    while b < before.len()
        invariant
            before.wf(),
            after.wf(),
            after_names == after.names(),
            b <= before.names().len(),
            forall|j: int| 0 <= j < before.names().len() ==> #[trigger] before@.contains_key(before.names()[j]),
            forall|k: Seq<char>| #[trigger] after@.contains_key(k) ==> after_names.contains(k),
            crate::text::strictly_sorted(crate::text::string_texts(keys@)),
            forall|k: Seq<char>|
                #[trigger] crate::text::string_texts(keys@).contains(k) <==> ((after_names.contains(k) || exists|j: int|
                    0 <= j < b && before.names()[j] == k) && changed_key(before@, after@, k)),
        decreases before.names().len() - b,
    {
        let name = before.name_at(b);
        proof {
            assert(before@.contains_key(before.names()[b as int]));
        }
        let missing = after.get(name.as_str()).is_none();
        if missing {
            insert_sorted(&mut keys, name.clone());
        }
        proof {
            assert forall|k: Seq<char>| #[trigger] crate::text::string_texts(keys@).contains(k) <==> ((after_names.contains(k)
                || exists|j: int| 0 <= j < b + 1 && before.names()[j] == k) && changed_key(before@, after@, k)) by {
                if k == name@ {
                    assert(before.names()[b as int] == k);
                    if !missing {
                        assert(after@.contains_key(k));
                    }
                } else {
                    if exists|j: int| 0 <= j < b + 1 && before.names()[j] == k {
                        let j = choose|j: int| 0 <= j < b + 1 && before.names()[j] == k;
                        assert(j < b);
                    }
                }
            }
        }
        b = b + 1;
    }
    proof {
        assert forall|k: Seq<char>| #[trigger] crate::text::string_texts(keys@).contains(k) <==> changed_key(before@, after@, k) by {
            if changed_key(before@, after@, k) {
                if after@.contains_key(k) {
                    assert(after_names.contains(k));
                } else {
                    assert(before@.contains_key(k));
                    assert(before.names().contains(k));
                    let j = choose|j: int| 0 <= j < before.names().len() && before.names()[j] == k;
                    assert(exists|j2: int| 0 <= j2 < b && before.names()[j2] == k);
                }
            }
        }
    }
    keys
}

/// What `serde_json` makes of a text: a JSON object, as its members with
/// each value's compact JSON text, or another JSON value, as its compact
/// text.
pub enum JsonShape {
    Object(Seq<(Seq<char>, Seq<char>)>),
    Other(Seq<char>),
}

/// What `serde_json::from_str::<Value>` parses `text` to; `None` when it is
/// not JSON.
pub uninterp spec fn json_parsed(text: Seq<char>) -> Option<JsonShape>;

/// A parsed JSON text, as plain values.
pub enum ParsedJson {
    /// The text is not JSON; the parser's message.
    Invalid(String),
    /// A JSON object: each member's name and compact JSON text.
    Object(Vec<(String, String)>),
    /// Another JSON value, as its compact text.
    Other(String),
}

/// Members as names and texts.
pub open spec fn members_view(ms: Seq<(String, String)>) -> Seq<(Seq<char>, Seq<char>)> {
    ms.map_values(|m: (String, String)| (m.0@, m.1@))
}

/// A parse result as `json_parsed` names it.
pub open spec fn parsed_view(p: ParsedJson) -> Option<JsonShape> {
    match p {
        ParsedJson::Invalid(_) => None,
        ParsedJson::Object(ms) => Some(JsonShape::Object(members_view(ms@))),
        ParsedJson::Other(t) => Some(JsonShape::Other(t@)),
    }
}

/// Trusted: `serde_json::from_str::<serde_json::Value>`; an object comes back
/// as its members (a `serde_json::Map`, whose names are distinct) with each
/// value printed by `Value::to_string`, any other value as its printed text.
#[verifier::external_body]
fn parse_json(text: &str) -> (r: ParsedJson)
    ensures
        parsed_view(r) == json_parsed(text@),
        r matches ParsedJson::Object(ms) ==> forall|i: int, j: int|
            0 <= i < j < ms@.len() ==> (#[trigger] ms@[i]).0@ != (#[trigger] ms@[j]).0@,
{
    match serde_json::from_str::<serde_json::Value>(text) {
        Err(e) => ParsedJson::Invalid(e.to_string()),
        Ok(serde_json::Value::Object(map)) => ParsedJson::Object(map.into_iter().map(|(k, v)| (k, v.to_string())).collect()),
        Ok(v) => ParsedJson::Other(v.to_string()),
    }
}

/// The members as a map from name to JSON text.
pub open spec fn members_map(ms: Seq<(Seq<char>, Seq<char>)>) -> Map<Seq<char>, Seq<char>>
    decreases ms.len(),
{
    if ms.len() == 0 {
        Map::empty()
    } else {
        members_map(ms.drop_last()).insert(ms.last().0, ms.last().1)
    }
}

/// The object holding `members`.
pub fn object_of(members: &Vec<(String, String)>) -> (o: JsonObject)
    ensures
        o.wf(),
        o@ == members_map(members_view(members@)),
{
    let ghost mv = members_view(members@);
    let mut o = JsonObject::new();
    let mut i: usize = 0;
    proof {
        assert(mv.take(0) =~= Seq::<(Seq<char>, Seq<char>)>::empty());
        assert(o@ =~= members_map(mv.take(0)));
    }
    while i < members.len()
        invariant
            i <= members@.len(),
            mv == members_view(members@),
            o.wf(),
            o@ == members_map(mv.take(i as int)),
        decreases members.len() - i,
    {
        proof {
            assert(mv.take(i + 1).drop_last() =~= mv.take(i as int));
            assert(mv.take(i + 1).last() == (members@[i as int].0@, members@[i as int].1@));
        }
        o.insert(members[i].0.as_str(), members[i].1.clone());
        i = i + 1;
    }
    proof {
        assert(mv.take(mv.len() as int) =~= mv);
    }
    o
}

/// A configuration as the editor shows it.
pub enum ShownConfig {
    /// The configuration is an object: its members, with the `Mail` member
    /// replaced, when it is an object, by `mail`.
    Object { top: JsonObject, mail: Option<JsonObject> },
    /// The configuration is another JSON value, shown as it is.
    Other(String),
}

/// Whether `mail` is the redacted `Mail` member of the configuration whose
/// members are `top`: present exactly when `top` has a `Mail` member that
/// is a JSON object, and then that object with `redacted` applied.
pub open spec fn shown_mail(top: Map<Seq<char>, Seq<char>>, mail: Option<JsonObject>) -> bool {
    let mail_shape = if top.contains_key("Mail"@) { json_parsed(top["Mail"@]) } else { None };
    match mail_shape {
        Some(JsonShape::Object(ms)) => mail matches Some(m) && m.wf() && m@ == redacted(members_map(ms)),
        _ => mail is None,
    }
}

/// Reads the configuration text `raw` for showing: the password of its
/// `Mail` object is replaced by whether one is set. An error exactly when
/// `raw` is not JSON.
pub fn redact_config_text(raw: &str) -> (r: Result<ShownConfig, String>)
    ensures
        r is Err <==> json_parsed(raw@) is None,
        r matches Ok(ShownConfig::Other(t)) ==> json_parsed(raw@) == Some(JsonShape::Other(t@)),
        r matches Ok(ShownConfig::Object { top, mail }) ==> {
            &&& json_parsed(raw@) matches Some(JsonShape::Object(ms)) && top@ == members_map(ms)
            &&& top.wf()
            &&& shown_mail(top@, mail)
        },
        json_parsed(raw@) matches Some(JsonShape::Object(_)) ==> r matches Ok(ShownConfig::Object { .. }),
        json_parsed(raw@) matches Some(JsonShape::Other(_)) ==> r matches Ok(ShownConfig::Other(_)),
{
    match parse_json(raw) {
        ParsedJson::Invalid(e) => Err(e),
        ParsedJson::Other(t) => Ok(ShownConfig::Other(t)),
        ParsedJson::Object(members) => {
            let top = object_of(&members);
            let mail = match top.get("Mail") {
                Some(text) => match parse_json(text.as_str()) {
                    ParsedJson::Object(mail_members) => {
                        let mut m = object_of(&mail_members);
                        redact_mail(&mut m);
                        Some(m)
                    },
                    _ => None,
                },
                None => None,
            };
            Ok(ShownConfig::Object { top, mail })
        },
    }
}

} // verus!
