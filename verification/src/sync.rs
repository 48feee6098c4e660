//! Clipboard sync: what is pushed to the sync plugins, what is taken from them.
//!
//! A captured text is pushed to every loaded plugin, unless it is what was pushed
//! last. A pull takes the texts that the plugins return into the store, unless
//! they are the echo of what was pushed last. A reload of the plugins starts over:
//! nothing counts as pushed then. Calling the plugins is left to the caller, which
//! hands their replies back.

use sha2::{Digest, Sha256};
use vstd::prelude::*;
use vstd::string::*;

use crate::text::{hex_lower, str_eq};

verus! {

/// The characters of each string.
pub open spec fn string_views(strings: Seq<String>) -> Seq<Seq<char>> {
    Seq::new(strings.len(), |i: int| strings[i]@)
}

// ── Profile hashes ─────────────────────────────────────────────────────────

/// The digest counts its input in bits in a `u64`, so the input must have fewer
/// bytes than this.
pub const HASH_LIMIT: u64 = 0x2000_0000_0000_0000;

/// Whether a text is short enough to be hashed.
pub open spec fn hashable(text: Seq<char>) -> bool {
    vstd::utf8::encode_utf8(text).len() < HASH_LIMIT
}

/// Whether a text is short enough to be hashed.
pub fn can_hash(text: &str) -> (can: bool)
    ensures
        can == hashable(text@),
{
    let size: usize = text.as_bytes().len();
    (size as u64) < HASH_LIMIT
}

/// The SHA-256 digest of some bytes, as `sha2::Sha256::digest` computes it.
pub uninterp spec fn sha256(bytes: Seq<u8>) -> Seq<u8>;

/// Calls `sha2::Sha256::digest`. Its result depends on the bytes alone and is
/// always 32 bytes long. Where the number of bits does not fit in a `u64` the call
/// overflows, so such inputs are left out.
#[verifier::external_body]
fn sha256_digest(bytes: &[u8]) -> (digest: Vec<u8>)
    requires
        bytes@.len() < HASH_LIMIT,
    ensures
        digest@ == sha256(bytes@),
        digest@.len() == 32,
{
    Sha256::digest(bytes).to_vec()
}

/// The hash of a text: the SHA-256 digest of its UTF-8 bytes, in lower case
/// hexadecimal notation.
pub open spec fn hash_of(text: Seq<char>) -> Seq<char> {
    crate::text::hex_notation(sha256(vstd::utf8::encode_utf8(text)))
}

/// Hashes a text.
pub fn text_hash(text: &str) -> (hash: String)
    requires
        hashable(text@),
    ensures
        hash@ == hash_of(text@),
        hash@.len() == 64,
{
    let digest = sha256_digest(text.as_bytes());
    hex_lower(digest.as_slice())
}

/// Texts with different digests have different hashes.
pub proof fn law_hashes_differ_with_digests(a: Seq<char>, b: Seq<char>)
    ensures
        hash_of(a) == hash_of(b) <==> sha256(vstd::utf8::encode_utf8(a)) == sha256(
            vstd::utf8::encode_utf8(b),
        ),
{
    if hash_of(a) == hash_of(b) {
        crate::text::law_hex_notation_is_injective(
            sha256(vstd::utf8::encode_utf8(a)),
            sha256(vstd::utf8::encode_utf8(b)),
        );
    }
}

// ── JSON values ────────────────────────────────────────────────────────────

/// The JSON values that plugins exchange, as far as syncing reads them.
#[derive(Debug, PartialEq, Eq)]
pub enum JsonValue {
    Text(String),
    Integer(u64),
    Array(Vec<JsonValue>),
    /// Members in order, with their names.
    Object(Vec<(String, JsonValue)>),
    /// Null, booleans and other numbers.
    Other,
}

/// The value of the first member with a name.
pub open spec fn lookup(members: Seq<(String, JsonValue)>, name: Seq<char>) -> Option<JsonValue>
    decreases members.len(),
{
    if members.len() == 0 {
        None
    } else if members[0].0@ == name {
        Some(members[0].1)
    } else {
        lookup(members.skip(1), name)
    }
}

impl JsonValue {
    /// The member of an object with a name; other values have no members.
    pub open spec fn member(self, name: Seq<char>) -> Option<JsonValue> {
        match self {
            JsonValue::Object(members) => lookup(members@, name),
            _ => None,
        }
    }

    /// The text of a text value; other values have none.
    pub open spec fn text(self) -> Option<Seq<char>> {
        match self {
            JsonValue::Text(text) => Some(text@),
            _ => None,
        }
    }

    /// The text of the member with a name.
    pub open spec fn member_text(self, name: Seq<char>) -> Option<Seq<char>> {
        match self.member(name) {
            Some(value) => value.text(),
            None => None,
        }
    }

    /// Reads the member with a name.
    pub fn get(&self, name: &str) -> (value: Option<&JsonValue>)
        ensures
            match value {
                Some(value) => self.member(name@) == Some(*value),
                None => self.member(name@) is None,
            },
    {
        match self {
            JsonValue::Object(members) => {
                let n: usize = members.len();
                assert(members@.skip(0) =~= members@);
                for i in 0..n
                    invariant
                        n == members@.len(),
                        *self == JsonValue::Object(*members),
                        self.member(name@) == lookup(members@.skip(i as int), name@),
                {
                    proof {
                        let rest = members@.skip(i as int);
                        assert(rest[0] == members@[i as int]);
                        assert(rest.skip(1) =~= members@.skip(i + 1));
                    }
                    if str_eq(members[i].0.as_str(), name) {
                        return Some(&members[i].1);
                    }
                }
                None
            },
            _ => None,
        }
    }

    /// Reads the text of a text value.
    pub fn as_str(&self) -> (text: Option<&str>)
        ensures
            match text {
                Some(text) => self.text() == Some(text@),
                None => self.text() is None,
            },
    {
        match self {
            JsonValue::Text(text) => Some(text.as_str()),
            _ => None,
        }
    }

    /// Reads the text of the member with a name.
    fn get_text(&self, name: &str) -> (text: Option<&str>)
        ensures
            match text {
                Some(text) => self.member_text(name@) == Some(text@),
                None => self.member_text(name@) is None,
            },
    {
        match self.get(name) {
            Some(value) => value.as_str(),
            None => None,
        }
    }
}

/// The profile of a text: its kind, hash, characters, length in bytes and source.
pub open spec fn is_profile(value: JsonValue, text: Seq<char>, hash: Seq<char>) -> bool {
    &&& value matches JsonValue::Object(members)
    &&& members@.len() == 5
    &&& members@[0].0@ == "type"@ && members@[0].1.text() == Some("text"@)
    &&& members@[1].0@ == "hash"@ && members@[1].1.text() == Some(hash)
    &&& members@[2].0@ == "text"@ && members@[2].1.text() == Some(text)
    &&& members@[3].0@ == "size"@ && (members@[3].1 matches JsonValue::Integer(size) && size
        == vstd::utf8::encode_utf8(text).len())
    &&& members@[4].0@ == "source"@ && members@[4].1.text() == Some("linux"@)
}

/// Builds the profile of a text.
pub fn profile_json(text: &str, hash: &str) -> (profile: JsonValue)
    ensures
        is_profile(profile, text@, hash@),
{
    let mut members: Vec<(String, JsonValue)> = Vec::new();
    members.push(("type".to_string(), JsonValue::Text("text".to_string())));
    members.push(("hash".to_string(), JsonValue::Text(hash.to_string())));
    members.push(("text".to_string(), JsonValue::Text(text.to_string())));
    let size: usize = text.as_bytes().len();
    members.push(("size".to_string(), JsonValue::Integer(size as u64)));
    members.push(("source".to_string(), JsonValue::Text("linux".to_string())));
    JsonValue::Object(members)
}

/// Each field of a profile can be read back by its name.
pub proof fn law_profile_fields(profile: JsonValue, text: Seq<char>, hash: Seq<char>)
    requires
        is_profile(profile, text, hash),
    ensures
        profile.member_text("type"@) == Some("text"@),
        profile.member_text("hash"@) == Some(hash),
        profile.member_text("text"@) == Some(text),
        profile.member("size"@) matches Some(JsonValue::Integer(size)) && size
            == vstd::utf8::encode_utf8(text).len(),
        profile.member_text("source"@) == Some("linux"@),
{
    reveal_strlit("type");
    reveal_strlit("hash");
    reveal_strlit("text");
    reveal_strlit("size");
    reveal_strlit("source");
    assert("type"@[0] == 't' && "type"@[1] == 'y');
    assert("text"@[0] == 't' && "text"@[1] == 'e');
    assert("hash"@[0] == 'h');
    assert("size"@[0] == 's' && "size"@[1] == 'i');
    assert("source"@[0] == 's' && "source"@[1] == 'o');
    let members = profile->Object_0@;
    assert(members.skip(1)[0] == members[1]);
    assert(members.skip(1).skip(1) =~= members.skip(2));
    assert(members.skip(2)[0] == members[2]);
    assert(members.skip(2).skip(1) =~= members.skip(3));
    assert(members.skip(3)[0] == members[3]);
    assert(members.skip(3).skip(1) =~= members.skip(4));
    assert(members.skip(4)[0] == members[4]);
    reveal_with_fuel(lookup, 6);
}

// ── Plugins ────────────────────────────────────────────────────────────────

/// What a plugin is for.
#[derive(Debug, Clone, Copy, PartialEq, Eq, Structural)]
pub enum PluginType {
    ClipboardSync,
    Other,
}

/// What syncing reads of a plugin's manifest.
#[derive(Debug, Clone, PartialEq, Eq)]
pub struct PluginManifest {
    pub plugin_type: PluginType,
    /// The script that the plugin starts with.
    pub entry: String,
}

/// An installed plugin.
#[derive(Debug, Clone, PartialEq, Eq)]
pub struct InstalledPlugin {
    pub id: String,
    pub enabled: bool,
    /// `None` where the manifest could not be read.
    pub manifest: Option<PluginManifest>,
    pub plugin_dir: String,
    pub config_file: String,
}

/// What it takes to load a sync plugin.
#[derive(Debug, Clone, PartialEq, Eq)]
pub struct SyncPluginDescriptor {
    pub id: String,
    pub entry: String,
    pub plugin_dir: String,
    pub config_file: String,
}

/// The characters of a descriptor's fields.
pub struct DescriptorView {
    pub id: Seq<char>,
    pub entry: Seq<char>,
    pub plugin_dir: Seq<char>,
    pub config_file: Seq<char>,
}

impl View for SyncPluginDescriptor {
    type V = DescriptorView;

    open spec fn view(&self) -> DescriptorView {
        DescriptorView {
            id: self.id@,
            entry: self.entry@,
            plugin_dir: self.plugin_dir@,
            config_file: self.config_file@,
        }
    }
}

impl InstalledPlugin {
    /// The plugins that take part in syncing: enabled, with a readable manifest
    /// that says so.
    pub open spec fn syncs(self) -> bool {
        self.enabled && (self.manifest matches Some(manifest) && manifest.plugin_type
            == PluginType::ClipboardSync)
    }

    /// The descriptor of a plugin with a readable manifest.
    pub open spec fn descriptor(self) -> DescriptorView {
        DescriptorView {
            id: self.id@,
            entry: self.manifest->0.entry@,
            plugin_dir: self.plugin_dir@,
            config_file: self.config_file@,
        }
    }
}

/// The descriptors of the plugins that take part in syncing, in order.
pub open spec fn descriptors_of(plugins: Seq<InstalledPlugin>) -> Seq<DescriptorView>
    decreases plugins.len(),
{
    if plugins.len() == 0 {
        Seq::empty()
    } else if plugins.last().syncs() {
        descriptors_of(plugins.drop_last()).push(plugins.last().descriptor())
    } else {
        descriptors_of(plugins.drop_last())
    }
}

/// Selects the plugins that take part in syncing.
pub fn scan_descriptors(plugins: &[InstalledPlugin]) -> (descriptors: Vec<SyncPluginDescriptor>)
    ensures
        descriptors@.map_values(|d: SyncPluginDescriptor| d@) == descriptors_of(plugins@),
{
    let mut descriptors: Vec<SyncPluginDescriptor> = Vec::new();
    let n: usize = plugins.len();
    for i in 0..n
        invariant
            n == plugins@.len(),
            descriptors@.map_values(|d: SyncPluginDescriptor| d@) == descriptors_of(
                plugins@.take(i as int),
            ),
    {
        let plugin = &plugins[i];
        let ghost before = descriptors@.map_values(|d: SyncPluginDescriptor| d@);
        assert(plugins@.take(i + 1).drop_last() =~= plugins@.take(i as int));
        if plugin.enabled {
            if let Some(manifest) = &plugin.manifest {
                if manifest.plugin_type == PluginType::ClipboardSync {
                    descriptors.push(
                        SyncPluginDescriptor {
                            id: plugin.id.clone(),
                            entry: manifest.entry.clone(),
                            plugin_dir: plugin.plugin_dir.clone(),
                            config_file: plugin.config_file.clone(),
                        },
                    );
                    assert(descriptors@.map_values(|d: SyncPluginDescriptor| d@) =~= before.push(
                        plugin.descriptor(),
                    ));
                }
            }
        }
    }
    assert(plugins@.take(n as int) =~= plugins@);
    descriptors
}

// ── The sync state ─────────────────────────────────────────────────────────

/// Requests to the sync thread.
#[derive(Debug, Clone, PartialEq, Eq)]
pub enum SyncMessage {
    /// A text was captured from the clipboard.
    Captured(String),
    /// The texts of the plugins are wanted.
    Pull,
    /// The set of plugins has changed.
    Reload(Vec<SyncPluginDescriptor>),
}

/// What syncing remembers: the loaded plugins, and the hash of the last text that
/// one of them took.
pub struct SyncState {
    plugins: Vec<String>,
    last_pushed_hash: Option<String>,
}

/// The mathematical content of a [`SyncState`].
pub struct SyncView {
    pub plugins: Seq<Seq<char>>,
    pub last_pushed_hash: Option<Seq<char>>,
}

/// A text on its way to the plugins.
#[derive(Debug, PartialEq, Eq)]
pub struct Push {
    pub profile: JsonValue,
    pub hash: String,
}

/// The last pushed text comes back with the hash that it was pushed with.
pub open spec fn is_echo(profile: JsonValue, last_pushed_hash: Option<Seq<char>>) -> bool {
    last_pushed_hash is Some && profile.member_text("hash"@) == last_pushed_hash
}

/// The text that a profile brings: one that is not empty and no echo.
pub open spec fn accepted_text(
    profile: JsonValue,
    last_pushed_hash: Option<Seq<char>>,
) -> Option<Seq<char>> {
    match profile.member_text("text"@) {
        Some(text) => if text.len() > 0 && !is_echo(profile, last_pushed_hash) {
            Some(text)
        } else {
            None
        },
        None => None,
    }
}

/// The texts that profiles bring, in order.
pub open spec fn accepted_texts(
    profiles: Seq<JsonValue>,
    last_pushed_hash: Option<Seq<char>>,
) -> Seq<Seq<char>>
    decreases profiles.len(),
{
    if profiles.len() == 0 {
        Seq::empty()
    } else {
        let texts = accepted_texts(profiles.drop_last(), last_pushed_hash);
        match accepted_text(profiles.last(), last_pushed_hash) {
            Some(text) => texts.push(text),
            None => texts,
        }
    }
}

/// The profiles in a reply: the items of an array, or an object by itself.
pub open spec fn profiles_in(reply: Option<JsonValue>) -> Seq<JsonValue> {
    match reply {
        Some(JsonValue::Array(items)) => items@,
        Some(JsonValue::Object(members)) => seq![JsonValue::Object(members)],
        _ => Seq::empty(),
    }
}

/// The texts that replies bring, in order.
pub open spec fn pulled_texts(
    replies: Seq<Option<JsonValue>>,
    last_pushed_hash: Option<Seq<char>>,
) -> Seq<Seq<char>>
    decreases replies.len(),
{
    if replies.len() == 0 {
        Seq::empty()
    } else {
        pulled_texts(replies.drop_last(), last_pushed_hash) + accepted_texts(
            profiles_in(replies.last()),
            last_pushed_hash,
        )
    }
}

/// The ids of the plugins that loaded, each once, in the order of loading.
pub open spec fn loaded_ids(
    descriptors: Seq<SyncPluginDescriptor>,
    loaded: Seq<bool>,
) -> Seq<Seq<char>>
    decreases descriptors.len(),
{
    if descriptors.len() == 0 {
        Seq::empty()
    } else {
        let ids = loaded_ids(descriptors.drop_last(), loaded);
        let id = descriptors.last().id@;
        if loaded[descriptors.len() - 1] && !ids.contains(id) {
            ids.push(id)
        } else {
            ids
        }
    }
}

/// How many of the outcomes are successes.
pub open spec fn successes(outcomes: Seq<bool>) -> nat {
    outcomes.filter(|outcome: bool| outcome).len()
}

impl SyncView {
    /// A text is pushed when there are plugins to take it and it is not what was
    /// pushed last.
    pub open spec fn wants_push(self, text: Seq<char>, hash: Seq<char>) -> bool {
        text.len() > 0 && self.plugins.len() > 0 && self.last_pushed_hash != Some(hash)
    }

    /// The state after a push: the hash is remembered where a plugin took the text.
    pub open spec fn pushed(self, hash: Seq<char>, taken: Seq<bool>) -> SyncView {
        if taken.contains(true) {
            SyncView { last_pushed_hash: Some(hash), ..self }
        } else {
            self
        }
    }

    /// The state after a reload: the plugins that loaded, which have been sent
    /// nothing yet.
    pub open spec fn reloaded(
        self,
        descriptors: Seq<SyncPluginDescriptor>,
        loaded: Seq<bool>,
    ) -> SyncView {
        SyncView { plugins: loaded_ids(descriptors, loaded), last_pushed_hash: None }
    }

    /// The texts of a pull. Without plugins there is nothing to pull.
    pub open spec fn pulled(self, replies: Seq<Option<JsonValue>>) -> Seq<Seq<char>> {
        if self.plugins.len() == 0 {
            Seq::empty()
        } else {
            pulled_texts(replies, self.last_pushed_hash)
        }
    }
}

impl View for SyncState {
    type V = SyncView;

    closed spec fn view(&self) -> SyncView {
        SyncView {
            plugins: string_views(self.plugins@),
            last_pushed_hash: match self.last_pushed_hash {
                Some(hash) => Some(hash@),
                None => None,
            },
        }
    }
}

impl SyncState {
    /// The state of a sync thread that has just started.
    pub fn new() -> (state: SyncState)
        ensures
            state@.plugins == Seq::<Seq<char>>::empty(),
            state@.last_pushed_hash is None,
    {
        let state = SyncState { plugins: Vec::new(), last_pushed_hash: None };
        assert(state@.plugins =~= Seq::<Seq<char>>::empty());
        state
    }

    /// The ids of the loaded plugins.
    pub fn plugins(&self) -> (ids: &Vec<String>)
        ensures
            string_views(ids@) == self@.plugins,
    {
        &self.plugins
    }

    /// The hash of the last text that a plugin took.
    pub fn last_pushed_hash(&self) -> (hash: Option<&str>)
        ensures
            match hash {
                Some(hash) => self@.last_pushed_hash == Some(hash@),
                None => self@.last_pushed_hash is None,
            },
    {
        match &self.last_pushed_hash {
            Some(hash) => Some(hash.as_str()),
            None => None,
        }
    }

    /// Decides on a text with a given hash whether it is pushed, and with which
    /// profile.
    pub fn plan_push(&self, text: &str, hash: String) -> (push: Option<Push>)
        ensures
            push is Some <==> self@.wants_push(text@, hash@),
            push matches Some(push) ==> push.hash@ == hash@ && is_profile(
                push.profile,
                text@,
                hash@,
            ),
    {
        if text.is_empty() || self.plugins.len() == 0 {
            return None;
        }
        if let Some(last) = self.last_pushed_hash() {
            if str_eq(last, hash.as_str()) {
                return None;
            }
        }
        Some(Push { profile: profile_json(text, hash.as_str()), hash })
    }

    /// Decides what to push of a captured text.
    pub fn handle_captured(&self, text: &str) -> (push: Option<Push>)
        requires
            hashable(text@),
        ensures
            push is Some <==> self@.wants_push(text@, hash_of(text@)),
            push matches Some(push) ==> push.hash@ == hash_of(text@) && is_profile(
                push.profile,
                text@,
                hash_of(text@),
            ),
    {
        if text.is_empty() || self.plugins.len() == 0 {
            return None;
        }
        self.plan_push(text, text_hash(text))
    }

    /// Takes note of which plugins took a pushed text.
    pub fn finish_push(&mut self, hash: String, taken: &[bool])
        ensures
            final(self)@ == old(self)@.pushed(hash@, taken@),
    {
        let mut pushed: bool = false;
        let n: usize = taken.len();
        for i in 0..n
            invariant
                n == taken@.len(),
                pushed <==> exists|j: int| 0 <= j < i && #[trigger] taken@[j],
        {
            if taken[i] {
                pushed = true;
            }
        }
        if pushed {
            let ghost j = choose|j: int| 0 <= j < n && #[trigger] taken@[j];
            assert(taken@[j] == true);
            assert(taken@.contains(true));
            self.last_pushed_hash = Some(hash);
        } else {
            assert(!taken@.contains(true));
        }
    }

    /// Collects the texts that the plugins' replies bring to the store. `None` is
    /// a plugin that has nothing new.
    pub fn handle_pull(&self, replies: &[Option<JsonValue>]) -> (texts: Vec<String>)
        ensures
            string_views(texts@) == self@.pulled(replies@),
    {
        let mut texts: Vec<String> = Vec::new();
        if self.plugins.len() == 0 {
            assert(string_views(texts@) =~= Seq::<Seq<char>>::empty());
            return texts;
        }
        let n: usize = replies.len();
        assert(string_views(texts@) =~= Seq::<Seq<char>>::empty());
        for i in 0..n
            invariant
                n == replies@.len(),
                string_views(texts@) == pulled_texts(
                    replies@.take(i as int),
                    self@.last_pushed_hash,
                ),
        {
            assert(replies@.take(i + 1).drop_last() =~= replies@.take(i as int));
            assert(replies@.take(i + 1).last() == replies@[i as int]);
            let ghost before = string_views(texts@);
            if let Some(value) = &replies[i] {
                match value {
                    JsonValue::Array(items) => {
                        self.accept_all(items, &mut texts);
                    },
                    JsonValue::Object(_) => {
                        self.accept(value, &mut texts);
                        proof {
                            let one = seq![*value];
                            assert(one.drop_last() =~= Seq::<JsonValue>::empty());
                            reveal_with_fuel(accepted_texts, 2);
                            assert(string_views(texts@) =~= before + accepted_texts(
                                one,
                                self@.last_pushed_hash,
                            ));
                        }
                    },
                    _ => {
                        assert(before + Seq::<Seq<char>>::empty() =~= before);
                    },
                }
            } else {
                assert(before + Seq::<Seq<char>>::empty() =~= before);
            }
        }
        assert(replies@.take(n as int) =~= replies@);
        texts
    }

    /// Adds the texts of profiles.
    fn accept_all(&self, profiles: &Vec<JsonValue>, texts: &mut Vec<String>)
        ensures
            string_views(final(texts)@) == string_views(old(texts)@) + accepted_texts(
                profiles@,
                self@.last_pushed_hash,
            ),
    {
        let n: usize = profiles.len();
        let ghost before = string_views(texts@);
        assert(before + accepted_texts(profiles@.take(0), self@.last_pushed_hash) =~= before);
        for k in 0..n
            invariant
                n == profiles@.len(),
                string_views(texts@) == before + accepted_texts(
                    profiles@.take(k as int),
                    self@.last_pushed_hash,
                ),
        {
            assert(profiles@.take(k + 1).drop_last() =~= profiles@.take(k as int));
            self.accept(&profiles[k], texts);
            proof {
                let seen = accepted_texts(profiles@.take(k as int), self@.last_pushed_hash);
                if let Some(text) = accepted_text(profiles@[k as int], self@.last_pushed_hash) {
                    assert((before + seen).push(text) =~= before + seen.push(text));
                }
            }
        }
        assert(profiles@.take(n as int) =~= profiles@);
    }

    /// Adds the text of one profile, where it brings one.
    fn accept(&self, profile: &JsonValue, texts: &mut Vec<String>)
        ensures
            string_views(final(texts)@) == match accepted_text(
                *profile,
                self@.last_pushed_hash,
            ) {
                Some(text) => string_views(old(texts)@).push(text),
                None => string_views(old(texts)@),
            },
    {
        if let Some(text) = profile.get_text("text") {
            if text.is_empty() {
                return;
            }
            if let (Some(remote), Some(last)) = (
                profile.get_text("hash"),
                self.last_pushed_hash(),
            ) {
                if str_eq(remote, last) {
                    return;
                }
            }
            texts.push(text.to_string());
            assert(string_views(texts@) =~= string_views(old(texts)@).push(text@));
        }
    }

    /// Replaces the loaded plugins by those of the descriptors that loaded, and
    /// counts how many did. The last pushed hash is reset, so that the next text
    /// goes to the reloaded plugins whatever was pushed before.
    pub fn handle_reload(
        &mut self,
        descriptors: &[SyncPluginDescriptor],
        loaded: &[bool],
    ) -> (count: usize)
        requires
            descriptors@.len() == loaded@.len(),
        ensures
            final(self)@ == old(self)@.reloaded(descriptors@, loaded@),
            final(self)@.last_pushed_hash is None,
            count == successes(loaded@),
    {
        let mut ids: Vec<String> = Vec::new();
        let mut count: usize = 0;
        let n: usize = descriptors.len();
        assert(string_views(ids@) =~= Seq::<Seq<char>>::empty());
        assert(loaded@.take(0).filter(|outcome: bool| outcome).len() == 0) by {
            reveal(Seq::filter);
        }
        for i in 0..n
            invariant
                n == descriptors@.len(),
                n == loaded@.len(),
                string_views(ids@) == loaded_ids(descriptors@.take(i as int), loaded@),
                count == successes(loaded@.take(i as int)),
                count <= i,
        {
            assert(descriptors@.take(i + 1).drop_last() =~= descriptors@.take(i as int));
            assert(loaded@.take(i + 1) =~= loaded@.take(i as int).push(loaded@[i as int]));
            proof {
                loaded@.take(i as int).lemma_filter_push(
                    loaded@[i as int],
                    |outcome: bool| outcome,
                );
            }
            if loaded[i] {
                count += 1;
                if !holds(&ids, descriptors[i].id.as_str()) {
                    let ghost before = string_views(ids@);
                    ids.push(descriptors[i].id.clone());
                    assert(string_views(ids@) =~= before.push(descriptors@[i as int].id@));
                }
            }
        }
        assert(descriptors@.take(n as int) =~= descriptors@);
        assert(loaded@.take(n as int) =~= loaded@);
        self.plugins = ids;
        self.last_pushed_hash = None;
        count
    }
}

/// Looks for a string among others.
fn holds(strings: &Vec<String>, wanted: &str) -> (found: bool)
    ensures
        found == string_views(strings@).contains(wanted@),
{
    let n: usize = strings.len();
    for i in 0..n
        invariant
            n == strings@.len(),
            forall|j: int| 0 <= j < i ==> strings@[j]@ != wanted@,
    {
        if str_eq(strings[i].as_str(), wanted) {
            assert(string_views(strings@)[i as int] == wanted@);
            return true;
        }
    }
    false
}

// ── Laws ───────────────────────────────────────────────────────────────────

/// A text that a plugin took is not pushed a second time in a row.
pub proof fn law_pushed_text_is_not_pushed_again(
    state: SyncView,
    text: Seq<char>,
    hash: Seq<char>,
    taken: Seq<bool>,
)
    requires
        taken.contains(true),
    ensures
        !state.pushed(hash, taken).wants_push(text, hash),
{
}

/// A text that no plugin took is pushed again when it is captured again.
pub proof fn law_failed_push_is_repeated(
    state: SyncView,
    text: Seq<char>,
    hash: Seq<char>,
    taken: Seq<bool>,
)
    requires
        state.wants_push(text, hash),
        !taken.contains(true),
    ensures
        state.pushed(hash, taken) == state,
        state.pushed(hash, taken).wants_push(text, hash),
{
}

/// What was pushed last is not taken in when it comes back from a plugin.
pub proof fn law_own_push_is_not_pulled(
    state: SyncView,
    profile: JsonValue,
    text: Seq<char>,
    hash: Seq<char>,
    taken: Seq<bool>,
)
    requires
        is_profile(profile, text, hash),
        taken.contains(true),
    ensures
        accepted_text(profile, state.pushed(hash, taken).last_pushed_hash) is None,
{
    law_profile_fields(profile, text, hash);
}

/// Every other profile of a text that is not empty is taken in.
pub proof fn law_other_profiles_are_pulled(
    state: SyncView,
    profile: JsonValue,
    text: Seq<char>,
    hash: Seq<char>,
)
    requires
        is_profile(profile, text, hash),
        text.len() > 0,
        state.last_pushed_hash != Some(hash),
    ensures
        accepted_text(profile, state.last_pushed_hash) == Some(text),
{
    law_profile_fields(profile, text, hash);
}

/// Without plugins nothing is pushed and nothing is pulled.
pub proof fn law_no_plugins_no_exchange(
    state: SyncView,
    text: Seq<char>,
    hash: Seq<char>,
    replies: Seq<Option<JsonValue>>,
)
    requires
        state.plugins.len() == 0,
    ensures
        !state.wants_push(text, hash),
        state.pulled(replies).len() == 0,
{
}

/// The texts of a pull are those that some profile in some reply brings.
pub proof fn law_pulled_texts(
    replies: Seq<Option<JsonValue>>,
    last_pushed_hash: Option<Seq<char>>,
    text: Seq<char>,
)
    ensures
        pulled_texts(replies, last_pushed_hash).contains(text) <==> exists|i: int, k: int|
            0 <= i < replies.len() && 0 <= k < profiles_in(replies[i]).len() && accepted_text(
                #[trigger] profiles_in(replies[i])[k],
                last_pushed_hash,
            ) == Some(text),
    decreases replies.len(),
{
    let all = pulled_texts(replies, last_pushed_hash);
    if replies.len() > 0 {
        let rest = replies.drop_last();
        let n = rest.len() as int;
        let before = pulled_texts(rest, last_pushed_hash);
        let own = accepted_texts(profiles_in(replies.last()), last_pushed_hash);
        law_pulled_texts(rest, last_pushed_hash, text);
        lemma_accepted_texts(profiles_in(replies.last()), last_pushed_hash, text);
        lemma_concat_contains(before, own, text);
        if before.contains(text) {
            let (i, k) = choose|i: int, k: int|
                0 <= i < rest.len() && 0 <= k < profiles_in(rest[i]).len() && accepted_text(
                    #[trigger] profiles_in(rest[i])[k],
                    last_pushed_hash,
                ) == Some(text);
            assert(accepted_text(profiles_in(replies[i])[k], last_pushed_hash) == Some(text));
        }
        if own.contains(text) {
            let k = choose|k: int|
                0 <= k < profiles_in(replies.last()).len() && accepted_text(
                    #[trigger] profiles_in(replies.last())[k],
                    last_pushed_hash,
                ) == Some(text);
            assert(accepted_text(profiles_in(replies[n])[k], last_pushed_hash) == Some(text));
        }
        if exists|i: int, k: int|
            0 <= i < replies.len() && 0 <= k < profiles_in(replies[i]).len() && accepted_text(
                #[trigger] profiles_in(replies[i])[k],
                last_pushed_hash,
            ) == Some(text) {
            let (i, k) = choose|i: int, k: int|
                0 <= i < replies.len() && 0 <= k < profiles_in(replies[i]).len()
                    && accepted_text(
                    #[trigger] profiles_in(replies[i])[k],
                    last_pushed_hash,
                ) == Some(text);
            if i < n {
                assert(accepted_text(profiles_in(rest[i])[k], last_pushed_hash) == Some(text));
            } else {
                assert(accepted_text(profiles_in(replies.last())[k], last_pushed_hash) == Some(
                    text,
                ));
            }
        }
    }
}

/// The texts that profiles bring are those that one of them brings.
proof fn lemma_accepted_texts(
    profiles: Seq<JsonValue>,
    last_pushed_hash: Option<Seq<char>>,
    text: Seq<char>,
)
    ensures
        accepted_texts(profiles, last_pushed_hash).contains(text) <==> exists|k: int|
            0 <= k < profiles.len() && accepted_text(#[trigger] profiles[k], last_pushed_hash)
                == Some(text),
    decreases profiles.len(),
{
    if profiles.len() > 0 {
        let rest = profiles.drop_last();
        let n = rest.len() as int;
        let before = accepted_texts(rest, last_pushed_hash);
        let all = accepted_texts(profiles, last_pushed_hash);
        lemma_accepted_texts(rest, last_pushed_hash, text);
        if let Some(last) = accepted_text(profiles.last(), last_pushed_hash) {
            assert(all =~= before + seq![last]);
            lemma_concat_contains(before, seq![last], text);
            if seq![last].contains(text) {
                assert(accepted_text(profiles[n], last_pushed_hash) == Some(text));
            }
            if last == text {
                assert(seq![last][0] == text);
            }
        }
        if before.contains(text) {
            let k = choose|k: int|
                0 <= k < rest.len() && accepted_text(#[trigger] rest[k], last_pushed_hash)
                    == Some(text);
            assert(accepted_text(profiles[k], last_pushed_hash) == Some(text));
        }
        if exists|k: int|
            0 <= k < profiles.len() && accepted_text(#[trigger] profiles[k], last_pushed_hash)
                == Some(text) {
            let k = choose|k: int|
                0 <= k < profiles.len() && accepted_text(
                    #[trigger] profiles[k],
                    last_pushed_hash,
                ) == Some(text);
            if k < n {
                assert(accepted_text(rest[k], last_pushed_hash) == Some(text));
            }
        }
    }
}

proof fn lemma_concat_contains(a: Seq<Seq<char>>, b: Seq<Seq<char>>, text: Seq<char>)
    ensures
        (a + b).contains(text) <==> a.contains(text) || b.contains(text),
{
    let all = a + b;
    if a.contains(text) {
        let i = choose|i: int| 0 <= i < a.len() && a[i] == text;
        assert(all[i] == text);
    }
    if b.contains(text) {
        let i = choose|i: int| 0 <= i < b.len() && b[i] == text;
        assert(all[a.len() + i] == text);
    }
    if all.contains(text) {
        let i = choose|i: int| 0 <= i < all.len() && all[i] == text;
        if i < a.len() {
            assert(a[i] == text);
        } else {
            assert(b[i - a.len()] == text);
        }
    }
}

/// After a reload with at least one plugin, every text that is not empty is pushed
/// when it is captured, also the one that was pushed last before.
pub proof fn law_reload_forgets_the_push(
    state: SyncView,
    descriptors: Seq<SyncPluginDescriptor>,
    loaded: Seq<bool>,
    text: Seq<char>,
    hash: Seq<char>,
)
    requires
        descriptors.len() == loaded.len(),
        loaded.contains(true),
        text.len() > 0,
    ensures
        state.reloaded(descriptors, loaded).wants_push(text, hash),
{
    let i = choose|i: int| 0 <= i < loaded.len() && loaded[i] == true;
    let id = descriptors[i].id@;
    law_reloaded_plugins(descriptors, loaded, id);
    assert(loaded_ids(descriptors, loaded).contains(id));
}

/// After a reload the loaded plugins are those that a load succeeded for, each
/// once.
pub proof fn law_reloaded_plugins(
    descriptors: Seq<SyncPluginDescriptor>,
    loaded: Seq<bool>,
    id: Seq<char>,
)
    requires
        descriptors.len() <= loaded.len(),
    ensures
        loaded_ids(descriptors, loaded).no_duplicates(),
        loaded_ids(descriptors, loaded).contains(id) <==> exists|i: int|
            0 <= i < descriptors.len() && loaded[i] && (#[trigger] descriptors[i]).id@ == id,
    decreases descriptors.len(),
{
    if descriptors.len() > 0 {
        let rest = descriptors.drop_last();
        let n = rest.len() as int;
        let before = loaded_ids(rest, loaded);
        let all = loaded_ids(descriptors, loaded);
        let last = descriptors.last().id@;
        law_reloaded_plugins(rest, loaded, id);
        if loaded[n] && !before.contains(last) {
            assert(all =~= before + seq![last]);
            lemma_concat_contains(before, seq![last], id);
            if id == last {
                assert(seq![last][0] == id);
            }
        }
        if before.contains(id) {
            let i = choose|i: int|
                0 <= i < rest.len() && loaded[i] && (#[trigger] rest[i]).id@ == id;
            assert(descriptors[i].id@ == id);
        }
        if all.contains(id) && !before.contains(id) {
            assert(descriptors[n].id@ == id);
        }
        if exists|i: int|
            0 <= i < descriptors.len() && loaded[i] && (#[trigger] descriptors[i]).id@ == id {
            let i = choose|i: int|
                0 <= i < descriptors.len() && loaded[i] && (#[trigger] descriptors[i]).id@ == id;
            if i < n {
                assert(rest[i].id@ == id);
            }
        }
    }
}

// ── What profiles bring ────────────────────────────────────────────────────

/// The first member of an object that has a name is a text, and that text is this
/// one.
pub open spec fn says(profile: JsonValue, name: Seq<char>, text: Seq<char>) -> bool {
    profile matches JsonValue::Object(members) && exists|k: int|
        0 <= k < members@.len() && (#[trigger] members@[k]).0@ == name && (forall|j: int|
            0 <= j < k ==> (#[trigger] members@[j]).0@ != name) && (
        members@[k].1 matches JsonValue::Text(found) && found@ == text)
}

/// Whatever else a profile holds and wherever it comes from: if its text is not
/// empty, it brings that text, unless its hash is the one that was pushed last.
pub proof fn law_every_profile_brings_its_text(
    profile: JsonValue,
    last_pushed_hash: Option<Seq<char>>,
    text: Seq<char>,
)
    requires
        says(profile, "text"@, text),
        text.len() > 0,
        last_pushed_hash matches Some(hash) ==> !says(profile, "hash"@, hash),
    ensures
        accepted_text(profile, last_pushed_hash) == Some(text),
{
    lemma_says(profile, "text"@, text);
    if let Some(hash) = last_pushed_hash {
        lemma_says(profile, "hash"@, hash);
    }
}

/// A profile brings nothing but its own text, and nothing at all where that is empty
/// or missing, or where its hash is the one that was pushed last.
pub proof fn law_profiles_bring_nothing_else(
    profile: JsonValue,
    last_pushed_hash: Option<Seq<char>>,
    text: Seq<char>,
)
    requires
        accepted_text(profile, last_pushed_hash) == Some(text),
    ensures
        says(profile, "text"@, text),
        text.len() > 0,
        last_pushed_hash matches Some(hash) ==> !says(profile, "hash"@, hash),
{
    lemma_says(profile, "text"@, text);
    if let Some(hash) = last_pushed_hash {
        lemma_says(profile, "hash"@, hash);
    }
}

/// Two profiles that say the same text and the same hash bring the same, whatever
/// else they hold.
pub proof fn law_only_text_and_hash_matter(
    a: JsonValue,
    b: JsonValue,
    last_pushed_hash: Option<Seq<char>>,
)
    requires
        forall|text: Seq<char>| #[trigger] says(a, "text"@, text) == says(b, "text"@, text),
        forall|hash: Seq<char>| #[trigger] says(a, "hash"@, hash) == says(b, "hash"@, hash),
    ensures
        accepted_text(a, last_pushed_hash) == accepted_text(b, last_pushed_hash),
{
    if let Some(text) = accepted_text(a, last_pushed_hash) {
        law_profiles_bring_nothing_else(a, last_pushed_hash, text);
        assert(says(b, "text"@, text));
        law_every_profile_brings_its_text(b, last_pushed_hash, text);
    }
    if let Some(text) = accepted_text(b, last_pushed_hash) {
        law_profiles_bring_nothing_else(b, last_pushed_hash, text);
        assert(says(a, "text"@, text));
        law_every_profile_brings_its_text(a, last_pushed_hash, text);
    }
}

proof fn lemma_says(profile: JsonValue, name: Seq<char>, text: Seq<char>)
    ensures
        says(profile, name, text) <==> profile.member_text(name) == Some(text),
{
    if let JsonValue::Object(members) = profile {
        lemma_lookup(members@, name);
        if says(profile, name, text) {
            let k = choose|k: int|
                0 <= k < members@.len() && (#[trigger] members@[k]).0@ == name && (forall|j: int|
                    0 <= j < k ==> (#[trigger] members@[j]).0@ != name) && (
                members@[k].1 matches JsonValue::Text(found) && found@ == text);
            let i = lemma_lookup(members@, name);
            if i < k {
                assert(members@[i].0@ != name);
            } else if k < i {
                assert(members@[k].0@ == name);
            }
        }
        if profile.member_text(name) == Some(text) {
            let i = lemma_lookup(members@, name);
            assert(members@[i].0@ == name);
        }
    }
}

/// Where `lookup` finds a name.
proof fn lemma_lookup(members: Seq<(String, JsonValue)>, name: Seq<char>) -> (i: int)
    ensures
        0 <= i <= members.len(),
        forall|j: int| 0 <= j < i ==> (#[trigger] members[j]).0@ != name,
        i < members.len() ==> members[i].0@ == name && lookup(members, name) == Some(
            members[i].1,
        ),
        i == members.len() ==> lookup(members, name) is None,
    decreases members.len(),
{
    if members.len() == 0 {
        0
    } else if members[0].0@ == name {
        0
    } else {
        let rest = members.skip(1);
        let i = lemma_lookup(rest, name);
        assert forall|j: int| 0 <= j < i + 1 implies (#[trigger] members[j]).0@ != name by {
            if j > 0 {
                assert(rest[j - 1] == members[j]);
            }
        }
        if i < rest.len() {
            assert(rest[i] == members[i + 1]);
        }
        i + 1
    }
}

/// Reading a member gives the value of the first one with the name, and nothing where
/// there is none or the value is no object.
pub proof fn law_members_are_read_by_name(
    value: JsonValue,
    members: Vec<(String, JsonValue)>,
    name: Seq<char>,
    k: int,
)
    ensures
        value == JsonValue::Object(members) && 0 <= k < members@.len() && members@[k].0@ == name
            && (forall|j: int| 0 <= j < k ==> (#[trigger] members@[j]).0@ != name)
            ==> value.member(name) == Some(members@[k].1),
        value == JsonValue::Object(members) && (forall|j: int|
            0 <= j < members@.len() ==> (#[trigger] members@[j]).0@ != name) ==> value.member(
            name,
        ) is None,
        !(value is Object) ==> value.member(name) is None,
        value matches JsonValue::Text(text) ==> value.text() == Some(text@),
        !(value is Text) ==> value.text() is None,
{
    if value == JsonValue::Object(members) {
        let i = lemma_lookup(members@, name);
        if 0 <= k < members@.len() && members@[k].0@ == name && (forall|j: int|
            0 <= j < k ==> (#[trigger] members@[j]).0@ != name) {
            if i < k {
                assert(members@[i].0@ != name);
            } else if k < i {
                assert(members@[k].0@ == name);
            }
        }
    }
}

/// A profile holds its five fields and no others.
pub proof fn law_profiles_hold_five_fields(
    profile: JsonValue,
    text: Seq<char>,
    hash: Seq<char>,
    name: Seq<char>,
)
    requires
        is_profile(profile, text, hash),
    ensures
        profile matches JsonValue::Object(members) && members@.len() == 5,
        says(profile, "text"@, text),
        says(profile, "hash"@, hash),
        profile.member(name) is Some ==> name == "type"@ || name == "hash"@ || name == "text"@
            || name == "size"@ || name == "source"@,
{
    law_profile_fields(profile, text, hash);
    lemma_says(profile, "text"@, text);
    lemma_says(profile, "hash"@, hash);
    let members = profile->Object_0@;
    let i = lemma_lookup(members, name);
}

/// A hash is the digest of the text's UTF-8 bytes, two lower case digits to a byte.
pub proof fn law_hashes_spell_the_digest(text: Seq<char>, i: int)
    requires
        0 <= i < sha256(vstd::utf8::encode_utf8(text)).len(),
    ensures
        hash_of(text).len() == 2 * sha256(vstd::utf8::encode_utf8(text)).len(),
        0 <= crate::text::hex_value(hash_of(text)[2 * i]) < 16,
        0 <= crate::text::hex_value(hash_of(text)[2 * i + 1]) < 16,
        16 * crate::text::hex_value(hash_of(text)[2 * i]) + crate::text::hex_value(
            hash_of(text)[2 * i + 1],
        ) == sha256(vstd::utf8::encode_utf8(text))[i],
{
    crate::text::law_hex_notation_reads_back(sha256(vstd::utf8::encode_utf8(text)), i);
}

// ── Pulls, pushes and reloads, piece by piece ──────────────────────────────

/// A pull of several replies brings what the replies bring one after the other, and
/// an array brings what its items bring one after the other: nothing is merged,
/// reordered or left out.
pub proof fn law_pulls_go_piece_by_piece(
    state: SyncView,
    a: Seq<Option<JsonValue>>,
    b: Seq<Option<JsonValue>>,
    items: Vec<JsonValue>,
    front: Vec<JsonValue>,
    back: Vec<JsonValue>,
)
    requires
        items@ == front@ + back@,
    ensures
        state.pulled(a + b) == state.pulled(a) + state.pulled(b),
        state.pulled(seq![Some(JsonValue::Array(items))]) == state.pulled(
            seq![Some(JsonValue::Array(front))],
        ) + state.pulled(seq![Some(JsonValue::Array(back))]),
{
    let last = state.last_pushed_hash;
    lemma_pulled_concat(a, b, last);
    lemma_accepted_concat(front@, back@, last);
    lemma_pulled_one(Some(JsonValue::Array(items)), last);
    lemma_pulled_one(Some(JsonValue::Array(front)), last);
    lemma_pulled_one(Some(JsonValue::Array(back)), last);
    if state.plugins.len() == 0 {
        assert(Seq::<Seq<char>>::empty() + Seq::<Seq<char>>::empty() =~= Seq::<
            Seq<char>,
        >::empty());
    }
}

/// A reply that is one profile, by itself or as the only item of an array, brings what
/// that profile brings; other replies bring nothing. Without plugins nothing comes.
pub proof fn law_single_replies(state: SyncView, profile: JsonValue, items: Vec<JsonValue>)
    requires
        state.plugins.len() > 0,
    ensures
        items@ == seq![profile] ==> state.pulled(seq![Some(JsonValue::Array(items))]) == match
            accepted_text(profile, state.last_pushed_hash) {
            Some(text) => seq![text],
            None => Seq::empty(),
        },
        profile is Object ==> state.pulled(seq![Some(profile)]) == match accepted_text(
            profile,
            state.last_pushed_hash,
        ) {
            Some(text) => seq![text],
            None => Seq::empty(),
        },
        !(profile is Object || profile is Array) ==> state.pulled(seq![Some(profile)]).len() == 0,
        items@.len() == 0 ==> state.pulled(seq![Some(JsonValue::Array(items))]).len() == 0,
        state.pulled(seq![None]).len() == 0,
        state.pulled(Seq::empty()).len() == 0,
{
    let last = state.last_pushed_hash;
    lemma_pulled_one(Some(JsonValue::Array(items)), last);
    lemma_pulled_one(Some(profile), last);
    lemma_pulled_one(None, last);
    assert(seq![profile].drop_last() =~= Seq::<JsonValue>::empty());
    reveal_with_fuel(accepted_texts, 2);
    if let Some(text) = accepted_text(profile, last) {
        assert(Seq::<Seq<char>>::empty().push(text) =~= seq![text]);
    }
}

proof fn lemma_pulled_one(reply: Option<JsonValue>, last: Option<Seq<char>>)
    ensures
        pulled_texts(seq![reply], last) == accepted_texts(profiles_in(reply), last),
{
    assert(seq![reply].drop_last() =~= Seq::<Option<JsonValue>>::empty());
    reveal_with_fuel(pulled_texts, 2);
    assert(Seq::<Seq<char>>::empty() + accepted_texts(profiles_in(reply), last)
        =~= accepted_texts(profiles_in(reply), last));
}

proof fn lemma_pulled_concat(
    a: Seq<Option<JsonValue>>,
    b: Seq<Option<JsonValue>>,
    last: Option<Seq<char>>,
)
    ensures
        pulled_texts(a + b, last) == pulled_texts(a, last) + pulled_texts(b, last),
    decreases b.len(),
{
    if b.len() == 0 {
        assert(a + b =~= a);
        assert(pulled_texts(a, last) + pulled_texts(b, last) =~= pulled_texts(a, last));
    } else {
        assert((a + b).drop_last() =~= a + b.drop_last());
        lemma_pulled_concat(a, b.drop_last(), last);
        let own = accepted_texts(profiles_in(b.last()), last);
        assert((pulled_texts(a, last) + pulled_texts(b.drop_last(), last)) + own =~= pulled_texts(
            a,
            last,
        ) + (pulled_texts(b.drop_last(), last) + own));
    }
}

proof fn lemma_accepted_concat(
    a: Seq<JsonValue>,
    b: Seq<JsonValue>,
    last: Option<Seq<char>>,
)
    ensures
        accepted_texts(a + b, last) == accepted_texts(a, last) + accepted_texts(b, last),
    decreases b.len(),
{
    if b.len() == 0 {
        assert(a + b =~= a);
        assert(accepted_texts(a, last) + accepted_texts(b, last) =~= accepted_texts(a, last));
    } else {
        assert((a + b).drop_last() =~= a + b.drop_last());
        lemma_accepted_concat(a, b.drop_last(), last);
        if let Some(text) = accepted_text(b.last(), last) {
            let init = accepted_texts(b.drop_last(), last);
            assert((accepted_texts(a, last) + init).push(text) =~= accepted_texts(a, last)
                + init.push(text));
        }
    }
}

/// A captured text goes out if it is not empty, a plugin is loaded and its hash is not
/// the one that was pushed last; in all other cases it does not.
pub proof fn law_what_is_pushed(state: SyncView, text: Seq<char>, hash: Seq<char>)
    ensures
        text.len() > 0 && state.plugins.len() > 0 && state.last_pushed_hash is None
            ==> state.wants_push(text, hash),
        text.len() > 0 && state.plugins.len() > 0 && (state.last_pushed_hash matches Some(last)
            && last != hash) ==> state.wants_push(text, hash),
        text.len() == 0 ==> !state.wants_push(text, hash),
        state.plugins.len() == 0 ==> !state.wants_push(text, hash),
        state.last_pushed_hash == Some(hash) ==> !state.wants_push(text, hash),
{
}

/// A push is remembered if one plugin took it, whichever and however many there are;
/// the plugins stay the same.
pub proof fn law_what_a_push_leaves(state: SyncView, hash: Seq<char>, taken: Seq<bool>, i: int)
    ensures
        state.pushed(hash, taken).plugins == state.plugins,
        0 <= i < taken.len() && taken[i] ==> state.pushed(hash, taken).last_pushed_hash == Some(
            hash,
        ),
        (forall|j: int| 0 <= j < taken.len() ==> !#[trigger] taken[j]) ==> state.pushed(
            hash,
            taken,
        ).last_pushed_hash == state.last_pushed_hash,
{
    if 0 <= i < taken.len() && taken[i] {
        assert(taken[i] == true);
        assert(taken.contains(true));
    }
    if taken.contains(true) {
        let j = choose|j: int| 0 <= j < taken.len() && taken[j] == true;
        assert(taken[j]);
    }
}

/// After a reload the state holds every plugin that a load succeeded for, each once, no
/// other, and no pushed hash, whatever it held before.
pub proof fn law_what_a_reload_leaves(
    state: SyncView,
    descriptors: Seq<SyncPluginDescriptor>,
    loaded: Seq<bool>,
    id: Seq<char>,
)
    requires
        descriptors.len() == loaded.len(),
    ensures
        state.reloaded(descriptors, loaded).last_pushed_hash is None,
        state.reloaded(descriptors, loaded).plugins.no_duplicates(),
        state.reloaded(descriptors, loaded).plugins.contains(id) <==> exists|i: int|
            0 <= i < descriptors.len() && loaded[i] && (#[trigger] descriptors[i]).id@ == id,
{
    law_reloaded_plugins(descriptors, loaded, id);
}

/// Every successful load counts once.
pub proof fn law_successes_add_up(outcomes: Seq<bool>, outcome: bool)
    ensures
        successes(Seq::empty()) == 0,
        successes(outcomes.push(outcome)) == successes(outcomes) + if outcome {
            1nat
        } else {
            0
        },
{
    reveal(Seq::filter);
    outcomes.lemma_filter_push(outcome, |outcome: bool| outcome);
}

/// Plugins are chosen one by one: an enabled plugin whose manifest was read and says
/// that it syncs the clipboard is described as it is, any other is left out.
pub proof fn law_plugins_are_chosen_one_by_one(
    a: Seq<InstalledPlugin>,
    b: Seq<InstalledPlugin>,
    plugin: InstalledPlugin,
)
    ensures
        descriptors_of(a + b) == descriptors_of(a) + descriptors_of(b),
        descriptors_of(seq![plugin]) == match plugin.manifest {
            Some(manifest) => if plugin.enabled && manifest.plugin_type
                == PluginType::ClipboardSync {
                seq![
                    DescriptorView {
                        id: plugin.id@,
                        entry: manifest.entry@,
                        plugin_dir: plugin.plugin_dir@,
                        config_file: plugin.config_file@,
                    },
                ]
            } else {
                Seq::empty()
            },
            None => Seq::empty(),
        },
    decreases b.len(),
{
    assert(seq![plugin].drop_last() =~= Seq::<InstalledPlugin>::empty());
    reveal_with_fuel(descriptors_of, 2);
    if b.len() == 0 {
        assert(a + b =~= a);
        assert(descriptors_of(a) + descriptors_of(b) =~= descriptors_of(a));
    } else {
        assert((a + b).drop_last() =~= a + b.drop_last());
        law_plugins_are_chosen_one_by_one(a, b.drop_last(), plugin);
        if b.last().syncs() {
            let init = descriptors_of(b.drop_last());
            assert((descriptors_of(a) + init).push(b.last().descriptor()) =~= descriptors_of(a)
                + init.push(b.last().descriptor()));
        }
    }
}

/// The characters of strings: one text for each string, as it is.
pub proof fn law_string_views(strings: Seq<String>, i: int)
    ensures
        string_views(strings).len() == strings.len(),
        0 <= i < strings.len() ==> string_views(strings)[i] == strings[i]@,
{
}

} // verus!
