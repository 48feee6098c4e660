use xime::store::ClipboardStore;
use xime::sync::{
    can_hash, profile_json, scan_descriptors, text_hash, InstalledPlugin, JsonValue, PluginManifest,
    PluginType, SyncMessage, SyncPluginDescriptor, SyncState,
};
use xime::text::{decimal, hex_lower, str_eq};

/// A plugin that keeps what is pushed to it and returns it on a pull.
struct FakeRemote {
    profiles: Vec<(String, String)>,
    accepts: bool,
}

impl FakeRemote {
    fn new() -> FakeRemote {
        FakeRemote { profiles: vec![], accepts: true }
    }

    fn push(&mut self, profile: &JsonValue) -> bool {
        if self.accepts {
            let field = |name: &str| profile.get(name).unwrap().as_str().unwrap().to_string();
            self.profiles.push((field("text"), field("hash")));
        }
        self.accepts
    }

    fn pull(&self) -> Option<JsonValue> {
        Some(JsonValue::Array(
            self.profiles
                .iter()
                .map(|(text, hash)| profile_json(text, hash))
                .collect(),
        ))
    }
}

fn descriptor() -> SyncPluginDescriptor {
    SyncPluginDescriptor {
        id: "com.test.sync".to_string(),
        entry: "main.lua".to_string(),
        plugin_dir: "/plugins/com.test.sync".to_string(),
        config_file: "config.yaml".to_string(),
    }
}

fn loaded_state() -> SyncState {
    let mut state = SyncState::new();
    assert_eq!(state.handle_reload(&[descriptor()], &[true]), 1);
    state
}

fn capture(state: &mut SyncState, remote: &mut FakeRemote, text: &str) {
    if let Some(push) = state.handle_captured(text) {
        let taken = remote.push(&push.profile);
        state.finish_push(push.hash, &[taken]);
    }
}

fn pull(state: &SyncState, remote: &FakeRemote, store: &mut ClipboardStore) {
    for text in state.handle_pull(&[remote.pull()]) {
        store.upsert_and_trim(&text, 1).unwrap();
    }
}

#[test]
fn test_text_hash() {
    assert_eq!(text_hash("hello").len(), 64);
    assert_eq!(text_hash("hello"), text_hash("hello"));
    assert_ne!(text_hash("hello"), text_hash("hello "));
}

#[test]
fn hashes_are_sha256_in_lower_case() {
    assert!(can_hash("hello"));
    assert_eq!(
        text_hash("hello"),
        "2cf24dba5fb0a30e26e83b2ac5b9e29e1b161e5c1fa7425e73043362938b9824"
    );
    assert_eq!(
        text_hash(""),
        "e3b0c44298fc1c149afbf4c8996fb92427ae41e4649b934ca495991b7852b855"
    );
}

#[test]
fn test_profile_json_fields() {
    let hash = text_hash("abc");
    let p = profile_json("abc", &hash);
    let field = |name: &str| p.get(name).unwrap().as_str().unwrap();
    assert_eq!(field("type"), "text");
    assert_eq!(field("text"), "abc");
    assert_eq!(field("hash"), hash);
    assert_eq!(p.get("size"), Some(&JsonValue::Integer(3)));
    assert_eq!(field("source"), "linux");
}

#[test]
fn profile_sizes_are_in_bytes() {
    let p = profile_json("你好", "h");
    assert_eq!(p.get("size"), Some(&JsonValue::Integer(6)));
    assert_eq!(p.get("missing"), None);
    assert_eq!(p.get("size").unwrap().as_str(), None);
    assert_eq!(JsonValue::Other.get("text"), None);
}

#[test]
fn test_captured_pushes_and_dedups() {
    let mut store = ClipboardStore::new();
    let mut state = loaded_state();
    let mut remote = FakeRemote::new();

    capture(&mut state, &mut remote, "hello");
    assert_eq!(remote.profiles.len(), 1);
    pull(&state, &remote, &mut store);
    assert_eq!(store.count_clipboard(), 0, "pull 回声应被抑制");

    capture(&mut state, &mut remote, "hello");
    assert_eq!(remote.profiles.len(), 1, "相同文本不应重复推送");
    pull(&state, &remote, &mut store);
    assert_eq!(store.count_clipboard(), 0);
}

#[test]
fn test_pull_writes_remote_profiles() {
    let mut store = ClipboardStore::new();
    let mut state = loaded_state();
    let mut remote = FakeRemote::new();

    capture(&mut state, &mut remote, "A");
    let b_hash = text_hash("B");
    let profile = profile_json("B", &b_hash);
    assert!(remote.push(&profile));

    pull(&state, &remote, &mut store);
    let items = store.list_clipboard(10);
    assert_eq!(items.len(), 1);
    assert_eq!(items[0].text, "B");
}

#[test]
fn test_empty_state_noop() {
    let mut store = ClipboardStore::new();
    let mut state = SyncState::new();
    let mut remote = FakeRemote::new();
    remote.push(&profile_json("B", "b"));
    capture(&mut state, &mut remote, "hello");
    assert_eq!(remote.profiles.len(), 1);
    pull(&state, &remote, &mut store);
    assert_eq!(state.handle_reload(&[], &[]), 0);
    assert_eq!(store.count_clipboard(), 0);
}

#[test]
fn test_reload_loads_and_unloads() {
    let mut state = SyncState::new();
    let mut remote = FakeRemote::new();
    assert_eq!(state.handle_reload(&[descriptor()], &[true]), 1);
    capture(&mut state, &mut remote, "x");
    assert_eq!(remote.profiles.len(), 1);
    // Without plugins a push does nothing.
    state.handle_reload(&[], &[]);
    capture(&mut state, &mut remote, "y");
    assert_eq!(remote.profiles.len(), 1);
    // A reload resets the last pushed hash, so "y" can be pushed.
    state.handle_reload(&[descriptor()], &[true]);
    assert_eq!(state.last_pushed_hash(), None);
    capture(&mut state, &mut remote, "y");
    assert_eq!(remote.profiles.len(), 2);
}

#[test]
fn reloads_reset_the_last_pushed_hash() {
    let mut state = loaded_state();
    let mut remote = FakeRemote::new();
    capture(&mut state, &mut remote, "x");
    assert_eq!(state.last_pushed_hash(), Some(text_hash("x").as_str()));
    state.handle_reload(&[descriptor()], &[true]);
    assert_eq!(state.last_pushed_hash(), None);
    capture(&mut state, &mut remote, "x");
    assert_eq!(remote.profiles.len(), 2);
    assert_eq!(state.last_pushed_hash(), Some(text_hash("x").as_str()));
    state.handle_reload(&[descriptor()], &[false]);
    assert_eq!(state.last_pushed_hash(), None);
    capture(&mut state, &mut remote, "x");
    assert_eq!(remote.profiles.len(), 2);
}

#[test]
fn failed_loads_are_left_out() {
    let mut state = SyncState::new();
    let mut other = descriptor();
    other.id = "other".to_string();
    let all = [descriptor(), other.clone(), other, descriptor()];
    assert_eq!(state.handle_reload(&all, &[false, true, true, true]), 3);
    assert_eq!(state.plugins(), &vec!["other".to_string(), "com.test.sync".to_string()]);
}

#[test]
fn refused_pushes_are_tried_again() {
    let mut state = loaded_state();
    let mut remote = FakeRemote::new();
    remote.accepts = false;
    capture(&mut state, &mut remote, "x");
    assert_eq!(state.last_pushed_hash(), None);
    remote.accepts = true;
    capture(&mut state, &mut remote, "x");
    assert_eq!(remote.profiles.len(), 1);
    capture(&mut state, &mut remote, "y");
    capture(&mut state, &mut remote, "x");
    assert_eq!(remote.profiles.len(), 3);
}

#[test]
fn one_plugin_that_takes_a_text_is_enough() {
    let mut state = loaded_state();
    state.finish_push("h".to_string(), &[false, true, false]);
    assert_eq!(state.last_pushed_hash(), Some("h"));
    state.finish_push("g".to_string(), &[false, false]);
    assert_eq!(state.last_pushed_hash(), Some("h"));
    assert!(state.plan_push("text", "h".to_string()).is_none());
    let push = state.plan_push("text", "i".to_string()).unwrap();
    assert_eq!(push.hash, "i");
    assert_eq!(push.profile, profile_json("text", "i"));
    assert!(state.plan_push("", "j".to_string()).is_none());
}

#[test]
fn replies_of_every_shape() {
    let state = loaded_state();
    let text = |s: &str| JsonValue::Text(s.to_string());
    let object = |fields: Vec<(&str, JsonValue)>| {
        JsonValue::Object(fields.into_iter().map(|(n, v)| (n.to_string(), v)).collect())
    };
    assert_eq!(
        state.handle_pull(&[
            None,
            Some(JsonValue::Other),
            Some(text("plain")),
            Some(object(vec![("text", text("single"))])),
            Some(JsonValue::Array(vec![
                object(vec![("text", text(""))]),
                object(vec![("hash", text("h"))]),
                object(vec![("text", JsonValue::Integer(3))]),
                object(vec![("text", text("one")), ("hash", text("h"))]),
                text("not a profile"),
                object(vec![("text", text("two"))]),
            ])),
        ]),
        vec!["single", "one", "two"]
    );
}

#[test]
fn profiles_without_a_hash_are_no_echo() {
    let mut state = loaded_state();
    let reply = || {
        Some(JsonValue::Object(vec![(
            "text".to_string(),
            JsonValue::Text("t".to_string()),
        )]))
    };
    assert_eq!(state.handle_pull(&[reply()]), vec!["t"]);
    state.finish_push("h".to_string(), &[true]);
    assert_eq!(state.handle_pull(&[reply()]), vec!["t"]);
}

#[test]
fn only_enabled_sync_plugins_are_scanned() {
    let plugin = |id: &str, enabled: bool, kind: Option<PluginType>| InstalledPlugin {
        id: id.to_string(),
        enabled,
        manifest: kind.map(|plugin_type| PluginManifest {
            plugin_type,
            entry: "main.lua".to_string(),
        }),
        plugin_dir: format!("/plugins/{id}"),
        config_file: format!("/plugins/{id}.yaml"),
    };
    let found = scan_descriptors(&[
        plugin("a", true, Some(PluginType::ClipboardSync)),
        plugin("b", false, Some(PluginType::ClipboardSync)),
        plugin("c", true, Some(PluginType::Other)),
        plugin("d", true, None),
        plugin("e", true, Some(PluginType::ClipboardSync)),
    ]);
    let ids: Vec<&str> = found.iter().map(|d| d.id.as_str()).collect();
    assert_eq!(ids, vec!["a", "e"]);
    assert_eq!(found[1].plugin_dir, "/plugins/e");
    assert_eq!(found[1].config_file, "/plugins/e.yaml");
    assert_eq!(found[1].entry, "main.lua");
    assert_eq!(SyncMessage::Reload(found.clone()), SyncMessage::Reload(found));
}

#[test]
fn notations() {
    assert_eq!(hex_lower(&[0x00, 0x0f, 0xa9, 0xff]), "000fa9ff");
    assert_eq!(hex_lower(&[]), "");
    assert_eq!(decimal(0), "0");
    assert_eq!(decimal(10), "10");
    assert_eq!(decimal(9_876_543_210), "9876543210");
    assert!(str_eq("héllo", "héllo"));
    assert!(!str_eq("héllo", "hello"));
    assert!(!str_eq("a", "ab"));
}
