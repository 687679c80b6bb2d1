use git_staircase::memoization::{InProcessMemoStore, MemoKey, MemoValue, MemoizationStore, Memoizer};
use std::sync::{Arc, Mutex};

#[test]
fn test_in_process_memo_store() {
    let memoizer = Memoizer::new();
    assert_eq!(memoizer.Ancestry("commitA".into(), "commitB".into()).get(), None);
    memoizer.Ancestry("commitA".into(), "commitB".into()).put(true);
    assert_eq!(memoizer.Ancestry("commitA".into(), "commitB".into()).get(), Some(true));

    assert_eq!(memoizer.ObjectFormat().get(), None);
    memoizer.ObjectFormat().put("sha1".into());
    assert_eq!(memoizer.ObjectFormat().get(), Some("sha1".to_string()));

    assert_eq!(memoizer.PatchId("c1".into(), "c2".into()).get(), None);
    memoizer.PatchId("c1".into(), "c2".into()).put("patch123".into());
    assert_eq!(memoizer.PatchId("c1".into(), "c2".into()).get(), Some("patch123".to_string()));

    memoizer.clear();
    assert_eq!(memoizer.Ancestry("commitA".into(), "commitB".into()).get(), None);
    assert_eq!(memoizer.ObjectFormat().get(), None);
}

struct MockDaemonStore {
    calls: Arc<Mutex<Vec<MemoKey>>>,
    inner: InProcessMemoStore,
}

impl MemoizationStore for MockDaemonStore {
    fn get(&self, key: &MemoKey) -> Option<MemoValue> {
        if let Ok(mut c) = self.calls.lock() {
            c.push(key.clone());
        }
        self.inner.get(key)
    }

    fn put(&self, key: MemoKey, value: MemoValue) {
        self.inner.put(key, value);
    }

    fn clear(&self) {
        self.inner.clear();
    }
}

#[test]
fn test_custom_store_pluggability() {
    let calls = Arc::new(Mutex::new(Vec::new()));
    let mock_daemon = Arc::new(MockDaemonStore { calls: calls.clone(), inner: InProcessMemoStore::new() });
    let memoizer = Memoizer::with_store(mock_daemon);
    memoizer.TreeId("commit1".into()).put("tree1".into());
    assert_eq!(memoizer.TreeId("commit1".into()).get(), Some("tree1".to_string()));
    let recorded = calls.lock().unwrap();
    assert_eq!(recorded.len(), 1);
    assert_eq!(recorded[0], MemoKey::TreeId { commit: "commit1".to_string() });
}

#[test]
fn hashed_data_is_keyed_by_its_sha256() {
    let memoizer = Memoizer::new();
    memoizer.hash_data("hello").put("oid-of-hello".into());
    assert_eq!(memoizer.hash_data("hello").get(), Some("oid-of-hello".to_string()));
    assert_eq!(memoizer.hash_data("hello!").get(), None);
}
