use aries_askar::entry::EntryTag;
use aries_askar::{Store, StoreKeyMethod};
use ffi_bridge::codec::{single_entry, stored_entry, value_bytes, TagPair};
use ffi_bridge::marshal::store_uri;

fn block_on<F: std::future::Future>(f: F) -> F::Output {
    tokio::runtime::Builder::new_current_thread()
        .enable_all()
        .build()
        .unwrap()
        .block_on(f)
}

#[test]
fn reprovisioning_leaves_no_entries() {
    block_on(async {
        let key = Store::new_raw_key(Some(b"00000000000000000000000000000001")).unwrap();
        let uri = store_uri("/tmp/ffi_bridge_reprovision.db");
        let store = Store::provision(&uri, StoreKeyMethod::RawKey, key.clone(), None, true)
            .await
            .unwrap();
        let mut session = store.session(None).await.unwrap();
        let rec = single_entry("old", "data");
        session
            .insert(&rec.category, &rec.name, &value_bytes(&rec), None, None)
            .await
            .unwrap();
        drop(session);
        store.close().await.unwrap();

        let store = Store::provision(&uri, StoreKeyMethod::RawKey, key, None, true)
            .await
            .unwrap();
        let mut session = store.session(None).await.unwrap();
        let rows = session
            .fetch_all(None, None, None, None, false, false)
            .await
            .unwrap();
        assert!(rows.is_empty());
    });
}

#[test]
fn inserted_entry_lists_with_its_text() {
    block_on(async {
        let key = Store::new_raw_key(Some(b"00000000000000000000000000000002")).unwrap();
        let uri = store_uri("/tmp/ffi_bridge_insert_list.db");
        let store = Store::provision(&uri, StoreKeyMethod::RawKey, key, None, true)
            .await
            .unwrap();
        let mut session = store.session(None).await.unwrap();
        let rec = single_entry("cred-1", "{\"raw\": \"tëxt\"}");
        session
            .insert(&rec.category, &rec.name, &value_bytes(&rec), None, None)
            .await
            .unwrap();
        let rows = session
            .fetch_all(None, None, None, None, false, false)
            .await
            .unwrap();
        let listed: Vec<_> = rows
            .into_iter()
            .map(|e| {
                let tags = e
                    .tags
                    .iter()
                    .map(|t: &EntryTag| TagPair { name: t.name().to_string(), value: t.value().to_string() })
                    .collect();
                stored_entry(e.name.clone(), e.category.clone(), e.value.as_ref(), tags)
            })
            .collect();
        assert_eq!(listed.len(), 1);
        assert_eq!(listed[0].name, "cred-1");
        assert_eq!(listed[0].category, "item");
        assert_eq!(listed[0].value, "{\"raw\": \"tëxt\"}");
    });
}
