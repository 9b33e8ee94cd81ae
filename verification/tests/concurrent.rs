use restaurant::Restaurant;

fn runtime() -> tokio::runtime::Runtime {
    tokio::runtime::Builder::new_multi_thread()
        .worker_threads(4)
        .build()
        .unwrap()
}

fn table_len(r: &Restaurant, tid: u32) -> usize {
    let t = r.clone().get_table(tid).unwrap();
    let (tbl, handle) = t.acquire_write();
    let n = tbl.items_size();
    handle.release_write(tbl);
    n
}

#[test]
fn concurrent_adds_distinct_ids() {
    let add_amount: u32 = 200;
    let r = Restaurant::new(1);
    let rt = runtime();
    rt.block_on(async {
        let mut handles = Vec::new();
        for id in 0..add_amount {
            let r2 = r.clone();
            handles.push(tokio::spawn(async move {
                let t = r2.get_table(0).unwrap();
                let (mut tbl, handle) = t.acquire_write();
                tbl.add_item(id);
                handle.release_write(tbl);
            }));
        }
        for h in handles {
            h.await.unwrap();
        }
    });
    assert_eq!(table_len(&r, 0), add_amount as usize);
}

#[test]
fn concurrent_removes_distinct_existing_ids() {
    let total: u32 = 100;
    let distinct_removed: u32 = 60;
    let r = Restaurant::new(1);
    {
        let t = r.clone().get_table(0).unwrap();
        let (mut tbl, handle) = t.acquire_write();
        for id in 0..total {
            tbl.add_item(id);
        }
        handle.release_write(tbl);
    }
    let rt = runtime();
    rt.block_on(async {
        let mut handles = Vec::new();
        // 100 removal calls over 60 distinct existing ids: duplicates hit
        // an id already gone and must change nothing.
        for call in 0..total {
            let id = call % distinct_removed;
            let r2 = r.clone();
            handles.push(tokio::spawn(async move {
                let t = r2.get_table(0).unwrap();
                let (mut tbl, handle) = t.acquire_write();
                let _ = tbl.remove_item(id);
                handle.release_write(tbl);
            }));
        }
        for h in handles {
            h.await.unwrap();
        }
    });
    assert_eq!(table_len(&r, 0), (total - distinct_removed) as usize);
}

#[test]
fn distinct_partitions_progress_in_parallel() {
    let per_partition: u32 = 100;
    let r = Restaurant::new(2);
    let rt = runtime();
    rt.block_on(async {
        let mut handles = Vec::new();
        for id in 0..per_partition {
            for tid in 0..2u32 {
                let r2 = r.clone();
                handles.push(tokio::spawn(async move {
                    let t = r2.get_table(tid).unwrap();
                    let (mut tbl, handle) = t.acquire_write();
                    tbl.add_item(id);
                    handle.release_write(tbl);
                }));
            }
        }
        for h in handles {
            h.await.unwrap();
        }
    });
    assert_eq!(table_len(&r, 0), per_partition as usize);
    assert_eq!(table_len(&r, 1), per_partition as usize);
}
