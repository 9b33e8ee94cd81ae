use restaurant::router::{parse_api, parse_method, request_parser, RequestApi, RequestMethod};
use restaurant::text::parse_u32;
use restaurant::Restaurant;

fn store_with_items(table_n: usize, item_n: usize) -> Restaurant {
    let r = Restaurant::new(table_n);
    let t = r.clone().get_table(0).unwrap();
    for i in 0..item_n {
        let (mut tbl, handle) = t.acquire_write();
        tbl.add_item(i as u32);
        handle.release_write(tbl);
    }
    r
}

fn table_len(r: &Restaurant, tid: u32) -> usize {
    let t = r.clone().get_table(tid).unwrap();
    let (tbl, handle) = t.acquire_write();
    let n = tbl.items_size();
    handle.release_write(tbl);
    n
}

#[test]
fn test_parse_method() -> Result<(), String> {
    assert_eq!(parse_method("GET"), RequestMethod::Get);
    assert_eq!(parse_method("POST"), RequestMethod::Post);
    assert_eq!(parse_method("DELETE"), RequestMethod::Delete);
    assert_eq!(parse_method("PUT"), RequestMethod::Put);
    assert_eq!(parse_method("ABC"), RequestMethod::Unknown);
    Ok(())
}

#[test]
fn test_parse_api() -> Result<(), String> {
    assert_eq!(
        parse_api("/add/xxx"),
        (RequestApi::Add, vec!["xxx".to_string()])
    );
    assert_eq!(
        parse_api("/query/xxx"),
        (RequestApi::Query, vec!["xxx".to_string()])
    );
    assert_eq!(
        parse_api("/remove/xxx"),
        (RequestApi::Remove, vec!["xxx".to_string()])
    );
    assert_eq!(
        parse_api("/add/xxx/yyy"),
        (RequestApi::Add, vec!["xxx".to_string(), "yyy".to_string()])
    );
    assert_eq!(
        parse_api("/add/xxx/yyy/"),
        (
            RequestApi::Add,
            vec!["xxx".to_string(), "yyy".to_string(), "".to_string()]
        )
    );
    assert_eq!(parse_api("add"), (RequestApi::Unknown, vec![]));
    assert_eq!(parse_api("add/xxx"), (RequestApi::Unknown, vec![]));
    assert_eq!(parse_api("/"), (RequestApi::Unknown, vec![]));
    assert_eq!(parse_api(""), (RequestApi::Unknown, vec![]));
    Ok(())
}

#[test]
fn parse_u32_edges() {
    assert_eq!(parse_u32(""), None);
    assert_eq!(parse_u32("abc"), None);
    assert_eq!(parse_u32("12a"), None);
    assert_eq!(parse_u32("0"), Some(0));
    assert_eq!(parse_u32("007"), Some(7));
    assert_eq!(parse_u32("4294967295"), Some(u32::MAX));
    assert_eq!(parse_u32("4294967296"), None);
    assert_eq!(parse_u32("99999999999999999999"), None);
}

#[test]
fn router_query_all() {
    let r = store_with_items(1, 2);
    let out = request_parser(b"GET /query/0", r);
    assert!(out.contains("item_id: 0"));
    assert!(out.contains("item_id: 1"));
}

#[test]
fn router_query_one() {
    let r = store_with_items(1, 2);
    let out = request_parser(b"GET /query/0/1", r.clone());
    assert!(out.contains("item_id: 1"));
    let out2 = request_parser(b"GET /query/0/3", r);
    assert_eq!(out2, "{ msg: \"not found\"}");
}

#[test]
fn router_add_and_remove() {
    let r = store_with_items(1, 0);
    assert_eq!(
        request_parser(b"POST /add/0/123", r.clone()),
        "{ msg: \"success\"}"
    );
    assert_eq!(table_len(&r, 0), 1);
    assert_eq!(
        request_parser(b"DELETE /remove/0/123", r.clone()),
        "{ msg: \"success\"}"
    );
    assert_eq!(table_len(&r, 0), 0);
    assert_eq!(
        request_parser(b"DELETE /remove/0/123", r),
        "{ msg: \"cannot remove, not exist\"}"
    );
}

#[test]
fn router_add_with_trailing_fields() {
    let r = store_with_items(1, 0);
    assert_eq!(
        request_parser(b"POST /add/0/999,", r.clone()),
        "{ msg: \"success\"}"
    );
    assert_eq!(
        request_parser(b"POST /add/0/777,extra,fields", r.clone()),
        "{ msg: \"success\"}"
    );
    assert_eq!(table_len(&r, 0), 2);
}

#[test]
fn router_error_markers() {
    let r = store_with_items(1, 0);
    assert_eq!(request_parser(b"GET", r.clone()), "some error");
    assert_eq!(request_parser(b"GET /query/abc", r.clone()), "some error");
    assert_eq!(request_parser(b"GET /query/0/x", r.clone()), "some error");
    assert_eq!(request_parser(b"GET /query/0/1/2", r.clone()), "wrong api");
    assert_eq!(request_parser(b"POST /add/0", r.clone()), "wrong api");
    assert_eq!(request_parser(b"DELETE /remove/0", r.clone()), "wrong api");
    assert_eq!(request_parser(b"FOO /query/0", r.clone()), "unknown method");
    assert_eq!(request_parser(b"PUT /query/0", r.clone()), "");
    assert_eq!(request_parser(b"GET /add/0/5", r.clone()), "");
    assert_eq!(request_parser(b"GET /nope/0", r.clone()), "");
    assert_eq!(request_parser(&[0xff, 0xfe, 0x20, 0x20], r), "some error");
}

#[test]
fn router_missing_table_marker() {
    let r = store_with_items(1, 0);
    assert_eq!(
        request_parser(b"GET /query/9", r.clone()),
        "{ msg: \"no such table\"}"
    );
    assert_eq!(
        request_parser(b"POST /add/9/1", r),
        "{ msg: \"no such table\"}"
    );
}
