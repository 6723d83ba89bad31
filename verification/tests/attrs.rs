use rbum_core::attr::{IamAttrServ, IamKindAttrAddReq};
use rbum_core::result::RbumError;
use rbum_core::scope::RbumContext;

fn ctx(owner: u64, paths: &[u64], roles: &[u64]) -> RbumContext {
    RbumContext { owner, own_paths: paths.to_vec(), roles: roles.to_vec() }
}

fn attr_req(name: &str) -> IamKindAttrAddReq {
    IamKindAttrAddReq {
        name: name.to_string(),
        label: name.to_string(),
        note: String::new(),
        sort: 0,
        data_type: "String".to_string(),
        default_value: String::new(),
        required: false,
        min_length: 0,
        max_length: 255,
    }
}

#[test]
fn attr_definition_crud() {
    let mut serv = IamAttrServ::new();
    let t1 = ctx(5, &[42], &[]);
    let kind_account = 9u64;
    let id = serv.add_account_attr(attr_req("ext1"), 1, kind_account, &t1);
    let got = serv.get_account_attr(id, false, &t1).unwrap();
    assert_eq!(got.name, "ext1");
    assert_eq!(got.rel_kind_id, kind_account);

    serv.modify_account_attr(id, Some("Extension".to_string()), Some(3), None, Some(true), &t1)
        .unwrap();
    let got = serv.get_account_attr(id, false, &t1).unwrap();
    assert_eq!(got.label, "Extension");
    assert_eq!(got.sort, 3);
    assert!(got.required);

    let listed = serv.find_account_attrs(false, kind_account, &t1);
    assert_eq!(listed.len(), 1);
    // Definitions of another kind are not listed.
    assert!(serv.find_account_attrs(false, 1234, &t1).is_empty());

    assert_eq!(serv.delete_account_attr(id, &t1).unwrap(), 1);
    assert_eq!(serv.get_account_attr(id, false, &t1).unwrap_err(), RbumError::NotFound);
}

#[test]
fn attr_values_follow_their_definition() {
    let mut serv = IamAttrServ::new();
    let t1 = ctx(5, &[42], &[]);
    let attr_id = serv.add_account_attr(attr_req("phone"), 1, 9, &t1);
    // A value under an unknown definition is refused.
    assert_eq!(
        serv.add_account_attr_value("x".to_string(), 777, 55, &t1).unwrap_err(),
        RbumError::NotFound
    );
    let vid = serv.add_account_attr_value("12345".to_string(), attr_id, 55, &t1).unwrap();
    let v = serv.get_account_attr_value(vid, false, &t1).unwrap();
    assert_eq!(v.value, "12345");
    assert_eq!(v.rel_item_id, 55);

    serv.modify_account_attr_value(vid, "67890".to_string(), &t1).unwrap();
    assert_eq!(serv.get_account_attr_value(vid, false, &t1).unwrap().value, "67890");

    assert_eq!(serv.delete_account_attr_value(vid, &t1).unwrap(), 1);
    assert_eq!(
        serv.get_account_attr_value(vid, false, &t1).unwrap_err(),
        RbumError::NotFound
    );
}

#[test]
fn attrs_are_scope_guarded() {
    let mut serv = IamAttrServ::new();
    let t1 = ctx(5, &[42], &[]);
    let deeper = ctx(6, &[42, 7], &[]);
    let id = serv.add_account_attr(attr_req("ext1"), 0, 9, &t1);
    // A deeper scope sees a tenant definition but may not mutate it.
    assert!(serv.get_account_attr(id, false, &deeper).is_ok());
    assert_eq!(
        serv.modify_account_attr(id, None, Some(1), None, None, &deeper).unwrap_err(),
        RbumError::Forbidden
    );
    let t2 = ctx(7, &[43], &[]);
    assert_eq!(serv.get_account_attr(id, false, &t2).unwrap_err(), RbumError::NotFound);
}

#[test]
fn attr_listing_is_ordered_by_descending_sort() {
    let mut serv = IamAttrServ::new();
    let t1 = ctx(5, &[42], &[]);
    let mut low = attr_req("low");
    low.sort = 1;
    let mut high = attr_req("high");
    high.sort = 5;
    let mut mid = attr_req("mid");
    mid.sort = 3;
    serv.add_account_attr(low, 1, 9, &t1);
    serv.add_account_attr(high, 1, 9, &t1);
    serv.add_account_attr(mid, 1, 9, &t1);
    let listed = serv.find_account_attrs(false, 9, &t1);
    let names: Vec<&str> = listed.iter().map(|a| a.name.as_str()).collect();
    assert_eq!(names, vec!["high", "mid", "low"]);
}
