use rbum_core::account::{
    add_account_group, add_account_role, delete_account_group, delete_account_role,
    list_account_group, list_account_role,
};
use rbum_core::item::{ItemStore, RbumItemFilterReq, RbumItemModifyReq};
use rbum_core::rel::{IamRelKind, IamRelServ};
use rbum_core::result::RbumError;
use rbum_core::role::{IamBasicInfo, IamCtRoleServ};
use rbum_core::scope::RbumContext;

fn ctx(owner: u64, paths: &[u64], roles: &[u64]) -> RbumContext {
    RbumContext { owner, own_paths: paths.to_vec(), roles: roles.to_vec() }
}

struct World {
    items: ItemStore,
    rels: IamRelServ,
    info: IamBasicInfo,
    tenant_id: u64,
}

fn world() -> World {
    let mut items = ItemStore::new();
    let sys = ctx(1, &[], &[]);
    let domain_iam_id = items.add_domain("iam".to_string(), "IAM".to_string(), 2, &sys);
    let kind_account_id = items.add_kind("account".to_string(), "Account".to_string(), 2, &sys);
    let kind_role_id = items.add_kind("role".to_string(), "Role".to_string(), 2, &sys);
    let kind_res_id = items.add_kind("res".to_string(), "Resource".to_string(), 2, &sys);
    let kind_group_node_id =
        items.add_kind("group_node".to_string(), "GroupNode".to_string(), 2, &sys);
    let kind_tenant_id = items.add_kind("tenant".to_string(), "Tenant".to_string(), 2, &sys);
    // The bootstrap tenant item, visible everywhere.
    let tenant_id = items
        .add_item("T1".to_string(), kind_tenant_id, domain_iam_id, 2, 0, false, &sys, 0)
        .unwrap();
    let info = IamBasicInfo {
        kind_account_id,
        kind_role_id,
        kind_res_id,
        kind_group_node_id,
        domain_iam_id,
        role_tenant_admin_id: 999,
    };
    World { items, rels: IamRelServ::new(), info, tenant_id }
}

#[test]
fn item_crud_round_trip() {
    let mut w = world();
    let t1 = ctx(5, &[w.tenant_id], &[]);
    let id = w
        .items
        .add_item("alice".to_string(), w.info.kind_account_id, w.info.domain_iam_id, 0, 0, false, &t1, 10)
        .unwrap();
    let got = w.items.get_item(id, &t1, false).unwrap();
    assert_eq!(got.name, "alice");
    assert_eq!(got.kind_id, w.info.kind_account_id);

    // Invisible to a sibling tenant.
    let t2 = ctx(6, &[777], &[]);
    assert_eq!(w.items.get_item(id, &t2, false).unwrap_err(), RbumError::NotFound);

    // Modify, then soft-delete.
    let req = RbumItemModifyReq {
        name: Some("alice2".to_string()),
        sort: None,
        disabled: None,
        scope_level: None,
    };
    w.items.modify_item(id, req, &t1, 11).unwrap();
    assert_eq!(w.items.get_item(id, &t1, false).unwrap().name, "alice2");
    assert_eq!(w.items.delete_item(id, &t1).unwrap(), 1);
    assert_eq!(w.items.get_item(id, &t1, false).unwrap_err(), RbumError::NotFound);
}

#[test]
fn add_item_rejects_unknown_kind() {
    let mut w = world();
    let t1 = ctx(5, &[w.tenant_id], &[]);
    let r = w.items.add_item("x".to_string(), 123456, w.info.domain_iam_id, 0, 0, false, &t1, 0);
    assert_eq!(r.unwrap_err(), RbumError::NotFound);
}

#[test]
fn paginate_items_windows_and_counts() {
    let mut w = world();
    let t1 = ctx(5, &[w.tenant_id], &[]);
    for i in 0..5u64 {
        w.items
            .add_item(
                format!("acc{}", i),
                w.info.kind_account_id,
                w.info.domain_iam_id,
                0,
                0,
                false,
                &t1,
                i,
            )
            .unwrap();
    }
    let filter = RbumItemFilterReq {
        kind_id: Some(w.info.kind_account_id),
        domain_id: None,
        name: None,
        disabled: None,
        with_sub_own_paths: false,
    };
    let page = w.items.paginate_items(&filter, 1, 2, false, &t1);
    assert_eq!(page.total_size, 5);
    assert_eq!(page.records.len(), 2);
    assert_eq!(page.records[0].name, "acc0");
    let page3 = w.items.paginate_items(&filter, 3, 2, false, &t1);
    assert_eq!(page3.records.len(), 1);
    assert_eq!(page3.records[0].name, "acc4");
    // Newest first when descending.
    let desc = w.items.paginate_items(&filter, 1, 2, true, &t1);
    assert_eq!(desc.records[0].name, "acc4");
}

#[test]
fn relation_add_then_find_returns_same_id() {
    let mut w = world();
    let t1 = ctx(5, &[w.tenant_id], &[]);
    let a = w
        .items
        .add_item("a".to_string(), w.info.kind_account_id, w.info.domain_iam_id, 0, 0, false, &t1, 0)
        .unwrap();
    let b = w
        .items
        .add_item("b".to_string(), w.info.kind_role_id, w.info.domain_iam_id, 0, 0, false, &t1, 0)
        .unwrap();
    let id = w
        .rels
        .add_rel(&w.items, IamRelKind::IamRoleAccount, a, b, Vec::new(), None, None, &t1, 7)
        .unwrap();
    assert_eq!(w.rels.find_rel_id(IamRelKind::IamRoleAccount, a, b), Some(id));
    // A second identical edge is refused.
    let dup = w.rels.add_rel(&w.items, IamRelKind::IamRoleAccount, a, b, Vec::new(), None, None, &t1, 8);
    assert_eq!(dup.unwrap_err(), RbumError::Conflict);
}

#[test]
fn relation_delete_then_find_returns_none() {
    let mut w = world();
    let t1 = ctx(5, &[w.tenant_id], &[]);
    let a = w
        .items
        .add_item("a".to_string(), w.info.kind_account_id, w.info.domain_iam_id, 0, 0, false, &t1, 0)
        .unwrap();
    let b = w
        .items
        .add_item("b".to_string(), w.info.kind_role_id, w.info.domain_iam_id, 0, 0, false, &t1, 0)
        .unwrap();
    w.rels
        .add_rel(&w.items, IamRelKind::IamRoleAccount, a, b, Vec::new(), None, None, &t1, 7)
        .unwrap();
    assert_eq!(w.rels.delete_rel(IamRelKind::IamRoleAccount, a, b, &t1).unwrap(), 1);
    assert_eq!(w.rels.find_rel_id(IamRelKind::IamRoleAccount, a, b), None);
    // Deleting again is a no-op.
    assert_eq!(w.rels.delete_rel(IamRelKind::IamRoleAccount, a, b, &t1).unwrap(), 0);
}

#[test]
fn relation_endpoints_must_resolve() {
    let mut w = world();
    let t1 = ctx(5, &[w.tenant_id], &[]);
    let a = w
        .items
        .add_item("a".to_string(), w.info.kind_account_id, w.info.domain_iam_id, 0, 0, false, &t1, 0)
        .unwrap();
    let r = w.rels.add_rel(&w.items, IamRelKind::IamRoleAccount, a, 424242, Vec::new(), None, None, &t1, 0);
    assert_eq!(r.unwrap_err(), RbumError::NotFound);
}

#[test]
fn role_console_requires_tenant_admin() {
    let mut w = world();
    let plain = ctx(5, &[w.tenant_id], &[]);
    let r = IamCtRoleServ::add_role(
        &mut w.items,
        &mut w.rels,
        &w.info,
        "admin".to_string(),
        0,
        false,
        &plain,
        0,
    );
    assert_eq!(r.unwrap_err(), RbumError::Forbidden);
}

#[test]
fn role_console_add_role_binds_tenant() {
    let mut w = world();
    let admin = ctx(5, &[w.tenant_id], &[999]);
    let role_id = IamCtRoleServ::add_role(
        &mut w.items,
        &mut w.rels,
        &w.info,
        "auditor".to_string(),
        0,
        false,
        &admin,
        3,
    )
    .unwrap();
    assert!(w.rels.find_rel_id(IamRelKind::IamRoleTenant, role_id, w.tenant_id).is_some());
    let got = IamCtRoleServ::get_role(&w.items, &w.info, role_id, &admin).unwrap();
    assert_eq!(got.name, "auditor");
    assert_eq!(got.scope_level, 1);
}

#[test]
fn account_role_grant_listing_and_revocation() {
    let mut w = world();
    let t1 = ctx(5, &[w.tenant_id], &[]);
    let acc = w
        .items
        .add_item("u".to_string(), w.info.kind_account_id, w.info.domain_iam_id, 0, 0, false, &t1, 0)
        .unwrap();
    let role = w
        .items
        .add_item("r".to_string(), w.info.kind_role_id, w.info.domain_iam_id, 0, 0, false, &t1, 0)
        .unwrap();
    // Wrong kinds are rejected.
    let wrong = add_account_role(&w.items, &mut w.rels, &w.info, role, acc, &t1, 0);
    assert_eq!(wrong.unwrap_err(), RbumError::NotFound);

    add_account_role(&w.items, &mut w.rels, &w.info, acc, role, &t1, 1).unwrap();
    let listed = list_account_role(&w.items, &w.rels, &w.info, acc, &t1).unwrap();
    assert_eq!(listed.len(), 1);
    assert_eq!(listed[0].to_item_id, role);

    // A duplicate grant conflicts.
    let dup = add_account_role(&w.items, &mut w.rels, &w.info, acc, role, &t1, 2);
    assert_eq!(dup.unwrap_err(), RbumError::Conflict);

    // Revoking hands back the session invalidation notice.
    let notice = delete_account_role(&w.items, &mut w.rels, &w.info, acc, role, &t1).unwrap();
    assert_eq!(notice.account_id, acc);
    assert!(list_account_role(&w.items, &w.rels, &w.info, acc, &t1).unwrap().is_empty());
}

#[test]
fn account_group_membership_round_trip() {
    let mut w = world();
    let t1 = ctx(5, &[w.tenant_id], &[]);
    let acc = w
        .items
        .add_item("u".to_string(), w.info.kind_account_id, w.info.domain_iam_id, 0, 0, false, &t1, 0)
        .unwrap();
    let node = w
        .items
        .add_item("g".to_string(), w.info.kind_group_node_id, w.info.domain_iam_id, 0, 0, false, &t1, 0)
        .unwrap();
    add_account_group(&w.items, &mut w.rels, &w.info, acc, node, &t1, 1).unwrap();
    let listed = list_account_group(&w.items, &w.rels, &w.info, acc, &t1).unwrap();
    assert_eq!(listed.len(), 1);
    let notice = delete_account_group(&w.items, &mut w.rels, &w.info, acc, node, &t1).unwrap();
    assert_eq!(notice.account_id, acc);
    assert!(list_account_group(&w.items, &w.rels, &w.info, acc, &t1).unwrap().is_empty());
}

#[test]
fn relation_window_is_stored() {
    let mut w = world();
    let t1 = ctx(5, &[w.tenant_id], &[]);
    let a = w
        .items
        .add_item("a".to_string(), w.info.kind_account_id, w.info.domain_iam_id, 0, 0, false, &t1, 0)
        .unwrap();
    let b = w
        .items
        .add_item("b".to_string(), w.info.kind_role_id, w.info.domain_iam_id, 0, 0, false, &t1, 0)
        .unwrap();
    w.rels
        .add_rel(&w.items, IamRelKind::IamRoleAccount, a, b, Vec::new(), Some(100), None, &t1, 7)
        .unwrap();
    let env = w.rels.rels[0].env.unwrap();
    assert_eq!(env.start, 100);
    assert_eq!(env.end, u64::MAX);
    assert_eq!(w.rels.find_to_ids_of_from(IamRelKind::IamRoleAccount, a, &t1), vec![b]);
    // The window gates when the edge counts as active.
    assert!(!w.rels.rels[0].is_active(99));
    assert!(w.rels.rels[0].is_active(100));
    assert!(w.rels.rels[0].is_active(u64::MAX));
}
