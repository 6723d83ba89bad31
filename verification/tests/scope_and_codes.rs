use rbum_core::result::{ActionKind, RbumError, StatusCodeKind};
use rbum_core::scope::{is_prefix, is_scope_admin, visible, RbumContext};
use rbum_core::sys_code::SysCode;

fn ctx(owner: u64, paths: &[u64], roles: &[u64]) -> RbumContext {
    RbumContext { owner, own_paths: paths.to_vec(), roles: roles.to_vec() }
}

#[test]
fn visibility_is_reflexive_for_creator() {
    let c = ctx(7, &[1, 2], &[]);
    let own_paths = vec![1u64, 2u64];
    assert!(visible(&c, &own_paths, 0, false));
    assert!(visible(&c, &own_paths, 1, false));
    assert!(visible(&c, &own_paths, 5, true));
}

#[test]
fn private_item_invisible_to_sibling_tenant() {
    let t1 = ctx(1, &[10], &[]);
    let t2 = ctx(2, &[20], &[]);
    let item_paths = vec![10u64];
    assert!(visible(&t1, &item_paths, 0, false));
    assert!(!visible(&t2, &item_paths, 0, false));
}

#[test]
fn wide_scope_level_reaches_the_root() {
    let t1 = ctx(1, &[10], &[]);
    let t2 = ctx(2, &[20], &[]);
    let item_paths = vec![10u64];
    assert!(visible(&t1, &item_paths, 1, false));
    assert!(visible(&t2, &item_paths, 1, false));
}

#[test]
fn ancestor_access_truncates_by_scope_level() {
    // An item created under [tenant, app] with level 1 is visible from a
    // sibling app of the same tenant, but not from another tenant.
    let sibling_app = ctx(1, &[10, 31], &[]);
    let other_tenant = ctx(2, &[20, 31], &[]);
    let item_paths = vec![10u64, 30u64];
    assert!(visible(&sibling_app, &item_paths, 1, false));
    assert!(!visible(&other_tenant, &item_paths, 1, false));
}

#[test]
fn descendant_access_needs_with_sub() {
    // A tenant console looking down at an app-scoped private item.
    let tenant = ctx(1, &[10], &[]);
    let item_paths = vec![10u64, 30u64];
    assert!(!visible(&tenant, &item_paths, 0, false));
    assert!(visible(&tenant, &item_paths, 0, true));
}

#[test]
fn scope_admin_is_the_prefix_test() {
    let tenant = ctx(1, &[10], &[]);
    let app = ctx(1, &[10, 30], &[]);
    let app_paths = vec![10u64, 30u64];
    let tenant_paths = vec![10u64];
    assert!(is_scope_admin(&tenant, &app_paths));
    assert!(is_scope_admin(&app, &app_paths));
    assert!(!is_scope_admin(&app, &tenant_paths));
}

#[test]
fn prefix_test_on_paths() {
    let a = vec![1u64, 2u64];
    let b = vec![1u64, 2u64, 3u64];
    let c = vec![1u64, 9u64];
    assert!(is_prefix(&a, &b));
    assert!(is_prefix(&a, &a));
    assert!(!is_prefix(&b, &a));
    assert!(!is_prefix(&c, &b));
}

#[test]
fn sys_code_roots_render_fixed_width() {
    let menu = SysCode::root_menu();
    let api = SysCode::root_api();
    assert_eq!(menu.render(), "0000");
    assert_eq!(api.render(), "0001");
}

#[test]
fn sys_code_child_and_sibling() {
    let root = SysCode::root_menu();
    let child = root.first_child();
    assert_eq!(child.render(), "00000000");
    let second = child.next_sibling().unwrap();
    assert_eq!(second.render(), "00000001");
    assert!(root.is_prefix_of(&child));
    assert!(root.is_prefix_of(&second));
    assert!(!child.is_prefix_of(&root));
}

#[test]
fn sys_code_rendered_prefix_matches_node_prefix() {
    let root = SysCode::root_api();
    let child = root.first_child();
    let grand = child.first_child();
    let r = root.render();
    let g = grand.render();
    assert!(g.starts_with(&r));
    assert_eq!(g.len(), 12);
}

#[test]
fn sys_code_base36_digits() {
    // 36^3 + 10 renders as "100a" in one block.
    let code = SysCode { nodes: vec![46666] };
    assert_eq!(code.render(), "100a");
    let z = SysCode { nodes: vec![1679615] };
    assert_eq!(z.render(), "zzzz");
    assert!(z.next_sibling().is_err());
}

#[test]
fn status_codes_render() {
    assert_eq!(StatusCodeKind::Success.code(), "200");
    assert_eq!(StatusCodeKind::NotFound.code(), "404");
    assert_eq!(StatusCodeKind::ConflictExists.code(), "419");
    assert_eq!(StatusCodeKind::ConflictExistFieldsAtSomeTime.code(), "429");
    assert_eq!(StatusCodeKind::ConflictExistAssociatedData.code(), "439");
    assert_eq!(ActionKind::Create.code(), "01");
    assert_eq!(ActionKind::Exists.code(), "06");
}

#[test]
fn error_kinds_map_to_status() {
    assert_eq!(RbumError::NotFound.status(), StatusCodeKind::NotFound);
    assert_eq!(RbumError::BadRequest.status(), StatusCodeKind::BadRequest);
    assert_eq!(RbumError::Conflict.status(), StatusCodeKind::ConflictExists);
}
