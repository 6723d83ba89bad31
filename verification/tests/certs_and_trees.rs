use rbum_core::cert::{
    CredentialLedger, FieldRule, RbumCertAddReq, RbumCertConfAddReq, RbumCertConfModifyReq,
    RbumCertStatusKind, CERT_EXPIRE_NEVER,
};
use rbum_core::cp_cert::IamCpCertMailVCodeServ;
use rbum_core::item::ItemStore;
use rbum_core::rel::{IamRelKind, IamRelServ};
use rbum_core::result::RbumError;
use rbum_core::scope::RbumContext;
use rbum_core::set::{path_string, u64_dec_string, IamSetKind, IamSetServ, RbumSetCateLevelQueryKind};
use rbum_core::sys_code::SysCode;

fn ctx(owner: u64, paths: &[u64], roles: &[u64]) -> RbumContext {
    RbumContext { owner, own_paths: paths.to_vec(), roles: roles.to_vec() }
}

fn any_rule(min_len: usize, max_len: usize) -> FieldRule {
    FieldRule { min_len, max_len, alphanumeric_only: false }
}

fn alnum_rule(min_len: usize, max_len: usize) -> FieldRule {
    FieldRule { min_len, max_len, alphanumeric_only: true }
}

fn conf_req(code: &str, domain: u64) -> RbumCertConfAddReq {
    RbumCertConfAddReq {
        code: code.to_string(),
        name: code.to_string(),
        ext: String::new(),
        ak_rule: alnum_rule(2, 20),
        sk_rule: any_rule(8, 40),
        sk_need: true,
        sk_encrypted: false,
        sk_dynamic: false,
        repeatable: true,
        is_ak_repeatable: false,
        is_basic: false,
        expire_sec: None,
        sk_lock_cycle_sec: 0,
        sk_lock_err_times: 0,
        sk_lock_duration_sec: 0,
        coexist_num: 1,
        rel_domain_id: domain,
        rel_item_id: None,
    }
}

struct CertWorld {
    items: ItemStore,
    ledger: CredentialLedger,
    domain: u64,
    account: u64,
    t1: RbumContext,
}

fn cert_world() -> CertWorld {
    let mut items = ItemStore::new();
    let sys = ctx(1, &[], &[]);
    let domain = items.add_domain("iam".to_string(), "IAM".to_string(), 2, &sys);
    let kind = items.add_kind("account".to_string(), "Account".to_string(), 2, &sys);
    let t1 = ctx(5, &[42], &[]);
    let account = items
        .add_item("u1".to_string(), kind, domain, 0, 0, false, &t1, 0)
        .unwrap();
    CertWorld { items, ledger: CredentialLedger::new(), domain, account, t1 }
}

#[test]
fn cert_conf_rejects_unknown_domain_and_duplicate_code() {
    let mut w = cert_world();
    let mut bad = conf_req("UserPwd", 999999);
    bad.rel_domain_id = 999999;
    assert_eq!(
        w.ledger.add_cert_conf(&w.items, bad, &w.t1).unwrap_err(),
        RbumError::NotFound
    );
    w.ledger.add_cert_conf(&w.items, conf_req("UserPwd", w.domain), &w.t1).unwrap();
    assert_eq!(
        w.ledger
            .add_cert_conf(&w.items, conf_req("UserPwd", w.domain), &w.t1)
            .unwrap_err(),
        RbumError::Conflict
    );
}

#[test]
fn cert_conf_defaults_to_never_expiring() {
    let mut w = cert_world();
    let id = w.ledger.add_cert_conf(&w.items, conf_req("UserPwd", w.domain), &w.t1).unwrap();
    let conf = w.ledger.get_cert_conf(id, &w.t1).unwrap();
    assert_eq!(conf.expire_sec, CERT_EXPIRE_NEVER);
    assert_eq!(CERT_EXPIRE_NEVER, i32::MAX as u64);
}

#[test]
fn cert_conf_modify_and_guarded_delete() {
    let mut w = cert_world();
    let id = w.ledger.add_cert_conf(&w.items, conf_req("UserPwd", w.domain), &w.t1).unwrap();
    let req = RbumCertConfModifyReq {
        name: Some("renamed".to_string()),
        ak_rule: None,
        sk_rule: None,
        sk_need: None,
        sk_encrypted: None,
        repeatable: None,
        is_basic: None,
        expire_sec: Some(2),
        sk_lock_cycle_sec: None,
        sk_lock_err_times: None,
        sk_lock_duration_sec: None,
        coexist_num: None,
    };
    w.ledger.modify_cert_conf(id, req, &w.t1).unwrap();
    let conf = w.ledger.get_cert_conf(id, &w.t1).unwrap();
    assert_eq!(conf.name, "renamed");
    assert_eq!(conf.expire_sec, 2);

    // A configuration with live credentials cannot be deleted.
    w.ledger
        .add_cert(
            RbumCertAddReq {
                ak: "u1".to_string(),
                sk: Some("12345678".to_string()),
                ext: String::new(),
                status: RbumCertStatusKind::Enabled,
                conf_id: id,
                rel_item_id: w.account,
            },
            &w.t1,
            0,
        )
        .unwrap();
    assert_eq!(w.ledger.delete_cert_conf(id, &w.t1).unwrap_err(), RbumError::Conflict);
}

#[test]
fn cert_issuance_enforces_rules() {
    let mut w = cert_world();
    let id = w.ledger.add_cert_conf(&w.items, conf_req("UserPwd", w.domain), &w.t1).unwrap();
    // Access key violating the alphanumeric rule.
    let bad_ak = w.ledger.add_cert(
        RbumCertAddReq {
            ak: "bad key!".to_string(),
            sk: Some("12345678".to_string()),
            ext: String::new(),
            status: RbumCertStatusKind::Enabled,
            conf_id: id,
            rel_item_id: w.account,
        },
        &w.t1,
        0,
    );
    assert_eq!(bad_ak.unwrap_err(), RbumError::BadRequest);
    // Required secret missing.
    let no_sk = w.ledger.add_cert(
        RbumCertAddReq {
            ak: "u1".to_string(),
            sk: None,
            ext: String::new(),
            status: RbumCertStatusKind::Enabled,
            conf_id: id,
            rel_item_id: w.account,
        },
        &w.t1,
        0,
    );
    assert_eq!(no_sk.unwrap_err(), RbumError::BadRequest);
    // Secret too short for the rule.
    let short_sk = w.ledger.add_cert(
        RbumCertAddReq {
            ak: "u1".to_string(),
            sk: Some("aa".to_string()),
            ext: String::new(),
            status: RbumCertStatusKind::Enabled,
            conf_id: id,
            rel_item_id: w.account,
        },
        &w.t1,
        0,
    );
    assert_eq!(short_sk.unwrap_err(), RbumError::BadRequest);
    // Unknown configuration.
    let no_conf = w.ledger.add_cert(
        RbumCertAddReq {
            ak: "u1".to_string(),
            sk: Some("12345678".to_string()),
            ext: String::new(),
            status: RbumCertStatusKind::Enabled,
            conf_id: 98765,
            rel_item_id: w.account,
        },
        &w.t1,
        0,
    );
    assert_eq!(no_conf.unwrap_err(), RbumError::NotFound);
    // A valid credential, then a duplicate access key.
    w.ledger
        .add_cert(
            RbumCertAddReq {
                ak: "u1".to_string(),
                sk: Some("12345678".to_string()),
                ext: String::new(),
                status: RbumCertStatusKind::Enabled,
                conf_id: id,
                rel_item_id: w.account,
            },
            &w.t1,
            0,
        )
        .unwrap();
    let dup = w.ledger.add_cert(
        RbumCertAddReq {
            ak: "u1".to_string(),
            sk: Some("12345678".to_string()),
            ext: String::new(),
            status: RbumCertStatusKind::Enabled,
            conf_id: id,
            rel_item_id: w.account,
        },
        &w.t1,
        0,
    );
    assert_eq!(dup.unwrap_err(), RbumError::Conflict);
}

#[test]
fn credential_round_trip_and_wrong_secret() {
    let mut w = cert_world();
    let conf = w.ledger.add_cert_conf(&w.items, conf_req("UserPwd", w.domain), &w.t1).unwrap();
    let cert_id = w
        .ledger
        .add_cert(
            RbumCertAddReq {
                ak: "u1".to_string(),
                sk: Some("12345678".to_string()),
                ext: String::new(),
                status: RbumCertStatusKind::Enabled,
                conf_id: conf,
                rel_item_id: w.account,
            },
            &w.t1,
            0,
        )
        .unwrap();
    let scope = vec![42u64];
    let ok = w.ledger.validate(&"u1".to_string(), &"12345678".to_string(), conf, &scope, 1);
    assert_eq!(ok.unwrap(), w.account);
    let end_before = w.ledger.certs[0].end_time;
    let bad = w.ledger.validate(&"u1".to_string(), &"wrong".to_string(), conf, &scope, 2);
    assert_eq!(bad.unwrap_err(), RbumError::Unauthorized);
    // A failed validation never touches the expiry.
    assert_eq!(w.ledger.certs[0].end_time, end_before);
    assert_eq!(w.ledger.certs[0].id, cert_id);
    // An unknown access key is simply not found.
    let missing = w.ledger.validate(&"nobody".to_string(), &"12345678".to_string(), conf, &scope, 2);
    assert_eq!(missing.unwrap_err(), RbumError::NotFound);
}

#[test]
fn lockout_after_three_failures_and_automatic_release() {
    let mut w = cert_world();
    let mut req = conf_req("UserPwd", w.domain);
    req.sk_lock_err_times = 3;
    req.sk_lock_cycle_sec = 60;
    req.sk_lock_duration_sec = 100;
    let conf = w.ledger.add_cert_conf(&w.items, req, &w.t1).unwrap();
    w.ledger
        .add_cert(
            RbumCertAddReq {
                ak: "u1".to_string(),
                sk: Some("12345678".to_string()),
                ext: String::new(),
                status: RbumCertStatusKind::Enabled,
                conf_id: conf,
                rel_item_id: w.account,
            },
            &w.t1,
            0,
        )
        .unwrap();
    let scope = vec![42u64];
    let ak = "u1".to_string();
    let good = "12345678".to_string();
    let bad = "wrong".to_string();
    // Three wrong secrets inside the cycle.
    for now in [10u64, 11, 12] {
        assert_eq!(w.ledger.validate(&ak, &bad, conf, &scope, now).unwrap_err(), RbumError::Unauthorized);
    }
    // The fourth attempt fails although the secret is right: locked.
    assert_eq!(w.ledger.validate(&ak, &good, conf, &scope, 13).unwrap_err(), RbumError::Unauthorized);
    // After the lock duration from the last failure it unlocks by itself.
    assert_eq!(w.ledger.validate(&ak, &good, conf, &scope, 113).unwrap(), w.account);
    // Success clears the failure history.
    assert!(w.ledger.certs[0].failures.is_empty());
}

#[test]
fn expiry_is_enforced_at_validation_time() {
    let mut w = cert_world();
    let mut req = conf_req("UserPwd", w.domain);
    req.expire_sec = Some(2);
    let conf = w.ledger.add_cert_conf(&w.items, req, &w.t1).unwrap();
    w.ledger
        .add_cert(
            RbumCertAddReq {
                ak: "u1".to_string(),
                sk: Some("12345678".to_string()),
                ext: String::new(),
                status: RbumCertStatusKind::Enabled,
                conf_id: conf,
                rel_item_id: w.account,
            },
            &w.t1,
            0,
        )
        .unwrap();
    let scope = vec![42u64];
    let ak = "u1".to_string();
    let sk = "12345678".to_string();
    assert_eq!(w.ledger.validate(&ak, &sk, conf, &scope, 1).unwrap(), w.account);
    assert_eq!(w.ledger.validate(&ak, &sk, conf, &scope, 3).unwrap_err(), RbumError::Unauthorized);
}

#[test]
fn show_reset_and_change_secret() {
    let mut w = cert_world();
    let mut plain = conf_req("MysqlConn", w.domain);
    plain.sk_encrypted = false;
    plain.repeatable = false;
    let conf_plain = w.ledger.add_cert_conf(&w.items, plain, &w.t1).unwrap();
    let mut hidden = conf_req("UserPwd", w.domain);
    hidden.sk_encrypted = true;
    let conf_hidden = w.ledger.add_cert_conf(&w.items, hidden, &w.t1).unwrap();
    let cert_plain = w
        .ledger
        .add_cert(
            RbumCertAddReq {
                ak: "root".to_string(),
                sk: Some("12345678".to_string()),
                ext: String::new(),
                status: RbumCertStatusKind::Enabled,
                conf_id: conf_plain,
                rel_item_id: w.account,
            },
            &w.t1,
            0,
        )
        .unwrap();
    let cert_hidden = w
        .ledger
        .add_cert(
            RbumCertAddReq {
                ak: "gudaoxuri".to_string(),
                sk: Some("12345678".to_string()),
                ext: String::new(),
                status: RbumCertStatusKind::Enabled,
                conf_id: conf_hidden,
                rel_item_id: w.account,
            },
            &w.t1,
            0,
        )
        .unwrap();
    // A one-way secret is never shown; a plain one is.
    assert_eq!(w.ledger.show_sk(cert_hidden, &w.t1).unwrap_err(), RbumError::BadRequest);
    assert_eq!(w.ledger.show_sk(cert_plain, &w.t1).unwrap(), "12345678");
    assert_eq!(w.ledger.show_sk(98765, &w.t1).unwrap_err(), RbumError::NotFound);

    // Reset checks the rule, then replaces without the old secret.
    assert_eq!(
        w.ledger.reset_sk(cert_plain, &"111".to_string(), &w.t1, 5).unwrap_err(),
        RbumError::BadRequest
    );
    w.ledger.reset_sk(cert_plain, &"87654321".to_string(), &w.t1, 5).unwrap();
    assert_eq!(w.ledger.show_sk(cert_plain, &w.t1).unwrap(), "87654321");

    // Change needs the old secret, the rule, and a fresh value when the
    // configuration refuses repeats.
    assert_eq!(
        w.ledger
            .change_sk(cert_plain, &"11".to_string(), &"abcdefgh".to_string(), &w.t1, 6)
            .unwrap_err(),
        RbumError::Unauthorized
    );
    assert_eq!(
        w.ledger
            .change_sk(cert_plain, &"87654321".to_string(), &"111".to_string(), &w.t1, 6)
            .unwrap_err(),
        RbumError::BadRequest
    );
    assert_eq!(
        w.ledger
            .change_sk(cert_plain, &"87654321".to_string(), &"87654321".to_string(), &w.t1, 6)
            .unwrap_err(),
        RbumError::BadRequest
    );
    w.ledger
        .change_sk(cert_plain, &"87654321".to_string(), &"abcdefgh".to_string(), &w.t1, 6)
        .unwrap();
    assert_eq!(w.ledger.show_sk(cert_plain, &w.t1).unwrap(), "abcdefgh");
}

#[test]
fn deleting_an_item_cascades_to_its_certs() {
    let mut w = cert_world();
    let conf = w.ledger.add_cert_conf(&w.items, conf_req("UserPwd", w.domain), &w.t1).unwrap();
    w.ledger
        .add_cert(
            RbumCertAddReq {
                ak: "u1".to_string(),
                sk: Some("12345678".to_string()),
                ext: String::new(),
                status: RbumCertStatusKind::Enabled,
                conf_id: conf,
                rel_item_id: w.account,
            },
            &w.t1,
            0,
        )
        .unwrap();
    w.items.delete_item(w.account, &w.t1).unwrap();
    assert_eq!(w.ledger.delete_certs_of_item(w.account), 1);
    let scope = vec![42u64];
    let gone = w.ledger.validate(&"u1".to_string(), &"12345678".to_string(), conf, &scope, 1);
    assert_eq!(gone.unwrap_err(), RbumError::NotFound);
}

#[test]
fn mail_vcode_issue_and_login() {
    let mut w = cert_world();
    let mut req = conf_req("MailVCode", w.domain);
    req.ak_rule = FieldRule { min_len: 2, max_len: 60, alphanumeric_only: false };
    req.sk_rule = FieldRule { min_len: 4, max_len: 8, alphanumeric_only: true };
    req.sk_dynamic = true;
    let conf = w.ledger.add_cert_conf(&w.items, req, &w.t1).unwrap();
    IamCpCertMailVCodeServ::add_cert_mail_vocde(
        &mut w.ledger,
        "user@example.test".to_string(),
        "8713".to_string(),
        conf,
        w.account,
        &w.t1,
        0,
    )
    .unwrap();
    let scope = vec![42u64];
    let r = IamCpCertMailVCodeServ::login_by_mail_vocde(
        &mut w.ledger,
        &"user@example.test".to_string(),
        &"8713".to_string(),
        conf,
        &scope,
        1,
    );
    assert_eq!(r.unwrap(), w.account);
    let bad = IamCpCertMailVCodeServ::login_by_mail_vocde(
        &mut w.ledger,
        &"user@example.test".to_string(),
        &"0000".to_string(),
        conf,
        &scope,
        2,
    );
    assert_eq!(bad.unwrap_err(), RbumError::Unauthorized);
}

#[test]
fn category_tree_codes_and_subtree_query() {
    let mut serv = IamSetServ::new();
    let t1 = ctx(5, &[42], &[]);
    let (set_id, roots) = serv.init_set(IamSetKind::Res, 1, &t1).unwrap();
    let (menu_id, api_id) = roots.unwrap();
    // The reserved roots carry the zero code and its next sibling.
    assert_eq!(serv.cates[0].sys_code.render(), "0000");
    assert_eq!(serv.cates[1].sys_code.render(), "0001");

    let child = serv
        .add_set_cate(set_id, Some(menu_id), "b1".to_string(), "Dash".to_string(), String::new(), 0, 1, &t1)
        .unwrap();
    let grand = serv
        .add_set_cate(set_id, Some(child), "b2".to_string(), "Panel".to_string(), String::new(), 0, 1, &t1)
        .unwrap();
    let sibling = serv
        .add_set_cate(set_id, Some(menu_id), "b3".to_string(), "Sub2".to_string(), String::new(), 0, 1, &t1)
        .unwrap();
    let child_code = serv.cates.iter().find(|c| c.id == child).unwrap().sys_code.render();
    let grand_code = serv.cates.iter().find(|c| c.id == grand).unwrap().sys_code.render();
    let sibling_code = serv.cates.iter().find(|c| c.id == sibling).unwrap().sys_code.render();
    assert_eq!(child_code, "00000000");
    assert_eq!(grand_code, "000000000000");
    assert_eq!(sibling_code, "00000001");
    // The descendant's rendered code starts with its ancestor's.
    assert!(grand_code.starts_with(&child_code));

    // A subtree query rooted at the menu root returns the descendants.
    let menu = serv.get_menu_tree(set_id, &None, &t1);
    let ids: Vec<u64> = menu.iter().map(|c| c.id).collect();
    assert!(ids.contains(&menu_id));
    assert!(ids.contains(&child));
    assert!(ids.contains(&grand));
    assert!(!ids.contains(&api_id));
    // The API subtree holds only its own root.
    let api = serv.get_api_tree(set_id, &t1);
    assert_eq!(api.len(), 1);
    assert_eq!(api[0].id, api_id);
    // An exact query returns only the node itself.
    let root_only = serv.get_tree(
        set_id,
        &Some(vec![SysCode::root_menu()]),
        RbumSetCateLevelQueryKind::Current,
        &t1,
    );
    assert_eq!(root_only.len(), 1);
    assert_eq!(root_only[0].id, menu_id);
}

#[test]
fn duplicate_default_set_is_refused() {
    let mut serv = IamSetServ::new();
    let t1 = ctx(5, &[42], &[]);
    serv.init_set(IamSetKind::Org, 1, &t1).unwrap();
    assert_eq!(serv.init_set(IamSetKind::Org, 1, &t1).unwrap_err(), RbumError::Conflict);
    // A different kind under the same path is fine.
    serv.init_set(IamSetKind::Res, 1, &t1).unwrap();
}

#[test]
fn default_codes() {
    assert_eq!(IamSetServ::get_default_code(&IamSetKind::Org, "42"), "42:org");
    assert_eq!(IamSetServ::get_default_org_code_by_system(), ":org");
    let t1 = ctx(5, &[42, 7], &[]);
    assert_eq!(IamSetServ::get_default_org_code_by_tenant(&t1).unwrap(), "42:org");
    assert_eq!(IamSetServ::get_default_org_code_by_app(&t1).unwrap(), "42/7:org");
    let rootless = ctx(5, &[], &[]);
    assert_eq!(
        IamSetServ::get_default_org_code_by_tenant(&rootless).unwrap_err(),
        RbumError::NotFound
    );
}

#[test]
fn default_set_resolution_by_ctx() {
    let mut serv = IamSetServ::new();
    let t1 = ctx(5, &[42], &[]);
    let (set_id, _) = serv.init_set(IamSetKind::Org, 1, &t1).unwrap();
    assert_eq!(serv.get_default_set_id_by_ctx(&IamSetKind::Org, &t1).unwrap(), set_id);
    assert_eq!(
        serv.get_set_id_by_code(&"42:org".to_string(), &t1).unwrap(),
        set_id
    );
    assert_eq!(
        serv.get_set_id_by_code(&"43:org".to_string(), &t1).unwrap_err(),
        RbumError::NotFound
    );
}

#[test]
fn attachments_and_flat_listing() {
    let mut serv = IamSetServ::new();
    let mut items = ItemStore::new();
    let sys = ctx(1, &[], &[]);
    let domain = items.add_domain("iam".to_string(), "IAM".to_string(), 2, &sys);
    let kind = items.add_kind("account".to_string(), "Account".to_string(), 2, &sys);
    let t1 = ctx(5, &[42], &[]);
    let member = items.add_item("m".to_string(), kind, domain, 0, 0, false, &t1, 0).unwrap();
    let (set_id, roots) = serv.init_set(IamSetKind::Res, 1, &t1).unwrap();
    let (menu_id, _) = roots.unwrap();
    let attach = serv.add_set_item(set_id, menu_id, member, 0, &t1).unwrap();
    // Attaching twice conflicts; attaching to a missing node is not found.
    assert_eq!(
        serv.add_set_item(set_id, menu_id, member, 0, &t1).unwrap_err(),
        RbumError::Conflict
    );
    assert_eq!(serv.add_set_item(set_id, 777, member, 0, &t1).unwrap_err(), RbumError::NotFound);

    let found = serv.find_set_items(&items, Some(set_id), None, Some(member), false, &t1);
    assert_eq!(found.len(), 1);
    assert_eq!(found[0].rel_cate_id, menu_id);

    let flat = serv.find_flat_set_items(&items, set_id, member, false, &t1);
    assert_eq!(flat.len(), 1);
    assert_eq!(flat[0].0, format!("{}:0000", set_id));
    assert_eq!(flat[0].1, "Menus");

    serv.modify_set_item(attach, 9, &t1).unwrap();
    assert_eq!(serv.find_set_items(&items, Some(set_id), None, Some(member), false, &t1)[0].sort, 9);
    assert_eq!(serv.delete_set_item(attach, &t1).unwrap(), 1);
    assert!(serv.find_set_items(&items, Some(set_id), None, Some(member), false, &t1).is_empty());
}

#[test]
fn attachments_of_disabled_items_are_hidden() {
    let mut serv = IamSetServ::new();
    let mut items = ItemStore::new();
    let sys = ctx(1, &[], &[]);
    let domain = items.add_domain("iam".to_string(), "IAM".to_string(), 2, &sys);
    let kind = items.add_kind("account".to_string(), "Account".to_string(), 2, &sys);
    let t1 = ctx(5, &[42], &[]);
    let member = items.add_item("m".to_string(), kind, domain, 0, 0, false, &t1, 0).unwrap();
    let (set_id, roots) = serv.init_set(IamSetKind::Res, 1, &t1).unwrap();
    let (menu_id, _) = roots.unwrap();
    serv.add_set_item(set_id, menu_id, member, 0, &t1).unwrap();
    assert_eq!(serv.find_set_items(&items, Some(set_id), None, Some(member), false, &t1).len(), 1);
    // Disabling the item hides its attachments from listings.
    let req = rbum_core::item::RbumItemModifyReq {
        name: None,
        sort: None,
        disabled: Some(true),
        scope_level: None,
    };
    items.modify_item(member, req, &t1, 1).unwrap();
    assert!(serv.find_set_items(&items, Some(set_id), None, Some(member), false, &t1).is_empty());
    assert!(serv.get_tree_with_auth_by_account(&items, set_id, member, &t1).is_empty());
    // An attachment whose item never existed is dropped too.
    serv.add_set_item(set_id, menu_id, 424242, 0, &t1).unwrap();
    assert!(serv.find_set_items(&items, Some(set_id), None, Some(424242), false, &t1).is_empty());
}

#[test]
fn cate_renaming_keeps_its_code() {
    let mut serv = IamSetServ::new();
    let t1 = ctx(5, &[42], &[]);
    let (set_id, roots) = serv.init_set(IamSetKind::Res, 1, &t1).unwrap();
    let (menu_id, _) = roots.unwrap();
    serv.modify_set_cate(menu_id, Some("Start".to_string()), None, None, Some(4), None, &t1)
        .unwrap();
    let tree = serv.get_tree(set_id, &None, RbumSetCateLevelQueryKind::CurrentAndSub, &t1);
    let menu = tree.iter().find(|c| c.id == menu_id).unwrap();
    assert_eq!(menu.name, "Start");
    assert_eq!(menu.sort, 4);
    assert_eq!(menu.sys_code.render(), "0000");
}

#[test]
fn cate_deletion_guards() {
    let mut serv = IamSetServ::new();
    let t1 = ctx(5, &[42], &[]);
    let (set_id, roots) = serv.init_set(IamSetKind::Res, 1, &t1).unwrap();
    let (menu_id, api_id) = roots.unwrap();
    let child = serv
        .add_set_cate(set_id, Some(menu_id), "b".to_string(), "C".to_string(), String::new(), 0, 1, &t1)
        .unwrap();
    // A node with a live child cannot go.
    assert_eq!(serv.delete_set_cate(menu_id, &t1).unwrap_err(), RbumError::Conflict);
    // A node with a live attachment cannot go either.
    serv.add_set_item(set_id, api_id, 55, 0, &t1).unwrap();
    assert_eq!(serv.delete_set_cate(api_id, &t1).unwrap_err(), RbumError::Conflict);
    // A leaf goes.
    assert_eq!(serv.delete_set_cate(child, &t1).unwrap(), 1);
}

#[test]
fn auth_tree_follows_attachments() {
    let mut serv = IamSetServ::new();
    let mut items = ItemStore::new();
    let sys = ctx(1, &[], &[]);
    let domain = items.add_domain("iam".to_string(), "IAM".to_string(), 2, &sys);
    let kind = items.add_kind("account".to_string(), "Account".to_string(), 2, &sys);
    let t1 = ctx(5, &[42], &[]);
    let account = items.add_item("a".to_string(), kind, domain, 0, 0, false, &t1, 0).unwrap();
    let lonely = items.add_item("b".to_string(), kind, domain, 0, 0, false, &t1, 0).unwrap();
    let (set_id, roots) = serv.init_set(IamSetKind::Res, 1, &t1).unwrap();
    let (menu_id, api_id) = roots.unwrap();
    let child = serv
        .add_set_cate(set_id, Some(menu_id), "b".to_string(), "C".to_string(), String::new(), 0, 1, &t1)
        .unwrap();
    serv.add_set_item(set_id, menu_id, account, 0, &t1).unwrap();
    let tree = serv.get_tree_with_auth_by_account(&items, set_id, account, &t1);
    let ids: Vec<u64> = tree.iter().map(|c| c.id).collect();
    assert!(ids.contains(&menu_id));
    assert!(ids.contains(&child));
    assert!(!ids.contains(&api_id));
    // An account attached nowhere sees nothing.
    assert!(serv.get_tree_with_auth_by_account(&items, set_id, lonely, &t1).is_empty());
}

#[test]
fn menu_tree_by_roles_hides_unreachable_nodes() {
    let mut serv = IamSetServ::new();
    let mut rels = IamRelServ::new();
    let mut items = ItemStore::new();
    let sys = ctx(1, &[], &[]);
    let domain = items.add_domain("iam".to_string(), "IAM".to_string(), 2, &sys);
    let kind_res = items.add_kind("res".to_string(), "Res".to_string(), 2, &sys);
    let kind_role = items.add_kind("role".to_string(), "Role".to_string(), 2, &sys);
    let t1 = ctx(5, &[42], &[]);
    let res = items.add_item("menu-entry".to_string(), kind_res, domain, 2, 0, false, &t1, 0).unwrap();
    let role = items.add_item("viewer".to_string(), kind_role, domain, 2, 0, false, &t1, 0).unwrap();
    rels.add_rel(&items, IamRelKind::IamResRole, res, role, Vec::new(), None, None, &t1, 0).unwrap();

    let (set_id, roots) = serv.init_set(IamSetKind::Res, 1, &t1).unwrap();
    let (menu_id, _) = roots.unwrap();
    let reachable = serv
        .add_set_cate(set_id, Some(menu_id), "b".to_string(), "Seen".to_string(), String::new(), 0, 1, &t1)
        .unwrap();
    let hidden = serv
        .add_set_cate(set_id, Some(menu_id), "c".to_string(), "Hidden".to_string(), String::new(), 0, 1, &t1)
        .unwrap();
    serv.add_set_item(set_id, reachable, res, 0, &t1).unwrap();
    serv.add_set_item(set_id, hidden, 777777, 0, &t1).unwrap();

    let roles = vec![role];
    let tree = serv.get_menu_tree_by_roles(&rels, set_id, &roles, &t1);
    let ids: Vec<u64> = tree.iter().map(|c| c.id).collect();
    assert!(ids.contains(&reachable));
    assert!(!ids.contains(&hidden));
}

#[test]
fn cate_lookup_by_exact_code() {
    let mut serv = IamSetServ::new();
    let t1 = ctx(5, &[42], &[]);
    let (set_id, roots) = serv.init_set(IamSetKind::Res, 1, &t1).unwrap();
    let (menu_id, _) = roots.unwrap();
    let got = serv.get_cate_id_with_sys_code(set_id, &SysCode::root_menu(), &t1);
    assert_eq!(got, Some(menu_id));
    let missing = serv.get_cate_id_with_sys_code(set_id, &SysCode { nodes: vec![9] }, &t1);
    assert_eq!(missing, None);
}

#[test]
fn decimal_and_path_rendering() {
    assert_eq!(u64_dec_string(0), "0");
    assert_eq!(u64_dec_string(905), "905");
    assert_eq!(u64_dec_string(1234567890), "1234567890");
    assert_eq!(path_string(&vec![]), "");
    assert_eq!(path_string(&vec![1, 23, 456]), "1/23/456");
}

#[test]
fn conf_listing_returns_ids_and_tags() {
    let mut w = cert_world();
    let mut a = conf_req("UserPwd", w.domain);
    a.ext = "kernel".to_string();
    let id_a = w.ledger.add_cert_conf(&w.items, a, &w.t1).unwrap();
    let id_b = w.ledger.add_cert_conf(&w.items, conf_req("MailVCode", w.domain), &w.t1).unwrap();
    let rows = w.ledger.find_cert_conf_ids_and_ext(w.domain, &w.t1);
    assert_eq!(rows.len(), 2);
    assert_eq!(rows[0].id, id_a);
    assert_eq!(rows[0].ext, "kernel");
    assert_eq!(rows[1].id, id_b);
}

#[test]
fn menu_tree_narrows_by_classification_tags() {
    let mut serv = IamSetServ::new();
    let t1 = ctx(5, &[42], &[]);
    let (set_id, roots) = serv.init_set(IamSetKind::Res, 1, &t1).unwrap();
    let (menu_id, _) = roots.unwrap();
    let tagged = serv
        .add_set_cate(set_id, Some(menu_id), "b".to_string(), "Tagged".to_string(), "nav".to_string(), 0, 1, &t1)
        .unwrap();
    let plain = serv
        .add_set_cate(set_id, Some(menu_id), "c".to_string(), "Plain".to_string(), String::new(), 0, 1, &t1)
        .unwrap();
    let all = serv.get_menu_tree(set_id, &None, &t1);
    assert_eq!(all.len(), 3);
    let narrowed = serv.get_menu_tree(set_id, &Some(vec!["nav".to_string()]), &t1);
    let ids: Vec<u64> = narrowed.iter().map(|c| c.id).collect();
    assert!(ids.contains(&tagged));
    assert!(!ids.contains(&plain));
    assert!(!ids.contains(&menu_id));
}
