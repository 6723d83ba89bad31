//! Tenant-console role management: role items, their tenant binding and
//! the role-to-account and role-to-resource grants, all guarded by the
//! tenant-administrator check.

use vstd::prelude::*;

use crate::item::ItemStore;
use crate::item::RbumItem;
use crate::item::RbumItemModifyReq;
use crate::item::RbumItemV;
use crate::paging::spec_page_window;
use crate::paging::Page;
use crate::rel::IamRelKind;
use crate::rel::IamRelServ;
use crate::rel::RbumRel;
use crate::rel::RbumRelV;
use crate::rel::spec_window;
use crate::result::RbumError;
use crate::scope::RbumContext;
use crate::scope::RbumContextV;

verus! {

/// The scope level a tenant-owned entity carries.
pub const RBUM_SCOPE_LEVEL_TENANT: u32 = 1;

/// Ids of the statically initialized kinds, domains and bootstrap roles
/// the IAM services are configured with.
#[derive(Clone, Copy, Debug, PartialEq, Eq, Structural)]
pub struct IamBasicInfo {
    pub kind_account_id: u64,
    pub kind_role_id: u64,
    pub kind_res_id: u64,
    pub kind_group_node_id: u64,
    pub domain_iam_id: u64,
    pub role_tenant_admin_id: u64,
}

/// Does the caller hold the tenant-administrator role?
pub open spec fn spec_is_tenant_admin(ctx: RbumContextV, info: IamBasicInfo) -> bool {
    ctx.roles.contains(info.role_tenant_admin_id)
}

/// Verifies the caller holds the tenant-administrator role; the scope
/// checks themselves stay with each store operation.
pub fn need_tenant_admin(ctx: &RbumContext, info: &IamBasicInfo) -> (r: Result<(), RbumError>)
    ensures
        match r {
            Ok(_) => spec_is_tenant_admin(ctx@, *info),
            Err(e) => e == RbumError::Forbidden && !spec_is_tenant_admin(ctx@, *info),
        },
{
    let n = ctx.roles.len();
    let mut i: usize = 0;
    while i < n
        invariant
            n == ctx.roles@.len(),
            i <= n,
            forall|k: int| 0 <= k < i ==> ctx.roles@[k] != info.role_tenant_admin_id,
        decreases n - i,
    {
        if ctx.roles[i] == info.role_tenant_admin_id {
            return Ok(());
        }
        i += 1;
    }
    proof {
        assert(!ctx@.roles.contains(info.role_tenant_admin_id));
    }
    Err(RbumError::Forbidden)
}

/// The tenant-console role service.
pub struct IamCtRoleServ;

impl IamCtRoleServ {
    /// Creates a role item at tenant scope and binds it to the caller's
    /// tenant — the first segment of the caller's path — through a
    /// tenant edge.  `Forbidden` without the administrator role;
    /// `NotFound` when the caller has no tenant, the tenant item does not
    /// resolve, or the configured kind or domain is missing; `Conflict`
    /// when a tenant edge for the fresh role id already exists.
    pub fn add_role(
        items: &mut ItemStore,
        rels: &mut IamRelServ,
        info: &IamBasicInfo,
        name: String,
        sort: u32,
        disabled: bool,
        ctx: &RbumContext,
        now: u64,
    ) -> (r: Result<u64, RbumError>)
        requires
            old(items).wf(),
            old(rels).wf(),
            old(items).next_id < u64::MAX,
            old(rels).next_id < u64::MAX,
        ensures
            final(items).wf(),
            final(rels).wf(),
            ({
                let admin = spec_is_tenant_admin(ctx@, *info);
                let has_tenant = ctx@.own_paths.len() >= 1;
                let tenant = ctx@.own_paths[0];
                let resolvable = has_tenant && old(items).spec_item_visible(tenant, ctx@, false)
                    && old(items).spec_has_kind(info.kind_role_id) && old(items).spec_has_domain(
                    info.domain_iam_id,
                );
                let fresh = old(items).next_id;
                let clash = old(rels).spec_has_edge(IamRelKind::IamRoleTenant, fresh, tenant);
                match r {
                    Ok(id) => {
                        &&& admin
                        &&& resolvable
                        &&& !clash
                        &&& id == fresh
                        &&& final(items).items_v() =~~= old(items).items_v().push(
                            (RbumItemV {
                                id: id,
                                name: name@,
                                kind_id: info.kind_role_id,
                                domain_id: info.domain_iam_id,
                                sort: sort,
                                disabled: disabled,
                                scope_level: RBUM_SCOPE_LEVEL_TENANT,
                                own_paths: ctx@.own_paths,
                                deleted: false,
                                update_time: now,
                            }),
                        )
                        &&& final(rels).rels_v() =~~= old(rels).rels_v().push(
                            (RbumRelV {
                                id: old(rels).next_id,
                                tag: IamRelKind::IamRoleTenant,
                                from_item_id: id,
                                to_item_id: tenant,
                                own_paths: ctx@.own_paths,
                                attrs: Seq::<crate::rel::RbumRelAttrV>::empty(),
                                env: None,
                                deleted: false,
                                update_time: now,
                            }),
                        )
                    },
                    Err(e) => {
                        &&& (e == RbumError::Forbidden || e == RbumError::NotFound || e == RbumError::Conflict)
                        &&& *final(items) == *old(items)
                        &&& *final(rels) == *old(rels)
                        &&& (e == RbumError::Forbidden <==> !admin)
                        &&& (e == RbumError::NotFound <==> admin && !resolvable)
                        &&& (e == RbumError::Conflict <==> admin && resolvable && clash)
                    },
                }
            }),
    {
        if let Err(e) = need_tenant_admin(ctx, info) {
            return Err(e);
        }
        if ctx.own_paths.len() < 1 {
            return Err(RbumError::NotFound);
        }
        let tenant = ctx.own_paths[0];
        if items.get_item(tenant, ctx, false).is_err() {
            return Err(RbumError::NotFound);
        }
        if !items.has_kind(info.kind_role_id) {
            return Err(RbumError::NotFound);
        }
        if !items.has_domain(info.domain_iam_id) {
            return Err(RbumError::NotFound);
        }
        if rels.find_rel_id(IamRelKind::IamRoleTenant, items.next_id, tenant).is_some() {
            return Err(RbumError::Conflict);
        }
        let ghost pre_items = *items;
        let role_id = match items.add_item(
            name,
            info.kind_role_id,
            info.domain_iam_id,
            RBUM_SCOPE_LEVEL_TENANT,
            sort,
            disabled,
            ctx,
            now,
        ) {
            Ok(id) => id,
            Err(_) => {
                proof {
                    assert(false);
                }
                return Err(RbumError::NotFound);
            },
        };
        proof {
            ItemStore::lemma_grow_preserves_item(pre_items, *items, tenant);
            assert(items.spec_item_visible(role_id, ctx@, false));
            assert(items.spec_item_visible(tenant, ctx@, false));
            assert(!rels.spec_has_edge(IamRelKind::IamRoleTenant, role_id, tenant));
        }
        let ghost pre_rels = *rels;
        match rels.add_rel(
            items,
            IamRelKind::IamRoleTenant,
            role_id,
            tenant,
            Vec::new(),
            None,
            None,
            ctx,
            now,
        ) {
            Ok(_) => {
                proof {
                    assert(rels.rels_v() =~~= pre_rels.rels_v().push(
                        (RbumRelV {
                            id: pre_rels.next_id,
                            tag: IamRelKind::IamRoleTenant,
                            from_item_id: role_id,
                            to_item_id: tenant,
                            own_paths: ctx@.own_paths,
                            attrs: Seq::<crate::rel::RbumRelAttrV>::empty(),
                            env: None,
                            deleted: false,
                            update_time: now,
                        }),
                    ));
                }
                Ok(role_id)
            },
            Err(_) => {
                proof {
                    assert(false);
                }
                Err(RbumError::Conflict)
            },
        }
    }

    /// Renames or retunes a role item.
    pub fn modify_role(
        items: &mut ItemStore,
        info: &IamBasicInfo,
        id: u64,
        name: Option<String>,
        sort: Option<u32>,
        disabled: Option<bool>,
        ctx: &RbumContext,
        now: u64,
    ) -> (r: Result<(), RbumError>)
        requires
            old(items).wf(),
        ensures
            final(items).wf(),
            match r {
                Ok(_) => {
                    &&& spec_is_tenant_admin(ctx@, *info)
                    &&& old(items).spec_item_visible(id, ctx@, false)
                    &&& final(items).items_v() =~= old(items).items_v().update(
                        old(items).spec_item_idx(id),
                        crate::item::spec_apply_item_modify(
                            old(items).spec_item(id),
                            (crate::item::RbumItemModifyReqV {
                                name: if name is Some {
                                    Some(name->0@)
                                } else {
                                    None
                                },
                                sort: sort,
                                disabled: disabled,
                                scope_level: None,
                            }),
                            now,
                        ),
                    )
                },
                Err(e) => {
                    &&& *final(items) == *old(items)
                    &&& (e == RbumError::NotFound || e == RbumError::Forbidden)
                    &&& (e == RbumError::NotFound <==> spec_is_tenant_admin(ctx@, *info) && !old(
                        items,
                    ).spec_item_visible(id, ctx@, false))
                    &&& (e == RbumError::Forbidden <==> !spec_is_tenant_admin(ctx@, *info) || (old(
                        items,
                    ).spec_item_visible(id, ctx@, false) && !crate::scope::spec_scope_admin(
                        ctx@.own_paths,
                        old(items).spec_item(id).own_paths,
                    )))
                },
            },
    {
        if let Err(e) = need_tenant_admin(ctx, info) {
            return Err(e);
        }
        let req = RbumItemModifyReq { name, sort, disabled, scope_level: None };
        items.modify_item(id, req, ctx, now)
    }

    /// Fetches a role item under the caller's sight.
    pub fn get_role(items: &ItemStore, info: &IamBasicInfo, id: u64, ctx: &RbumContext) -> (r:
        Result<RbumItem, RbumError>)
        requires
            items.wf(),
        ensures
            match r {
                Ok(it) => spec_is_tenant_admin(ctx@, *info) && items.spec_item_visible(
                    id,
                    ctx@,
                    false,
                ) && it@ == items.spec_item(id),
                Err(e) => {
                    &&& (e == RbumError::Forbidden || e == RbumError::NotFound)
                    &&& (e == RbumError::Forbidden <==> !spec_is_tenant_admin(ctx@, *info))
                    &&& (e == RbumError::NotFound <==> spec_is_tenant_admin(ctx@, *info)
                        && !items.spec_item_visible(id, ctx@, false))
                },
            },
    {
        if let Err(e) = need_tenant_admin(ctx, info) {
            return Err(e);
        }
        items.get_item(id, ctx, false)
    }

    /// Pages through the visible role items, optionally those with an
    /// exact name.
    pub fn paginate_roles(
        items: &ItemStore,
        info: &IamBasicInfo,
        q_name: Option<String>,
        page_number: u64,
        page_size: u64,
        desc: bool,
        ctx: &RbumContext,
    ) -> (r: Result<Page<RbumItem>, RbumError>)
        requires
            items.wf(),
        ensures
            ({
                let filter = (crate::item::RbumItemFilterReqV {
                    kind_id: Some(info.kind_role_id),
                    domain_id: None,
                    name: if q_name is Some {
                        Some(q_name->0@)
                    } else {
                        None
                    },
                    disabled: None,
                    with_sub_own_paths: false,
                });
                match r {
                    Ok(page) => {
                        &&& spec_is_tenant_admin(ctx@, *info)
                        &&& page.total_size == items.spec_items_filtered(ctx@, filter).len()
                        &&& page.records@.map_values(|x: RbumItem| x@) == spec_page_window(
                            if desc {
                                items.spec_items_filtered(ctx@, filter).reverse()
                            } else {
                                items.spec_items_filtered(ctx@, filter)
                            },
                            page_number,
                            page_size,
                        )
                    },
                    Err(e) => e == RbumError::Forbidden && !spec_is_tenant_admin(ctx@, *info),
                }
            }),
    {
        if let Err(e) = need_tenant_admin(ctx, info) {
            return Err(e);
        }
        let filter = crate::item::RbumItemFilterReq {
            kind_id: Some(info.kind_role_id),
            domain_id: None,
            name: q_name,
            disabled: None,
            with_sub_own_paths: false,
        };
        let page = items.paginate_items(&filter, page_number, page_size, desc, ctx);
        proof {
            assert(filter@ =~= (crate::item::RbumItemFilterReqV {
                kind_id: Some(info.kind_role_id),
                domain_id: None,
                name: if q_name is Some {
                    Some(q_name->0@)
                } else {
                    None
                },
                disabled: None,
                with_sub_own_paths: false,
            }));
        }
        Ok(page)
    }

    /// Soft-deletes a role item.
    pub fn delete_role(items: &mut ItemStore, info: &IamBasicInfo, id: u64, ctx: &RbumContext) -> (r:
        Result<u64, RbumError>)
        requires
            old(items).wf(),
        ensures
            final(items).wf(),
            match r {
                Ok(n) => {
                    &&& n == 1
                    &&& spec_is_tenant_admin(ctx@, *info)
                    &&& old(items).spec_item_visible(id, ctx@, false)
                    &&& final(items).items_v() =~= old(items).items_v().update(
                        old(items).spec_item_idx(id),
                        (RbumItemV { deleted: true, ..old(items).spec_item(id) }),
                    )
                },
                Err(e) => {
                    &&& *final(items) == *old(items)
                    &&& (e == RbumError::NotFound || e == RbumError::Forbidden)
                    &&& (e == RbumError::NotFound <==> spec_is_tenant_admin(ctx@, *info) && !old(
                        items,
                    ).spec_item_visible(id, ctx@, false))
                    &&& (e == RbumError::Forbidden <==> !spec_is_tenant_admin(ctx@, *info) || (old(
                        items,
                    ).spec_item_visible(id, ctx@, false) && !crate::scope::spec_scope_admin(
                        ctx@.own_paths,
                        old(items).spec_item(id).own_paths,
                    )))
                },
            },
    {
        if let Err(e) = need_tenant_admin(ctx, info) {
            return Err(e);
        }
        items.delete_item(id, ctx)
    }

    /// Grants a role to an account, with an optional validity window.
    pub fn add_rel_account(
        items: &ItemStore,
        rels: &mut IamRelServ,
        info: &IamBasicInfo,
        iam_role_id: u64,
        iam_account_id: u64,
        start_timestamp: Option<u64>,
        end_timestamp: Option<u64>,
        ctx: &RbumContext,
        now: u64,
    ) -> (r: Result<u64, RbumError>)
        requires
            old(rels).wf(),
            items.wf(),
            old(rels).next_id < u64::MAX,
        ensures
            final(rels).wf(),
            match r {
                Ok(id) => {
                    &&& spec_is_tenant_admin(ctx@, *info)
                    &&& id == old(rels).next_id
                    &&& final(rels).rels_v() =~= old(rels).rels_v().push(
                        (RbumRelV {
                            id: id,
                            tag: IamRelKind::IamRoleAccount,
                            from_item_id: iam_role_id,
                            to_item_id: iam_account_id,
                            own_paths: ctx@.own_paths,
                            attrs: Seq::<crate::rel::RbumRelAttrV>::empty(),
                            env: spec_window(start_timestamp, end_timestamp),
                            deleted: false,
                            update_time: now,
                        }),
                    )
                },
                Err(e) => {
                    &&& (e == RbumError::Forbidden || e == RbumError::NotFound || e == RbumError::Conflict)
                    &&& *final(rels) == *old(rels)
                    &&& (e == RbumError::Forbidden <==> !spec_is_tenant_admin(ctx@, *info))
                    &&& (e == RbumError::NotFound <==> spec_is_tenant_admin(ctx@, *info) && !(
                    items.spec_item_visible(iam_role_id, ctx@, false) && items.spec_item_visible(
                        iam_account_id,
                        ctx@,
                        false,
                    )))
                    &&& (e == RbumError::Conflict <==> spec_is_tenant_admin(ctx@, *info)
                        && items.spec_item_visible(iam_role_id, ctx@, false)
                        && items.spec_item_visible(iam_account_id, ctx@, false) && old(
                        rels,
                    ).spec_has_edge(IamRelKind::IamRoleAccount, iam_role_id, iam_account_id))
                },
            },
    {
        if let Err(e) = need_tenant_admin(ctx, info) {
            return Err(e);
        }
        let ghost pre_rels = *rels;
        let r = rels.add_rel(
            items,
            IamRelKind::IamRoleAccount,
            iam_role_id,
            iam_account_id,
            Vec::new(),
            start_timestamp,
            end_timestamp,
            ctx,
            now,
        );
        proof {
            if r is Ok {
                assert(rels.rels_v() =~~= pre_rels.rels_v().push(
                    (RbumRelV {
                        id: pre_rels.next_id,
                        tag: IamRelKind::IamRoleAccount,
                        from_item_id: iam_role_id,
                        to_item_id: iam_account_id,
                        own_paths: ctx@.own_paths,
                        attrs: Seq::<crate::rel::RbumRelAttrV>::empty(),
                        env: spec_window(start_timestamp, end_timestamp),
                        deleted: false,
                        update_time: now,
                    }),
                ));
            }
        }
        r
    }

    /// Pages through the accounts a role is granted to.
    pub fn paginate_rel_accounts(
        rels: &IamRelServ,
        iam_role_id: u64,
        page_number: u64,
        page_size: u64,
        desc: bool,
        ctx: &RbumContext,
    ) -> (r: Page<RbumRel>)
        requires
            rels.wf(),
        ensures
            r.total_size == rels.spec_from_rels(ctx@, IamRelKind::IamRoleAccount, iam_role_id).len(),
            r.records@.map_values(|x: RbumRel| x@) == spec_page_window(
                if desc {
                    rels.spec_from_rels(ctx@, IamRelKind::IamRoleAccount, iam_role_id).reverse()
                } else {
                    rels.spec_from_rels(ctx@, IamRelKind::IamRoleAccount, iam_role_id)
                },
                page_number,
                page_size,
            ),
    {
        rels.paginate_from_rels(
            IamRelKind::IamRoleAccount,
            iam_role_id,
            page_number,
            page_size,
            desc,
            ctx,
        )
    }

    /// Revokes a role grant; a no-op when the grant is absent.
    pub fn delete_rel_account(
        rels: &mut IamRelServ,
        info: &IamBasicInfo,
        iam_role_id: u64,
        iam_account_id: u64,
        ctx: &RbumContext,
    ) -> (r: Result<u64, RbumError>)
        requires
            old(rels).wf(),
        ensures
            final(rels).wf(),
            ({
                let admin = spec_is_tenant_admin(ctx@, *info);
                let edge = old(rels).spec_has_edge(
                    IamRelKind::IamRoleAccount,
                    iam_role_id,
                    iam_account_id,
                );
                let deletable = !edge || crate::scope::spec_scope_admin(
                    ctx@.own_paths,
                    old(rels).spec_edge(
                        IamRelKind::IamRoleAccount,
                        iam_role_id,
                        iam_account_id,
                    ).own_paths,
                );
                match r {
                    Ok(n) => {
                        &&& admin
                        &&& (n == 0 || n == 1)
                        &&& (n == 0 <==> !edge)
                        &&& (n == 0 ==> *final(rels) == *old(rels))
                        &&& (n == 1 ==> final(rels).rels_v() =~= old(rels).rels_v().update(
                            old(rels).spec_edge_idx(
                                IamRelKind::IamRoleAccount,
                                iam_role_id,
                                iam_account_id,
                            ),
                            (RbumRelV {
                                deleted: true,
                                ..old(rels).spec_edge(
                                    IamRelKind::IamRoleAccount,
                                    iam_role_id,
                                    iam_account_id,
                                )
                            }),
                        ) && !final(rels).spec_has_edge(
                            IamRelKind::IamRoleAccount,
                            iam_role_id,
                            iam_account_id,
                        ))
                    },
                    Err(e) => {
                        &&& *final(rels) == *old(rels)
                        &&& e == RbumError::Forbidden
                        &&& !(admin && deletable)
                    },
                }
            }),
    {
        if let Err(e) = need_tenant_admin(ctx, info) {
            return Err(e);
        }
        rels.delete_rel(IamRelKind::IamRoleAccount, iam_role_id, iam_account_id, ctx)
    }

    /// Exposes an HTTP resource through a role, with an optional validity
    /// window.
    pub fn add_rel_http_res(
        items: &ItemStore,
        rels: &mut IamRelServ,
        info: &IamBasicInfo,
        iam_role_id: u64,
        iam_http_res_id: u64,
        start_timestamp: Option<u64>,
        end_timestamp: Option<u64>,
        ctx: &RbumContext,
        now: u64,
    ) -> (r: Result<u64, RbumError>)
        requires
            old(rels).wf(),
            items.wf(),
            old(rels).next_id < u64::MAX,
        ensures
            final(rels).wf(),
            match r {
                Ok(id) => {
                    &&& spec_is_tenant_admin(ctx@, *info)
                    &&& id == old(rels).next_id
                    &&& final(rels).rels_v() =~= old(rels).rels_v().push(
                        (RbumRelV {
                            id: id,
                            tag: IamRelKind::IamRoleHttpRes,
                            from_item_id: iam_role_id,
                            to_item_id: iam_http_res_id,
                            own_paths: ctx@.own_paths,
                            attrs: Seq::<crate::rel::RbumRelAttrV>::empty(),
                            env: spec_window(start_timestamp, end_timestamp),
                            deleted: false,
                            update_time: now,
                        }),
                    )
                },
                Err(e) => {
                    &&& (e == RbumError::Forbidden || e == RbumError::NotFound || e == RbumError::Conflict)
                    &&& *final(rels) == *old(rels)
                    &&& (e == RbumError::Forbidden <==> !spec_is_tenant_admin(ctx@, *info))
                    &&& (e == RbumError::NotFound <==> spec_is_tenant_admin(ctx@, *info) && !(
                    items.spec_item_visible(iam_role_id, ctx@, false) && items.spec_item_visible(
                        iam_http_res_id,
                        ctx@,
                        false,
                    )))
                    &&& (e == RbumError::Conflict <==> spec_is_tenant_admin(ctx@, *info)
                        && items.spec_item_visible(iam_role_id, ctx@, false)
                        && items.spec_item_visible(iam_http_res_id, ctx@, false) && old(
                        rels,
                    ).spec_has_edge(IamRelKind::IamRoleHttpRes, iam_role_id, iam_http_res_id))
                },
            },
    {
        if let Err(e) = need_tenant_admin(ctx, info) {
            return Err(e);
        }
        let ghost pre_rels = *rels;
        let r = rels.add_rel(
            items,
            IamRelKind::IamRoleHttpRes,
            iam_role_id,
            iam_http_res_id,
            Vec::new(),
            start_timestamp,
            end_timestamp,
            ctx,
            now,
        );
        proof {
            if r is Ok {
                assert(rels.rels_v() =~~= pre_rels.rels_v().push(
                    (RbumRelV {
                        id: pre_rels.next_id,
                        tag: IamRelKind::IamRoleHttpRes,
                        from_item_id: iam_role_id,
                        to_item_id: iam_http_res_id,
                        own_paths: ctx@.own_paths,
                        attrs: Seq::<crate::rel::RbumRelAttrV>::empty(),
                        env: spec_window(start_timestamp, end_timestamp),
                        deleted: false,
                        update_time: now,
                    }),
                ));
            }
        }
        r
    }

    /// Pages through the HTTP resources a role exposes.
    pub fn paginate_rel_http_res(
        rels: &IamRelServ,
        iam_role_id: u64,
        page_number: u64,
        page_size: u64,
        desc: bool,
        ctx: &RbumContext,
    ) -> (r: Page<RbumRel>)
        requires
            rels.wf(),
        ensures
            r.total_size == rels.spec_from_rels(ctx@, IamRelKind::IamRoleHttpRes, iam_role_id).len(),
            r.records@.map_values(|x: RbumRel| x@) == spec_page_window(
                if desc {
                    rels.spec_from_rels(ctx@, IamRelKind::IamRoleHttpRes, iam_role_id).reverse()
                } else {
                    rels.spec_from_rels(ctx@, IamRelKind::IamRoleHttpRes, iam_role_id)
                },
                page_number,
                page_size,
            ),
    {
        rels.paginate_from_rels(
            IamRelKind::IamRoleHttpRes,
            iam_role_id,
            page_number,
            page_size,
            desc,
            ctx,
        )
    }

    /// Withdraws an HTTP resource from a role; a no-op when absent.
    pub fn delete_rel_http_res(
        rels: &mut IamRelServ,
        info: &IamBasicInfo,
        iam_role_id: u64,
        iam_http_res_id: u64,
        ctx: &RbumContext,
    ) -> (r: Result<u64, RbumError>)
        requires
            old(rels).wf(),
        ensures
            final(rels).wf(),
            ({
                let admin = spec_is_tenant_admin(ctx@, *info);
                let edge = old(rels).spec_has_edge(
                    IamRelKind::IamRoleHttpRes,
                    iam_role_id,
                    iam_http_res_id,
                );
                let deletable = !edge || crate::scope::spec_scope_admin(
                    ctx@.own_paths,
                    old(rels).spec_edge(
                        IamRelKind::IamRoleHttpRes,
                        iam_role_id,
                        iam_http_res_id,
                    ).own_paths,
                );
                match r {
                    Ok(n) => {
                        &&& admin
                        &&& (n == 0 || n == 1)
                        &&& (n == 0 <==> !edge)
                        &&& (n == 0 ==> *final(rels) == *old(rels))
                        &&& (n == 1 ==> final(rels).rels_v() =~= old(rels).rels_v().update(
                            old(rels).spec_edge_idx(
                                IamRelKind::IamRoleHttpRes,
                                iam_role_id,
                                iam_http_res_id,
                            ),
                            (RbumRelV {
                                deleted: true,
                                ..old(rels).spec_edge(
                                    IamRelKind::IamRoleHttpRes,
                                    iam_role_id,
                                    iam_http_res_id,
                                )
                            }),
                        ) && !final(rels).spec_has_edge(
                            IamRelKind::IamRoleHttpRes,
                            iam_role_id,
                            iam_http_res_id,
                        ))
                    },
                    Err(e) => {
                        &&& *final(rels) == *old(rels)
                        &&& e == RbumError::Forbidden
                        &&& !(admin && deletable)
                    },
                }
            }),
    {
        if let Err(e) = need_tenant_admin(ctx, info) {
            return Err(e);
        }
        rels.delete_rel(IamRelKind::IamRoleHttpRes, iam_role_id, iam_http_res_id, ctx)
    }
}

} // verus!
