//! Application-console account wiring: granting roles and group
//! memberships to accounts, listing them, and revoking them.  Revoking or
//! granting access invalidates any cached session tokens of the account —
//! the one outward effect of the core, handed back to the caller as a
//! notice for the session-cache collaborator.

use vstd::prelude::*;

use crate::item::ItemStore;
use crate::paging::spec_page_window;
use crate::rel::IamRelKind;
use crate::rel::IamRelServ;
use crate::rel::RbumRel;
use crate::rel::RbumRelV;
use crate::result::RbumError;
use crate::role::IamBasicInfo;
use crate::scope::RbumContext;
use crate::scope::RbumContextV;

verus! {

/// Notice to the session-cache collaborator: drop every cached token of
/// this account.
#[derive(Clone, Copy, Debug, PartialEq, Eq, Structural)]
pub struct TokenInvalidation {
    pub account_id: u64,
}

/// Is the item a visible account (respectively role, group node)?
pub open spec fn spec_is_kind(
    items: ItemStore,
    id: u64,
    kind_id: u64,
    ctx: RbumContextV,
) -> bool {
    &&& items.spec_item_visible(id, ctx, false)
    &&& items.spec_item(id).kind_id == kind_id
}

fn check_kind(items: &ItemStore, id: u64, kind_id: u64, ctx: &RbumContext) -> (r: bool)
    requires
        items.wf(),
    ensures
        r == spec_is_kind(*items, id, kind_id, ctx@),
{
    match items.get_item(id, ctx, false) {
        Err(_) => false,
        Ok(it) => it.kind_id == kind_id,
    }
}

/// Grants a role to an account.  `NotFound` when the account or the role
/// does not resolve as an item of its kind under the caller's sight;
/// `Conflict` when the grant already exists.
pub fn add_account_role(
    items: &ItemStore,
    rels: &mut IamRelServ,
    info: &IamBasicInfo,
    account_id: u64,
    role_id: u64,
    ctx: &RbumContext,
    now: u64,
) -> (r: Result<u64, RbumError>)
    requires
        items.wf(),
        old(rels).wf(),
        old(rels).next_id < u64::MAX,
    ensures
        final(rels).wf(),
        ({
            let ok_ends = spec_is_kind(*items, account_id, info.kind_account_id, ctx@)
                && spec_is_kind(*items, role_id, info.kind_role_id, ctx@);
            match r {
                Ok(id) => {
                    &&& ok_ends
                    &&& !old(rels).spec_has_edge(IamRelKind::IamAccountRole, account_id, role_id)
                    &&& id == old(rels).next_id
                    &&& final(rels).rels_v() =~~= old(rels).rels_v().push(
                        (RbumRelV {
                            id: id,
                            tag: IamRelKind::IamAccountRole,
                            from_item_id: account_id,
                            to_item_id: role_id,
                            own_paths: ctx@.own_paths,
                            attrs: Seq::<crate::rel::RbumRelAttrV>::empty(),
                            env: None,
                            deleted: false,
                            update_time: now,
                        }),
                    )
                },
                Err(e) => {
                    &&& (e == RbumError::NotFound || e == RbumError::Conflict)
                    &&& *final(rels) == *old(rels)
                    &&& (e == RbumError::NotFound <==> !ok_ends)
                    &&& (e == RbumError::Conflict <==> ok_ends && old(rels).spec_has_edge(
                        IamRelKind::IamAccountRole,
                        account_id,
                        role_id,
                    ))
                },
            }
        }),
{
    if !check_kind(items, account_id, info.kind_account_id, ctx) {
        return Err(RbumError::NotFound);
    }
    if !check_kind(items, role_id, info.kind_role_id, ctx) {
        return Err(RbumError::NotFound);
    }
    let ghost pre_rels = *rels;
    let r = rels.add_rel(
        items,
        IamRelKind::IamAccountRole,
        account_id,
        role_id,
        Vec::new(),
        None,
        None,
        ctx,
        now,
    );
    proof {
        if r is Ok {
            assert(rels.rels_v() =~~= pre_rels.rels_v().push(
                (RbumRelV {
                    id: pre_rels.next_id,
                    tag: IamRelKind::IamAccountRole,
                    from_item_id: account_id,
                    to_item_id: role_id,
                    own_paths: ctx@.own_paths,
                    attrs: Seq::<crate::rel::RbumRelAttrV>::empty(),
                    env: None,
                    deleted: false,
                    update_time: now,
                }),
            ));
        }
    }
    r
}

/// Lists the role grants of an account, newest first.  `NotFound` when
/// the account does not resolve under the caller's sight.
pub fn list_account_role(
    items: &ItemStore,
    rels: &IamRelServ,
    info: &IamBasicInfo,
    account_id: u64,
    ctx: &RbumContext,
) -> (r: Result<Vec<RbumRel>, RbumError>)
    requires
        items.wf(),
        rels.wf(),
    ensures
        match r {
            Ok(v) => {
                &&& spec_is_kind(*items, account_id, info.kind_account_id, ctx@)
                &&& v@.map_values(|x: RbumRel| x@) == rels.spec_from_rels(
                    ctx@,
                    IamRelKind::IamAccountRole,
                    account_id,
                ).reverse()
            },
            Err(e) => e == RbumError::NotFound && !spec_is_kind(
                *items,
                account_id,
                info.kind_account_id,
                ctx@,
            ),
        },
{
    if !check_kind(items, account_id, info.kind_account_id, ctx) {
        return Err(RbumError::NotFound);
    }
    let page = rels.paginate_from_rels(
        IamRelKind::IamAccountRole,
        account_id,
        1,
        u64::MAX,
        true,
        ctx,
    );
    proof {
        let src = rels.spec_from_rels(ctx@, IamRelKind::IamAccountRole, account_id).reverse();
        assert(spec_page_window(src, 1, u64::MAX) =~= src);
    }
    Ok(page.records)
}

/// Revokes a role grant from an account — a no-op when the grant is
/// absent — and tells the session cache to drop the account's tokens.
pub fn delete_account_role(
    items: &ItemStore,
    rels: &mut IamRelServ,
    info: &IamBasicInfo,
    account_id: u64,
    role_id: u64,
    ctx: &RbumContext,
) -> (r: Result<TokenInvalidation, RbumError>)
    requires
        items.wf(),
        old(rels).wf(),
    ensures
        final(rels).wf(),
        ({
            let ok_ends = spec_is_kind(*items, account_id, info.kind_account_id, ctx@)
                && spec_is_kind(*items, role_id, info.kind_role_id, ctx@);
            let edge = old(rels).spec_has_edge(IamRelKind::IamAccountRole, account_id, role_id);
            let deletable = !edge || crate::scope::spec_scope_admin(
                ctx@.own_paths,
                old(rels).spec_edge(IamRelKind::IamAccountRole, account_id, role_id).own_paths,
            );
            match r {
                Ok(t) => {
                    &&& ok_ends
                    &&& t.account_id == account_id
                    &&& (edge ==> final(rels).rels_v() =~= old(rels).rels_v().update(
                        old(rels).spec_edge_idx(IamRelKind::IamAccountRole, account_id, role_id),
                        (RbumRelV {
                            deleted: true,
                            ..old(rels).spec_edge(IamRelKind::IamAccountRole, account_id, role_id)
                        }),
                    ))
                    &&& (!edge ==> *final(rels) == *old(rels))
                    &&& !final(rels).spec_has_edge(IamRelKind::IamAccountRole, account_id, role_id)
                },
                Err(e) => {
                    &&& *final(rels) == *old(rels)
                    &&& (e == RbumError::NotFound || e == RbumError::Forbidden)
                    &&& (e == RbumError::NotFound <==> !ok_ends)
                    &&& (e == RbumError::Forbidden <==> ok_ends && !deletable)
                },
            }
        }),
{
    if !check_kind(items, account_id, info.kind_account_id, ctx) {
        return Err(RbumError::NotFound);
    }
    if !check_kind(items, role_id, info.kind_role_id, ctx) {
        return Err(RbumError::NotFound);
    }
    match rels.delete_rel(IamRelKind::IamAccountRole, account_id, role_id, ctx) {
        Ok(_) => Ok(TokenInvalidation { account_id }),
        Err(e) => Err(e),
    }
}

/// Adds an account to a group node.  `NotFound` when the account or the
/// node does not resolve as an item of its kind under the caller's
/// sight; `Conflict` when the membership already exists.
pub fn add_account_group(
    items: &ItemStore,
    rels: &mut IamRelServ,
    info: &IamBasicInfo,
    account_id: u64,
    group_node_id: u64,
    ctx: &RbumContext,
    now: u64,
) -> (r: Result<u64, RbumError>)
    requires
        items.wf(),
        old(rels).wf(),
        old(rels).next_id < u64::MAX,
    ensures
        final(rels).wf(),
        ({
            let ok_ends = spec_is_kind(*items, account_id, info.kind_account_id, ctx@)
                && spec_is_kind(*items, group_node_id, info.kind_group_node_id, ctx@);
            match r {
                Ok(id) => {
                    &&& ok_ends
                    &&& !old(rels).spec_has_edge(
                        IamRelKind::IamAccountGroup,
                        account_id,
                        group_node_id,
                    )
                    &&& id == old(rels).next_id
                    &&& final(rels).rels_v() =~~= old(rels).rels_v().push(
                        (RbumRelV {
                            id: id,
                            tag: IamRelKind::IamAccountGroup,
                            from_item_id: account_id,
                            to_item_id: group_node_id,
                            own_paths: ctx@.own_paths,
                            attrs: Seq::<crate::rel::RbumRelAttrV>::empty(),
                            env: None,
                            deleted: false,
                            update_time: now,
                        }),
                    )
                },
                Err(e) => {
                    &&& (e == RbumError::NotFound || e == RbumError::Conflict)
                    &&& *final(rels) == *old(rels)
                    &&& (e == RbumError::NotFound <==> !ok_ends)
                    &&& (e == RbumError::Conflict <==> ok_ends && old(rels).spec_has_edge(
                        IamRelKind::IamAccountGroup,
                        account_id,
                        group_node_id,
                    ))
                },
            }
        }),
{
    if !check_kind(items, account_id, info.kind_account_id, ctx) {
        return Err(RbumError::NotFound);
    }
    if !check_kind(items, group_node_id, info.kind_group_node_id, ctx) {
        return Err(RbumError::NotFound);
    }
    let ghost pre_rels = *rels;
    let r = rels.add_rel(
        items,
        IamRelKind::IamAccountGroup,
        account_id,
        group_node_id,
        Vec::new(),
        None,
        None,
        ctx,
        now,
    );
    proof {
        if r is Ok {
            assert(rels.rels_v() =~~= pre_rels.rels_v().push(
                (RbumRelV {
                    id: pre_rels.next_id,
                    tag: IamRelKind::IamAccountGroup,
                    from_item_id: account_id,
                    to_item_id: group_node_id,
                    own_paths: ctx@.own_paths,
                    attrs: Seq::<crate::rel::RbumRelAttrV>::empty(),
                    env: None,
                    deleted: false,
                    update_time: now,
                }),
            ));
        }
    }
    r
}

/// Lists the group memberships of an account, newest first.
pub fn list_account_group(
    items: &ItemStore,
    rels: &IamRelServ,
    info: &IamBasicInfo,
    account_id: u64,
    ctx: &RbumContext,
) -> (r: Result<Vec<RbumRel>, RbumError>)
    requires
        items.wf(),
        rels.wf(),
    ensures
        match r {
            Ok(v) => {
                &&& spec_is_kind(*items, account_id, info.kind_account_id, ctx@)
                &&& v@.map_values(|x: RbumRel| x@) == rels.spec_from_rels(
                    ctx@,
                    IamRelKind::IamAccountGroup,
                    account_id,
                ).reverse()
            },
            Err(e) => e == RbumError::NotFound && !spec_is_kind(
                *items,
                account_id,
                info.kind_account_id,
                ctx@,
            ),
        },
{
    if !check_kind(items, account_id, info.kind_account_id, ctx) {
        return Err(RbumError::NotFound);
    }
    let page = rels.paginate_from_rels(
        IamRelKind::IamAccountGroup,
        account_id,
        1,
        u64::MAX,
        true,
        ctx,
    );
    proof {
        let src = rels.spec_from_rels(ctx@, IamRelKind::IamAccountGroup, account_id).reverse();
        assert(spec_page_window(src, 1, u64::MAX) =~= src);
    }
    Ok(page.records)
}

/// Removes an account from a group node — a no-op when the membership is
/// absent — and tells the session cache to drop the account's tokens.
pub fn delete_account_group(
    items: &ItemStore,
    rels: &mut IamRelServ,
    info: &IamBasicInfo,
    account_id: u64,
    group_node_id: u64,
    ctx: &RbumContext,
) -> (r: Result<TokenInvalidation, RbumError>)
    requires
        items.wf(),
        old(rels).wf(),
    ensures
        final(rels).wf(),
        ({
            let ok_ends = spec_is_kind(*items, account_id, info.kind_account_id, ctx@)
                && spec_is_kind(*items, group_node_id, info.kind_group_node_id, ctx@);
            let edge = old(rels).spec_has_edge(IamRelKind::IamAccountGroup, account_id, group_node_id);
            let deletable = !edge || crate::scope::spec_scope_admin(
                ctx@.own_paths,
                old(rels).spec_edge(IamRelKind::IamAccountGroup, account_id, group_node_id).own_paths,
            );
            match r {
                Ok(t) => {
                    &&& ok_ends
                    &&& t.account_id == account_id
                    &&& (edge ==> final(rels).rels_v() =~= old(rels).rels_v().update(
                        old(rels).spec_edge_idx(IamRelKind::IamAccountGroup, account_id, group_node_id),
                        (RbumRelV {
                            deleted: true,
                            ..old(rels).spec_edge(IamRelKind::IamAccountGroup, account_id, group_node_id)
                        }),
                    ))
                    &&& (!edge ==> *final(rels) == *old(rels))
                    &&& !final(rels).spec_has_edge(IamRelKind::IamAccountGroup, account_id, group_node_id)
                },
                Err(e) => {
                    &&& *final(rels) == *old(rels)
                    &&& (e == RbumError::NotFound || e == RbumError::Forbidden)
                    &&& (e == RbumError::NotFound <==> !ok_ends)
                    &&& (e == RbumError::Forbidden <==> ok_ends && !deletable)
                },
            }
        }),
{
    if !check_kind(items, account_id, info.kind_account_id, ctx) {
        return Err(RbumError::NotFound);
    }
    if !check_kind(items, group_node_id, info.kind_group_node_id, ctx) {
        return Err(RbumError::NotFound);
    }
    match rels.delete_rel(IamRelKind::IamAccountGroup, account_id, group_node_id, ctx) {
        Ok(_) => Ok(TokenInvalidation { account_id }),
        Err(e) => Err(e),
    }
}

} // verus!
