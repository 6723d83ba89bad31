//! Generic resource model: items classified by kinds, kinds grouped by
//! domains.  Every item carries the ownership path and scope level that
//! the visibility rule reads; every operation here applies that rule —
//! reads return `NotFound` for entities outside the caller's sight, list
//! operations silently drop them, and writes additionally demand that the
//! caller's scope is an ancestor-or-equal of the entity's.

use vstd::pervasive::VecAdditionalExecFns;
use vstd::prelude::*;

use crate::paging::lemma_filter_take_push;
use crate::paging::lemma_map_push;
use crate::paging::lemma_map_reverse;
use crate::paging::lemma_map_update;
use crate::paging::page_window;
use crate::paging::reverse_vec;
use crate::paging::spec_page_window;
use crate::paging::Page;
use crate::result::RbumError;
use crate::scope::is_scope_admin;
use crate::scope::spec_scope_admin;
use crate::scope::spec_visible;
use crate::scope::visible;
use crate::scope::RbumContext;
use crate::scope::RbumContextV;
use crate::table::lemma_ids_index_unique;
use crate::table::lemma_ids_push;
use crate::table::lemma_ids_update;
use crate::table::spec_ids_below;
use crate::table::spec_ids_unique;

verus! {

/// Copy of an ownership path.
pub fn clone_path(v: &Vec<u64>) -> (r: Vec<u64>)
    ensures
        r@ == v@,
{
    let mut out: Vec<u64> = Vec::new();
    let n = v.len();
    let mut i: usize = 0;
    while i < n
        invariant
            n == v@.len(),
            i <= n,
            out@ =~= v@.subrange(0, i as int),
        decreases n - i,
    {
        out.push(v[i]);
        proof {
            assert(out@ =~= v@.subrange(0, i + 1));
        }
        i += 1;
    }
    proof {
        assert(out@ =~= v@);
    }
    out
}

/// Subsystem owning a family of kinds; static configuration.
#[derive(Debug)]
pub struct RbumDomain {
    pub id: u64,
    pub code: String,
    pub name: String,
    pub scope_level: u32,
    pub own_paths: Vec<u64>,
    pub deleted: bool,
}

/// Mathematical image of a domain record.
#[verifier::ext_equal]
pub struct RbumDomainV {
    pub id: u64,
    pub code: Seq<char>,
    pub name: Seq<char>,
    pub scope_level: u32,
    pub own_paths: Seq<u64>,
    pub deleted: bool,
}

impl View for RbumDomain {
    type V = RbumDomainV;

    open spec fn view(&self) -> RbumDomainV {
        RbumDomainV {
            id: self.id,
            code: self.code@,
            name: self.name@,
            scope_level: self.scope_level,
            own_paths: self.own_paths@,
            deleted: self.deleted,
        }
    }
}

/// Classification of what an item represents (account, role, ...).
#[derive(Debug)]
pub struct RbumKind {
    pub id: u64,
    pub code: String,
    pub name: String,
    pub scope_level: u32,
    pub own_paths: Vec<u64>,
    pub deleted: bool,
}

/// Mathematical image of a kind record.
#[verifier::ext_equal]
pub struct RbumKindV {
    pub id: u64,
    pub code: Seq<char>,
    pub name: Seq<char>,
    pub scope_level: u32,
    pub own_paths: Seq<u64>,
    pub deleted: bool,
}

impl View for RbumKind {
    type V = RbumKindV;

    open spec fn view(&self) -> RbumKindV {
        RbumKindV {
            id: self.id,
            code: self.code@,
            name: self.name@,
            scope_level: self.scope_level,
            own_paths: self.own_paths@,
            deleted: self.deleted,
        }
    }
}

/// The generic resource row every other component attaches to.
#[derive(Debug)]
pub struct RbumItem {
    pub id: u64,
    pub name: String,
    pub kind_id: u64,
    pub domain_id: u64,
    pub sort: u32,
    pub disabled: bool,
    pub scope_level: u32,
    pub own_paths: Vec<u64>,
    pub deleted: bool,
    pub update_time: u64,
}

/// Mathematical image of an item record.
#[verifier::ext_equal]
pub struct RbumItemV {
    pub id: u64,
    pub name: Seq<char>,
    pub kind_id: u64,
    pub domain_id: u64,
    pub sort: u32,
    pub disabled: bool,
    pub scope_level: u32,
    pub own_paths: Seq<u64>,
    pub deleted: bool,
    pub update_time: u64,
}

impl View for RbumItem {
    type V = RbumItemV;

    open spec fn view(&self) -> RbumItemV {
        RbumItemV {
            id: self.id,
            name: self.name@,
            kind_id: self.kind_id,
            domain_id: self.domain_id,
            sort: self.sort,
            disabled: self.disabled,
            scope_level: self.scope_level,
            own_paths: self.own_paths@,
            deleted: self.deleted,
            update_time: self.update_time,
        }
    }
}

impl RbumItem {
    pub fn duplicate(&self) -> (r: RbumItem)
        ensures
            r@ == self@,
    {
        let r = RbumItem {
            id: self.id,
            name: self.name.clone(),
            kind_id: self.kind_id,
            domain_id: self.domain_id,
            sort: self.sort,
            disabled: self.disabled,
            scope_level: self.scope_level,
            own_paths: clone_path(&self.own_paths),
            deleted: self.deleted,
            update_time: self.update_time,
        };
        proof {
            assert(r@ =~= self@);
        }
        r
    }
}

/// Optional new values for a modify; absent fields keep their value.
pub struct RbumItemModifyReq {
    pub name: Option<String>,
    pub sort: Option<u32>,
    pub disabled: Option<bool>,
    pub scope_level: Option<u32>,
}

/// Mathematical image of a modify request.
#[verifier::ext_equal]
pub struct RbumItemModifyReqV {
    pub name: Option<Seq<char>>,
    pub sort: Option<u32>,
    pub disabled: Option<bool>,
    pub scope_level: Option<u32>,
}

impl View for RbumItemModifyReq {
    type V = RbumItemModifyReqV;

    open spec fn view(&self) -> RbumItemModifyReqV {
        RbumItemModifyReqV {
            name: match self.name {
                Some(n) => Some(n@),
                None => None,
            },
            sort: self.sort,
            disabled: self.disabled,
            scope_level: self.scope_level,
        }
    }
}

/// The record `it` becomes when `req` is applied at time `now`.
pub open spec fn spec_apply_item_modify(
    it: RbumItemV,
    req: RbumItemModifyReqV,
    now: u64,
) -> RbumItemV {
    RbumItemV {
        name: if req.name is Some {
            req.name->0
        } else {
            it.name
        },
        sort: if req.sort is Some {
            req.sort->0
        } else {
            it.sort
        },
        disabled: if req.disabled is Some {
            req.disabled->0
        } else {
            it.disabled
        },
        scope_level: if req.scope_level is Some {
            req.scope_level->0
        } else {
            it.scope_level
        },
        update_time: now,
        ..it
    }
}

/// Listing filter for items.
pub struct RbumItemFilterReq {
    /// Only items of this kind.
    pub kind_id: Option<u64>,
    /// Only items of this domain.
    pub domain_id: Option<u64>,
    /// Only items with exactly this name.
    pub name: Option<String>,
    /// Only items with this disabled flag.
    pub disabled: Option<bool>,
    /// Include the caller's whole subtree, not only ancestor scopes.
    pub with_sub_own_paths: bool,
}

/// Mathematical image of an item filter.
#[verifier::ext_equal]
pub struct RbumItemFilterReqV {
    pub kind_id: Option<u64>,
    pub domain_id: Option<u64>,
    pub name: Option<Seq<char>>,
    pub disabled: Option<bool>,
    pub with_sub_own_paths: bool,
}

impl View for RbumItemFilterReq {
    type V = RbumItemFilterReqV;

    open spec fn view(&self) -> RbumItemFilterReqV {
        RbumItemFilterReqV {
            kind_id: self.kind_id,
            domain_id: self.domain_id,
            name: match self.name {
                Some(n) => Some(n@),
                None => None,
            },
            disabled: self.disabled,
            with_sub_own_paths: self.with_sub_own_paths,
        }
    }
}

/// Does a live item pass the filter under the caller's sight?
pub open spec fn spec_item_matches(
    ctx: RbumContextV,
    filter: RbumItemFilterReqV,
    it: RbumItemV,
) -> bool {
    &&& !it.deleted
    &&& spec_visible(ctx.own_paths, it.own_paths, it.scope_level as nat, filter.with_sub_own_paths)
    &&& (filter.kind_id is Some ==> it.kind_id == filter.kind_id->0)
    &&& (filter.domain_id is Some ==> it.domain_id == filter.domain_id->0)
    &&& (filter.name is Some ==> it.name == filter.name->0)
    &&& (filter.disabled is Some ==> it.disabled == filter.disabled->0)
}

/// In-memory table of domains, kinds and items, with one id counter.
pub struct ItemStore {
    pub domains: Vec<RbumDomain>,
    pub kinds: Vec<RbumKind>,
    pub items: Vec<RbumItem>,
    pub next_id: u64,
}

impl ItemStore {
    /// The item table as a sequence of record images.
    pub open spec fn items_v(self) -> Seq<RbumItemV> {
        self.items@.map_values(|r: RbumItem| r@)
    }

    pub open spec fn kinds_v(self) -> Seq<RbumKindV> {
        self.kinds@.map_values(|r: RbumKind| r@)
    }

    pub open spec fn domains_v(self) -> Seq<RbumDomainV> {
        self.domains@.map_values(|r: RbumDomain| r@)
    }

    /// Ids are unique per table and below the counter.
    pub open spec fn wf(self) -> bool {
        &&& spec_ids_unique(self.items_v(), |r: RbumItemV| r.id)
        &&& spec_ids_below(self.items_v(), |r: RbumItemV| r.id, self.next_id)
        &&& spec_ids_unique(self.kinds_v(), |r: RbumKindV| r.id)
        &&& spec_ids_below(self.kinds_v(), |r: RbumKindV| r.id, self.next_id)
        &&& spec_ids_unique(self.domains_v(), |r: RbumDomainV| r.id)
        &&& spec_ids_below(self.domains_v(), |r: RbumDomainV| r.id, self.next_id)
    }

    pub fn new() -> (r: ItemStore)
        ensures
            r.wf(),
            r.items_v().len() == 0,
            r.kinds_v().len() == 0,
            r.domains_v().len() == 0,
            r.next_id == 1,
    {
        ItemStore { domains: Vec::new(), kinds: Vec::new(), items: Vec::new(), next_id: 1 }
    }

    pub open spec fn spec_has_item(self, id: u64) -> bool {
        exists|i: int| 0 <= i < self.items_v().len() && self.items_v()[i].id == id
    }

    pub open spec fn spec_item_idx(self, id: u64) -> int {
        choose|i: int| 0 <= i < self.items_v().len() && self.items_v()[i].id == id
    }

    /// The unique item record carrying `id`.
    pub open spec fn spec_item(self, id: u64) -> RbumItemV {
        self.items_v()[self.spec_item_idx(id)]
    }

    pub open spec fn spec_has_kind(self, id: u64) -> bool {
        exists|i: int| 0 <= i < self.kinds_v().len() && self.kinds_v()[i].id == id
    }

    pub open spec fn spec_has_domain(self, id: u64) -> bool {
        exists|i: int| 0 <= i < self.domains_v().len() && self.domains_v()[i].id == id
    }

    /// Is the item with `id` live and inside the caller's sight?
    pub open spec fn spec_item_visible(self, id: u64, ctx: RbumContextV, with_sub: bool) -> bool {
        &&& self.spec_has_item(id)
        &&& !self.spec_item(id).deleted
        &&& spec_visible(
            ctx.own_paths,
            self.spec_item(id).own_paths,
            self.spec_item(id).scope_level as nat,
            with_sub,
        )
    }

    /// Is the item present, live and not disabled?
    pub open spec fn spec_item_enabled(self, id: u64) -> bool {
        &&& self.spec_has_item(id)
        &&& !self.spec_item(id).deleted
        &&& !self.spec_item(id).disabled
    }

    /// Decides [`Self::spec_item_enabled`].
    pub fn is_item_enabled(&self, id: u64) -> (r: bool)
        requires
            self.wf(),
        ensures
            r == self.spec_item_enabled(id),
    {
        match self.find_item_idx(id) {
            None => false,
            Some(i) => {
                proof {
                    self.lemma_item_at(i as int);
                }
                !self.items[i].deleted && !self.items[i].disabled
            },
        }
    }

    /// Adding records never hides an existing item: its resolution and
    /// visibility carry over.
    pub proof fn lemma_grow_preserves_item(pre: ItemStore, post: ItemStore, id: u64)
        requires
            pre.wf(),
            post.wf(),
            pre.items_v().len() <= post.items_v().len(),
            forall|k: int|
                0 <= k < pre.items_v().len() ==> post.items_v()[k] == pre.items_v()[k],
            pre.spec_has_item(id),
        ensures
            post.spec_has_item(id),
            post.spec_item(id) == pre.spec_item(id),
    {
        let i = pre.spec_item_idx(id);
        assert(post.items_v()[i] == pre.items_v()[i]);
        post.lemma_item_at(i);
    }

    /// In a well-formed store, the record at any index is the record its
    /// id resolves to.
    pub proof fn lemma_item_at(self, i: int)
        requires
            self.wf(),
            0 <= i < self.items_v().len(),
        ensures
            self.spec_has_item(self.items_v()[i].id),
            self.spec_item_idx(self.items_v()[i].id) == i,
            self.spec_item(self.items_v()[i].id) == self.items_v()[i],
    {
        let id = self.items_v()[i].id;
        assert(self.spec_has_item(id));
        let j = self.spec_item_idx(id);
        lemma_ids_index_unique(self.items_v(), |r: RbumItemV| r.id, i, j);
    }

    fn find_item_idx(&self, id: u64) -> (r: Option<usize>)
        ensures
            match r {
                Some(i) => i < self.items_v().len() && self.items_v()[i as int].id == id,
                None => !self.spec_has_item(id),
            },
    {
        let n = self.items.len();
        let mut i: usize = 0;
        while i < n
            invariant
                n == self.items@.len(),
                i <= n,
                forall|k: int| 0 <= k < i ==> self.items_v()[k].id != id,
            decreases n - i,
        {
            if self.items[i].id == id {
                return Some(i);
            }
            i += 1;
        }
        None
    }

    fn find_kind_idx(&self, id: u64) -> (r: Option<usize>)
        ensures
            match r {
                Some(i) => i < self.kinds_v().len() && self.kinds_v()[i as int].id == id,
                None => !self.spec_has_kind(id),
            },
    {
        let n = self.kinds.len();
        let mut i: usize = 0;
        while i < n
            invariant
                n == self.kinds@.len(),
                i <= n,
                forall|k: int| 0 <= k < i ==> self.kinds_v()[k].id != id,
            decreases n - i,
        {
            if self.kinds[i].id == id {
                return Some(i);
            }
            i += 1;
        }
        None
    }

    fn find_domain_idx(&self, id: u64) -> (r: Option<usize>)
        ensures
            match r {
                Some(i) => i < self.domains_v().len() && self.domains_v()[i as int].id == id,
                None => !self.spec_has_domain(id),
            },
    {
        let n = self.domains.len();
        let mut i: usize = 0;
        while i < n
            invariant
                n == self.domains@.len(),
                i <= n,
                forall|k: int| 0 <= k < i ==> self.domains_v()[k].id != id,
            decreases n - i,
        {
            if self.domains[i].id == id {
                return Some(i);
            }
            i += 1;
        }
        None
    }

    /// Is any domain registered under this id?
    pub fn has_domain(&self, id: u64) -> (r: bool)
        ensures
            r == self.spec_has_domain(id),
    {
        self.find_domain_idx(id).is_some()
    }

    /// Is any kind registered under this id?
    pub fn has_kind(&self, id: u64) -> (r: bool)
        ensures
            r == self.spec_has_kind(id),
    {
        self.find_kind_idx(id).is_some()
    }

    /// Registers a domain under the caller's scope; static configuration,
    /// so no further checks apply.
    pub fn add_domain(
        &mut self,
        code: String,
        name: String,
        scope_level: u32,
        ctx: &RbumContext,
    ) -> (r: u64)
        requires
            old(self).wf(),
            old(self).next_id < u64::MAX,
        ensures
            final(self).wf(),
            r == old(self).next_id,
            final(self).next_id == old(self).next_id + 1,
            final(self).domains_v() =~= old(self).domains_v().push(
                (RbumDomainV {
                    id: r,
                    code: code@,
                    name: name@,
                    scope_level: scope_level,
                    own_paths: ctx@.own_paths,
                    deleted: false,
                }),
            ),
            final(self).items_v() == old(self).items_v(),
            final(self).kinds_v() == old(self).kinds_v(),
    {
        let id = self.next_id;
        self.next_id = self.next_id + 1;
        let rec = RbumDomain {
            id,
            code,
            name,
            scope_level,
            own_paths: clone_path(&ctx.own_paths),
            deleted: false,
        };
        proof {
            lemma_map_push(self.domains@, |r: RbumDomain| r@, rec);
            lemma_ids_push(
                self.domains_v(),
                |r: RbumDomainV| r.id,
                id,
                rec@,
                self.next_id,
            );
        }
        self.domains.push(rec);
        id
    }

    /// Registers a kind under the caller's scope.
    pub fn add_kind(
        &mut self,
        code: String,
        name: String,
        scope_level: u32,
        ctx: &RbumContext,
    ) -> (r: u64)
        requires
            old(self).wf(),
            old(self).next_id < u64::MAX,
        ensures
            final(self).wf(),
            r == old(self).next_id,
            final(self).next_id == old(self).next_id + 1,
            final(self).kinds_v() =~= old(self).kinds_v().push(
                (RbumKindV {
                    id: r,
                    code: code@,
                    name: name@,
                    scope_level: scope_level,
                    own_paths: ctx@.own_paths,
                    deleted: false,
                }),
            ),
            final(self).items_v() == old(self).items_v(),
            final(self).domains_v() == old(self).domains_v(),
    {
        let id = self.next_id;
        self.next_id = self.next_id + 1;
        let rec = RbumKind {
            id,
            code,
            name,
            scope_level,
            own_paths: clone_path(&ctx.own_paths),
            deleted: false,
        };
        proof {
            lemma_map_push(self.kinds@, |r: RbumKind| r@, rec);
            lemma_ids_push(
                self.kinds_v(),
                |r: RbumKindV| r.id,
                id,
                rec@,
                self.next_id,
            );
        }
        self.kinds.push(rec);
        id
    }

    /// Creates an item under the caller's scope.  Fails with `NotFound`
    /// when the named kind or domain does not exist.
    pub fn add_item(
        &mut self,
        name: String,
        kind_id: u64,
        domain_id: u64,
        scope_level: u32,
        sort: u32,
        disabled: bool,
        ctx: &RbumContext,
        now: u64,
    ) -> (r: Result<u64, RbumError>)
        requires
            old(self).wf(),
            old(self).next_id < u64::MAX,
        ensures
            final(self).wf(),
            final(self).kinds_v() == old(self).kinds_v(),
            final(self).domains_v() == old(self).domains_v(),
            match r {
                Ok(id) => {
                    &&& old(self).spec_has_kind(kind_id)
                    &&& old(self).spec_has_domain(domain_id)
                    &&& id == old(self).next_id
                    &&& final(self).next_id == old(self).next_id + 1
                    &&& final(self).items_v() =~= old(self).items_v().push(
                        (RbumItemV {
                            id: id,
                            name: name@,
                            kind_id: kind_id,
                            domain_id: domain_id,
                            sort: sort,
                            disabled: disabled,
                            scope_level: scope_level,
                            own_paths: ctx@.own_paths,
                            deleted: false,
                            update_time: now,
                        }),
                    )
                    &&& final(self).spec_item_visible(id, ctx@, false)
                },
                Err(e) => {
                    &&& e == RbumError::NotFound
                    &&& !(old(self).spec_has_kind(kind_id) && old(self).spec_has_domain(domain_id))
                    &&& *final(self) == *old(self)
                },
            },
    {
        if self.find_kind_idx(kind_id).is_none() {
            return Err(RbumError::NotFound);
        }
        if self.find_domain_idx(domain_id).is_none() {
            return Err(RbumError::NotFound);
        }
        let id = self.next_id;
        self.next_id = self.next_id + 1;
        let rec = RbumItem {
            id,
            name,
            kind_id,
            domain_id,
            sort,
            disabled,
            scope_level,
            own_paths: clone_path(&ctx.own_paths),
            deleted: false,
            update_time: now,
        };
        proof {
            lemma_map_push(self.items@, |r: RbumItem| r@, rec);
            lemma_ids_push(
                self.items_v(),
                |r: RbumItemV| r.id,
                id,
                rec@,
                self.next_id,
            );
        }
        self.items.push(rec);
        proof {
            let n = self.items_v().len() - 1;
            self.lemma_item_at(n);
            crate::scope::lemma_visible_reflexive(ctx.own_paths@, scope_level as nat, false);
        }
        Ok(id)
    }

    /// Returns the item `id` resolves to under the caller's sight, or
    /// `NotFound` — whether the id is absent, soft-deleted or merely
    /// invisible is indistinguishable to the caller.
    pub fn get_item(&self, id: u64, ctx: &RbumContext, with_sub: bool) -> (r: Result<
        RbumItem,
        RbumError,
    >)
        requires
            self.wf(),
        ensures
            match r {
                Ok(it) => self.spec_item_visible(id, ctx@, with_sub) && it@ == self.spec_item(id),
                Err(e) => e == RbumError::NotFound && !self.spec_item_visible(id, ctx@, with_sub),
            },
    {
        match self.find_item_idx(id) {
            None => Err(RbumError::NotFound),
            Some(i) => {
                proof {
                    self.lemma_item_at(i as int);
                }
                let it = &self.items[i];
                if it.deleted {
                    return Err(RbumError::NotFound);
                }
                if !visible(ctx, &it.own_paths, it.scope_level, with_sub) {
                    return Err(RbumError::NotFound);
                }
                Ok(it.duplicate())
            },
        }
    }

    /// Applies `req` to the item.  `NotFound` when the item is not
    /// visible; `Forbidden` when it is visible but the caller's scope is
    /// not an ancestor-or-equal of the item's.
    pub fn modify_item(
        &mut self,
        id: u64,
        req: RbumItemModifyReq,
        ctx: &RbumContext,
        now: u64,
    ) -> (r: Result<(), RbumError>)
        requires
            old(self).wf(),
        ensures
            final(self).wf(),
            final(self).kinds_v() == old(self).kinds_v(),
            final(self).domains_v() == old(self).domains_v(),
            final(self).next_id == old(self).next_id,
            match r {
                Ok(_) => {
                    &&& old(self).spec_item_visible(id, ctx@, false)
                    &&& spec_scope_admin(ctx@.own_paths, old(self).spec_item(id).own_paths)
                    &&& final(self).items_v() =~= old(self).items_v().update(
                        old(self).spec_item_idx(id),
                        spec_apply_item_modify(old(self).spec_item(id), req@, now),
                    )
                },
                Err(e) => {
                    &&& (e == RbumError::NotFound || e == RbumError::Forbidden)
                    &&& *final(self) == *old(self)
                    &&& (e == RbumError::NotFound <==> !old(self).spec_item_visible(id, ctx@, false))
                    &&& (e == RbumError::Forbidden <==> old(self).spec_item_visible(id, ctx@, false)
                        && !spec_scope_admin(ctx@.own_paths, old(self).spec_item(id).own_paths))
                },
            },
    {
        let i = match self.find_item_idx(id) {
            None => {
                return Err(RbumError::NotFound);
            },
            Some(i) => i,
        };
        proof {
            self.lemma_item_at(i as int);
        }
        let it = &self.items[i];
        if it.deleted {
            return Err(RbumError::NotFound);
        }
        if !visible(ctx, &it.own_paths, it.scope_level, false) {
            return Err(RbumError::NotFound);
        }
        if !is_scope_admin(ctx, &it.own_paths) {
            return Err(RbumError::Forbidden);
        }
        let updated = RbumItem {
            id: it.id,
            name: match req.name {
                Some(n) => n,
                None => it.name.clone(),
            },
            kind_id: it.kind_id,
            domain_id: it.domain_id,
            sort: match req.sort {
                Some(s) => s,
                None => it.sort,
            },
            disabled: match req.disabled {
                Some(d) => d,
                None => it.disabled,
            },
            scope_level: match req.scope_level {
                Some(l) => l,
                None => it.scope_level,
            },
            own_paths: clone_path(&it.own_paths),
            deleted: it.deleted,
            update_time: now,
        };
        proof {
            assert(updated@ =~= spec_apply_item_modify(old(self).spec_item(id), req@, now));
            lemma_map_update(self.items@, |r: RbumItem| r@, i as int, updated);
            lemma_ids_update(
                self.items_v(),
                |r: RbumItemV| r.id,
                self.next_id,
                i as int,
                updated@,
            );
        }
        self.items.set(i, updated);
        Ok(())
    }

    /// Soft-deletes the item; same sight and scope rules as modify.
    /// Returns the number of records affected.
    pub fn delete_item(&mut self, id: u64, ctx: &RbumContext) -> (r: Result<u64, RbumError>)
        requires
            old(self).wf(),
        ensures
            final(self).wf(),
            final(self).kinds_v() == old(self).kinds_v(),
            final(self).domains_v() == old(self).domains_v(),
            final(self).next_id == old(self).next_id,
            match r {
                Ok(n) => {
                    &&& n == 1
                    &&& old(self).spec_item_visible(id, ctx@, false)
                    &&& spec_scope_admin(ctx@.own_paths, old(self).spec_item(id).own_paths)
                    &&& final(self).items_v() =~= old(self).items_v().update(
                        old(self).spec_item_idx(id),
                        (RbumItemV { deleted: true, ..old(self).spec_item(id) }),
                    )
                },
                Err(e) => {
                    &&& (e == RbumError::NotFound || e == RbumError::Forbidden)
                    &&& *final(self) == *old(self)
                    &&& (e == RbumError::NotFound <==> !old(self).spec_item_visible(id, ctx@, false))
                    &&& (e == RbumError::Forbidden <==> old(self).spec_item_visible(id, ctx@, false)
                        && !spec_scope_admin(ctx@.own_paths, old(self).spec_item(id).own_paths))
                },
            },
    {
        let i = match self.find_item_idx(id) {
            None => {
                return Err(RbumError::NotFound);
            },
            Some(i) => i,
        };
        proof {
            self.lemma_item_at(i as int);
        }
        let it = &self.items[i];
        if it.deleted {
            return Err(RbumError::NotFound);
        }
        if !visible(ctx, &it.own_paths, it.scope_level, false) {
            return Err(RbumError::NotFound);
        }
        if !is_scope_admin(ctx, &it.own_paths) {
            return Err(RbumError::Forbidden);
        }
        let mut updated = it.duplicate();
        updated.deleted = true;
        proof {
            assert(updated@ =~= (RbumItemV { deleted: true, ..old(self).spec_item(id) }));
            lemma_map_update(self.items@, |r: RbumItem| r@, i as int, updated);
            lemma_ids_update(
                self.items_v(),
                |r: RbumItemV| r.id,
                self.next_id,
                i as int,
                updated@,
            );
        }
        self.items.set(i, updated);
        Ok(1)
    }

    /// The listing the filter selects, in insertion order.
    pub open spec fn spec_items_filtered(
        self,
        ctx: RbumContextV,
        filter: RbumItemFilterReqV,
    ) -> Seq<RbumItemV> {
        self.items_v().filter(|it: RbumItemV| spec_item_matches(ctx, filter, it))
    }

    /// Lists the visible items passing the filter — invisible rows are
    /// dropped without error — newest first when `desc` is set, and cuts
    /// out the requested 1-based page.
    pub fn paginate_items(
        &self,
        filter: &RbumItemFilterReq,
        page_number: u64,
        page_size: u64,
        desc: bool,
        ctx: &RbumContext,
    ) -> (r: Page<RbumItem>)
        requires
            self.wf(),
        ensures
            r.total_size == self.spec_items_filtered(ctx@, filter@).len(),
            r.records@.map_values(|x: RbumItem| x@) == spec_page_window(
                if desc {
                    self.spec_items_filtered(ctx@, filter@).reverse()
                } else {
                    self.spec_items_filtered(ctx@, filter@)
                },
                page_number,
                page_size,
            ),
            r.page_number == page_number,
            r.page_size == page_size,
    {
        let ghost pred = |it: RbumItemV| spec_item_matches(ctx@, filter@, it);
        let mut acc: Vec<RbumItem> = Vec::new();
        let n = self.items.len();
        let mut i: usize = 0;
        while i < n
            invariant
                n == self.items@.len(),
                i <= n,
                acc@.map_values(|x: RbumItem| x@) =~= self.items_v().subrange(0, i as int).filter(
                    pred,
                ),
                pred == (|it: RbumItemV| spec_item_matches(ctx@, filter@, it)),
            decreases n - i,
        {
            let it = &self.items[i];
            let mut keep = !it.deleted && visible(
                ctx,
                &it.own_paths,
                it.scope_level,
                filter.with_sub_own_paths,
            );
            if keep {
                keep = match &filter.kind_id {
                    Some(k) => it.kind_id == *k,
                    None => true,
                };
            }
            if keep {
                keep = match &filter.domain_id {
                    Some(d) => it.domain_id == *d,
                    None => true,
                };
            }
            if keep {
                keep = match &filter.name {
                    Some(nm) => it.name == *nm,
                    None => true,
                };
            }
            if keep {
                keep = match &filter.disabled {
                    Some(d) => it.disabled == *d,
                    None => true,
                };
            }
            proof {
                assert(keep == pred(self.items_v()[i as int]));
                lemma_filter_take_push(self.items_v(), pred, i as int);
            }
            if keep {
                let dup = self.items[i].duplicate();
                proof {
                    lemma_map_push(acc@, |x: RbumItem| x@, dup);
                }
                acc.push(dup);
            }
            i += 1;
        }
        proof {
            assert(self.items_v().subrange(0, n as int) =~= self.items_v());
            self.items_v().lemma_filter_len(pred);
        }
        let ghost f = |x: RbumItem| x@;
        let ghost filtered = self.spec_items_filtered(ctx@, filter@);
        let ghost source = if desc {
            filtered.reverse()
        } else {
            filtered
        };
        let total: u64 = acc.len() as u64;
        let ghost accv = acc@;
        let ordered = if desc {
            reverse_vec(acc)
        } else {
            acc
        };
        proof {
            if desc {
                lemma_map_reverse(accv, f);
            }
            assert(ordered@.map_values(f) =~= source);
        }
        let page = page_window(ordered, page_number, page_size);
        proof {
            assert(page.records@.map_values(f) =~= spec_page_window(source, page_number, page_size));
        }
        Page {
            page_number: page.page_number,
            page_size: page.page_size,
            total_size: total,
            records: page.records,
        }
    }
}

} // verus!
